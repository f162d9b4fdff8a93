use veloren_logic::beam::FrontendSpecifier;
use veloren_logic::coastal_house::{Aabr, CoastalHouse};
use veloren_logic::controls::{BindingMode, GamepadBindingOption, InputList, State};
use veloren_logic::forest::{ForestKind, StructureBlock};
use veloren_logic::text::{chars_of, is_whitespace, string_of};

#[test]
fn whitespace_matches_std() {
    for u in 0u32..=0x10FFFF {
        if let Some(c) = char::from_u32(u) {
            assert_eq!(is_whitespace(c), c.is_whitespace(), "{:x}", u);
        }
    }
}

#[test]
fn char_conversions() {
    let v = chars_of("añ€𝄞");
    assert_eq!(v, vec!['a', 'ñ', '€', '𝄞']);
    assert_eq!(string_of(&v), "añ€𝄞");
}

#[test]
fn controls_state() {
    let mut s = State::new();
    assert_eq!(s.binding_mode, BindingMode::Keyboard);
    assert!(s.reset_allowed());
    assert!(s.bindings_editable());
    s.toggle_binding_mode();
    assert_eq!(s.binding_mode, BindingMode::Gamepad);
    assert!(!s.reset_allowed());
    assert_eq!(s.listed_inputs(), InputList::GameInputs);
    s.select_gamepad_option(2);
    assert_eq!(s.gamepad_binding_option, GamepadBindingOption::MenuButtons);
    assert_eq!(s.listed_inputs(), InputList::MenuInputs);
    s.select_gamepad_option(7);
    assert_eq!(s.gamepad_binding_option, GamepadBindingOption::GameButtons);
    assert_eq!(GamepadBindingOption::GameLayers.index(), 1);
    assert_eq!(GamepadBindingOption::from_index(1), GamepadBindingOption::GameLayers);
    s.toggle_binding_mode();
    assert_eq!(s.binding_mode, BindingMode::Keyboard);
}

#[test]
fn leaves() {
    assert_eq!(ForestKind::Palm.leaf_block(), StructureBlock::PalmLeavesOuter);
    assert_eq!(ForestKind::Redwood.leaf_block(), StructureBlock::PineLeaves);
    assert_eq!(ForestKind::Giant.leaf_block(), StructureBlock::TemperateLeaves);
    assert_eq!(ForestKind::AutumnTree.leaf_block(), StructureBlock::AutumnLeaves);
}

#[test]
fn beam_specifiers_by_name() {
    assert_eq!(FrontendSpecifier::from_name("Flamethrower"), Some(FrontendSpecifier::Flamethrower));
    assert_eq!(FrontendSpecifier::from_name("FlameWallPillar"), Some(FrontendSpecifier::FlameWallPillar));
    assert_eq!(FrontendSpecifier::from_name("flamethrower"), None);
    assert_eq!(FrontendSpecifier::from_name(""), None);
}

#[test]
fn coastal_house_altitude() {
    let b = Aabr { min: (0, 0), max: (10, 10) };
    let h = CoastalHouse::generate((3, 4), b, Some(100), || -> i32 { panic!("land read") });
    assert_eq!(h.alt, 102);
    assert_eq!(h.door_tile, (3, 4));
    assert_eq!(h.bounds, b);
    assert_eq!(CoastalHouse::generate((3, 4), b, None, || 7).alt, 9);
}
