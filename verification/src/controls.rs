//! The state of the controls settings page: keyboard or gamepad bindings, and
//! which gamepad bindings are listed.
use vstd::prelude::*;

verus! {

/// Which bindings the page shows.
#[derive(Clone, Copy, Debug, PartialEq, Eq, Structural)]
pub enum BindingMode {
    Keyboard,
    Gamepad,
}

/// Which gamepad bindings the page lists.
#[derive(Clone, Copy, Debug, PartialEq, Eq, Structural)]
pub enum GamepadBindingOption {
    GameButtons,
    GameLayers,
    MenuButtons,
}

/// The inputs whose bindings are listed.
#[derive(Clone, Copy, Debug, PartialEq, Eq, Structural)]
pub enum InputList {
    /// In-game actions.
    GameInputs,
    /// Menu navigation.
    MenuInputs,
}

/// What the controls page asks of the game in a frame.
#[derive(Clone, Copy, Debug)]
pub enum ControlsEvent<I> {
    /// Start remapping the binding of this input.
    ChangeBinding(I),
    /// Remove the binding of this input.
    RemoveBinding(I),
    /// Reset the key bindings to their defaults.
    ResetKeyBindings,
}

/// The clicks on the binding button of one listed input in a frame.
#[derive(Clone, Copy, Debug)]
pub struct BindingClicks<I> {
    pub input: I,
    /// Left clicks.
    pub left: usize,
    /// Right clicks.
    pub right: usize,
}

/// The binding requests that the clicks `clicks` give on the keyboard page: for
/// each listed input in turn, one change per left click, then one removal per
/// right click.
pub open spec fn click_events<I>(clicks: Seq<BindingClicks<I>>) -> Seq<ControlsEvent<I>>
    decreases clicks.len(),
{
    if clicks.len() == 0 {
        Seq::empty()
    } else {
        let c = clicks.last();
        click_events(clicks.drop_last()) + Seq::new(
            c.left as nat,
            |j: int| ControlsEvent::ChangeBinding(c.input),
        ) + Seq::new(c.right as nat, |j: int| ControlsEvent::RemoveBinding(c.input))
    }
}

impl BindingMode {
    /// The other mode.
    pub open spec fn spec_toggled(self) -> BindingMode {
        match self {
            BindingMode::Keyboard => BindingMode::Gamepad,
            BindingMode::Gamepad => BindingMode::Keyboard,
        }
    }
}

/// Position of a gamepad option in the drop-down list.
pub open spec fn option_index(o: GamepadBindingOption) -> usize {
    match o {
        GamepadBindingOption::GameButtons => 0usize,
        GamepadBindingOption::GameLayers => 1usize,
        GamepadBindingOption::MenuButtons => 2usize,
    }
}

/// The gamepad option a click on a drop-down position selects.
pub open spec fn option_at(clicked: usize) -> GamepadBindingOption {
    if clicked == 1 {
        GamepadBindingOption::GameLayers
    } else if clicked == 2 {
        GamepadBindingOption::MenuButtons
    } else {
        GamepadBindingOption::GameButtons
    }
}

impl GamepadBindingOption {
    /// Position of the option in the drop-down list.
    pub fn index(self) -> (r: usize)
        ensures
            r == option_index(self),
    {
        match self {
            GamepadBindingOption::GameButtons => 0,
            GamepadBindingOption::GameLayers => 1,
            GamepadBindingOption::MenuButtons => 2,
        }
    }

    /// The option at a position of the drop-down list; any other position
    /// selects the game buttons.
    pub fn from_index(clicked: usize) -> (r: GamepadBindingOption)
        ensures
            r == option_at(clicked),
    {
        match clicked {
            0 => GamepadBindingOption::GameButtons,
            1 => GamepadBindingOption::GameLayers,
            2 => GamepadBindingOption::MenuButtons,
            _ => GamepadBindingOption::GameButtons,
        }
    }
}

/// The state of the controls page.
#[derive(Clone, Copy, Debug, PartialEq, Eq, Structural)]
pub struct State {
    pub binding_mode: BindingMode,
    pub gamepad_binding_option: GamepadBindingOption,
}

impl State {
    /// The page opens on the keyboard bindings, with the game buttons selected
    /// for the gamepad.
    pub fn new() -> (r: State)
        ensures
            r == (State {
                binding_mode: BindingMode::Keyboard,
                gamepad_binding_option: GamepadBindingOption::GameButtons,
            }),
    {
        State {
            binding_mode: BindingMode::Keyboard,
            gamepad_binding_option: GamepadBindingOption::GameButtons,
        }
    }

    /// The mode button switches between keyboard and gamepad bindings.
    pub fn toggle_binding_mode(&mut self)
        ensures
            final(self).binding_mode == old(self).binding_mode.spec_toggled(),
            final(self).gamepad_binding_option == old(self).gamepad_binding_option,
    {
        self.binding_mode = match self.binding_mode {
            BindingMode::Keyboard => BindingMode::Gamepad,
            BindingMode::Gamepad => BindingMode::Keyboard,
        };
    }

    /// An entry of the gamepad drop-down list was clicked.
    pub fn select_gamepad_option(&mut self, clicked: usize)
        ensures
            final(self).binding_mode == old(self).binding_mode,
            final(self).gamepad_binding_option == option_at(clicked),
    {
        self.gamepad_binding_option = GamepadBindingOption::from_index(clicked);
    }

    /// A frame of the controls page.  `clicks` are the clicks on the buttons of
    /// the listed inputs, in the order they are listed; `reset_clicked` whether
    /// the reset button (shown below a non-empty list) was clicked;
    /// `dropdown_clicked` the entry clicked in the gamepad drop-down list, if
    /// any; `toggle_clicked` whether the mode button was clicked.  On the
    /// keyboard page every left click asks to change the input's binding and
    /// every right click to remove it; the reset button resets the key bindings
    /// except on the gamepad page.  The drop-down list (gamepad page only)
    /// selects the gamepad option, and the mode button then switches the mode.
    pub fn update<I: Copy>(
        &mut self,
        clicks: &[BindingClicks<I>],
        reset_clicked: bool,
        dropdown_clicked: Option<usize>,
        toggle_clicked: bool,
    ) -> (events: Vec<ControlsEvent<I>>)
        ensures
            events@ == (if old(self).binding_mode == BindingMode::Keyboard {
                click_events(clicks@)
            } else {
                Seq::empty()
            }) + (if clicks@.len() > 0 && reset_clicked && old(self).binding_mode
                != BindingMode::Gamepad {
                seq![ControlsEvent::ResetKeyBindings]
            } else {
                Seq::empty()
            }),
            final(self).gamepad_binding_option == (if old(self).binding_mode
                == BindingMode::Gamepad && dropdown_clicked is Some {
                option_at(dropdown_clicked->0)
            } else {
                old(self).gamepad_binding_option
            }),
            final(self).binding_mode == (if toggle_clicked {
                old(self).binding_mode.spec_toggled()
            } else {
                old(self).binding_mode
            }),
    {
        let mut events: Vec<ControlsEvent<I>> = Vec::new();
        if self.bindings_editable() {
            let mut i: usize = 0;
            while i < clicks.len()
                invariant
                    i <= clicks@.len(),
                    events@ == click_events(clicks@.subrange(0, i as int)),
                decreases clicks.len() - i,
            {
                let c = clicks[i];
                let ghost base = events@;
                let mut k: usize = 0;
                while k < c.left
                    invariant
                        k <= c.left,
                        events@ == base + Seq::new(
                            k as nat,
                            |j: int| ControlsEvent::ChangeBinding(c.input),
                        ),
                    decreases c.left - k,
                {
                    events.push(ControlsEvent::ChangeBinding(c.input));
                    k = k + 1;
                    assert(events@ =~= base + Seq::new(
                        k as nat,
                        |j: int| ControlsEvent::ChangeBinding(c.input),
                    ));
                }
                let ghost mid = events@;
                let mut k: usize = 0;
                while k < c.right
                    invariant
                        k <= c.right,
                        events@ == mid + Seq::new(
                            k as nat,
                            |j: int| ControlsEvent::RemoveBinding(c.input),
                        ),
                    decreases c.right - k,
                {
                    events.push(ControlsEvent::RemoveBinding(c.input));
                    k = k + 1;
                    assert(events@ =~= mid + Seq::new(
                        k as nat,
                        |j: int| ControlsEvent::RemoveBinding(c.input),
                    ));
                }
                proof {
                    assert(clicks@.subrange(0, i + 1).drop_last() =~= clicks@.subrange(0, i as int));
                    assert(clicks@.subrange(0, i + 1).last() == c);
                }
                i = i + 1;
            }
            proof {
                assert(clicks@.subrange(0, clicks@.len() as int) =~= clicks@);
            }
        }
        let ghost listed = events@;
        if clicks.len() > 0 && reset_clicked && self.reset_allowed() {
            events.push(ControlsEvent::ResetKeyBindings);
        }
        proof {
            assert(events@ =~= listed + (if clicks@.len() > 0 && reset_clicked && old(self).binding_mode
                != BindingMode::Gamepad {
                seq![ControlsEvent::ResetKeyBindings]
            } else {
                Seq::empty()
            }));
            assert(old(self).binding_mode != BindingMode::Keyboard ==> listed =~= Seq::<ControlsEvent<I>>::empty());
        }
        match (self.binding_mode, dropdown_clicked) {
            (BindingMode::Gamepad, Some(clicked)) => self.select_gamepad_option(clicked),
            _ => {},
        }
        if toggle_clicked {
            self.toggle_binding_mode();
        }
        events
    }

    /// The inputs listed: menu inputs for the gamepad menu buttons, game
    /// inputs otherwise.
    pub fn listed_inputs(&self) -> (r: InputList)
        ensures
            r == if self.binding_mode == BindingMode::Gamepad && self.gamepad_binding_option
                == GamepadBindingOption::MenuButtons {
                InputList::MenuInputs
            } else {
                InputList::GameInputs
            },
    {
        match (self.binding_mode, self.gamepad_binding_option) {
            (BindingMode::Gamepad, GamepadBindingOption::MenuButtons) => InputList::MenuInputs,
            _ => InputList::GameInputs,
        }
    }

    /// Bindings are changed or removed by clicking only on the keyboard page.
    pub fn bindings_editable(&self) -> (r: bool)
        ensures
            r == (self.binding_mode == BindingMode::Keyboard),
    {
        matches!(self.binding_mode, BindingMode::Keyboard)
    }

    /// Whether a click on the reset button resets the key bindings: not on the
    /// gamepad page.
    pub fn reset_allowed(&self) -> (r: bool)
        ensures
            r == (self.binding_mode != BindingMode::Gamepad),
    {
        !matches!(self.binding_mode, BindingMode::Gamepad)
    }
}

} // verus!
