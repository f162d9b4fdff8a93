//! The look of a beam attack.
use vstd::prelude::*;
use crate::text::{chars_of, eq_str};

verus! {

/// How a beam is drawn.
#[derive(Clone, Copy, Debug, PartialEq, Eq, Structural)]
pub enum FrontendSpecifier {
    Flamethrower,
    LifestealBeam,
    Cultist,
    Gravewarden,
    Bubbles,
    Steam,
    Frost,
    WebStrand,
    Poison,
    Ink,
    Lightning,
    PhoenixLaser,
    FireGigasOverheat,
    FirePillar,
    FlameWallPillar,
}

/// The specifier named exactly `name` (the variant's name), if any.
pub open spec fn spec_from_name(name: Seq<char>) -> Option<FrontendSpecifier> {
    if name == "Flamethrower"@ {
        Some(FrontendSpecifier::Flamethrower)
    } else if name == "LifestealBeam"@ {
        Some(FrontendSpecifier::LifestealBeam)
    } else if name == "Cultist"@ {
        Some(FrontendSpecifier::Cultist)
    } else if name == "Gravewarden"@ {
        Some(FrontendSpecifier::Gravewarden)
    } else if name == "Bubbles"@ {
        Some(FrontendSpecifier::Bubbles)
    } else if name == "Steam"@ {
        Some(FrontendSpecifier::Steam)
    } else if name == "Frost"@ {
        Some(FrontendSpecifier::Frost)
    } else if name == "WebStrand"@ {
        Some(FrontendSpecifier::WebStrand)
    } else if name == "Poison"@ {
        Some(FrontendSpecifier::Poison)
    } else if name == "Ink"@ {
        Some(FrontendSpecifier::Ink)
    } else if name == "Lightning"@ {
        Some(FrontendSpecifier::Lightning)
    } else if name == "PhoenixLaser"@ {
        Some(FrontendSpecifier::PhoenixLaser)
    } else if name == "FireGigasOverheat"@ {
        Some(FrontendSpecifier::FireGigasOverheat)
    } else if name == "FirePillar"@ {
        Some(FrontendSpecifier::FirePillar)
    } else if name == "FlameWallPillar"@ {
        Some(FrontendSpecifier::FlameWallPillar)
    } else {
        None
    }
}

impl FrontendSpecifier {
    /// The specifier named exactly `name`, as written in asset files.
    pub fn from_name(name: &str) -> (r: Option<FrontendSpecifier>)
        ensures
            r == spec_from_name(name@),
    {
        let n = chars_of(name);
        if eq_str(&n, "Flamethrower") {
            Some(FrontendSpecifier::Flamethrower)
        } else if eq_str(&n, "LifestealBeam") {
            Some(FrontendSpecifier::LifestealBeam)
        } else if eq_str(&n, "Cultist") {
            Some(FrontendSpecifier::Cultist)
        } else if eq_str(&n, "Gravewarden") {
            Some(FrontendSpecifier::Gravewarden)
        } else if eq_str(&n, "Bubbles") {
            Some(FrontendSpecifier::Bubbles)
        } else if eq_str(&n, "Steam") {
            Some(FrontendSpecifier::Steam)
        } else if eq_str(&n, "Frost") {
            Some(FrontendSpecifier::Frost)
        } else if eq_str(&n, "WebStrand") {
            Some(FrontendSpecifier::WebStrand)
        } else if eq_str(&n, "Poison") {
            Some(FrontendSpecifier::Poison)
        } else if eq_str(&n, "Ink") {
            Some(FrontendSpecifier::Ink)
        } else if eq_str(&n, "Lightning") {
            Some(FrontendSpecifier::Lightning)
        } else if eq_str(&n, "PhoenixLaser") {
            Some(FrontendSpecifier::PhoenixLaser)
        } else if eq_str(&n, "FireGigasOverheat") {
            Some(FrontendSpecifier::FireGigasOverheat)
        } else if eq_str(&n, "FirePillar") {
            Some(FrontendSpecifier::FirePillar)
        } else if eq_str(&n, "FlameWallPillar") {
            Some(FrontendSpecifier::FlameWallPillar)
        } else {
            None
        }
    }
}

} // verus!
