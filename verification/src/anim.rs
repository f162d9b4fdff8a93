//! Character animations.
//!
//! Only the animation types live here: the poses they compute are floating
//! point arithmetic on skeletons, which this library does not hold.
use vstd::prelude::*;

verus! {

/// The leap-melee attack animation of large bipeds.
#[derive(Clone, Copy, Debug)]
pub struct LeapAnimation;

/// The swimming animation of characters.
#[derive(Clone, Copy, Debug)]
pub struct SwimAnimation;

} // verus!
