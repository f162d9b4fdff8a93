//! Placement of a coastal house on a site.
//!
//! The site's tile grid (where a tile lies in the world) and the land's
//! altitude belong to the world generator, which hands them in: `bounds` are
//! the world corners of the house's tile rectangle, and the ground altitude in
//! front of the door is read through a closure, only when no altitude is given.
use vstd::prelude::*;

verus! {

/// An axis-aligned rectangle given by its least and greatest corners.
#[derive(Clone, Copy, Debug, PartialEq, Eq)]
pub struct Aabr {
    pub min: (i32, i32),
    pub max: (i32, i32),
}

/// Represents house data generated by `generate`.
#[derive(Clone, Copy, Debug, PartialEq, Eq)]
pub struct CoastalHouse {
    /// Tile position of the door tile.
    pub door_tile: (i32, i32),
    /// Axis-aligned bounding region of the house, in world coordinates.
    pub bounds: Aabr,
    /// Approximate altitude of the door tile.
    pub alt: i32,
}

impl CoastalHouse {
    /// A house whose door is on tile `door_tile` and whose tiles span the world
    /// rectangle `bounds`.  Its altitude is 2 above `alt`, or, without it, 2
    /// above the ground altitude in front of the door, which `ground_alt` reads
    /// (and is called only then).
    pub fn generate<F: FnOnce() -> i32>(
        door_tile: (i32, i32),
        bounds: Aabr,
        alt: Option<i32>,
        ground_alt: F,
    ) -> (r: Self)
        requires
            alt matches Some(a) ==> a <= i32::MAX - 2,
            alt is None ==> call_requires(ground_alt, ()),
            alt is None ==> forall|g: i32| #[trigger] call_ensures(ground_alt, (), g) ==> g <= i32::MAX - 2,
        ensures
            r.door_tile == door_tile,
            r.bounds == bounds,
            alt matches Some(a) ==> r.alt == a + 2,
            alt is None ==> exists|g: i32| #[trigger] call_ensures(ground_alt, (), g) && r.alt == g + 2,
    {
        let base = match alt {
            Some(a) => a,
            None => ground_alt(),
        };
        CoastalHouse { door_tile, bounds, alt: base + 2 }
    }
}

} // verus!
