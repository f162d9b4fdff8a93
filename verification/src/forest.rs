//! Kinds of forests and the leaves their trees carry.
use vstd::prelude::*;

verus! {

/// Kinds of forests.
#[derive(Clone, Copy, Debug, PartialEq, Eq, Structural)]
pub enum ForestKind {
    Palm,
    Acacia,
    Baobab,
    Oak,
    Chestnut,
    Cedar,
    Pine,
    Redwood,
    Birch,
    Mangrove,
    Giant,
    Swamp,
    Frostpine,
    Dead,
    Mapletree,
    Cherry,
    AutumnTree,
}

/// Blocks of tree structures that are colored by the leaves they stand for.
#[derive(Clone, Copy, Debug, PartialEq, Eq, Structural)]
pub enum StructureBlock {
    PalmLeavesOuter,
    Acacia,
    Baobab,
    TemperateLeaves,
    Chestnut,
    PineLeaves,
    Mangrove,
    FrostpineLeaves,
    MapleLeaves,
    CherryLeaves,
    AutumnLeaves,
}

impl ForestKind {
    pub open spec fn spec_leaf_block(self) -> StructureBlock {
        match self {
            ForestKind::Palm => StructureBlock::PalmLeavesOuter,
            ForestKind::Acacia => StructureBlock::Acacia,
            ForestKind::Baobab => StructureBlock::Baobab,
            ForestKind::Oak => StructureBlock::TemperateLeaves,
            ForestKind::Chestnut => StructureBlock::Chestnut,
            ForestKind::Cedar => StructureBlock::PineLeaves,
            ForestKind::Pine => StructureBlock::PineLeaves,
            ForestKind::Redwood => StructureBlock::PineLeaves,
            ForestKind::Birch => StructureBlock::TemperateLeaves,
            ForestKind::Mangrove => StructureBlock::Mangrove,
            ForestKind::Giant => StructureBlock::TemperateLeaves,
            ForestKind::Swamp => StructureBlock::TemperateLeaves,
            ForestKind::Frostpine => StructureBlock::FrostpineLeaves,
            ForestKind::Dead => StructureBlock::TemperateLeaves,
            ForestKind::Mapletree => StructureBlock::MapleLeaves,
            ForestKind::Cherry => StructureBlock::CherryLeaves,
            ForestKind::AutumnTree => StructureBlock::AutumnLeaves,
        }
    }

    /// The leaves of the trees of this forest.
    pub fn leaf_block(&self) -> (r: StructureBlock)
        ensures
            r == self.spec_leaf_block(),
    {
        match self {
            ForestKind::Palm => StructureBlock::PalmLeavesOuter,
            ForestKind::Acacia => StructureBlock::Acacia,
            ForestKind::Baobab => StructureBlock::Baobab,
            ForestKind::Oak => StructureBlock::TemperateLeaves,
            ForestKind::Chestnut => StructureBlock::Chestnut,
            ForestKind::Cedar => StructureBlock::PineLeaves,
            ForestKind::Pine => StructureBlock::PineLeaves,
            ForestKind::Redwood => StructureBlock::PineLeaves,
            ForestKind::Birch => StructureBlock::TemperateLeaves,
            ForestKind::Mangrove => StructureBlock::Mangrove,
            ForestKind::Giant => StructureBlock::TemperateLeaves,
            ForestKind::Swamp => StructureBlock::TemperateLeaves,
            ForestKind::Frostpine => StructureBlock::FrostpineLeaves,
            ForestKind::Dead => StructureBlock::TemperateLeaves,
            ForestKind::Mapletree => StructureBlock::MapleLeaves,
            ForestKind::Cherry => StructureBlock::CherryLeaves,
            ForestKind::AutumnTree => StructureBlock::AutumnLeaves,
        }
    }
}

} // verus!
