//! Falling blocks: what a block that starts to fall leaves behind, and the
//! state the falling entity carries.
use vstd::prelude::*;

verus! {

/// The fluid in a block that starts to fall.
#[derive(Clone, Copy, Debug, PartialEq, Eq, Structural)]
pub enum SourceFluid {
    Empty,
    Water,
    FlowingWater,
    Lava,
    FlowingLava,
}

/// The block left where a falling block was.
#[derive(Clone, Copy, Debug, PartialEq, Eq, Structural)]
pub enum LeftBehind {
    Air,
    Water,
    Lava,
}

/// A falling block leaves its fluid behind as a source block (water for
/// water, lava for lava, still or flowing), else air.
pub fn left_behind(fluid: SourceFluid) -> (r: LeftBehind)
    ensures
        r == (match fluid {
            SourceFluid::Water | SourceFluid::FlowingWater => LeftBehind::Water,
            SourceFluid::Lava | SourceFluid::FlowingLava => LeftBehind::Lava,
            SourceFluid::Empty => LeftBehind::Air,
        }),
{
    match fluid {
        SourceFluid::Water | SourceFluid::FlowingWater => LeftBehind::Water,
        SourceFluid::Lava | SourceFluid::FlowingLava => LeftBehind::Lava,
        SourceFluid::Empty => LeftBehind::Air,
    }
}

/// A falling block entity and the block state it carries (the dry state:
/// a waterlogged block leaves its water behind instead).
#[derive(Clone, Copy, Debug, PartialEq, Eq, Structural)]
pub struct FallingEntity {
    pub entity_id: i32,
    pub block_state_id: u16,
}

impl FallingEntity {
    pub fn new(entity_id: i32, block_state_id: u16) -> (r: FallingEntity)
        ensures
            r == (FallingEntity { entity_id, block_state_id }),
    {
        FallingEntity { entity_id, block_state_id }
    }

    /// The block a fall starts from: what stays in place of the block, and
    /// the entity that carries its dry state (`dry_state`, the block's
    /// state without waterlogging when it has that property).
    pub fn replace_spawn(entity_id: i32, fluid: SourceFluid, dry_state: u16) -> (r: (
        LeftBehind,
        FallingEntity,
    ))
        ensures
            r.0 == (match fluid {
                SourceFluid::Water | SourceFluid::FlowingWater => LeftBehind::Water,
                SourceFluid::Lava | SourceFluid::FlowingLava => LeftBehind::Lava,
                SourceFluid::Empty => LeftBehind::Air,
            }),
            r.1 == (FallingEntity { entity_id, block_state_id: dry_state }),
    {
        (left_behind(fluid), FallingEntity::new(entity_id, dry_state))
    }
}

} // verus!
