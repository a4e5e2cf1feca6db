use vstd::prelude::*;
use crate::battle_objects::battle_player::PlayerState;
use crate::battle_objects::coordinates::GridCoord;

verus! {

/// Another player in the same battle. The facing is in thousandths of a
/// degree.
#[derive(Clone, Copy, Debug)]
pub struct OtherPlayer {
    pub grid_coord: GridCoord,
    pub facing_vector: i32,
    pub state: PlayerState,
    pub health: (u32, u32),
}

} // verus!
