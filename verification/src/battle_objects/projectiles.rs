use vstd::prelude::*;
use crate::battle_objects::coordinates::GameCoord;

verus! {

/// A shot fired by a player. The speed is in 256ths of a world unit a tick.
#[derive(Clone, Copy, Debug)]
pub struct FriendlyProjectile {
    pub source_pos: GameCoord,
    pub target_pos: GameCoord,
    pub speed: u32,
    pub damage: i32,
}

} // verus!
