use vstd::prelude::*;
use crate::battle_objects::battle_player::BattlePlayerContext;

verus! {

/// What the heads-up display shows of the player.
#[derive(Debug)]
pub struct Hud {
    pub health: (usize, usize),
    pub ability_primary: String,
    pub ability_secondary: String,
}

impl Clone for Hud {
    fn clone(&self) -> (copy: Hud)
        ensures
            copy.health == self.health,
            copy.ability_primary@ == self.ability_primary@,
            copy.ability_secondary@ == self.ability_secondary@,
    {
        Hud {
            health: (self.health.0, self.health.1),
            ability_primary: self.ability_primary.clone(),
            ability_secondary: self.ability_secondary.clone(),
        }
    }
}

impl Hud {
    /// The display for `player`: full health, and the names of the two
    /// abilities held.
    pub fn from_player(player: &BattlePlayerContext) -> (hud: Hud)
        ensures
            hud.health == (100usize, 100usize),
            hud.ability_primary@ == player.ability_primary.hud_text(),
            hud.ability_secondary@ == player.ability_secondary.hud_text(),
    {
        Hud {
            health: (100, 100),
            ability_primary: player.ability_primary.get_hud_text(),
            ability_secondary: player.ability_secondary.get_hud_text(),
        }
    }
}

} // verus!
