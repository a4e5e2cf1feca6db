use vstd::prelude::*;
use crate::battle_objects::coordinates::BattleError;
use crate::input::InputState;
use crate::screens::battle::{BattleContext, TickAction};
use crate::screens::start::StartScreenContext;

verus! {

/// The whole game: the screen it shows and the player who plays it.
pub struct GameObject {
    pub phase: GameContext,
    pub player: Option<Player>,
}

/// The screen that the game shows, with its state.
pub enum GameContext {
    StartScreen(StartScreenContext),
    Battle(BattleContext),
}

/// What a player keeps from one battle to the next.
#[derive(Clone, Copy, Debug, PartialEq, Eq, Structural)]
pub struct Player {
    //player stat things go here
}

impl GameObject {
    /// Whether the game can take one tick: a fade of the start screen has
    /// not run past its end, and a battle can take a tick.
    pub open spec fn can_tick(&self) -> bool {
        match self.phase {
            GameContext::StartScreen(screen) => screen.state.in_time(),
            GameContext::Battle(battle) => battle.can_tick(),
        }
    }

    /// Whether the game can take one tick.
    pub fn is_tickable(&self) -> (yes: bool)
        ensures
            yes == self.can_tick(),
    {
        match &self.phase {
            GameContext::StartScreen(screen) => screen.state.is_in_time(),
            GameContext::Battle(battle) => battle.is_tickable(),
        }
    }

    /// Takes the game through one tick: the tick of the screen it shows.
    /// Only a battle asks for anything to be done, and only a battle can
    /// refuse the input.
    pub fn handle_tick(&mut self, input_state: &InputState) -> (outcome: Result<TickAction, BattleError>)
        requires
            old(self).can_tick(),
        ensures
            final(self).player == old(self).player,
            old(self).phase matches GameContext::StartScreen(screen) ==> outcome == Ok::<
                TickAction,
                BattleError,
            >(TickAction::Nothing) && screen.ticked_to(final(self).phase, input_state.btn_start),
            old(self).phase matches GameContext::Battle(before) ==> final(self).phase matches GameContext::Battle(
                after,
            ) && before.tick_outcome(after, *input_state, outcome),
    {
        let in_battle = match &self.phase {
            GameContext::Battle(_) => true,
            GameContext::StartScreen(_) => false,
        };
        if in_battle {
            BattleContext::handle_tick(self, input_state)
        } else {
            StartScreenContext::handle_tick(self, input_state);
            Ok(TickAction::Nothing)
        }
    }
}

} // verus!
