use vstd::prelude::*;
use crate::game_context::{GameContext, GameObject};
use crate::input::InputState;
use crate::screens::battle::BattleContext;

verus! {

/// Where the start screen is in its fades, with the frames shown and the
/// frames a fade takes.
#[derive(Clone, Copy, Debug, PartialEq, Eq, Structural)]
pub enum StartScreenState {
    FadeIn(usize, usize),
    Waiting,
    FadeOut(usize, usize),
}

/// The start screen.
#[derive(Clone, Copy, Debug, PartialEq, Eq, Structural)]
pub struct StartScreenContext {
    pub state: StartScreenState,
}

/// What one tick of the start screen leads to.
pub enum StartScreenStep {
    /// The start screen stays, in this state.
    Stay(StartScreenState),
    /// The battle begins.
    Begin,
}

impl StartScreenState {
    /// Whether a fade has not run past its end.
    pub open spec fn in_time(self) -> bool {
        match self {
            StartScreenState::FadeIn(a, b) => a <= b,
            StartScreenState::Waiting => true,
            StartScreenState::FadeOut(a, b) => a <= b,
        }
    }

    /// Whether a fade has not run past its end.
    pub fn is_in_time(&self) -> (yes: bool)
        ensures
            yes == self.in_time(),
    {
        match self {
            StartScreenState::FadeIn(a, b) => *a <= *b,
            StartScreenState::Waiting => true,
            StartScreenState::FadeOut(a, b) => *a <= *b,
        }
    }

    /// What one tick leads to: a fade counts a frame until it has run; the
    /// fade in then gives way to waiting, and the fade out to the battle;
    /// waiting lasts until the start button is held, and then fades out over
    /// thirty frames.
    pub open spec fn next(self, start_held: bool) -> StartScreenStep {
        match self {
            StartScreenState::FadeIn(a, b) => if a == b {
                StartScreenStep::Stay(StartScreenState::Waiting)
            } else {
                StartScreenStep::Stay(StartScreenState::FadeIn((a + 1) as usize, b))
            },
            StartScreenState::Waiting => if start_held {
                StartScreenStep::Stay(StartScreenState::FadeOut(0, 30))
            } else {
                StartScreenStep::Stay(StartScreenState::Waiting)
            },
            StartScreenState::FadeOut(a, b) => if a == b {
                StartScreenStep::Begin
            } else {
                StartScreenStep::Stay(StartScreenState::FadeOut((a + 1) as usize, b))
            },
        }
    }
}

impl StartScreenContext {
    /// Whether one tick may take a game from this start screen to the
    /// screen `after`: the start screen in its next state, or a battle as it
    /// begins.
    pub open spec fn ticked_to(&self, after: GameContext, start_held: bool) -> bool {
        match self.state.next(start_held) {
            StartScreenStep::Stay(state) => after matches GameContext::StartScreen(screen) && screen.state
                == state && state.in_time(),
            StartScreenStep::Begin => after matches GameContext::Battle(battle) && battle.is_fresh()
                && battle.can_tick(),
        }
    }

    /// A start screen at the first frame of a fade in of thirty frames.
    pub fn new() -> (screen: StartScreenContext)
        ensures
            screen == (StartScreenContext { state: StartScreenState::FadeIn(0, 30) }),
    {
        StartScreenContext { state: StartScreenState::FadeIn(0, 30) }
    }

    /// Takes a game that shows the start screen through one tick.
    pub fn handle_tick(game_obj: &mut GameObject, input_state: &InputState)
        requires
            old(game_obj).phase matches GameContext::StartScreen(screen) && screen.state.in_time(),
        ensures
            final(game_obj).player == old(game_obj).player,
            old(game_obj).phase matches GameContext::StartScreen(screen) && screen.ticked_to(
                final(game_obj).phase,
                input_state.btn_start,
            ),
    {
        let state = match &game_obj.phase {
            GameContext::StartScreen(start_screen_context) => start_screen_context.state,
            GameContext::Battle(_) => {
                return ;
            },
        };
        match state {
            StartScreenState::FadeIn(a, b) => {
                if a == b {
                    game_obj.phase = GameContext::StartScreen(
                        StartScreenContext { state: StartScreenState::Waiting },
                    );
                } else {
                    game_obj.phase = GameContext::StartScreen(
                        StartScreenContext { state: StartScreenState::FadeIn(a + 1, b) },
                    );
                }
            },
            StartScreenState::Waiting => {
                if input_state.btn_start {
                    game_obj.phase = GameContext::StartScreen(
                        StartScreenContext { state: StartScreenState::FadeOut(0, 30) },
                    );
                }
            },
            StartScreenState::FadeOut(a, b) => {
                if a == b {
                    let battle = BattleContext::from_game_object(game_obj);
                    game_obj.phase = GameContext::Battle(battle);
                } else {
                    game_obj.phase = GameContext::StartScreen(
                        StartScreenContext { state: StartScreenState::FadeOut(a + 1, b) },
                    );
                }
            },
        }
    }
}

} // verus!
