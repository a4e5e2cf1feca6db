use vstd::prelude::*;
use crate::battle_objects::coordinates::valid_facing;

verus! {

/// What the controls say during one tick.
#[derive(Clone, Copy, Debug, PartialEq, Eq, Structural)]
pub struct InputState {
    /// The angle the player wants to move toward, in thousandths of a degree
    /// counter-clockwise from due east, if the stick is off its middle.
    pub intent: Option<i32>,
    /// Whether the primary action button is held.
    pub btn_down: bool,
    /// Whether the secondary action button is held.
    pub btn_right: bool,
    /// Whether the start button is held.
    pub btn_start: bool,
    /// Whether the player has asked to leave.
    pub shutdown: bool,
}

impl InputState {
    /// Whether the intent, if there is one, is a valid facing angle.
    pub open spec fn well_formed(&self) -> bool {
        match self.intent {
            Some(angle) => valid_facing(angle as int),
            None => true,
        }
    }

    /// The controls at rest.
    pub fn new() -> (input: InputState)
        ensures
            input == (InputState {
                intent: None,
                btn_down: false,
                btn_right: false,
                btn_start: false,
                shutdown: false,
            }),
    {
        InputState { intent: None, btn_down: false, btn_right: false, btn_start: false, shutdown: false }
    }
}

/// The angle the player wants to move toward, if any.
pub fn get_player_intent_vector(input_state: &InputState) -> (intent: Option<i32>)
    ensures
        intent == input_state.intent,
{
    input_state.intent
}

} // verus!
