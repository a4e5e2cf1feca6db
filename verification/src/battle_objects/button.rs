use vstd::prelude::*;
use crate::battle_objects::coordinates::GridCoord;

verus! {

/// What has happened to the button, with the ticks since and the ticks the
/// state lasts.
#[derive(Clone, Copy, Debug, PartialEq, Eq, Structural)]
pub enum ButtonState {
    NeverPressed,
    Pressed(usize, usize),
    Unpressed(usize, usize),
}

/// The one button of the battle.
#[derive(Clone, Copy, Debug, PartialEq, Eq, Structural)]
pub struct Button {
    pub pos: GridCoord,
    pub state: ButtonState,
}

impl ButtonState {
    /// Whether the state can count one more tick.
    pub open spec fn can_count(self) -> bool {
        match self {
            ButtonState::NeverPressed => true,
            ButtonState::Pressed(curr, _) => curr < usize::MAX,
            ButtonState::Unpressed(curr, _) => curr < usize::MAX,
        }
    }

    /// The state one tick later: the ticks since go up by one, and a button
    /// never pressed stays so.
    pub open spec fn ticked(self) -> ButtonState {
        match self {
            ButtonState::NeverPressed => ButtonState::NeverPressed,
            ButtonState::Pressed(curr, max) => ButtonState::Pressed((curr + 1) as usize, max),
            ButtonState::Unpressed(curr, max) => ButtonState::Unpressed((curr + 1) as usize, max),
        }
    }

    /// Whether the state can count one more tick.
    pub fn is_countable(&self) -> (yes: bool)
        ensures
            yes == self.can_count(),
    {
        match self {
            ButtonState::NeverPressed => true,
            ButtonState::Pressed(curr, _) => *curr < usize::MAX,
            ButtonState::Unpressed(curr, _) => *curr < usize::MAX,
        }
    }
}

impl Button {
    /// A button on the cell in the middle of the grid, never pressed.
    pub fn new() -> (button: Button)
        ensures
            button == (Button { pos: GridCoord { x: 0, y: 0 }, state: ButtonState::NeverPressed }),
    {
        Button { pos: GridCoord { x: 0, y: 0 }, state: ButtonState::NeverPressed }
    }

    /// Counts one tick.
    pub fn update(&mut self)
        requires
            old(self).state.can_count(),
        ensures
            final(self).pos == old(self).pos,
            final(self).state == old(self).state.ticked(),
    {
        self.state = match self.state {
            ButtonState::NeverPressed => ButtonState::NeverPressed,
            ButtonState::Pressed(curr, max) => ButtonState::Pressed(curr + 1, max),
            ButtonState::Unpressed(curr, max) => ButtonState::Unpressed(curr + 1, max),
        }
    }
}

} // verus!
