use vstd::prelude::*;
use crate::battle_objects::coordinates::{truncated_quotient, GameCoord};

verus! {

/// Where the camera looks and how much it magnifies, in thousandths.
#[derive(Clone, Copy, Debug, PartialEq, Eq, Structural)]
pub struct CameraState {
    pub pos: GameCoord,
    pub scale: u32,
}

/// Where a camera axis stands after one tick of following `target`: a tenth
/// of the way nearer, the fraction cut off toward zero.
pub open spec fn scrolled_axis(camera: int, target: int) -> int {
    camera + truncated_quotient(target - camera, 10)
}

fn scroll_axis(camera: i32, target: i32) -> (moved: i32)
    ensures
        moved == scrolled_axis(camera as int, target as int),
{
    let delta: i64 = target as i64 - camera as i64;
    if delta < 0 {
        let back: i64 = (-delta) / 10;
        (camera as i64 - back) as i32
    } else {
        (camera as i64 + delta / 10) as i32
    }
}

impl CameraState {
    /// A camera over the middle of the world that magnifies by a tenth.
    pub fn new() -> (camera: CameraState)
        ensures
            camera == (CameraState { pos: GameCoord { x: 0, y: 0 }, scale: 1100 }),
    {
        CameraState { pos: GameCoord { x: 0, y: 0 }, scale: 1100 }
    }

    /// Moves the camera a tenth of the way toward `target` on each axis.
    pub fn smooth_scroll(&mut self, target: &GameCoord)
        ensures
            final(self).scale == old(self).scale,
            final(self).pos.x == scrolled_axis(old(self).pos.x as int, target.x as int),
            final(self).pos.y == scrolled_axis(old(self).pos.y as int, target.y as int),
    {
        self.pos.x = scroll_axis(self.pos.x, target.x);
        self.pos.y = scroll_axis(self.pos.y, target.y);
    }
}

} // verus!
