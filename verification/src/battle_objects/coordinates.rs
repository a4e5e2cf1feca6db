use vstd::prelude::*;
use crate::utils::distance::{scaled_distance, scaled_root, squared_length};

verus! {

/// What can go wrong with a value handed to the battle.
#[derive(Clone, Copy, Debug, PartialEq, Eq, Structural)]
pub enum BattleError {
    /// A facing angle lies more than a turn and an eighth from due east.
    InvalidFacing,
}

/// A position in the continuous world, in whole world units. `y` grows to the
/// south.
#[derive(Clone, Copy, Debug, PartialEq, Eq, Structural, Hash)]
pub struct GameCoord {
    pub x: i32,
    pub y: i32,
}

/// A cell of the grid, by its column and row. Rows grow to the south.
#[derive(Clone, Copy, Debug, PartialEq, Eq, Structural, Hash)]
pub struct GridCoord {
    pub x: i32,
    pub y: i32,
}

/// The four directions an actor can face.
#[derive(Clone, Copy, Debug, PartialEq, Eq, Structural)]
pub enum Direction {
    North,
    South,
    East,
    West,
}

/// The index of the cell that holds the world value `w` on one axis: `w`
/// over the cell size, rounded to the nearest whole number, halves away from
/// zero.
pub open spec fn cell_axis(w: int) -> int {
    if w < 0 {
        -((-w + 10) / 20)
    } else {
        (w + 10) / 20
    }
}

/// `a / b` with the fraction cut off toward zero.
pub open spec fn truncated_quotient(a: int, b: int) -> int
    recommends
        b > 0,
{
    if a < 0 {
        -((-a) / b)
    } else {
        a / b
    }
}

/// Where a world value lands on a screen axis: its offset from the camera,
/// scaled by `scale` thousandths and cut toward zero, then moved by half the
/// viewport.
pub open spec fn display_axis(w: int, camera: int, scale: int, extent: int) -> int {
    truncated_quotient((w - camera) * scale, 1000) + extent / 2
}

/// The index of the cell that holds the world value `w` on one axis.
pub fn axis_cell(wide: i64) -> (c: i32)
    requires
        -0x1_0000_0000 <= wide <= 0x1_0000_0000,
    ensures
        c == cell_axis(wide as int),
        -0x8000_0000 <= wide <= 0x7fff_ffff ==> -107374182 <= c <= 107374182,
{
    if wide < 0 {
        let cells: i64 = (-wide + 10) / 20;
        (-cells) as i32
    } else {
        ((wide + 10) / 20) as i32
    }
}

fn axis_display(w: i32, camera: i32, scale: u32, extent: u32) -> (shown: i64)
    ensures
        shown == display_axis(w as int, camera as int, scale as int, extent as int),
{
    let offset: i64 = w as i64 - camera as i64;
    let half: i64 = (extent / 2) as i64;
    if offset < 0 {
        let size: i64 = -offset;
        assert(size * (scale as i64) <= 0x1_0000_0000 * 0x1_0000_0000) by (nonlinear_arith)
            requires
                0 <= size <= 0x1_0000_0000,
                0 <= scale as i64 <= 0x1_0000_0000,
        ;
        assert(size * (scale as i64) >= 0) by (nonlinear_arith)
            requires
                0 <= size,
                0 <= scale as i64,
        ;
        assert((w - camera) * scale == -(size * (scale as i64))) by (nonlinear_arith)
            requires
                size == -(w - camera),
        ;
        let scaled: i128 = (size as i128) * (scale as i128);
        if scaled == 0 {
            half
        } else {
            half - ((scaled / 1000) as i64)
        }
    } else {
        assert(offset * (scale as i64) <= 0x1_0000_0000 * 0x1_0000_0000) by (nonlinear_arith)
            requires
                0 <= offset <= 0x1_0000_0000,
                0 <= scale as i64 <= 0x1_0000_0000,
        ;
        assert(offset * (scale as i64) >= 0) by (nonlinear_arith)
            requires
                0 <= offset,
                0 <= scale as i64,
        ;
        let scaled: i128 = (offset as i128) * (scale as i128);
        half + ((scaled / 1000) as i64)
    }
}

impl GameCoord {
    /// Whether this position lies so far inside the world that an actor on
    /// it can move, and the corners of its cell can be told, without leaving
    /// the machine's numbers.
    pub open spec fn in_arena(&self) -> bool {
        &&& -2000000000 <= self.x <= 2000000000
        &&& -2000000000 <= self.y <= 2000000000
    }

    /// Whether this position lies within the arena.
    pub fn is_in_arena(&self) -> (yes: bool)
        ensures
            yes == self.in_arena(),
    {
        -2000000000 <= self.x && self.x <= 2000000000 && -2000000000 <= self.y && self.y
            <= 2000000000
    }

    pub open spec fn spec_as_point(&self) -> (i32, i32) {
        (self.x, self.y)
    }

    /// This position as a pair.
    #[verifier::when_used_as_spec(spec_as_point)]
    pub fn as_point(&self) -> (point: (i32, i32))
        ensures
            point == (self.x, self.y),
    {
        (self.x, self.y)
    }

    /// The cell that holds this position.
    pub open spec fn spec_to_grid_coord(&self) -> GridCoord {
        GridCoord { x: cell_axis(self.x as int) as i32, y: cell_axis(self.y as int) as i32 }
    }

    /// The cell that holds this position: each axis over the cell size,
    /// rounded to the nearest cell, halves away from zero.
    #[verifier::when_used_as_spec(spec_to_grid_coord)]
    pub fn to_grid_coord(&self) -> (cell: GridCoord)
        ensures
            cell == self.spec_to_grid_coord(),
            cell.x == cell_axis(self.x as int),
            cell.y == cell_axis(self.y as int),
            cell.has_center(),
    {
        GridCoord { x: axis_cell(self.x as i64), y: axis_cell(self.y as i64) }
    }

    /// Whether this position can be shown in a viewport of the given size:
    /// both screen axes fit the machine's numbers.
    pub open spec fn displayable(
        self,
        center_point: GameCoord,
        scale_factor: u32,
        window_dimensions: (u32, u32),
    ) -> bool {
        &&& i32::MIN <= display_axis(
            self.x as int,
            center_point.x as int,
            scale_factor as int,
            window_dimensions.0 as int,
        ) <= i32::MAX
        &&& i32::MIN <= display_axis(
            self.y as int,
            center_point.y as int,
            scale_factor as int,
            window_dimensions.1 as int,
        ) <= i32::MAX
    }

    /// The screen point of this position for a camera at `center_point` that
    /// magnifies by `scale_factor` thousandths, or nothing where the point
    /// does not fit.
    pub fn to_display_coord(
        &self,
        center_point: GameCoord,
        scale_factor: u32,
        window_dimensions: (u32, u32),
    ) -> (point: Option<(i32, i32)>)
        ensures
            point.is_some() == self.displayable(center_point, scale_factor, window_dimensions),
            point.is_some() ==> point.unwrap().0 == display_axis(
                self.x as int,
                center_point.x as int,
                scale_factor as int,
                window_dimensions.0 as int,
            ) && point.unwrap().1 == display_axis(
                self.y as int,
                center_point.y as int,
                scale_factor as int,
                window_dimensions.1 as int,
            ),
    {
        let new_x = axis_display(self.x, center_point.x, scale_factor, window_dimensions.0);
        let new_y = axis_display(self.y, center_point.y, scale_factor, window_dimensions.1);
        if new_x < -2147483648 || new_x > 2147483647 || new_y < -2147483648 || new_y > 2147483647 {
            None
        } else {
            Some((new_x as i32, new_y as i32))
        }
    }

    /// The straight-line distance to `other`, in 256ths of a world unit,
    /// rounded down.
    pub open spec fn spec_distance_to(self, other: GameCoord) -> nat {
        scaled_root(squared_length(self.x - other.x, self.y - other.y))
    }

    /// The straight-line distance to `other`, in 256ths of a world unit,
    /// rounded down.
    pub fn pythagorean_distance_to(&self, other: &GameCoord) -> (d: u64)
        ensures
            d as nat == self.spec_distance_to(*other),
    {
        scaled_distance(self.x, self.y, other.x, other.y)
    }
}

impl GridCoord {
    pub open spec fn spec_grid_size() -> i32 {
        20
    }

    /// The side of a cell, in world units.
    #[verifier::when_used_as_spec(spec_grid_size)]
    pub fn grid_size() -> (size: i32)
        ensures
            size == 20,
    {
        20
    }

    /// Whether the center of this cell fits the machine's numbers.
    pub open spec fn has_center(self) -> bool {
        &&& -107374182 <= self.x <= 107374182
        &&& -107374182 <= self.y <= 107374182
    }

    /// Whether the four corners of this cell fit the machine's numbers.
    pub open spec fn in_bounds(self) -> bool {
        &&& -107374181 <= self.x <= 107374181
        &&& -107374181 <= self.y <= 107374181
    }

    /// Whether the center of this cell fits the machine's numbers.
    pub fn is_centered(&self) -> (yes: bool)
        ensures
            yes == self.has_center(),
    {
        -107374182 <= self.x && self.x <= 107374182 && -107374182 <= self.y && self.y <= 107374182
    }

    /// Whether the four corners of this cell fit the machine's numbers.
    pub fn is_in_bounds(&self) -> (yes: bool)
        ensures
            yes == self.in_bounds(),
    {
        -107374181 <= self.x && self.x <= 107374181 && -107374181 <= self.y && self.y <= 107374181
    }

    pub open spec fn spec_center(&self) -> GameCoord {
        GameCoord { x: (20 * self.x) as i32, y: (20 * self.y) as i32 }
    }

    pub open spec fn spec_top_left(&self) -> GameCoord {
        GameCoord { x: (20 * self.x - 10) as i32, y: (20 * self.y - 10) as i32 }
    }

    pub open spec fn spec_top_right(&self) -> GameCoord {
        GameCoord { x: (20 * self.x + 10) as i32, y: (20 * self.y - 10) as i32 }
    }

    pub open spec fn spec_bottom_left(&self) -> GameCoord {
        GameCoord { x: (20 * self.x - 10) as i32, y: (20 * self.y + 10) as i32 }
    }

    pub open spec fn spec_bottom_right(&self) -> GameCoord {
        GameCoord { x: (20 * self.x + 10) as i32, y: (20 * self.y + 10) as i32 }
    }

    /// Whether `w` is one of the four corners of this cell.
    pub open spec fn has_corner(self, w: GameCoord) -> bool {
        &&& (w.x == 20 * self.x - 10 || w.x == 20 * self.x + 10)
        &&& (w.y == 20 * self.y - 10 || w.y == 20 * self.y + 10)
    }

    /// The north-west corner: half a cell west and north of the center.
    #[verifier::when_used_as_spec(spec_top_left)]
    pub fn top_left(&self) -> (corner: GameCoord)
        requires
            self.in_bounds(),
        ensures
            corner == self.spec_top_left(),
            corner.x == 20 * self.x - 10,
            corner.y == 20 * self.y - 10,
    {
        let center = self.center();
        GameCoord { x: center.x - Self::grid_size() / 2, y: center.y - Self::grid_size() / 2 }
    }

    /// The north-east corner: half a cell east and north of the center.
    #[verifier::when_used_as_spec(spec_top_right)]
    pub fn top_right(&self) -> (corner: GameCoord)
        requires
            self.in_bounds(),
        ensures
            corner == self.spec_top_right(),
            corner.x == 20 * self.x + 10,
            corner.y == 20 * self.y - 10,
    {
        let center = self.center();
        GameCoord { x: center.x + Self::grid_size() / 2, y: center.y - Self::grid_size() / 2 }
    }

    /// The south-west corner: half a cell west and south of the center.
    #[verifier::when_used_as_spec(spec_bottom_left)]
    pub fn bottom_left(&self) -> (corner: GameCoord)
        requires
            self.in_bounds(),
        ensures
            corner == self.spec_bottom_left(),
            corner.x == 20 * self.x - 10,
            corner.y == 20 * self.y + 10,
    {
        let center = self.center();
        GameCoord { x: center.x - Self::grid_size() / 2, y: center.y + Self::grid_size() / 2 }
    }

    /// The south-east corner: half a cell east and south of the center.
    #[verifier::when_used_as_spec(spec_bottom_right)]
    pub fn bottom_right(&self) -> (corner: GameCoord)
        requires
            self.in_bounds(),
        ensures
            corner == self.spec_bottom_right(),
            corner.x == 20 * self.x + 10,
            corner.y == 20 * self.y + 10,
    {
        let center = self.center();
        GameCoord { x: center.x + Self::grid_size() / 2, y: center.y + Self::grid_size() / 2 }
    }

    /// The center of this cell: its index times the cell size on each axis.
    #[verifier::when_used_as_spec(spec_center)]
    pub fn center(&self) -> (middle: GameCoord)
        requires
            self.has_center(),
        ensures
            middle == self.spec_center(),
            middle.x == 20 * self.x,
            middle.y == 20 * self.y,
    {
        GameCoord { x: Self::grid_size() * self.x, y: Self::grid_size() * self.y }
    }

    /// The cell `dx` columns east and `dy` rows south of this one, if the grid
    /// has it.
    pub open spec fn shifted(self, dx: int, dy: int) -> Option<GridCoord> {
        if i32::MIN <= self.x + dx <= i32::MAX && i32::MIN <= self.y + dy <= i32::MAX {
            Some(GridCoord { x: (self.x + dx) as i32, y: (self.y + dy) as i32 })
        } else {
            None
        }
    }

    /// The cell `delta.0` columns east and `delta.1` rows south of this one,
    /// or nothing where the grid ends before it.
    pub fn offset(&self, delta: (i32, i32)) -> (cell: Option<GridCoord>)
        ensures
            cell == self.shifted(delta.0 as int, delta.1 as int),
    {
        let x: i64 = self.x as i64 + delta.0 as i64;
        let y: i64 = self.y as i64 + delta.1 as i64;
        if x < -2147483648 || x > 2147483647 || y < -2147483648 || y > 2147483647 {
            None
        } else {
            Some(GridCoord { x: x as i32, y: y as i32 })
        }
    }

    /// The cell `steps` rows to the north, if the grid has it.
    pub fn to_north(&self, steps: u16) -> (cell: Option<GridCoord>)
        ensures
            cell == self.shifted(0, -(steps as int)),
    {
        self.offset((0, -(steps as i32)))
    }

    /// The cell `steps` rows to the south, if the grid has it.
    pub fn to_south(&self, steps: u16) -> (cell: Option<GridCoord>)
        ensures
            cell == self.shifted(0, steps as int),
    {
        self.offset((0, steps as i32))
    }

    /// The cell `steps` columns to the west, if the grid has it.
    pub fn to_west(&self, steps: u16) -> (cell: Option<GridCoord>)
        ensures
            cell == self.shifted(-(steps as int), 0),
    {
        self.offset((-(steps as i32), 0))
    }

    /// The cell `steps` columns to the east, if the grid has it.
    pub fn to_east(&self, steps: u16) -> (cell: Option<GridCoord>)
        ensures
            cell == self.shifted(steps as int, 0),
    {
        self.offset((steps as i32, 0))
    }

    /// Whether the two cells share an edge.
    pub open spec fn touches(self, other: GridCoord) -> bool {
        ||| (self.x == other.x && (self.y - other.y == 1 || other.y - self.y == 1))
        ||| (self.y == other.y && (self.x - other.x == 1 || other.x - self.x == 1))
    }

    /// The square of the straight-line distance to `other`, in cells.
    pub open spec fn spec_squared_distance_to(self, other: GridCoord) -> nat {
        squared_length(self.x - other.x, self.y - other.y)
    }

    /// The straight-line distance to `other`, in 256ths of a cell, rounded
    /// down.
    pub open spec fn spec_distance_to(self, other: GridCoord) -> nat {
        scaled_root(self.spec_squared_distance_to(other))
    }

    /// The straight-line distance to `other`, in 256ths of a cell, rounded
    /// down.
    pub fn pythagorean_distance_to(&self, other: &GridCoord) -> (d: u64)
        ensures
            d as nat == self.spec_distance_to(*other),
    {
        scaled_distance(self.x, self.y, other.x, other.y)
    }
}

/// A quarter of a turn, in thousandths of a degree.
pub const QUARTER_TURN: i32 = 90000;

/// An eighth of a turn, in thousandths of a degree.
pub const EIGHTH_TURN: i32 = 45000;

/// Whether `angle`, in thousandths of a degree, lies within a turn and an
/// eighth of due east, on either side.
pub open spec fn valid_facing(angle: int) -> bool {
    -405000 <= angle <= 405000
}

/// The direction nearest to a valid facing angle: east within an eighth of a
/// turn of 0 or of a full turn (both ends count), north and south strictly
/// within an eighth of a quarter turn up or down (south also of three
/// quarters up), and west for the rest, which takes in every angle at or
/// below three eighths of a turn down.
pub open spec fn snapped(angle: int) -> Direction {
    if -45000 <= angle <= 45000 {
        Direction::East
    } else if 45000 < angle < 135000 {
        Direction::North
    } else if -135000 < angle < -45000 {
        Direction::South
    } else if 225000 < angle < 315000 {
        Direction::South
    } else if 315000 <= angle {
        Direction::East
    } else {
        Direction::West
    }
}

impl Direction {
    /// The direction nearest to the facing angle, given in thousandths of a
    /// degree counter-clockwise from due east, or `InvalidFacing` for an
    /// angle further than a turn and an eighth from due east.
    pub fn from_facing_vector(facing_vector: i32) -> (direction: Result<Direction, BattleError>)
        ensures
            valid_facing(facing_vector as int) ==> direction == Ok::<Direction, BattleError>(
                snapped(facing_vector as int),
            ),
            !valid_facing(facing_vector as int) ==> direction == Err::<Direction, BattleError>(
                BattleError::InvalidFacing,
            ),
    {
        if facing_vector < -405000 || facing_vector > 405000 {
            Err(BattleError::InvalidFacing)
        } else if facing_vector >= -EIGHTH_TURN && facing_vector <= EIGHTH_TURN {
            Ok(Direction::East)
        } else if facing_vector > EIGHTH_TURN && facing_vector < 3 * EIGHTH_TURN {
            Ok(Direction::North)
        } else if facing_vector > -3 * EIGHTH_TURN && facing_vector < -EIGHTH_TURN {
            Ok(Direction::South)
        } else if facing_vector > 5 * EIGHTH_TURN && facing_vector < 7 * EIGHTH_TURN {
            Ok(Direction::South)
        } else if facing_vector >= 7 * EIGHTH_TURN {
            Ok(Direction::East)
        } else {
            Ok(Direction::West)
        }
    }
}

/// A world point on a corner shared by several cells belongs to the one
/// further from zero on each axis, and that cell has the point as a corner.
pub proof fn lemma_corner_resolves(cell: GridCoord, w: GameCoord)
    requires
        cell.in_bounds(),
        cell.has_corner(w),
    ensures
        w.to_grid_coord().has_corner(w),
        w.x > 0 ==> w.to_grid_coord().x * 20 == w.x + 10,
        w.x < 0 ==> w.to_grid_coord().x * 20 == w.x - 10,
        w.y > 0 ==> w.to_grid_coord().y * 20 == w.y + 10,
        w.y < 0 ==> w.to_grid_coord().y * 20 == w.y - 10,
{
}

/// The center of a cell lies in that cell.
pub proof fn lemma_center_round_trip(cell: GridCoord)
    requires
        cell.has_center(),
    ensures
        cell.center().to_grid_coord() == cell,
        cell.center().to_grid_coord().center() == cell.center(),
{
}

} // verus!
