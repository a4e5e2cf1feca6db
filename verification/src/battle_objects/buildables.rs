use vstd::prelude::*;
use crate::battle_objects::coordinates::{GameCoord, GridCoord};

verus! {

/// A wall along one edge of a cell. Nothing walks or sees through it.
#[derive(Clone, Copy, Debug)]
pub struct Wall {
    //walls are corner-aligned. To convert them to game coordinates, default to the top left
    pub endpoints: (GameCoord, GameCoord),
    pub health: (usize, usize),
}

/// A window along one edge of a cell. It is held like a wall, and kept
/// apart from the walls.
#[derive(Clone, Copy, Debug)]
pub struct Window {
    //windows are corner-aligned. To convert them to game coordinates, default to the top left
    pub endpoints: (GameCoord, GameCoord),
    pub health: (usize, usize),
}

/// Whether `w` is a value that corners of cells take on an axis: ten more
/// than a multiple of the cell size.
pub open spec fn corner_axis(w: int) -> bool {
    (w - 10) % 20 == 0
}

/// Whether the two points are the two ends of one edge of a cell: both are
/// corners of the grid, and they lie one cell size apart along one axis.
pub open spec fn one_edge(a: GameCoord, b: GameCoord) -> bool {
    &&& corner_axis(a.x as int)
    &&& corner_axis(a.y as int)
    &&& corner_axis(b.x as int)
    &&& corner_axis(b.y as int)
    &&& {
        ||| (a.x == b.x && (a.y - b.y == 20 || b.y - a.y == 20))
        ||| (a.y == b.y && (a.x - b.x == 20 || b.x - a.x == 20))
    }
}

/// Whether the pair `ends` is the pair `a`, `b`, in either order.
pub open spec fn same_ends(ends: (GameCoord, GameCoord), a: GameCoord, b: GameCoord) -> bool {
    (ends.0 == a && ends.1 == b) || (ends.0 == b && ends.1 == a)
}

/// Whether some wall of the list runs from `a` to `b` or from `b` to `a`.
pub open spec fn wall_on_edge(walls: Seq<Wall>, a: GameCoord, b: GameCoord) -> bool {
    exists|i: int| 0 <= i < walls.len() && #[trigger] walls[i].spans(a, b)
}

/// Whether every wall of the list lies along one edge of a cell.
pub open spec fn all_aligned(walls: Seq<Wall>) -> bool {
    forall|i: int| 0 <= i < walls.len() ==> #[trigger] walls[i].aligned()
}

/// The health a wall is built with.
pub open spec fn fresh_wall(ends: (GameCoord, GameCoord)) -> Wall {
    Wall { endpoints: ends, health: (100, 100) }
}

/// The list of walls after an attempt to build one between `ends`: the new
/// wall is added at the end, unless a wall already lies between those two
/// points.
pub open spec fn walls_after_placing(walls: Seq<Wall>, ends: (GameCoord, GameCoord)) -> Seq<Wall> {
    if wall_on_edge(walls, ends.0, ends.1) {
        walls
    } else {
        walls.push(fresh_wall(ends))
    }
}

fn on_corner_axis(w: i32) -> (yes: bool)
    ensures
        yes == corner_axis(w as int),
{
    // 2147483660 is a multiple of the cell size
    let lifted: i64 = w as i64 - 10 + 2147483660;
    lifted % 20 == 0
}

/// Whether `w` is one of the four corners of `cell`.
pub fn is_corner_of(cell: GridCoord, w: GameCoord) -> (yes: bool)
    ensures
        yes == cell.has_corner(w),
{
    let west: i64 = 20 * (cell.x as i64) - 10;
    let east: i64 = 20 * (cell.x as i64) + 10;
    let north: i64 = 20 * (cell.y as i64) - 10;
    let south: i64 = 20 * (cell.y as i64) + 10;
    let x: i64 = w.x as i64;
    let y: i64 = w.y as i64;
    (x == west || x == east) && (y == north || y == south)
}

impl Wall {
    /// Whether the wall runs between `a` and `b`, in either order.
    pub open spec fn spans(&self, a: GameCoord, b: GameCoord) -> bool {
        same_ends(self.endpoints, a, b)
    }

    /// Whether the wall lies along one edge of a cell.
    pub open spec fn aligned(&self) -> bool {
        one_edge(self.endpoints.0, self.endpoints.1)
    }

    /// Whether the wall lies on the border of `cell`: its two ends are two
    /// different corners of the cell.
    pub open spec fn borders(&self, cell: GridCoord) -> bool {
        &&& self.endpoints.0 != self.endpoints.1
        &&& cell.has_corner(self.endpoints.0)
        &&& cell.has_corner(self.endpoints.1)
    }

    /// Whether the wall shuts the way between the two cells: both its ends
    /// are corners of both cells.
    pub open spec fn blocks(&self, first: GridCoord, second: GridCoord) -> bool {
        self.borders(first) && self.borders(second)
    }

    /// Whether the wall runs between `a` and `b`, in either order.
    pub fn is_on(&self, a: GameCoord, b: GameCoord) -> (yes: bool)
        ensures
            yes == self.spans(a, b),
    {
        (self.endpoints.0 == a && self.endpoints.1 == b) || (self.endpoints.0 == b
            && self.endpoints.1 == a)
    }

    /// Whether the wall lies along one edge of a cell.
    pub fn is_aligned(&self) -> (yes: bool)
        ensures
            yes == self.aligned(),
    {
        let a = self.endpoints.0;
        let b = self.endpoints.1;
        let dx: i64 = a.x as i64 - b.x as i64;
        let dy: i64 = a.y as i64 - b.y as i64;
        on_corner_axis(a.x) && on_corner_axis(a.y) && on_corner_axis(b.x) && on_corner_axis(b.y)
            && ((dx == 0 && (dy == 20 || dy == -20)) || (dy == 0 && (dx == 20 || dx == -20)))
    }

    /// Whether the wall shuts the way between the two cells.
    pub fn is_blocking(&self, first: GridCoord, second: GridCoord) -> (yes: bool)
        ensures
            yes == self.blocks(first, second),
    {
        //if both of my coordinates are coordinates in both grid corners, return true, else false
        let a = self.endpoints.0;
        let b = self.endpoints.1;
        a != b && is_corner_of(first, a) && is_corner_of(first, b) && is_corner_of(second, a)
            && is_corner_of(second, b)
    }
}

impl Window {
    /// Whether the window lies along one edge of a cell.
    pub open spec fn aligned(&self) -> bool {
        one_edge(self.endpoints.0, self.endpoints.1)
    }

    /// Whether the window lies along one edge of a cell.
    pub fn is_aligned(&self) -> (yes: bool)
        ensures
            yes == self.aligned(),
    {
        (Wall { endpoints: self.endpoints, health: self.health }).is_aligned()
    }
}

/// The place in the list of the first wall that runs between `a` and `b`, in
/// either order.
pub fn find_wall(walls: &Vec<Wall>, a: GameCoord, b: GameCoord) -> (found: Option<usize>)
    ensures
        found.is_some() == wall_on_edge(walls@, a, b),
        found matches Some(i) ==> i < walls.len() && walls[i as int].spans(a, b) && forall|j: int|
            0 <= j < i ==> !(#[trigger] walls[j].spans(a, b)),
{
    let mut i: usize = 0;
    while i < walls.len()
        invariant
            i <= walls.len(),
            forall|j: int| 0 <= j < i ==> !(#[trigger] walls[j].spans(a, b)),
        decreases walls.len() - i,
    {
        if walls[i].is_on(a, b) {
            return Some(i);
        }
        i += 1;
    }
    None
}

/// Whether every wall of the list lies along one edge of a cell.
pub fn walls_aligned(walls: &Vec<Wall>) -> (yes: bool)
    ensures
        yes == all_aligned(walls@),
{
    let mut i: usize = 0;
    while i < walls.len()
        invariant
            i <= walls.len(),
            forall|j: int| 0 <= j < i ==> #[trigger] walls[j].aligned(),
        decreases walls.len() - i,
    {
        if !walls[i].is_aligned() {
            return false;
        }
        i += 1;
    }
    true
}

/// Builds a wall between `ends` with full health, unless a wall already lies
/// between those two points, in either order. Says whether it built one.
pub fn place_wall(walls: &mut Vec<Wall>, ends: (GameCoord, GameCoord)) -> (built: bool)
    ensures
        final(walls)@ == walls_after_placing(old(walls)@, ends),
        built == !wall_on_edge(old(walls)@, ends.0, ends.1),
        wall_on_edge(old(walls)@, ends.0, ends.1) ==> final(walls)@.len() == old(walls)@.len(),
        !wall_on_edge(old(walls)@, ends.0, ends.1) ==> final(walls)@.len() == old(walls)@.len()
            + 1,
        one_edge(ends.0, ends.1) && all_aligned(old(walls)@) ==> all_aligned(final(walls)@),
{
    match find_wall(walls, ends.0, ends.1) {
        Some(_) => false,
        None => {
            walls.push(Wall { endpoints: ends, health: (100, 100) });
            true
        },
    }
}

} // verus!
