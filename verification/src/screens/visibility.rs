use vstd::prelude::*;
use crate::battle_objects::battle_player::BattlePlayerContext;
use crate::battle_objects::buildables::{is_corner_of, Wall};
use crate::battle_objects::coordinates::{Direction, GridCoord};
use crate::screens::battle::BattleContext;
use crate::utils::collisions::{line_to_line_intersect, segments_cross};

verus! {

/// How far in front of the middle of the player's cell the player's eye
/// lies, in world units: two fifths of a cell.
pub const EYE_OFFSET: i32 = 8;

/// Whether a player who faces north and sees `range` cells far looks at the
/// cell `dx` columns east and `dy` rows south of its own: its own cell, the
/// two beside it and the three behind it; and, in each of the `range` rows
/// ahead, the cell straight ahead and as many to either side of it as the
/// row is rows away.
pub open spec fn in_cone(range: int, dx: int, dy: int) -> bool {
    ||| (-1 <= dx <= 1 && 0 <= dy <= 1)
    ||| (1 <= -dy <= range && dy <= dx <= -dy)
}

/// Where the offset `(dx, dy)` of a player who faces north lies for a player
/// who faces `facing`: the same for north, both axes turned about for
/// south, the axes swapped for west, and swapped with the first turned
/// about for east.
pub open spec fn faced(facing: Direction, dx: int, dy: int) -> (int, int) {
    match facing {
        Direction::North => (dx, dy),
        Direction::South => (-dx, -dy),
        Direction::West => (dy, dx),
        Direction::East => (-dy, dx),
    }
}

/// The offset that `faced` takes to `(wx, wy)`.
pub open spec fn unfaced(facing: Direction, wx: int, wy: int) -> (int, int) {
    match facing {
        Direction::North => (wx, wy),
        Direction::South => (-wx, -wy),
        Direction::West => (wy, wx),
        Direction::East => (wy, -wx),
    }
}

impl BattlePlayerContext {
    /// Whether the player looks at `cell`, walls aside.
    pub open spec fn looks_at(&self, cell: GridCoord) -> bool {
        let own = self.game_coord.to_grid_coord();
        let offset = unfaced(self.snapped_facing_vector, cell.x - own.x, cell.y - own.y);
        in_cone(self.get_vision_range() as int, offset.0, offset.1)
    }

    /// The point the player sees from: the middle of its cell, moved
    /// `EYE_OFFSET` toward the side it faces.
    pub open spec fn eye(&self) -> (int, int) {
        let own = self.game_coord.to_grid_coord();
        let ahead = faced(self.snapped_facing_vector, 0, -8);
        (20 * own.x + ahead.0, 20 * own.y + ahead.1)
    }

    /// Whether `wall` has an end on a corner of a cell that the player looks
    /// at.
    pub open spec fn has_in_view(&self, wall: Wall) -> bool {
        exists|cell: GridCoord| #[trigger]
            self.looks_at(cell) && (cell.has_corner(wall.endpoints.0) || cell.has_corner(wall.endpoints.1))
    }

    /// Whether `wall` crosses the line from the player's eye to the middle
    /// of `cell`.
    pub open spec fn sight_crosses(&self, wall: Wall, cell: GridCoord) -> bool {
        segments_cross(
            self.eye().0,
            self.eye().1,
            20 * cell.x,
            20 * cell.y,
            wall.endpoints.0.x as int,
            wall.endpoints.0.y as int,
            wall.endpoints.1.x as int,
            wall.endpoints.1.y as int,
        )
    }

    /// Whether the player sees `cell`: it looks at the cell, and no wall in
    /// its view crosses the line from its eye to the middle of the cell.
    pub open spec fn sees(&self, walls: Seq<Wall>, cell: GridCoord) -> bool {
        &&& self.looks_at(cell)
        &&& forall|i: int|
            0 <= i < walls.len() ==> !(self.has_in_view(#[trigger] walls[i]) && self.sight_crosses(
                walls[i],
                cell,
            ))
    }
}

proof fn lemma_push_contains<T>(s: Seq<T>, x: T, t: T)
    ensures
        s.push(x).contains(t) <==> (s.contains(t) || t == x),
{
    if s.contains(t) {
        let i = choose|i: int| 0 <= i < s.len() && s[i] == t;
        assert(s.push(x)[i] == t);
    }
    if t == x {
        assert(s.push(x)[s.len() as int] == t);
    }
    if s.push(x).contains(t) {
        let i = choose|i: int| 0 <= i < s.push(x).len() && s.push(x)[i] == t;
        if i < s.len() {
            assert(s[i] == t);
        }
    }
}

proof fn lemma_push_distinct<T>(s: Seq<T>, x: T)
    requires
        s.no_duplicates(),
        !s.contains(x),
    ensures
        s.push(x).no_duplicates(),
{
    assert forall|i: int, j: int| 0 <= i < s.push(x).len() && 0 <= j < s.push(x).len() && i != j implies s.push(
        x,
    )[i] != s.push(x)[j] by {
        if i < s.len() && j < s.len() {
        } else if i < s.len() {
            assert(s[i] == s.push(x)[i]);
        } else if j < s.len() {
            assert(s[j] == s.push(x)[j]);
        }
    }
}

fn cone_holds(range: u8, dx: i32, dy: i32) -> (yes: bool)
    requires
        -1000 <= dx <= 1000,
        -1000 <= dy <= 1000,
    ensures
        yes == in_cone(range as int, dx as int, dy as int),
{
    (-1 <= dx && dx <= 1 && 0 <= dy && dy <= 1) || (1 <= -dy && -dy <= range as i32 && dy <= dx && dx <= -dy)
}

/// The offsets of the cells that a player who faces north looks at, row by
/// row from the farthest, each row from west to east.
fn cone_offsets(range: u8) -> (offsets: Vec<(i32, i32)>)
    ensures
        offsets@.no_duplicates(),
        forall|t: (i32, i32)| offsets@.contains(t) <==> in_cone(range as int, t.0 as int, t.1 as int),
{
    let reach: i32 = if range == 0 {
        1
    } else {
        range as i32
    };
    let mut offsets: Vec<(i32, i32)> = Vec::new();
    let mut dy: i32 = -(range as i32);
    while dy <= 1
        invariant
            -(range as i32) <= dy <= 2,
            reach == if range == 0 {
                1int
            } else {
                range as int
            },
            offsets@.no_duplicates(),
            forall|t: (i32, i32)|
                offsets@.contains(t) <==> in_cone(range as int, t.0 as int, t.1 as int) && t.1 < dy,
        decreases 2 - dy,
    {
        let mut dx: i32 = -reach;
        while dx <= reach
            invariant
                -(range as i32) <= dy <= 1,
                -reach <= dx <= reach + 1,
                reach == if range == 0 {
                    1int
                } else {
                    range as int
                },
                offsets@.no_duplicates(),
                forall|t: (i32, i32)|
                    offsets@.contains(t) <==> in_cone(range as int, t.0 as int, t.1 as int) && (t.1 < dy || (t.1
                        == dy && t.0 < dx)),
            decreases reach + 1 - dx,
        {
            if cone_holds(range, dx, dy) {
                let ghost before = offsets@;
                offsets.push((dx, dy));
                proof {
                    lemma_push_distinct(before, (dx, dy));
                    assert forall|t: (i32, i32)|
                        offsets@.contains(t) <==> in_cone(range as int, t.0 as int, t.1 as int) && (t.1 < dy || (t.1
                            == dy && t.0 < dx + 1)) by {
                        lemma_push_contains(before, (dx, dy), t);
                    }
                }
            }
            dx += 1;
        }
        dy += 1;
    }
    offsets
}

/// The cell that lies at the offset `t` of a player on the cell `own` who
/// faces `facing`.
pub open spec fn placed(own: GridCoord, facing: Direction, t: (i32, i32)) -> GridCoord {
    let turned = faced(facing, t.0 as int, t.1 as int);
    GridCoord { x: (own.x + turned.0) as i32, y: (own.y + turned.1) as i32 }
}

fn place(own: GridCoord, facing: Direction, t: (i32, i32)) -> (cell: GridCoord)
    requires
        -100000000 <= own.x <= 100000000,
        -100000000 <= own.y <= 100000000,
        -255 <= t.0 <= 255,
        -255 <= t.1 <= 255,
    ensures
        cell == placed(own, facing, t),
        cell.x == own.x + faced(facing, t.0 as int, t.1 as int).0,
        cell.y == own.y + faced(facing, t.0 as int, t.1 as int).1,
        cell.in_bounds(),
{
    match facing {
        Direction::North => GridCoord { x: own.x + t.0, y: own.y + t.1 },
        Direction::South => GridCoord { x: own.x - t.0, y: own.y - t.1 },
        Direction::West => GridCoord { x: own.x + t.1, y: own.y + t.0 },
        Direction::East => GridCoord { x: own.x - t.1, y: own.y + t.0 },
    }
}

/// The cells that the player looks at, walls aside.
fn cells_looked_at(player: &BattlePlayerContext) -> (cells: Vec<GridCoord>)
    requires
        player.can_act(),
    ensures
        cells@.no_duplicates(),
        forall|cell: GridCoord| cells@.contains(cell) <==> player.looks_at(cell),
        forall|i: int| 0 <= i < cells.len() ==> (#[trigger] cells[i]).in_bounds(),
{
    let range = player.get_vision_range();
    let own = player.game_coord.to_grid_coord();
    let facing = player.snapped_facing_vector;
    let offsets = cone_offsets(range);
    let mut cells: Vec<GridCoord> = Vec::new();
    let mut i: usize = 0;
    while i < offsets.len()
        invariant
            i <= offsets.len(),
            cells.len() == i,
            own == player.game_coord.to_grid_coord(),
            -100000000 <= own.x <= 100000000,
            -100000000 <= own.y <= 100000000,
            forall|t: (i32, i32)| offsets@.contains(t) <==> in_cone(range as int, t.0 as int, t.1 as int),
            forall|j: int| 0 <= j < i ==> #[trigger] cells[j] == placed(own, facing, offsets[j]),
            forall|j: int| 0 <= j < i ==> (#[trigger] cells[j]).in_bounds(),
        decreases offsets.len() - i,
    {
        let t = offsets[i];
        assert(offsets@.contains(t));
        cells.push(place(own, facing, t));
        i += 1;
    }
    proof {
        assert forall|a: int, b: int| 0 <= a < cells.len() && 0 <= b < cells.len() && a != b implies cells[a]
            != cells[b] by {
            assert(offsets@.contains(offsets[a]));
            assert(offsets@.contains(offsets[b]));
            assert(offsets[a] != offsets[b]);
        }
        assert forall|cell: GridCoord| cells@.contains(cell) <==> player.looks_at(cell) by {
            if cells@.contains(cell) {
                let j = choose|j: int| 0 <= j < cells.len() && cells[j] == cell;
                assert(offsets@.contains(offsets[j]));
            }
            if player.looks_at(cell) {
                let back = unfaced(facing, cell.x - own.x, cell.y - own.y);
                let t = (back.0 as i32, back.1 as i32);
                assert(in_cone(range as int, t.0 as int, t.1 as int));
                assert(offsets@.contains(t));
                let j = choose|j: int| 0 <= j < offsets.len() && offsets[j] == t;
                assert(cells[j] == cell);
            }
        }
    }
    cells
}

/// Whether `wall` has an end on a corner of one of `cells`.
fn borders_any(cells: &Vec<GridCoord>, wall: &Wall) -> (yes: bool)
    ensures
        yes == exists|j: int|
            0 <= j < cells.len() && ((#[trigger] cells[j]).has_corner(wall.endpoints.0) || cells[j].has_corner(
                wall.endpoints.1,
            )),
{
    let mut j: usize = 0;
    while j < cells.len()
        invariant
            j <= cells.len(),
            forall|k: int|
                0 <= k < j ==> !((#[trigger] cells[k]).has_corner(wall.endpoints.0) || cells[k].has_corner(
                    wall.endpoints.1,
                )),
        decreases cells.len() - j,
    {
        if is_corner_of(cells[j], wall.endpoints.0) || is_corner_of(cells[j], wall.endpoints.1) {
            return true;
        }
        j += 1;
    }
    false
}

impl BattleContext {
    /// The cells that the player sees now, each once: the cells it looks
    /// at, less those that a wall in its view hides.
    pub fn get_visible_squares(&self) -> (visible: Vec<GridCoord>)
        requires
            self.player.can_act(),
        ensures
            visible@.no_duplicates(),
            forall|cell: GridCoord| visible@.contains(cell) <==> self.player.sees(self.walls@, cell),
            forall|i: int| 0 <= i < visible.len() ==> (#[trigger] visible[i]).in_bounds(),
    {
        let player = &self.player;
        let player_square = player.game_coord.to_grid_coord();
        let visible_squares = cells_looked_at(player);
        //get all walls that border the visible squares
        let mut relevant: Vec<bool> = Vec::new();
        let mut w: usize = 0;
        while w < self.walls.len()
            invariant
                w <= self.walls.len(),
                relevant.len() == w,
                forall|cell: GridCoord| visible_squares@.contains(cell) <==> player.looks_at(cell),
                forall|k: int| 0 <= k < w ==> #[trigger] relevant[k] == player.has_in_view(self.walls[k]),
            decreases self.walls.len() - w,
        {
            let near = borders_any(&visible_squares, &self.walls[w]);
            proof {
                let wall = self.walls[w as int];
                if near {
                    let j = choose|j: int|
                        0 <= j < visible_squares.len() && ((#[trigger] visible_squares[j]).has_corner(
                            wall.endpoints.0,
                        ) || visible_squares[j].has_corner(wall.endpoints.1));
                    assert(visible_squares@.contains(visible_squares[j]));
                    assert(player.looks_at(visible_squares[j]));
                } else {
                    if player.has_in_view(wall) {
                        let cell = choose|cell: GridCoord| #[trigger]
                            player.looks_at(cell) && (cell.has_corner(wall.endpoints.0) || cell.has_corner(
                                wall.endpoints.1,
                            ));
                        assert(visible_squares@.contains(cell));
                        let j = choose|j: int| 0 <= j < visible_squares.len() && visible_squares[j] == cell;
                        assert(visible_squares[j].has_corner(wall.endpoints.0) || visible_squares[j].has_corner(
                            wall.endpoints.1,
                        ));
                    }
                }
            }
            relevant.push(near);
            w += 1;
        }
        let center = player_square.center();
        let start_point: (i32, i32) = match player.snapped_facing_vector {
            Direction::North => (center.x, center.y - EYE_OFFSET),
            Direction::South => (center.x, center.y + EYE_OFFSET),
            Direction::West => (center.x - EYE_OFFSET, center.y),
            Direction::East => (center.x + EYE_OFFSET, center.y),
        };
        let mut to_return: Vec<GridCoord> = Vec::new();
        let mut i: usize = 0;
        while i < visible_squares.len()
            invariant
                i <= visible_squares.len(),
                relevant.len() == self.walls.len(),
                start_point.0 == player.eye().0,
                start_point.1 == player.eye().1,
                visible_squares@.no_duplicates(),
                forall|cell: GridCoord| visible_squares@.contains(cell) <==> player.looks_at(cell),
                forall|k: int| 0 <= k < visible_squares.len() ==> (#[trigger] visible_squares[k]).in_bounds(),
                forall|k: int|
                    0 <= k < relevant.len() ==> #[trigger] relevant[k] == player.has_in_view(self.walls[k]),
                to_return@.no_duplicates(),
                forall|k: int| 0 <= k < to_return.len() ==> (#[trigger] to_return[k]).in_bounds(),
                forall|cell: GridCoord|
                    to_return@.contains(cell) <==> (exists|k: int|
                        0 <= k < i && visible_squares[k] == cell) && player.sees(self.walls@, cell),
            decreases visible_squares.len() - i,
        {
            let square = visible_squares[i];
            let square_coords = (square.center().x, square.center().y);
            let mut hidden = false;
            let mut j: usize = 0;
            while j < self.walls.len()
                invariant
                    j <= self.walls.len(),
                    relevant.len() == self.walls.len(),
                    start_point.0 == player.eye().0,
                    start_point.1 == player.eye().1,
                    square_coords.0 == 20 * square.x,
                    square_coords.1 == 20 * square.y,
                    forall|k: int|
                        0 <= k < relevant.len() ==> #[trigger] relevant[k] == player.has_in_view(self.walls[k]),
                    hidden == exists|k: int|
                        0 <= k < j && player.has_in_view(#[trigger] self.walls[k]) && player.sight_crosses(
                            self.walls[k],
                            square,
                        ),
                decreases self.walls.len() - j,
            {
                let wall = &self.walls[j];
                let wall_endpoints = (
                    (wall.endpoints.0.x, wall.endpoints.0.y),
                    (wall.endpoints.1.x, wall.endpoints.1.y),
                );
                if relevant[j] && line_to_line_intersect((start_point, square_coords), wall_endpoints) {
                    hidden = true;
                }
                j += 1;
            }
            let ghost before = to_return@;
            proof {
                assert(visible_squares@.contains(square));
                assert(hidden == !player.sees(self.walls@, square));
            }
            if !hidden {
                to_return.push(square);
                proof {
                    if before.contains(square) {
                        let k = choose|k: int| 0 <= k < i && visible_squares[k] == square;
                        assert(visible_squares[k] == visible_squares[i as int]);
                    }
                    lemma_push_distinct(before, square);
                }
            }
            proof {
                assert forall|cell: GridCoord|
                    to_return@.contains(cell) <==> (exists|k: int|
                        0 <= k < i + 1 && visible_squares[k] == cell) && player.sees(self.walls@, cell) by {
                    if !hidden {
                        lemma_push_contains(before, square, cell);
                    }
                    if (exists|k: int| 0 <= k < i + 1 && visible_squares[k] == cell) {
                        let k = choose|k: int| 0 <= k < i + 1 && visible_squares[k] == cell;
                        if k < i {
                            assert(exists|k: int| 0 <= k < i && visible_squares[k] == cell);
                        }
                    }
                    if (exists|k: int| 0 <= k < i && visible_squares[k] == cell) {
                        let k = choose|k: int| 0 <= k < i && visible_squares[k] == cell;
                        assert(0 <= k < i + 1 && visible_squares[k] == cell);
                    }
                    if cell == square {
                        assert(0 <= i < i + 1 && visible_squares[i as int] == cell);
                    }
                }
            }
            i += 1;
        }
        proof {
            assert forall|cell: GridCoord| to_return@.contains(cell) <==> self.player.sees(self.walls@, cell) by {
                if self.player.sees(self.walls@, cell) {
                    assert(visible_squares@.contains(cell));
                    let k = choose|k: int| 0 <= k < visible_squares.len() && visible_squares[k] == cell;
                    assert(0 <= k < i && visible_squares[k] == cell);
                }
            }
        }
        to_return
    }
}

/// With no wall about, a player who faces north sees its own cell, and sees
/// a cell to one side of its column exactly when it sees the cell as far to
/// the other side in the same row.
pub proof fn lemma_open_view_is_even(player: BattlePlayerContext, cell: GridCoord, mirror: GridCoord)
    requires
        player.snapped_facing_vector == Direction::North,
        mirror.y == cell.y,
        mirror.x - player.game_coord.to_grid_coord().x == player.game_coord.to_grid_coord().x - cell.x,
    ensures
        player.sees(Seq::<Wall>::empty(), player.game_coord.to_grid_coord()),
        player.sees(Seq::<Wall>::empty(), cell) == player.sees(Seq::<Wall>::empty(), mirror),
{
}

} // verus!
