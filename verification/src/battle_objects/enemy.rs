use vstd::prelude::*;
use crate::battle_objects::battle_player::{collisions_with, wall_hits};
use crate::battle_objects::buildables::{all_aligned, Wall};
use crate::battle_objects::coordinates::{axis_cell, cell_axis, Direction, GameCoord, GridCoord};
use crate::utils::distance::{squared_length, squared_offset};
use crate::utils::pathing::{
    in_block,
    is_route,
    lemma_open_field_length,
    lemma_straight_way,
    path_to,
    search_outcome,
    steps_apart,
    straight_way,
};

verus! {

/// An enemy of the player.
#[derive(Debug)]
pub struct Enemy {
    pub pos: GameCoord,
    pub snapped_facing_vector: Direction,
    pub health: (u32, u32),
    pub behavior: EnemyBehavior,
}

/// What an enemy is after. Each errand carries the waypoints reached since
/// it began, the number of them after which it is given up, and the cells
/// still to walk.
#[derive(Debug)]
pub enum EnemyBehavior {
    Idle,
    WalkToButton(u32, u32, Vec<GridCoord>),  //path to the button
    TargetPlayer(u32, u32, Vec<GridCoord>),  //path to the nearest player
    AttackWalls(u32, u32, Vec<GridCoord>),
}

/// An errand with its path as a sequence.
pub enum BehaviorView {
    Idle,
    WalkToButton(u32, u32, Seq<GridCoord>),
    TargetPlayer(u32, u32, Seq<GridCoord>),
    AttackWalls(u32, u32, Seq<GridCoord>),
}

/// An enemy with its path as a sequence.
pub struct EnemyView {
    pub pos: GameCoord,
    pub snapped_facing_vector: Direction,
    pub health: (u32, u32),
    pub behavior: BehaviorView,
}

impl View for EnemyBehavior {
    type V = BehaviorView;

    open spec fn view(&self) -> BehaviorView {
        match self {
            EnemyBehavior::Idle => BehaviorView::Idle,
            EnemyBehavior::WalkToButton(curr, max, path) => BehaviorView::WalkToButton(*curr, *max, path@),
            EnemyBehavior::TargetPlayer(curr, max, path) => BehaviorView::TargetPlayer(*curr, *max, path@),
            EnemyBehavior::AttackWalls(curr, max, path) => BehaviorView::AttackWalls(*curr, *max, path@),
        }
    }
}

impl View for Enemy {
    type V = EnemyView;

    open spec fn view(&self) -> EnemyView {
        EnemyView {
            pos: self.pos,
            snapped_facing_vector: self.snapped_facing_vector,
            health: self.health,
            behavior: self.behavior@,
        }
    }
}

impl Clone for EnemyBehavior {
    fn clone(&self) -> (copy: EnemyBehavior)
        ensures
            copy@ == self@,
    {
        match self {
            EnemyBehavior::Idle => EnemyBehavior::Idle,
            EnemyBehavior::WalkToButton(curr, max, path) => EnemyBehavior::WalkToButton(
                *curr,
                *max,
                copy_from(path, 0),
            ),
            EnemyBehavior::TargetPlayer(curr, max, path) => EnemyBehavior::TargetPlayer(
                *curr,
                *max,
                copy_from(path, 0),
            ),
            EnemyBehavior::AttackWalls(curr, max, path) => EnemyBehavior::AttackWalls(
                *curr,
                *max,
                copy_from(path, 0),
            ),
        }
    }
}

impl Clone for Enemy {
    fn clone(&self) -> (copy: Enemy)
        ensures
            copy@ == self@,
    {
        Enemy {
            pos: self.pos,
            snapped_facing_vector: self.snapped_facing_vector,
            health: (self.health.0, self.health.1),
            behavior: self.behavior.clone(),
        }
    }
}

/// How many waypoints an errand lasts.
pub const ERRAND_LENGTH: u32 = 150;

/// The sign of `a`.
pub open spec fn sign_of(a: int) -> int {
    if a > 0 {
        1
    } else if a < 0 {
        -1
    } else {
        0
    }
}

/// How far an enemy moves along one axis in one tick when its goal lies `a`
/// along that axis and `b` along the other: the speed of one and a half units
/// times the share of `a` in the straight-line distance, the fraction cut
/// off toward zero. That is one unit toward the goal where `a` is at least
/// two thirds of the distance, and nothing else.
pub open spec fn chase_axis(a: int, b: int) -> int {
    if 9 * (a * a) >= 4 * (a * a + b * b) {
        sign_of(a)
    } else {
        0
    }
}

/// The step of an enemy whose goal lies `(dx, dy)` away. An enemy on its
/// goal counts as heading east.
pub open spec fn chase_step(dx: int, dy: int) -> (int, int) {
    if dx == 0 && dy == 0 {
        (1, 0)
    } else {
        (chase_axis(dx, dy), chase_axis(dy, dx))
    }
}

/// Where an enemy at `pos` stands after one step toward the center of
/// `target`.
pub open spec fn chased(pos: GameCoord, target: GridCoord) -> GameCoord {
    let step = chase_step(20 * target.x - pos.x, 20 * target.y - pos.y);
    GameCoord { x: (pos.x + step.0) as i32, y: (pos.y + step.1) as i32 }
}

/// One tick of walking along a path: whether the errand goes on, the
/// waypoints reached, the cells left, and the position. The errand ends when
/// its waypoints have run out or no cell is left. An enemy in the first cell
/// of the path drops that cell and counts a waypoint; any other enemy takes
/// one step toward the center of that cell.
pub open spec fn walked(pos: GameCoord, curr: u32, max: u32, path: Seq<GridCoord>) -> (
    bool,
    u32,
    Seq<GridCoord>,
    GameCoord,
) {
    if curr >= max || path.len() == 0 {
        (false, curr, path, pos)
    } else if pos.to_grid_coord() == path[0] {
        (true, (curr + 1) as u32, path.skip(1), pos)
    } else {
        (true, curr, path, chased(pos, path[0]))
    }
}

/// How far the two ends of `wall` lie from `pos`, added up, in 256ths of a
/// world unit.
pub open spec fn wall_distance(wall: Wall, pos: GameCoord) -> nat {
    wall.endpoints.0.spec_distance_to(pos) + wall.endpoints.1.spec_distance_to(pos)
}

/// The place of the wall nearest to `pos` among the first `n` walls, the
/// first of them where several are as near.
pub open spec fn nearest_among(walls: Seq<Wall>, pos: GameCoord, n: nat) -> int
    decreases n,
{
    if n <= 1 {
        0
    } else {
        let best = nearest_among(walls, pos, (n - 1) as nat);
        if wall_distance(walls[n - 1], pos) < wall_distance(walls[best], pos) {
            n - 1
        } else {
            best
        }
    }
}

/// The place of the wall nearest to `pos`, the first of them where several
/// are as near.
pub open spec fn nearest_index(walls: Seq<Wall>, pos: GameCoord) -> int {
    nearest_among(walls, pos, walls.len())
}

/// The two points half a cell off the middle of a wall, one on each side of
/// it: west and east of a wall that runs north to south, north and south of
/// the others.
pub open spec fn approach_points(wall: Wall) -> ((int, int), (int, int)) {
    let a = wall.endpoints.0;
    let b = wall.endpoints.1;
    let mid_x = (a.x + b.x) / 2;
    let mid_y = (a.y + b.y) / 2;
    if a.x == b.x {
        ((mid_x - 10, mid_y), (mid_x + 10, mid_y))
    } else {
        ((mid_x, mid_y - 10), (mid_x, mid_y + 10))
    }
}

/// The cell beside `wall` from which an enemy at `pos` attacks it: the cell
/// of the one of the two approach points that lies nearer to `pos`, the
/// first of them where both are as near.
pub open spec fn approach_cell(wall: Wall, pos: GameCoord) -> GridCoord {
    let points = approach_points(wall);
    let first = squared_length(points.0.0 - pos.x, points.0.1 - pos.y);
    let second = squared_length(points.1.0 - pos.x, points.1.1 - pos.y);
    let nearer = if second < first {
        points.1
    } else {
        points.0
    };
    GridCoord { x: cell_axis(nearer.0) as i32, y: cell_axis(nearer.1) as i32 }
}

/// The cell from which an enemy at `pos` attacks the wall nearest to it.
pub open spec fn wall_goal(walls: Seq<Wall>, pos: GameCoord) -> GridCoord {
    approach_cell(walls[nearest_index(walls, pos)], pos)
}

/// Whether an idle enemy at `pos` may take up `plan`.
///
/// With the player within seven cells, in a straight line from cell to
/// cell, the enemy goes for the player if the search finds a route, and
/// stays idle if not. Further off it walks to the button; failing that, to
/// the cell beside the nearest wall; failing that too, or with no wall
/// about, it stays idle. Every errand starts with no waypoint reached and
/// lasts `ERRAND_LENGTH` of them.
pub open spec fn plan_allows(
    pos: GameCoord,
    player_cell: GridCoord,
    button_cell: GridCoord,
    walls: Seq<Wall>,
    blocked: Seq<GridCoord>,
    plan: BehaviorView,
) -> bool {
    let here = pos.to_grid_coord();
    if here.spec_squared_distance_to(player_cell) <= 49 {
        match plan {
            BehaviorView::TargetPlayer(curr, max, path) => curr == 0 && max == 150 && search_outcome(
                here,
                player_cell,
                walls,
                blocked,
                Some(path),
            ),
            BehaviorView::Idle => search_outcome(here, player_cell, walls, blocked, None),
            _ => false,
        }
    } else {
        match plan {
            BehaviorView::WalkToButton(curr, max, path) => curr == 0 && max == 150 && search_outcome(
                here,
                button_cell,
                walls,
                blocked,
                Some(path),
            ),
            BehaviorView::AttackWalls(curr, max, path) => {
                &&& curr == 0
                &&& max == 150
                &&& search_outcome(here, button_cell, walls, blocked, None)
                &&& walls.len() > 0
                &&& search_outcome(here, wall_goal(walls, pos), walls, blocked, Some(path))
            },
            BehaviorView::Idle => {
                &&& search_outcome(here, button_cell, walls, blocked, None)
                &&& (walls.len() == 0 || search_outcome(
                    here,
                    wall_goal(walls, pos),
                    walls,
                    blocked,
                    None,
                ))
            },
            BehaviorView::TargetPlayer(_, _, _) => false,
        }
    }
}

/// An idle enemy within seven cells of the player, with no wall about and
/// no blocked cell but its own in the block between the two, goes for the
/// player, by a way of as many cells as the two are steps apart.
pub proof fn lemma_clear_chase(
    pos: GameCoord,
    player_cell: GridCoord,
    button_cell: GridCoord,
    blocked: Seq<GridCoord>,
    plan: BehaviorView,
)
    requires
        plan_allows(pos, player_cell, button_cell, Seq::<Wall>::empty(), blocked, plan),
        pos.to_grid_coord().spec_squared_distance_to(player_cell) <= 49,
        forall|c: GridCoord|
            blocked.contains(c) && in_block(pos.to_grid_coord(), player_cell, c) ==> c == pos.to_grid_coord(),
    ensures
        plan matches BehaviorView::TargetPlayer(curr, max, path) && curr == 0 && max == 150 && path.len()
            == steps_apart(pos.to_grid_coord(), player_cell),
{
    let here = pos.to_grid_coord();
    let walls = Seq::<Wall>::empty();
    let dx = here.x - player_cell.x;
    let dy = here.y - player_cell.y;
    let a: int = if dx < 0 {
        -dx
    } else {
        dx
    };
    let b: int = if dy < 0 {
        -dy
    } else {
        dy
    };
    assert(dx * dx + dy * dy >= 0) by (nonlinear_arith);
    assert(a + b <= 9) by (nonlinear_arith)
        requires
            a >= 0,
            b >= 0,
            (a == dx || a == -dx),
            (b == dy || b == -dy),
            dx * dx + dy * dy <= 49,
    ;
    assert(steps_apart(here, player_cell) == a + b);
    lemma_straight_way(here, player_cell, here, blocked);
    let way = straight_way(here, player_cell);
    assert(is_route(here, player_cell, way, walls, blocked));
    match plan {
        BehaviorView::TargetPlayer(curr, max, path) => {
            lemma_open_field_length(here, player_cell, path, blocked);
        },
        _ => {},
    }
}

fn square_of(a: i64) -> (s: i128)
    requires
        -0x20_0000_0000 <= a <= 0x20_0000_0000,
    ensures
        s == a * a,
        0 <= s <= 0x20_0000_0000 * 0x20_0000_0000,
{
    proof {
        assert(0 <= a * a <= 0x20_0000_0000 * 0x20_0000_0000) by (nonlinear_arith)
            requires
                -0x20_0000_0000 <= a <= 0x20_0000_0000,
        ;
    }
    (a as i128) * (a as i128)
}

fn axis_chase(a: i64, b: i64) -> (step: i32)
    requires
        -0x20_0000_0000 <= a <= 0x20_0000_0000,
        -0x20_0000_0000 <= b <= 0x20_0000_0000,
    ensures
        step == chase_axis(a as int, b as int),
{
    let aa = square_of(a);
    let bb = square_of(b);
    if 9 * aa >= 4 * (aa + bb) {
        if a > 0 {
            1
        } else if a < 0 {
            -1
        } else {
            0
        }
    } else {
        0
    }
}

/// Where an enemy at `pos` stands after one step toward the center of
/// `target`.
pub fn step_toward(pos: GameCoord, target: GridCoord) -> (next: GameCoord)
    requires
        pos.in_arena(),
    ensures
        next == chased(pos, target),
{
    let dx: i64 = 20 * (target.x as i64) - pos.x as i64;
    let dy: i64 = 20 * (target.y as i64) - pos.y as i64;
    if dx == 0 && dy == 0 {
        GameCoord { x: pos.x + 1, y: pos.y }
    } else {
        GameCoord { x: pos.x + axis_chase(dx, dy), y: pos.y + axis_chase(dy, dx) }
    }
}

fn copy_from(path: &Vec<GridCoord>, start: usize) -> (rest: Vec<GridCoord>)
    requires
        start <= path.len(),
    ensures
        rest@ == path@.skip(start as int),
        start == 0 ==> rest@ == path@,
{
    let mut rest: Vec<GridCoord> = Vec::new();
    let mut i: usize = start;
    while i < path.len()
        invariant
            start <= i <= path.len(),
            rest@ == path@.subrange(start as int, i as int),
        decreases path.len() - i,
    {
        rest.push(path[i]);
        proof {
            assert(rest@ =~= path@.subrange(start as int, i + 1));
        }
        i += 1;
    }
    proof {
        assert(rest@ =~= path@.skip(start as int));
        if start == 0 {
            assert(rest@ =~= path@);
        }
    }
    rest
}

fn walk(pos: GameCoord, curr: u32, max: u32, path: &Vec<GridCoord>) -> (next: (
    bool,
    u32,
    Vec<GridCoord>,
    GameCoord,
))
    requires
        pos.in_arena(),
    ensures
        (next.0, next.1, next.2@, next.3) == walked(pos, curr, max, path@),
{
    if curr >= max || path.len() == 0 {
        (false, curr, copy_from(path, 0), pos)
    } else {
        let next_square = path[0];
        if pos.to_grid_coord() == next_square {
            (true, curr + 1, copy_from(path, 1), pos)
        } else {
            //move towards the next square
            (true, curr, copy_from(path, 0), step_toward(pos, next_square))
        }
    }
}

fn wall_key(wall: &Wall, pos: &GameCoord) -> (key: u128)
    ensures
        key == wall_distance(*wall, *pos),
{
    (wall.endpoints.0.pythagorean_distance_to(pos) as u128) + (wall.endpoints.1.pythagorean_distance_to(
        pos,
    ) as u128)
}

/// The place of the wall nearest to `pos` by the distances of its two ends,
/// added up; the first of them where several are as near; nothing where
/// there is no wall.
pub fn nearest_wall(walls: &Vec<Wall>, pos: GameCoord) -> (nearest: Option<usize>)
    ensures
        walls.len() == 0 ==> nearest is None,
        walls.len() > 0 ==> nearest is Some,
        nearest matches Some(i) ==> {
            &&& i < walls.len()
            &&& i == nearest_index(walls@, pos)
            &&& forall|j: int|
                0 <= j < walls.len() ==> wall_distance(walls[i as int], pos) <= wall_distance(
                    #[trigger] walls[j],
                    pos,
                )
            &&& forall|j: int|
                0 <= j < i ==> wall_distance(walls[i as int], pos) < wall_distance(#[trigger] walls[j], pos)
        },
{
    if walls.len() == 0 {
        return None;
    }
    let mut best: usize = 0;
    let mut best_key: u128 = wall_key(&walls[0], &pos);
    let mut i: usize = 1;
    while i < walls.len()
        invariant
            1 <= i <= walls.len(),
            best < i,
            best == nearest_among(walls@, pos, i as nat),
            best_key == wall_distance(walls[best as int], pos),
            forall|j: int|
                0 <= j < i ==> wall_distance(walls[best as int], pos) <= wall_distance(
                    #[trigger] walls[j],
                    pos,
                ),
            forall|j: int|
                0 <= j < best ==> wall_distance(walls[best as int], pos) < wall_distance(
                    #[trigger] walls[j],
                    pos,
                ),
        decreases walls.len() - i,
    {
        let key = wall_key(&walls[i], &pos);
        if key < best_key {
            best = i;
            best_key = key;
        }
        i += 1;
    }
    Some(best)
}

/// The cell beside `wall` from which an enemy at `pos` attacks it.
pub fn cell_to_attack(wall: &Wall, pos: GameCoord) -> (cell: GridCoord)
    requires
        wall.aligned(),
    ensures
        cell == approach_cell(*wall, pos),
{
    //there should be 2 squares bordering the wall, find the one that's closest to the enemy
    let a = wall.endpoints.0;
    let b = wall.endpoints.1;
    let mid_x: i64 = (a.x as i64 + b.x as i64 + 0x1_0000_0000) / 2 - 0x8000_0000;
    let mid_y: i64 = (a.y as i64 + b.y as i64 + 0x1_0000_0000) / 2 - 0x8000_0000;
    let (first, second): ((i64, i64), (i64, i64)) = if a.x == b.x {
        ((mid_x - 10, mid_y), (mid_x + 10, mid_y))
    } else {
        ((mid_x, mid_y - 10), (mid_x, mid_y + 10))
    };
    let first_far = square_of(first.0 - pos.x as i64) + square_of(first.1 - pos.y as i64);
    let second_far = square_of(second.0 - pos.x as i64) + square_of(second.1 - pos.y as i64);
    let nearer = if second_far < first_far {
        second
    } else {
        first
    };
    GridCoord { x: axis_cell(nearer.0), y: axis_cell(nearer.1) }
}

impl Enemy {
    pub open spec fn spec_speed() -> (u32, u32) {
        (3, 2)
    }

    /// How far an enemy moves in one tick, as a fraction of world units:
    /// three halves.
    #[verifier::when_used_as_spec(spec_speed)]
    pub fn speed() -> (speed: (u32, u32))
        ensures
            speed == (3u32, 2u32),
    {
        (3, 2)
    }

    pub open spec fn spec_width() -> u32 {
        16
    }

    /// The side of the square an enemy fills, in world units.
    #[verifier::when_used_as_spec(spec_width)]
    pub fn width() -> (side: u32)
        ensures
            side == 16,
    {
        16
    }

    /// The damage one hit of an enemy does.
    pub fn attack_power() -> (power: u32)
        ensures
            power == 12,
    {
        12
    }

    /// Which of the walls on the four edges of the enemy's cell the enemy
    /// touches.
    pub fn get_collisions(
        &self,
        top_wall: Option<&Wall>,
        right_wall: Option<&Wall>,
        bottom_wall: Option<&Wall>,
        left_wall: Option<&Wall>,
    ) -> (hits: (bool, bool, bool, bool))
        ensures
            hits == wall_hits(self.pos, 16, top_wall, right_wall, bottom_wall, left_wall),
    {
        collisions_with(self.pos, Enemy::width(), top_wall, right_wall, bottom_wall, left_wall)
    }

    /// What an idle enemy takes up.
    pub fn plan(
        &self,
        player_square: GridCoord,
        button_square: GridCoord,
        walls: &Vec<Wall>,
        blocked_squares: &Vec<GridCoord>,
    ) -> (plan: EnemyBehavior)
        requires
            all_aligned(walls@),
        ensures
            plan_allows(self.pos, player_square, button_square, walls@, blocked_squares@, plan@),
    {
        let enemy_square = self.pos.to_grid_coord();
        let player_distance = squared_offset(enemy_square.x, enemy_square.y, player_square.x, player_square.y);
        if player_distance <= 49 {
            match path_to(enemy_square, player_square, walls, blocked_squares) {
                Some(path_to_player) => EnemyBehavior::TargetPlayer(0, ERRAND_LENGTH, path_to_player),
                None => EnemyBehavior::Idle,
            }
        } else {
            match path_to(enemy_square, button_square, walls, blocked_squares) {
                Some(path_to_button) => EnemyBehavior::WalkToButton(0, ERRAND_LENGTH, path_to_button),
                None => {
                    //find closest wall to enemy
                    match nearest_wall(walls, self.pos) {
                        Some(i) => {
                            let target_grid_square = cell_to_attack(&walls[i], self.pos);
                            match path_to(enemy_square, target_grid_square, walls, blocked_squares) {
                                Some(path) => EnemyBehavior::AttackWalls(0, ERRAND_LENGTH, path),
                                None => EnemyBehavior::Idle,
                            }
                        },
                        None => EnemyBehavior::Idle,
                    }
                },
            }
        }
    }

    /// The enemy one tick later, for an enemy on an errand: see `walked`. An
    /// errand that ends leaves the enemy idle. An idle enemy stays as it is.
    pub open spec fn followed(enemy: EnemyView) -> EnemyView {
        match enemy.behavior {
            BehaviorView::Idle => enemy,
            BehaviorView::WalkToButton(curr, max, path) => {
                let next = walked(enemy.pos, curr, max, path);
                EnemyView {
                    pos: next.3,
                    behavior: if next.0 {
                        BehaviorView::WalkToButton(next.1, max, next.2)
                    } else {
                        BehaviorView::Idle
                    },
                    ..enemy
                }
            },
            BehaviorView::TargetPlayer(curr, max, path) => {
                let next = walked(enemy.pos, curr, max, path);
                EnemyView {
                    pos: next.3,
                    behavior: if next.0 {
                        BehaviorView::TargetPlayer(next.1, max, next.2)
                    } else {
                        BehaviorView::Idle
                    },
                    ..enemy
                }
            },
            BehaviorView::AttackWalls(curr, max, path) => {
                let next = walked(enemy.pos, curr, max, path);
                EnemyView {
                    pos: next.3,
                    behavior: if next.0 {
                        BehaviorView::AttackWalls(next.1, max, next.2)
                    } else {
                        BehaviorView::Idle
                    },
                    ..enemy
                }
            },
        }
    }

    /// Takes an enemy on an errand through one tick.
    pub fn follow_path(&mut self)
        requires
            old(self).pos.in_arena(),
        ensures
            final(self)@ == Self::followed(old(self)@),
    {
        let pos = self.pos;
        let (behavior, next_pos) = match &self.behavior {
            EnemyBehavior::Idle => (EnemyBehavior::Idle, pos),
            EnemyBehavior::WalkToButton(curr, max, path) => {
                let next = walk(pos, *curr, *max, path);
                if next.0 {
                    (EnemyBehavior::WalkToButton(next.1, *max, next.2), next.3)
                } else {
                    (EnemyBehavior::Idle, next.3)
                }
            },
            EnemyBehavior::TargetPlayer(curr, max, path) => {
                let next = walk(pos, *curr, *max, path);
                if next.0 {
                    (EnemyBehavior::TargetPlayer(next.1, *max, next.2), next.3)
                } else {
                    (EnemyBehavior::Idle, next.3)
                }
            },
            EnemyBehavior::AttackWalls(curr, max, path) => {
                let next = walk(pos, *curr, *max, path);
                if next.0 {
                    (EnemyBehavior::AttackWalls(next.1, *max, next.2), next.3)
                } else {
                    (EnemyBehavior::Idle, next.3)
                }
            },
        };
        self.behavior = behavior;
        self.pos = next_pos;
    }
}

} // verus!
