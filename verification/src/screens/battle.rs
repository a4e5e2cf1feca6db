use vstd::prelude::*;
use crate::battle_objects::ability_plots::{find_plot, plot_at, AbilityPlot};
use crate::battle_objects::battle_player::{wall_hit, Ability, BattlePlayerContext, PlayerState};
use crate::battle_objects::buildables::{
    all_aligned,
    find_wall,
    fresh_wall,
    one_edge,
    place_wall,
    wall_on_edge,
    walls_after_placing,
    walls_aligned,
    Wall,
    Window,
};
use crate::battle_objects::button::{Button, ButtonState};
use crate::battle_objects::camera::{scrolled_axis, CameraState};
use crate::battle_objects::coordinates::{BattleError, Direction, GameCoord, GridCoord};
use crate::battle_objects::enemy::{plan_allows, BehaviorView, Enemy, EnemyBehavior, EnemyView};
use crate::battle_objects::other_player::OtherPlayer;
use crate::battle_objects::projectiles::FriendlyProjectile;
use crate::game_context::{GameContext, GameObject};
use crate::input::{get_player_intent_vector, InputState};
use crate::utils::collisions::{lemma_reversed_line_hits, segment_hits_square};

verus! {

/// How far a battle has come. It starts, runs, and ends, and never goes
/// back.
#[derive(Clone, Copy, Debug, PartialEq, Eq, Structural)]
pub enum BattleState {
    Starting,
    Live,
    Finished,
}

/// One of the two action buttons, and the ability slot that goes with it.
#[derive(Clone, Copy, Debug, PartialEq, Eq, Structural)]
pub enum ActionButton {
    Primary,
    Secondary,
}

/// What a tick asks the caller to do.
#[derive(Clone, Copy, Debug, PartialEq, Eq, Structural)]
pub enum TickAction {
    Nothing,
    /// Start the music of the battle, and keep it playing.
    StartMusic,
}

/// A battle and all that is in it.
pub struct BattleContext {
    pub state: BattleState,
    pub player: BattlePlayerContext,
    pub round_time: u32,  //frame count for the battle context
    pub camera_state: CameraState,
    pub button: Button,
    pub other_players: Vec<OtherPlayer>,
    pub walls: Vec<Wall>,
    pub windows: Vec<Window>,
    pub friendly_projectiles: Vec<FriendlyProjectile>,
    pub enemies: Vec<Enemy>,
    pub ability_plots: Vec<AbilityPlot>,
}

/// Whether a wall lies on the edge from `a` to `b` and that edge touches the
/// square of side `width` around `center`.
pub open spec fn edge_hit(walls: Seq<Wall>, a: GameCoord, b: GameCoord, center: GameCoord, width: u32) -> bool {
    wall_on_edge(walls, a, b) && segment_hits_square((a.as_point(), b.as_point()), (center.as_point(), width))
}

/// Where an actor of side `width` at `pos` stands once the walls on the four
/// edges of its cell have pushed it back. A wall that the actor touches
/// moves it, across the wall, to half a cell from the wall, on the side of
/// the cell. The edges are taken in the order north, east, south, west, and
/// a later one overrules an earlier one on the same axis.
pub open spec fn resolved(pos: GameCoord, width: u32, walls: Seq<Wall>) -> GameCoord {
    let cell = pos.to_grid_coord();
    let top = edge_hit(walls, cell.top_left(), cell.top_right(), pos, width);
    let right = edge_hit(walls, cell.top_right(), cell.bottom_right(), pos, width);
    let bottom = edge_hit(walls, cell.bottom_right(), cell.bottom_left(), pos, width);
    let left = edge_hit(walls, cell.bottom_left(), cell.top_left(), pos, width);
    GameCoord {
        x: if left {
            (cell.top_left().x + 10) as i32
        } else if right {
            (cell.top_right().x - 10) as i32
        } else {
            pos.x
        },
        y: if bottom {
            (cell.bottom_left().y - 10) as i32
        } else if top {
            (cell.top_left().y + 10) as i32
        } else {
            pos.y
        },
    }
}

/// Whether an enemy may come out of one tick of a live battle as `after`.
/// An idle enemy stays where it is and takes up a plan; an enemy on an
/// errand follows its path.
pub open spec fn enemy_ticked(
    before: EnemyView,
    after: EnemyView,
    player_cell: GridCoord,
    button_cell: GridCoord,
    walls: Seq<Wall>,
    blocked: Seq<GridCoord>,
) -> bool {
    match before.behavior {
        BehaviorView::Idle => {
            &&& after.pos == before.pos
            &&& after.snapped_facing_vector == before.snapped_facing_vector
            &&& after.health == before.health
            &&& plan_allows(before.pos, player_cell, button_cell, walls, blocked, after.behavior)
        },
        _ => after == Enemy::followed(before),
    }
}

/// The cells that the enemies begin a battle on.
pub open spec fn first_enemy_cells() -> Seq<GridCoord> {
    seq![
        GridCoord { x: 10, y: 10 },
        GridCoord { x: 10, y: -10i32 },
        GridCoord { x: -10i32, y: 10 },
        GridCoord { x: -10i32, y: -10i32 },
        GridCoord { x: 12, y: 12 },
        GridCoord { x: 9, y: 11 },
    ]
}

/// The plots of a battle, one for each ability, in a ring around the middle.
pub open spec fn first_plots() -> Seq<AbilityPlot> {
    seq![
        AbilityPlot { pos: GridCoord { x: -1i32, y: -2i32 }, ability: Ability::MeleeAttack },
        AbilityPlot { pos: GridCoord { x: 1, y: -2i32 }, ability: Ability::Armor },
        AbilityPlot { pos: GridCoord { x: 2, y: -1i32 }, ability: Ability::RangeAttack },
        AbilityPlot { pos: GridCoord { x: 2, y: 1 }, ability: Ability::Vision },
        AbilityPlot { pos: GridCoord { x: 1, y: 2 }, ability: Ability::Build },
        AbilityPlot { pos: GridCoord { x: -1i32, y: 2 }, ability: Ability::Repair },
        AbilityPlot { pos: GridCoord { x: -2i32, y: -1i32 }, ability: Ability::ButtonPress },
        AbilityPlot { pos: GridCoord { x: -2i32, y: 1 }, ability: Ability::Heal },
    ]
}

/// An enemy as it begins a battle on `cell`.
pub open spec fn first_enemy(cell: GridCoord) -> EnemyView {
    EnemyView {
        pos: cell.center(),
        snapped_facing_vector: Direction::North,
        health: (100, 100),
        behavior: BehaviorView::Idle,
    }
}

/// An idle enemy in full health in the middle of the cell `(x, y)`.
fn idle_enemy(x: i32, y: i32) -> (enemy: Enemy)
    requires
        -100 <= x <= 100,
        -100 <= y <= 100,
    ensures
        enemy@ == first_enemy(GridCoord { x, y }),
{
    Enemy {
        pos: (GridCoord { x, y }).center(),
        snapped_facing_vector: Direction::North,
        behavior: EnemyBehavior::Idle,
        health: (100, 100),
    }
}

/// The four edges of a cell run between corners of the grid one cell apart.
proof fn lemma_cell_edges(cell: GridCoord)
    requires
        cell.in_bounds(),
    ensures
        one_edge(cell.top_left(), cell.top_right()),
        one_edge(cell.bottom_left(), cell.bottom_right()),
        one_edge(cell.top_left(), cell.bottom_left()),
        one_edge(cell.top_right(), cell.bottom_right()),
{
}

/// A wall on an edge touches a square exactly when the edge does,
/// whichever way round the wall is held.
proof fn lemma_hit_on_edge(wall: &Wall, a: GameCoord, b: GameCoord, center: GameCoord, width: u32)
    requires
        wall.spans(a, b),
    ensures
        wall_hit(Some(wall), center, width) == segment_hits_square(
            (a.as_point(), b.as_point()),
            (center.as_point(), width),
        ),
{
    lemma_reversed_line_hits((a.as_point(), b.as_point()), (center.as_point(), width));
}

/// An actor that touches the wall on an edge of its cell ends half a cell
/// from that wall, however far it had gone into it: north and south walls
/// set its `y`, west and east walls its `x`.
pub proof fn lemma_wall_clamps(pos: GameCoord, walls: Seq<Wall>)
    requires
        pos.in_arena(),
    ensures
        edge_hit(walls, pos.to_grid_coord().top_left(), pos.to_grid_coord().top_right(), pos, 16) ==> resolved(
            pos,
            16,
            walls,
        ).y == pos.to_grid_coord().top_left().y + 10,
        edge_hit(walls, pos.to_grid_coord().bottom_right(), pos.to_grid_coord().bottom_left(), pos, 16)
            ==> resolved(pos, 16, walls).y == pos.to_grid_coord().bottom_left().y - 10,
        edge_hit(walls, pos.to_grid_coord().bottom_left(), pos.to_grid_coord().top_left(), pos, 16) ==> resolved(
            pos,
            16,
            walls,
        ).x == pos.to_grid_coord().top_left().x + 10,
        edge_hit(walls, pos.to_grid_coord().top_right(), pos.to_grid_coord().bottom_right(), pos, 16)
            ==> resolved(pos, 16, walls).x == pos.to_grid_coord().top_right().x - 10,
{
}

/// A battle never goes back: one that is live stays live, one that has ended
/// stays ended, and one about to start goes live with its first tick.
pub proof fn lemma_battle_moves_on(
    before: BattleContext,
    after: BattleContext,
    input: InputState,
    outcome: Result<TickAction, BattleError>,
)
    requires
        before.tick_outcome(after, input, outcome),
    ensures
        before.state == BattleState::Finished ==> after.state == BattleState::Finished,
        before.state == BattleState::Live ==> after.state == BattleState::Live,
        before.state == BattleState::Starting ==> after.state == BattleState::Starting || after.state
            == BattleState::Live,
        (outcome matches Ok(action) && action == TickAction::StartMusic) <==> (before.state == BattleState::Starting
            && input.well_formed()),
{
}

/// Building where a wall stands, between the same two corners in either
/// order, leaves the walls as they are; and building twice on one edge
/// leaves the walls as building once does.
pub proof fn lemma_no_second_wall(walls: Seq<Wall>, ends: (GameCoord, GameCoord), again: (GameCoord, GameCoord))
    requires
        again == ends || again == (ends.1, ends.0),
    ensures
        wall_on_edge(walls, ends.0, ends.1) ==> walls_after_placing(walls, again) == walls,
        walls_after_placing(walls_after_placing(walls, ends), again) == walls_after_placing(walls, ends),
        walls_after_placing(walls, ends).len() <= walls.len() + 1,
{
    if wall_on_edge(walls, ends.0, ends.1) {
        let i = choose|i: int| 0 <= i < walls.len() && #[trigger] walls[i].spans(ends.0, ends.1);
        assert(walls[i].spans(again.0, again.1));
    } else {
        let built = walls.push(fresh_wall(ends));
        assert(built[walls.len() as int].spans(again.0, again.1));
    }
}

/// The wall at the place `at`, if a place is given.
fn wall_at(walls: &Vec<Wall>, at: Option<usize>) -> (wall: Option<&Wall>)
    requires
        at matches Some(i) ==> i < walls.len(),
    ensures
        at matches Some(i) ==> wall == Some(&walls@[i as int]),
        at is None ==> wall is None,
{
    match at {
        Some(i) => Some(&walls[i]),
        None => None,
    }
}

/// The position `pos` in `cell`, set back to half a cell from each wall that
/// was hit: north, east, south, west in `hits`.
fn snap(pos: GameCoord, cell: GridCoord, hits: (bool, bool, bool, bool)) -> (settled: GameCoord)
    requires
        cell.in_bounds(),
    ensures
        settled.x == if hits.3 {
            cell.top_left().x + 10
        } else if hits.1 {
            cell.top_right().x - 10
        } else {
            pos.x as int
        },
        settled.y == if hits.2 {
            cell.bottom_left().y - 10
        } else if hits.0 {
            cell.top_left().y + 10
        } else {
            pos.y as int
        },
{
    let mut settled = pos;
    if hits.0 {
        //snap to bottom of top wall
        settled.y = cell.top_left().y + GridCoord::grid_size() / 2;
    }
    if hits.1 {
        //snap to left of right wall
        settled.x = cell.top_right().x - GridCoord::grid_size() / 2;
    }
    if hits.2 {
        //snap to top of bottom wall
        settled.y = cell.bottom_right().y - GridCoord::grid_size() / 2;
    }
    if hits.3 {
        //snap to right of left wall
        settled.x = cell.bottom_left().x + GridCoord::grid_size() / 2;
    }
    settled
}

/// Where the player stands once the walls on the four edges of its cell
/// have pushed it back.
fn settle_player(player: &BattlePlayerContext, walls: &Vec<Wall>) -> (settled: GameCoord)
    requires
        player.game_coord.in_arena(),
    ensures
        settled == resolved(player.game_coord, 16, walls@),
        settled.in_arena(),
{
    let pos = player.game_coord;
    let cell = pos.to_grid_coord();
    let top_left = cell.top_left();
    let top_right = cell.top_right();
    let bottom_right = cell.bottom_right();
    let bottom_left = cell.bottom_left();
    //find wall above player if one exists
    let top = find_wall(walls, top_left, top_right);
    let right = find_wall(walls, top_right, bottom_right);
    let bottom = find_wall(walls, bottom_right, bottom_left);
    let left = find_wall(walls, bottom_left, top_left);
    let top_wall = wall_at(walls, top);
    let right_wall = wall_at(walls, right);
    let bottom_wall = wall_at(walls, bottom);
    let left_wall = wall_at(walls, left);
    let hits = player.get_collisions(top_wall, right_wall, bottom_wall, left_wall);
    proof {
        if let Some(wall) = top_wall {
            lemma_hit_on_edge(wall, top_left, top_right, pos, 16);
        }
        if let Some(wall) = right_wall {
            lemma_hit_on_edge(wall, top_right, bottom_right, pos, 16);
        }
        if let Some(wall) = bottom_wall {
            lemma_hit_on_edge(wall, bottom_right, bottom_left, pos, 16);
        }
        if let Some(wall) = left_wall {
            lemma_hit_on_edge(wall, bottom_left, top_left, pos, 16);
        }
    }
    snap(pos, cell, hits)
}

/// Where an enemy stands once the walls on the four edges of its cell have
/// pushed it back.
fn settle_enemy(enemy: &Enemy, walls: &Vec<Wall>) -> (settled: GameCoord)
    requires
        enemy.pos.in_arena(),
    ensures
        settled == resolved(enemy.pos, 16, walls@),
        settled.in_arena(),
{
    let pos = enemy.pos;
    let cell = pos.to_grid_coord();
    let top_left = cell.top_left();
    let top_right = cell.top_right();
    let bottom_right = cell.bottom_right();
    let bottom_left = cell.bottom_left();
    let top = find_wall(walls, top_left, top_right);
    let right = find_wall(walls, top_right, bottom_right);
    let bottom = find_wall(walls, bottom_right, bottom_left);
    let left = find_wall(walls, bottom_left, top_left);
    let top_wall = wall_at(walls, top);
    let right_wall = wall_at(walls, right);
    let bottom_wall = wall_at(walls, bottom);
    let left_wall = wall_at(walls, left);
    let hits = enemy.get_collisions(top_wall, right_wall, bottom_wall, left_wall);
    proof {
        if let Some(wall) = top_wall {
            lemma_hit_on_edge(wall, top_left, top_right, pos, 16);
        }
        if let Some(wall) = right_wall {
            lemma_hit_on_edge(wall, top_right, bottom_right, pos, 16);
        }
        if let Some(wall) = bottom_wall {
            lemma_hit_on_edge(wall, bottom_right, bottom_left, pos, 16);
        }
        if let Some(wall) = left_wall {
            lemma_hit_on_edge(wall, bottom_left, top_left, pos, 16);
        }
    }
    snap(pos, cell, hits)
}

impl BattleContext {
    /// Whether this is a battle as it begins: about to start, with the
    /// player east of the middle and facing east with nothing learned, six
    /// idle enemies, the eight plots, and no wall.
    pub open spec fn is_fresh(&self) -> bool {
        &&& self.state == BattleState::Starting
        &&& self.round_time == 0
        &&& self.player.faces_its_angle()
        &&& self.player == (BattlePlayerContext {
            facing_vector: 0,
            state: PlayerState::Standing,
            base_vision_range: 5,
            ability_primary: Ability::Blank,
            ability_secondary: Ability::Blank,
            game_coord: GameCoord { x: 150, y: -150i32 },
            snapped_facing_vector: Direction::East,
        })
        &&& self.button == (Button { pos: GridCoord { x: 0, y: 0 }, state: ButtonState::NeverPressed })
        &&& self.camera_state == (CameraState { pos: GameCoord { x: 0, y: 0 }, scale: 1100 })
        &&& self.walls@.len() == 0
        &&& self.windows@.len() == 0
        &&& self.other_players@.len() == 0
        &&& self.friendly_projectiles@.len() == 0
        &&& self.enemies@.len() == 6
        &&& forall|i: int| 0 <= i < 6 ==> (#[trigger] self.enemies[i])@ == first_enemy(first_enemy_cells()[i])
        &&& self.ability_plots@ == first_plots()
    }

    /// A battle as it begins.
    pub fn new() -> (battle: BattleContext)
        ensures
            battle.is_fresh(),
            battle.can_tick(),
    {
        let mut enemies: Vec<Enemy> = Vec::new();
        enemies.push(idle_enemy(10, 10));
        enemies.push(idle_enemy(10, -10));
        enemies.push(idle_enemy(-10, 10));
        enemies.push(idle_enemy(-10, -10));
        enemies.push(idle_enemy(12, 12));
        enemies.push(idle_enemy(9, 11));
        let mut ability_plots: Vec<AbilityPlot> = Vec::new();
        ability_plots.push(AbilityPlot { pos: GridCoord { x: -1, y: -2 }, ability: Ability::MeleeAttack });
        ability_plots.push(AbilityPlot { pos: GridCoord { x: 1, y: -2 }, ability: Ability::Armor });
        ability_plots.push(AbilityPlot { pos: GridCoord { x: 2, y: -1 }, ability: Ability::RangeAttack });
        ability_plots.push(AbilityPlot { pos: GridCoord { x: 2, y: 1 }, ability: Ability::Vision });
        ability_plots.push(AbilityPlot { pos: GridCoord { x: 1, y: 2 }, ability: Ability::Build });
        ability_plots.push(AbilityPlot { pos: GridCoord { x: -1, y: 2 }, ability: Ability::Repair });
        ability_plots.push(AbilityPlot { pos: GridCoord { x: -2, y: -1 }, ability: Ability::ButtonPress });
        ability_plots.push(AbilityPlot { pos: GridCoord { x: -2, y: 1 }, ability: Ability::Heal });
        proof {
            assert(ability_plots@ =~= first_plots());
        }
        BattleContext {
            state: BattleState::Starting,
            round_time: 0,
            player: BattlePlayerContext {
                facing_vector: 0,
                state: PlayerState::Standing,
                base_vision_range: 5,
                ability_primary: Ability::Blank,
                ability_secondary: Ability::Blank,
                game_coord: GameCoord { x: 150, y: -150 },
                snapped_facing_vector: Direction::East,
            },
            button: Button::new(),
            camera_state: CameraState::new(),
            walls: Vec::new(),
            windows: Vec::new(),
            other_players: Vec::new(),
            friendly_projectiles: Vec::new(),
            enemies,
            ability_plots,
        }
    }

    /// A battle as it begins, for the game `_game_object`.
    pub fn from_game_object(_game_object: &GameObject) -> (battle: BattleContext)
        ensures
            battle.is_fresh(),
            battle.can_tick(),
    {
        BattleContext::new()
    }

    /// How many ticks learning an ability takes.
    pub fn get_learning_time(&self) -> (ticks: u32)
        ensures
            ticks == 30,
    {
        30
    }

    /// Whether the battle can take one tick without leaving the machine's
    /// numbers, and has no wall that is not along one edge of a cell.
    pub open spec fn can_tick(&self) -> bool {
        &&& self.round_time < u32::MAX
        &&& self.button.state.can_count()
        &&& self.player.game_coord.in_arena()
        &&& forall|i: int| 0 <= i < self.enemies.len() ==> (#[trigger] self.enemies[i]).pos.in_arena()
        &&& all_aligned(self.walls@)
    }

    /// Whether the battle can take one tick.
    pub fn is_tickable(&self) -> (yes: bool)
        ensures
            yes == self.can_tick(),
    {
        if self.round_time == u32::MAX || !self.button.state.is_countable()
            || !self.player.game_coord.is_in_arena() || !walls_aligned(&self.walls) {
            return false;
        }
        let mut i: usize = 0;
        while i < self.enemies.len()
            invariant
                i <= self.enemies.len(),
                forall|j: int| 0 <= j < i ==> (#[trigger] self.enemies[j]).pos.in_arena(),
            decreases self.enemies.len() - i,
        {
            if !self.enemies[i].pos.is_in_arena() {
                return false;
            }
            i += 1;
        }
        true
    }

    /// The player once the walls have pushed it back.
    pub open spec fn settled_player(&self) -> BattlePlayerContext {
        BattlePlayerContext { game_coord: resolved(self.player.game_coord, 16, self.walls@), ..self.player }
    }

    /// The enemy number `i` once the walls have pushed it back.
    pub open spec fn settled_enemy(&self, i: int) -> EnemyView {
        EnemyView { pos: resolved(self.enemies[i].pos, 16, self.walls@), ..self.enemies[i]@ }
    }

    /// The cells of the enemies once the walls have pushed them back.
    pub open spec fn enemy_cells(&self) -> Seq<GridCoord> {
        Seq::new(self.enemies.len() as nat, |i: int| self.settled_enemy(i).pos.to_grid_coord())
    }

    /// Whether `after` may be this battle one tick later, with `action` left
    /// for the caller to do.
    ///
    /// In every state the tick counts a frame and lets the walls push the
    /// player and the enemies back. A battle about to start then goes live
    /// and asks for its music. A live battle moves its camera toward the
    /// player, counts a tick of the button, takes the player through the
    /// input, builds the wall that the player has finished placing, and
    /// then takes each enemy through a tick: the enemies reckon with the
    /// player where it now stands, with the walls as they now are, and with
    /// the cells that the enemies stood on before any of them moved.
    pub open spec fn ticked_to(&self, after: BattleContext, input: InputState, action: TickAction) -> bool {
        let player = self.settled_player();
        &&& after.round_time == self.round_time + 1
        &&& after.other_players == self.other_players
        &&& after.windows == self.windows
        &&& after.friendly_projectiles == self.friendly_projectiles
        &&& after.ability_plots == self.ability_plots
        &&& after.enemies.len() == self.enemies.len()
        &&& match self.state {
            BattleState::Live => {
                &&& action == TickAction::Nothing
                &&& after.state == BattleState::Live
                &&& after.camera_state.scale == self.camera_state.scale
                &&& after.camera_state.pos.x == scrolled_axis(
                    self.camera_state.pos.x as int,
                    player.game_coord.x as int,
                )
                &&& after.camera_state.pos.y == scrolled_axis(
                    self.camera_state.pos.y as int,
                    player.game_coord.y as int,
                )
                &&& after.button.pos == self.button.pos
                &&& after.button.state == self.button.state.ticked()
                &&& after.player == player.after_input(
                    plot_at(self.ability_plots@, player.game_coord.to_grid_coord()),
                    input.intent,
                    input.btn_down,
                    input.btn_right,
                    30,
                )
                &&& after.walls@ == match player.wall_wanted(input.btn_down, input.btn_right) {
                    Some(ends) => walls_after_placing(self.walls@, ends),
                    None => self.walls@,
                }
                &&& forall|i: int|
                    0 <= i < self.enemies.len() ==> enemy_ticked(
                        self.settled_enemy(i),
                        (#[trigger] after.enemies[i])@,
                        after.player.game_coord.to_grid_coord(),
                        self.button.pos,
                        after.walls@,
                        self.enemy_cells(),
                    )
            },
            _ => {
                &&& action == if self.state == BattleState::Starting {
                    TickAction::StartMusic
                } else {
                    TickAction::Nothing
                }
                &&& after.state == if self.state == BattleState::Starting {
                    BattleState::Live
                } else {
                    BattleState::Finished
                }
                &&& after.camera_state == self.camera_state
                &&& after.button == self.button
                &&& after.player == player
                &&& after.walls@ == self.walls@
                &&& forall|i: int|
                    0 <= i < self.enemies.len() ==> (#[trigger] after.enemies[i])@ == self.settled_enemy(i)
            },
        }
    }

    /// Whether a tick on `input` may end in `outcome` and leave `after`. An
    /// intent that is no valid facing angle is refused and changes nothing.
    pub open spec fn tick_outcome(
        &self,
        after: BattleContext,
        input: InputState,
        outcome: Result<TickAction, BattleError>,
    ) -> bool {
        if input.well_formed() {
            outcome matches Ok(action) && self.ticked_to(after, input, action)
        } else {
            outcome == Err::<TickAction, BattleError>(BattleError::InvalidFacing) && after == *self
        }
    }

    /// The enemies, each pushed back by the walls.
    fn settle_enemies(&self) -> (settled: Vec<Enemy>)
        requires
            forall|i: int| 0 <= i < self.enemies.len() ==> (#[trigger] self.enemies[i]).pos.in_arena(),
        ensures
            settled.len() == self.enemies.len(),
            forall|i: int| 0 <= i < settled.len() ==> (#[trigger] settled[i])@ == self.settled_enemy(i),
            forall|i: int| 0 <= i < settled.len() ==> (#[trigger] settled[i]).pos.in_arena(),
    {
        let mut settled: Vec<Enemy> = Vec::new();
        let mut i: usize = 0;
        while i < self.enemies.len()
            invariant
                i <= self.enemies.len(),
                settled.len() == i,
                forall|j: int| 0 <= j < self.enemies.len() ==> (#[trigger] self.enemies[j]).pos.in_arena(),
                forall|j: int| 0 <= j < i ==> (#[trigger] settled[j])@ == self.settled_enemy(j),
                forall|j: int| 0 <= j < i ==> (#[trigger] settled[j]).pos.in_arena(),
            decreases self.enemies.len() - i,
        {
            let mut enemy = self.enemies[i].clone();
            enemy.pos = settle_enemy(&self.enemies[i], &self.walls);
            settled.push(enemy);
            i += 1;
        }
        settled
    }

    /// Takes the battle through one tick.
    pub fn advance(&mut self, input_state: &InputState) -> (outcome: Result<TickAction, BattleError>)
        requires
            old(self).can_tick(),
        ensures
            old(self).tick_outcome(*final(self), *input_state, outcome),
            all_aligned(final(self).walls@),
    {
        let intent = get_player_intent_vector(input_state);
        if let Some(angle) = intent {
            if Direction::from_facing_vector(angle).is_err() {
                return Err(BattleError::InvalidFacing);
            }
        }
        self.round_time += 1;
        let learning_timer = self.get_learning_time();
        //check collisions
        self.player.game_coord = settle_player(&self.player, &self.walls);
        //check collisions for all enemies
        let settled = self.settle_enemies();
        match self.state {
            BattleState::Starting => {
                self.enemies = settled;
                self.state = BattleState::Live;
                //the caller loads and starts the music loop
                Ok(TickAction::StartMusic)
            },
            BattleState::Live => {
                self.camera_state.smooth_scroll(&self.player.game_coord);
                self.button.update();
                let player_grid = self.player.game_coord.to_grid_coord();
                let plot = find_plot(&self.ability_plots, player_grid);
                let wanted = self.player.handle_input(
                    plot,
                    intent,
                    input_state.btn_down,
                    input_state.btn_right,
                    learning_timer,
                );
                if let Some(ends) = wanted {
                    proof {
                        lemma_cell_edges(player_grid);
                    }
                    place_wall(&mut self.walls, ends);
                }
                let player_square = self.player.game_coord.to_grid_coord();
                let mut enemy_coords: Vec<GridCoord> = Vec::new();
                let mut k: usize = 0;
                while k < settled.len()
                    invariant
                        k <= settled.len(),
                        enemy_coords.len() == k,
                        forall|j: int|
                            0 <= j < k ==> #[trigger] enemy_coords[j] == settled[j].pos.to_grid_coord(),
                    decreases settled.len() - k,
                {
                    enemy_coords.push(settled[k].pos.to_grid_coord());
                    k += 1;
                }
                proof {
                    assert(enemy_coords@ =~= old(self).enemy_cells());
                }
                let mut next: Vec<Enemy> = Vec::new();
                let mut i: usize = 0;
                while i < settled.len()
                    invariant
                        i <= settled.len(),
                        next.len() == i,
                        settled.len() == old(self).enemies.len(),
                        all_aligned(self.walls@),
                        forall|j: int| 0 <= j < settled.len() ==> (#[trigger] settled[j]).pos.in_arena(),
                        forall|j: int|
                            0 <= j < settled.len() ==> (#[trigger] settled[j])@ == old(self).settled_enemy(j),
                        forall|j: int|
                            0 <= j < i ==> enemy_ticked(
                                old(self).settled_enemy(j),
                                (#[trigger] next[j])@,
                                player_square,
                                self.button.pos,
                                self.walls@,
                                enemy_coords@,
                            ),
                    decreases settled.len() - i,
                {
                    let mut enemy = settled[i].clone();
                    let idle = match &enemy.behavior {
                        EnemyBehavior::Idle => true,
                        _ => false,
                    };
                    if idle {
                        let plan = enemy.plan(player_square, self.button.pos, &self.walls, &enemy_coords);
                        enemy.behavior = plan;
                    } else {
                        enemy.follow_path();
                    }
                    next.push(enemy);
                    i += 1;
                }
                self.enemies = next;
                Ok(TickAction::Nothing)
            },
            BattleState::Finished => {
                self.enemies = settled;
                Ok(TickAction::Nothing)
            },
        }
    }

    /// Takes a game that is in a battle through one tick.
    pub fn handle_tick(game_obj: &mut GameObject, input_state: &InputState) -> (outcome: Result<
        TickAction,
        BattleError,
    >)
        requires
            old(game_obj).phase matches GameContext::Battle(battle) && battle.can_tick(),
        ensures
            final(game_obj).player == old(game_obj).player,
            old(game_obj).phase matches GameContext::Battle(before) && final(game_obj).phase matches GameContext::Battle(
                after,
            ) && before.tick_outcome(after, *input_state, outcome),
    {
        match &mut game_obj.phase {
            GameContext::Battle(battle_context) => battle_context.advance(input_state),
            GameContext::StartScreen(_) => Ok(TickAction::Nothing),
        }
    }
}

} // verus!
