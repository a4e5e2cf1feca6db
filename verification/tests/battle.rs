use battle_core::battle_objects::ability_plots::{find_plot, AbilityPlot};
use battle_core::battle_objects::battle_player::{Ability, PlayerState};
use battle_core::battle_objects::buildables::Wall;
use battle_core::battle_objects::button::{Button, ButtonState};
use battle_core::battle_objects::camera::CameraState;
use battle_core::battle_objects::coordinates::{BattleError, Direction, GameCoord, GridCoord};
use battle_core::battle_objects::enemy::{Enemy, EnemyBehavior};
use battle_core::game_context::{GameContext, GameObject, Player};
use battle_core::input::{get_player_intent_vector, InputState};
use battle_core::screens::battle::{ActionButton, BattleContext, BattleState, TickAction};
use battle_core::screens::start::{StartScreenContext, StartScreenState};

fn cell(x: i32, y: i32) -> GridCoord {
    GridCoord { x, y }
}

fn point(x: i32, y: i32) -> GameCoord {
    GameCoord { x, y }
}

fn wall(a: (i32, i32), b: (i32, i32)) -> Wall {
    Wall { endpoints: (point(a.0, a.1), point(b.0, b.1)), health: (100, 100) }
}

fn input(intent: Option<i32>, primary: bool, secondary: bool) -> InputState {
    InputState { intent, btn_down: primary, btn_right: secondary, btn_start: false, shutdown: false }
}

/// A live battle with no enemy in it.
fn quiet_battle() -> BattleContext {
    let mut battle = BattleContext::new();
    battle.state = BattleState::Live;
    battle.enemies.clear();
    battle
}

#[test]
fn a_battle_begins_as_laid_out() {
    let battle = BattleContext::new();
    assert_eq!(battle.state, BattleState::Starting);
    assert_eq!(battle.round_time, 0);
    assert_eq!(battle.player.game_coord, point(150, -150));
    assert_eq!(battle.player.facing_vector, 0);
    assert_eq!(battle.player.snapped_facing_vector, Direction::East);
    assert_eq!(battle.player.state, PlayerState::Standing);
    assert_eq!(battle.player.base_vision_range, 5);
    assert_eq!(battle.player.ability_primary, Ability::Blank);
    assert_eq!(battle.player.ability_secondary, Ability::Blank);
    assert_eq!(battle.button, Button { pos: cell(0, 0), state: ButtonState::NeverPressed });
    assert_eq!(battle.camera_state, CameraState { pos: point(0, 0), scale: 1100 });
    assert!(battle.walls.is_empty() && battle.windows.is_empty());
    assert!(battle.other_players.is_empty() && battle.friendly_projectiles.is_empty());
    let spots = [(200, 200), (200, -200), (-200, 200), (-200, -200), (240, 240), (180, 220)];
    assert_eq!(battle.enemies.len(), 6);
    for (enemy, spot) in battle.enemies.iter().zip(spots) {
        assert_eq!(enemy.pos, point(spot.0, spot.1));
        assert_eq!(enemy.health, (100, 100));
        assert!(matches!(enemy.behavior, EnemyBehavior::Idle));
    }
    assert_eq!(battle.ability_plots.len(), 8);
    assert_eq!(find_plot(&battle.ability_plots, cell(-1, -2)), Some(Ability::MeleeAttack));
    assert_eq!(find_plot(&battle.ability_plots, cell(1, -2)), Some(Ability::Armor));
    assert_eq!(find_plot(&battle.ability_plots, cell(2, -1)), Some(Ability::RangeAttack));
    assert_eq!(find_plot(&battle.ability_plots, cell(2, 1)), Some(Ability::Vision));
    assert_eq!(find_plot(&battle.ability_plots, cell(1, 2)), Some(Ability::Build));
    assert_eq!(find_plot(&battle.ability_plots, cell(-1, 2)), Some(Ability::Repair));
    assert_eq!(find_plot(&battle.ability_plots, cell(-2, -1)), Some(Ability::ButtonPress));
    assert_eq!(find_plot(&battle.ability_plots, cell(-2, 1)), Some(Ability::Heal));
    assert_eq!(find_plot(&battle.ability_plots, cell(0, 0)), None);
    assert_eq!(battle.get_learning_time(), 30);
    assert!(battle.is_tickable());
}

#[test]
fn the_first_plot_on_a_cell_teaches() {
    let plots = vec![
        AbilityPlot { pos: cell(1, 1), ability: Ability::Heal },
        AbilityPlot { pos: cell(1, 1), ability: Ability::Build },
    ];
    assert_eq!(find_plot(&plots, cell(1, 1)), Some(Ability::Heal));
    assert_eq!(find_plot(&Vec::new(), cell(1, 1)), None);
}

#[test]
fn the_first_tick_goes_live_and_asks_for_music() {
    let mut battle = BattleContext::new();
    assert_eq!(battle.advance(&input(Some(0), true, false)), Ok(TickAction::StartMusic));
    assert_eq!(battle.state, BattleState::Live);
    assert_eq!(battle.round_time, 1);
    assert_eq!(battle.player.game_coord, point(150, -150));
    assert_eq!(battle.player.state, PlayerState::Standing);
    assert_eq!(battle.camera_state.pos, point(0, 0));
    assert_eq!(battle.enemies.len(), 6);
    assert!(battle.enemies.iter().all(|enemy| matches!(enemy.behavior, EnemyBehavior::Idle)));
    assert_eq!(battle.advance(&input(None, false, false)), Ok(TickAction::Nothing));
    assert_eq!(battle.state, BattleState::Live);
    assert_eq!(battle.round_time, 2);
}

#[test]
fn a_finished_battle_only_counts_frames() {
    let mut battle = BattleContext::new();
    battle.state = BattleState::Finished;
    assert_eq!(battle.advance(&input(Some(0), false, false)), Ok(TickAction::Nothing));
    assert_eq!(battle.state, BattleState::Finished);
    assert_eq!(battle.round_time, 1);
    assert_eq!(battle.player.game_coord, point(150, -150));
    assert_eq!(battle.camera_state.pos, point(0, 0));
    assert_eq!(battle.button.state, ButtonState::NeverPressed);
}

#[test]
fn an_intent_that_is_no_angle_is_refused() {
    for state in [BattleState::Starting, BattleState::Live, BattleState::Finished] {
        let mut battle = BattleContext::new();
        battle.state = state;
        assert_eq!(battle.advance(&input(Some(405001), false, false)), Err(BattleError::InvalidFacing));
        assert_eq!(battle.state, state);
        assert_eq!(battle.round_time, 0);
        assert_eq!(battle.player.game_coord, point(150, -150));
        assert_eq!(battle.enemies.len(), 6);
    }
}

#[test]
fn a_live_tick_moves_the_camera_and_the_player() {
    let mut battle = quiet_battle();
    battle.button.state = ButtonState::Pressed(4, 9);
    assert_eq!(battle.advance(&input(Some(0), false, false)), Ok(TickAction::Nothing));
    // the camera follows where the player stood before it ran
    assert_eq!(battle.camera_state, CameraState { pos: point(15, -15), scale: 1100 });
    assert_eq!(battle.button.state, ButtonState::Pressed(5, 9));
    assert_eq!(battle.player.state, PlayerState::Running);
    assert_eq!(battle.player.facing_vector, 0);
    assert_eq!(battle.player.snapped_facing_vector, Direction::East);
    assert_eq!(battle.player.game_coord, point(152, -150));
    battle.advance(&input(None, false, false)).unwrap();
    assert_eq!(battle.camera_state.pos, point(28, -28));
    assert_eq!(battle.player.state, PlayerState::Standing);
    assert_eq!(battle.round_time, 2);
}

#[test]
fn learning_on_a_plot_teaches_after_the_full_time() {
    let mut battle = quiet_battle();
    // the plot of the melee attack
    battle.player.game_coord = cell(-1, -2).center();
    battle.player.state = PlayerState::Learning(ActionButton::Primary, 29, 30);
    battle.advance(&input(None, true, false)).unwrap();
    assert_eq!(battle.player.state, PlayerState::Learning(ActionButton::Primary, 30, 30));
    assert_eq!(battle.player.ability_primary, Ability::Blank);
    battle.advance(&input(None, true, false)).unwrap();
    assert_eq!(battle.player.state, PlayerState::Standing);
    assert_eq!(battle.player.ability_primary, Ability::MeleeAttack);
    assert_eq!(battle.player.ability_secondary, Ability::Blank);
}

#[test]
fn learning_from_the_start_takes_thirty_two_ticks() {
    let mut battle = quiet_battle();
    battle.player.game_coord = point(33, 22);
    let hold = input(None, false, true);
    battle.advance(&hold).unwrap();
    assert_eq!(battle.player.state, PlayerState::Learning(ActionButton::Secondary, 0, 30));
    for elapsed in 1..=30 {
        battle.advance(&hold).unwrap();
        assert_eq!(battle.player.state, PlayerState::Learning(ActionButton::Secondary, elapsed, 30));
    }
    battle.advance(&hold).unwrap();
    assert_eq!(battle.player.state, PlayerState::Standing);
    assert_eq!(battle.player.ability_secondary, Ability::Vision);
}

#[test]
fn a_finished_placing_builds_one_wall() {
    let mut battle = quiet_battle();
    battle.player.ability_primary = Ability::Build;
    battle.player.game_coord = point(44, -57);
    battle.player.snapped_facing_vector = Direction::North;
    battle.player.state = PlayerState::BuildPlacing(25, 25);
    battle.advance(&input(None, true, false)).unwrap();
    assert_eq!(battle.player.state, PlayerState::Standing);
    assert_eq!(battle.walls.len(), 1);
    assert_eq!(battle.walls[0].endpoints, (point(30, -70), point(50, -70)));
    assert_eq!(battle.walls[0].health, (100, 100));
    // once more on the same edge
    battle.player.state = PlayerState::BuildPlacing(25, 25);
    battle.advance(&input(None, true, false)).unwrap();
    assert_eq!(battle.walls.len(), 1);
    // and from the cell on the other side of it
    battle.player.game_coord = point(44, -80);
    battle.player.snapped_facing_vector = Direction::South;
    battle.player.state = PlayerState::BuildPlacing(25, 25);
    battle.advance(&input(None, true, false)).unwrap();
    assert_eq!(battle.walls.len(), 1);
    battle.player.snapped_facing_vector = Direction::West;
    battle.player.state = PlayerState::BuildPlacing(25, 25);
    battle.advance(&input(None, true, false)).unwrap();
    assert_eq!(battle.walls.len(), 2);
    assert_eq!(battle.walls[1].endpoints, (point(30, -90), point(30, -70)));
    assert!(battle.is_tickable());
}

#[test]
fn a_wall_given_backward_counts_as_there() {
    let mut battle = quiet_battle();
    battle.walls.push(wall((50, -70), (30, -70)));
    battle.player.ability_primary = Ability::Build;
    battle.player.game_coord = point(44, -57);
    battle.player.snapped_facing_vector = Direction::North;
    battle.player.state = PlayerState::BuildPlacing(25, 25);
    battle.advance(&input(None, true, false)).unwrap();
    assert_eq!(battle.walls.len(), 1);
}

#[test]
fn building_from_nothing_takes_its_ticks() {
    let mut battle = quiet_battle();
    battle.player.ability_primary = Ability::Build;
    battle.player.game_coord = point(100, 100);
    let hold = input(None, true, false);
    battle.advance(&hold).unwrap();
    assert_eq!(battle.player.state, PlayerState::BuildPlacing(0, 25));
    for _ in 0..25 {
        battle.advance(&hold).unwrap();
    }
    assert_eq!(battle.player.state, PlayerState::BuildPlacing(25, 25));
    assert!(battle.walls.is_empty());
    battle.advance(&hold).unwrap();
    assert_eq!(battle.player.state, PlayerState::Standing);
    assert_eq!(battle.walls.len(), 1);
    assert_eq!(battle.walls[0].endpoints, (point(110, 90), point(110, 110)));
}

#[test]
fn a_wall_on_the_north_edge_pushes_the_player_back() {
    for y in [-8, -5, -2] {
        let mut battle = quiet_battle();
        battle.walls.push(wall((-10, -10), (10, -10)));
        battle.player.game_coord = point(3, y);
        battle.advance(&input(None, false, false)).unwrap();
        assert_eq!(battle.player.game_coord, point(3, 0));
    }
    let mut battle = quiet_battle();
    battle.walls.push(wall((-10, -10), (10, -10)));
    battle.player.game_coord = point(3, -1);
    battle.advance(&input(None, false, false)).unwrap();
    assert_eq!(battle.player.game_coord, point(3, -1));
}

#[test]
fn walls_on_the_other_edges_push_back_too() {
    let mut battle = quiet_battle();
    battle.walls.push(wall((10, 10), (10, -10)));
    battle.walls.push(wall((-10, 10), (10, 10)));
    battle.player.game_coord = point(6, 7);
    battle.advance(&input(None, false, false)).unwrap();
    assert_eq!(battle.player.game_coord, point(0, 0));
    let mut battle = quiet_battle();
    battle.walls.push(wall((-30, -50), (-30, -30)));
    battle.player.game_coord = point(-25, -44);
    battle.state = BattleState::Finished;
    battle.advance(&input(None, false, false)).unwrap();
    assert_eq!(battle.player.game_coord, point(-20, -44));
}

#[test]
fn a_player_running_at_a_wall_does_not_pass() {
    let mut battle = quiet_battle();
    battle.walls.push(wall((10, -10), (10, 10)));
    battle.player.game_coord = point(0, 0);
    for _ in 0..40 {
        battle.advance(&input(Some(0), false, false)).unwrap();
        assert!(battle.player.game_coord.x < 10);
    }
}

#[test]
fn walls_push_enemies_back_in_every_state() {
    for state in [BattleState::Starting, BattleState::Live, BattleState::Finished] {
        let mut battle = quiet_battle();
        battle.state = state;
        battle.walls.push(wall((190, 190), (210, 190)));
        battle.enemies.push(Enemy {
            pos: point(204, 195),
            snapped_facing_vector: Direction::North,
            health: (100, 100),
            behavior: EnemyBehavior::WalkToButton(150, 150, Vec::new()),
        });
        battle.advance(&input(None, false, false)).unwrap();
        assert_eq!(battle.enemies[0].pos, point(204, 200));
    }
}

#[test]
fn an_idle_enemy_five_cells_from_the_player_goes_for_it() {
    let mut battle = quiet_battle();
    battle.player.game_coord = cell(3, 4).center();
    battle.enemies.push(Enemy {
        pos: point(0, 0),
        snapped_facing_vector: Direction::North,
        health: (100, 100),
        behavior: EnemyBehavior::Idle,
    });
    battle.advance(&input(None, false, false)).unwrap();
    match &battle.enemies[0].behavior {
        EnemyBehavior::TargetPlayer(0, 150, path) => {
            assert_eq!(path.len(), 7);
            assert_eq!(path[6], cell(3, 4));
        }
        _ => panic!("the enemy does not go for the player"),
    }
    assert_eq!(battle.enemies[0].pos, point(0, 0));
    // along a row the way is five cells
    let mut battle = quiet_battle();
    battle.player.game_coord = cell(-5, 0).center();
    battle.enemies.push(Enemy {
        pos: point(0, 0),
        snapped_facing_vector: Direction::North,
        health: (100, 100),
        behavior: EnemyBehavior::Idle,
    });
    battle.advance(&input(None, false, false)).unwrap();
    match &battle.enemies[0].behavior {
        EnemyBehavior::TargetPlayer(0, 150, path) => {
            assert_eq!(*path, vec![cell(-1, 0), cell(-2, 0), cell(-3, 0), cell(-4, 0), cell(-5, 0)]);
        }
        _ => panic!("the enemy does not go for the player"),
    }
}

#[test]
fn enemies_keep_off_each_others_cells() {
    let mut battle = quiet_battle();
    battle.player.game_coord = cell(2, 0).center();
    for x in [0, 20] {
        battle.enemies.push(Enemy {
            pos: point(x, 0),
            snapped_facing_vector: Direction::North,
            health: (100, 100),
            behavior: EnemyBehavior::Idle,
        });
    }
    battle.advance(&input(None, false, false)).unwrap();
    match &battle.enemies[0].behavior {
        EnemyBehavior::TargetPlayer(0, 150, path) => {
            assert_eq!(path.len(), 4);
            assert!(!path.contains(&cell(1, 0)));
        }
        _ => panic!("the first enemy does not go for the player"),
    }
    match &battle.enemies[1].behavior {
        EnemyBehavior::TargetPlayer(0, 150, path) => assert_eq!(*path, vec![cell(2, 0)]),
        _ => panic!("the second enemy does not go for the player"),
    }
}

#[test]
fn an_enemy_on_an_errand_keeps_to_it() {
    let mut battle = quiet_battle();
    battle.enemies.push(Enemy {
        pos: point(0, 0),
        snapped_facing_vector: Direction::North,
        health: (100, 100),
        behavior: EnemyBehavior::AttackWalls(0, 150, vec![cell(0, 1)]),
    });
    for step in 1..=10 {
        battle.advance(&input(None, false, false)).unwrap();
        assert_eq!(battle.enemies[0].pos, point(0, step));
        assert!(matches!(battle.enemies[0].behavior, EnemyBehavior::AttackWalls(0, 150, _)));
    }
    battle.advance(&input(None, false, false)).unwrap();
    match &battle.enemies[0].behavior {
        EnemyBehavior::AttackWalls(1, 150, path) => assert!(path.is_empty()),
        _ => panic!("the errand has changed"),
    }
    battle.advance(&input(None, false, false)).unwrap();
    assert!(matches!(battle.enemies[0].behavior, EnemyBehavior::Idle));
}

#[test]
fn the_enemies_of_a_new_battle_set_out_for_the_button() {
    let mut battle = BattleContext::new();
    battle.advance(&input(None, false, false)).unwrap();
    battle.advance(&input(None, false, false)).unwrap();
    match &battle.enemies[0].behavior {
        EnemyBehavior::WalkToButton(0, 150, path) => {
            assert_eq!(path.len(), 20);
            assert_eq!(*path.last().unwrap(), cell(0, 0));
        }
        _ => panic!("the first enemy does not walk to the button"),
    }
    // the second one begins within seven cells of the player
    match &battle.enemies[1].behavior {
        EnemyBehavior::TargetPlayer(0, 150, path) => {
            assert_eq!(path.len(), 4);
            assert_eq!(*path.last().unwrap(), cell(8, -8));
        }
        _ => panic!("the second enemy does not go for the player"),
    }
    for enemy in &battle.enemies[2..] {
        match &enemy.behavior {
            EnemyBehavior::WalkToButton(0, 150, path) => assert_eq!(*path.last().unwrap(), cell(0, 0)),
            EnemyBehavior::Idle => (),
            _ => panic!("an enemy is after something else"),
        }
    }
}

#[test]
fn a_battle_at_the_end_of_its_numbers_cannot_tick() {
    let mut battle = BattleContext::new();
    battle.round_time = u32::MAX;
    assert!(!battle.is_tickable());
    let mut battle = BattleContext::new();
    battle.button.state = ButtonState::Unpressed(usize::MAX, 3);
    assert!(!battle.is_tickable());
    let mut battle = BattleContext::new();
    battle.player.game_coord.x = 2000000001;
    assert!(!battle.is_tickable());
    let mut battle = BattleContext::new();
    battle.enemies[5].pos.y = -2000000001;
    assert!(!battle.is_tickable());
    let mut battle = BattleContext::new();
    battle.walls.push(wall((0, 0), (20, 20)));
    assert!(!battle.is_tickable());
}

#[test]
fn the_button_counts_its_ticks() {
    let mut button = Button::new();
    assert_eq!(button, Button { pos: cell(0, 0), state: ButtonState::NeverPressed });
    button.update();
    assert_eq!(button.state, ButtonState::NeverPressed);
    button.state = ButtonState::Pressed(0, 10);
    button.update();
    assert_eq!(button.state, ButtonState::Pressed(1, 10));
    button.state = ButtonState::Unpressed(10, 10);
    button.update();
    assert_eq!(button.state, ButtonState::Unpressed(11, 10));
    assert!(button.state.is_countable());
    assert!(!ButtonState::Pressed(usize::MAX, 0).is_countable());
}

#[test]
fn the_camera_closes_a_tenth_of_the_gap() {
    let mut camera = CameraState::new();
    assert_eq!(camera, CameraState { pos: point(0, 0), scale: 1100 });
    camera.smooth_scroll(&point(150, -150));
    assert_eq!(camera.pos, point(15, -15));
    camera.smooth_scroll(&point(150, -150));
    assert_eq!(camera.pos, point(28, -28));
    camera.smooth_scroll(&point(19, -37));
    assert_eq!(camera.pos, point(28, -28));
    camera.pos = point(i32::MIN, i32::MAX);
    camera.smooth_scroll(&point(i32::MAX, i32::MIN));
    assert_eq!(camera.pos, point(i32::MIN + 429496729, i32::MAX - 429496729));
    assert_eq!(camera.scale, 1100);
}

#[test]
fn the_start_screen_fades_in_waits_and_fades_out() {
    let mut game = GameObject { phase: GameContext::StartScreen(StartScreenContext::new()), player: Some(Player {}) };
    let rest = InputState::new();
    assert_eq!(get_player_intent_vector(&rest), None);
    for frame in 1..=30 {
        assert_eq!(game.handle_tick(&rest), Ok(TickAction::Nothing));
        assert!(matches!(&game.phase, GameContext::StartScreen(s) if s.state == StartScreenState::FadeIn(frame, 30)));
    }
    game.handle_tick(&rest).unwrap();
    assert!(matches!(&game.phase, GameContext::StartScreen(s) if s.state == StartScreenState::Waiting));
    game.handle_tick(&rest).unwrap();
    assert!(matches!(&game.phase, GameContext::StartScreen(s) if s.state == StartScreenState::Waiting));
    let start = InputState { btn_start: true, ..rest };
    game.handle_tick(&start).unwrap();
    assert!(matches!(&game.phase, GameContext::StartScreen(s) if s.state == StartScreenState::FadeOut(0, 30)));
    for frame in 1..=30 {
        game.handle_tick(&rest).unwrap();
        assert!(matches!(&game.phase, GameContext::StartScreen(s) if s.state == StartScreenState::FadeOut(frame, 30)));
    }
    game.handle_tick(&rest).unwrap();
    match &game.phase {
        GameContext::Battle(battle) => {
            assert_eq!(battle.state, BattleState::Starting);
            assert_eq!(battle.round_time, 0);
        }
        _ => panic!("the battle has not begun"),
    }
    assert_eq!(game.player, Some(Player {}));
    assert_eq!(game.handle_tick(&rest), Ok(TickAction::StartMusic));
    assert_eq!(game.handle_tick(&InputState { intent: Some(-500000), ..rest }), Err(BattleError::InvalidFacing));
    assert_eq!(game.handle_tick(&InputState { intent: Some(90000), ..rest }), Ok(TickAction::Nothing));
    match &game.phase {
        GameContext::Battle(battle) => {
            assert_eq!(battle.round_time, 2);
            assert_eq!(battle.player.game_coord, point(150, -152));
        }
        _ => panic!("the battle has ended"),
    }
}

#[test]
fn a_fade_past_its_end_cannot_tick() {
    assert!(StartScreenState::FadeIn(30, 30).is_in_time());
    assert!(StartScreenState::Waiting.is_in_time());
    assert!(!StartScreenState::FadeOut(31, 30).is_in_time());
    let late = StartScreenContext { state: StartScreenState::FadeIn(31, 30) };
    let game = GameObject { phase: GameContext::StartScreen(late), player: None };
    assert!(!game.is_tickable());
    let game = GameObject { phase: GameContext::StartScreen(StartScreenContext::new()), player: None };
    assert!(game.is_tickable());
    let mut battle = BattleContext::new();
    battle.round_time = u32::MAX;
    let game = GameObject { phase: GameContext::Battle(battle), player: None };
    assert!(!game.is_tickable());
}

#[test]
fn the_ticks_of_the_two_screens() {
    let mut game = GameObject { phase: GameContext::StartScreen(StartScreenContext::new()), player: None };
    StartScreenContext::handle_tick(&mut game, &InputState::new());
    assert!(matches!(&game.phase, GameContext::StartScreen(s) if s.state == StartScreenState::FadeIn(1, 30)));
    let mut game = GameObject { phase: GameContext::Battle(BattleContext::from_game_object(&game)), player: None };
    assert_eq!(BattleContext::handle_tick(&mut game, &InputState::new()), Ok(TickAction::StartMusic));
    assert!(matches!(&game.phase, GameContext::Battle(b) if b.state == BattleState::Live));
}
