use battle_core::battle_objects::buildables::Wall;
use battle_core::battle_objects::coordinates::{Direction, GameCoord, GridCoord};
use battle_core::battle_objects::enemy::{cell_to_attack, nearest_wall, step_toward, Enemy, EnemyBehavior, ERRAND_LENGTH};

fn cell(x: i32, y: i32) -> GridCoord {
    GridCoord { x, y }
}

fn point(x: i32, y: i32) -> GameCoord {
    GameCoord { x, y }
}

fn wall(a: (i32, i32), b: (i32, i32)) -> Wall {
    Wall { endpoints: (point(a.0, a.1), point(b.0, b.1)), health: (100, 100) }
}

fn enemy_at(x: i32, y: i32, behavior: EnemyBehavior) -> Enemy {
    Enemy { pos: point(x, y), snapped_facing_vector: Direction::North, health: (100, 100), behavior }
}

fn pen(c: GridCoord) -> Vec<Wall> {
    let (w, e, n, s) = (c.x * 20 - 10, c.x * 20 + 10, c.y * 20 - 10, c.y * 20 + 10);
    vec![wall((w, n), (e, n)), wall((e, n), (e, s)), wall((w, s), (e, s)), wall((w, n), (w, s))]
}

#[test]
fn what_an_enemy_is_made_of() {
    assert_eq!(Enemy::speed(), (3, 2));
    assert_eq!(Enemy::width(), 16);
    assert_eq!(Enemy::attack_power(), 12);
    assert_eq!(ERRAND_LENGTH, 150);
}

#[test]
fn an_enemy_steps_one_unit_on_each_axis_that_leads_on() {
    assert_eq!(step_toward(point(0, 0), cell(1, 0)), point(1, 0));
    assert_eq!(step_toward(point(0, 0), cell(-1, 0)), point(-1, 0));
    assert_eq!(step_toward(point(0, 0), cell(0, 1)), point(0, 1));
    assert_eq!(step_toward(point(0, 0), cell(0, -1)), point(0, -1));
    assert_eq!(step_toward(point(0, 0), cell(1, 1)), point(1, 1));
    assert_eq!(step_toward(point(0, 0), cell(-1, 1)), point(-1, 1));
    // the goal lies (20, 18) off: both axes lead on
    assert_eq!(step_toward(point(0, 2), cell(1, 1)), point(1, 3));
    // (20, 17) off: the column falls just short of two thirds of the way
    assert_eq!(step_toward(point(0, 3), cell(1, 1)), point(1, 3));
    // (20, 5) off: the column alone does not
    assert_eq!(step_toward(point(0, 15), cell(1, 1)), point(1, 15));
    // on the goal an enemy heads east
    assert_eq!(step_toward(point(20, 20), cell(1, 1)), point(21, 20));
}

#[test]
fn steps_match_the_heading() {
    for dx in -45i32..45 {
        for dy in -45i32..45 {
            let angle = (dy as f64).atan2(dx as f64);
            let x = (angle.cos() * 1.5) as i32;
            let y = (angle.sin() * 1.5) as i32;
            let next = step_toward(point(40 - dx, -60 - dy), cell(2, -3));
            assert_eq!((next.x - (40 - dx), next.y - (-60 - dy)), (x, y));
        }
    }
}

#[test]
fn a_far_goal_is_stepped_toward_without_overflow() {
    assert_eq!(step_toward(point(2000000000, -2000000000), cell(i32::MIN, i32::MAX)), point(1999999999, -1999999999));
    assert_eq!(step_toward(point(0, 0), cell(i32::MAX, 1)), point(1, 0));
}

#[test]
fn an_enemy_walks_toward_the_first_cell_of_its_path() {
    let mut enemy = enemy_at(0, 0, EnemyBehavior::WalkToButton(3, 150, vec![cell(1, 0), cell(2, 0)]));
    enemy.follow_path();
    assert_eq!(enemy.pos, point(1, 0));
    match &enemy.behavior {
        EnemyBehavior::WalkToButton(curr, max, path) => {
            assert_eq!((*curr, *max), (3, 150));
            assert_eq!(*path, vec![cell(1, 0), cell(2, 0)]);
        }
        _ => panic!("the errand has changed"),
    }
    assert_eq!(enemy.health, (100, 100));
    assert_eq!(enemy.snapped_facing_vector, Direction::North);
}

#[test]
fn an_enemy_in_the_first_cell_drops_it_and_counts() {
    let mut enemy = enemy_at(12, -3, EnemyBehavior::TargetPlayer(3, 150, vec![cell(1, 0), cell(2, 0)]));
    enemy.follow_path();
    assert_eq!(enemy.pos, point(12, -3));
    match &enemy.behavior {
        EnemyBehavior::TargetPlayer(curr, max, path) => {
            assert_eq!((*curr, *max), (4, 150));
            assert_eq!(*path, vec![cell(2, 0)]);
        }
        _ => panic!("the errand has changed"),
    }
    let mut enemy = enemy_at(12, -3, EnemyBehavior::AttackWalls(0, 150, vec![cell(1, 0)]));
    enemy.follow_path();
    match &enemy.behavior {
        EnemyBehavior::AttackWalls(curr, max, path) => {
            assert_eq!((*curr, *max), (1, 150));
            assert!(path.is_empty());
        }
        _ => panic!("the errand has changed"),
    }
}

#[test]
fn an_errand_ends_with_its_path_or_its_time() {
    for behavior in [
        EnemyBehavior::WalkToButton(150, 150, vec![cell(1, 0)]),
        EnemyBehavior::TargetPlayer(151, 150, vec![cell(1, 0)]),
        EnemyBehavior::AttackWalls(150, 150, vec![cell(1, 0)]),
        EnemyBehavior::WalkToButton(7, 150, Vec::new()),
        EnemyBehavior::TargetPlayer(7, 150, Vec::new()),
        EnemyBehavior::AttackWalls(7, 150, Vec::new()),
        EnemyBehavior::Idle,
    ] {
        let mut enemy = enemy_at(0, 0, behavior);
        enemy.follow_path();
        assert!(matches!(enemy.behavior, EnemyBehavior::Idle));
        assert_eq!(enemy.pos, point(0, 0));
    }
}

#[test]
fn an_idle_enemy_near_the_player_goes_for_it() {
    let enemy = enemy_at(0, 0, EnemyBehavior::Idle);
    let blocked = vec![cell(0, 0), cell(9, 9)];
    match enemy.plan(cell(5, 0), cell(-20, 0), &Vec::new(), &blocked) {
        EnemyBehavior::TargetPlayer(0, 150, path) => {
            assert_eq!(path, vec![cell(1, 0), cell(2, 0), cell(3, 0), cell(4, 0), cell(5, 0)]);
        }
        _ => panic!("the enemy does not go for the player"),
    }
    match enemy.plan(cell(3, -4), cell(-20, 0), &Vec::new(), &blocked) {
        EnemyBehavior::TargetPlayer(0, 150, path) => {
            assert_eq!(path.len(), 7);
            assert_eq!(path[6], cell(3, -4));
        }
        _ => panic!("the enemy does not go for the player"),
    }
    // seven cells off is near, a little more is not
    assert!(matches!(enemy.plan(cell(0, 7), cell(-2, 0), &Vec::new(), &blocked), EnemyBehavior::TargetPlayer(0, 150, _)));
    assert!(matches!(enemy.plan(cell(1, 7), cell(-2, 0), &Vec::new(), &blocked), EnemyBehavior::WalkToButton(0, 150, _)));
}

#[test]
fn an_idle_enemy_with_no_way_to_the_near_player_stays_idle() {
    let enemy = enemy_at(0, 0, EnemyBehavior::Idle);
    assert!(matches!(enemy.plan(cell(3, 0), cell(0, 1), &pen(cell(3, 0)), &Vec::new()), EnemyBehavior::Idle));
    assert!(matches!(enemy.plan(cell(3, 0), cell(0, 1), &Vec::new(), &vec![cell(3, 0)]), EnemyBehavior::Idle));
}

#[test]
fn an_idle_enemy_far_from_the_player_walks_to_the_button() {
    let enemy = enemy_at(200, 200, EnemyBehavior::Idle);
    match enemy.plan(cell(0, 0), cell(10, 7), &Vec::new(), &vec![cell(10, 10)]) {
        EnemyBehavior::WalkToButton(0, 150, path) => {
            assert_eq!(path, vec![cell(10, 9), cell(10, 8), cell(10, 7)]);
        }
        _ => panic!("the enemy does not walk to the button"),
    }
}

#[test]
fn an_idle_enemy_that_cannot_reach_the_button_attacks_the_nearest_wall() {
    let enemy = enemy_at(100, 100, EnemyBehavior::Idle);
    let walls = pen(cell(0, 0));
    match enemy.plan(cell(20, 20), cell(0, 0), &walls, &vec![cell(5, 5)]) {
        EnemyBehavior::AttackWalls(0, 150, path) => {
            assert_eq!(path.len(), 9);
            let goal = *path.last().unwrap();
            assert_eq!(goal, cell(1, 0));
            let nearest = nearest_wall(&walls, point(100, 100)).unwrap();
            assert_eq!(nearest, 1);
            assert_eq!(goal, cell_to_attack(&walls[nearest], point(100, 100)));
        }
        _ => panic!("the enemy does not attack a wall"),
    }
    // with no wall about there is nothing to attack
    assert!(matches!(enemy.plan(cell(0, 0), cell(10, 9), &Vec::new(), &vec![cell(10, 9)]), EnemyBehavior::Idle));
}

#[test]
fn the_nearest_wall_is_the_first_of_the_nearest() {
    let walls = vec![
        wall((90, 90), (110, 90)),
        wall((10, -10), (10, 10)),
        wall((-10, -10), (-10, 10)),
        wall((10, 10), (10, -10)),
    ];
    assert_eq!(nearest_wall(&walls, point(100, 100)), Some(0));
    assert_eq!(nearest_wall(&walls, point(5, 0)), Some(1));
    assert_eq!(nearest_wall(&walls, point(-5, 0)), Some(2));
    assert_eq!(nearest_wall(&walls, point(0, 0)), Some(1));
    assert_eq!(nearest_wall(&Vec::new(), point(0, 0)), None);
}

#[test]
fn a_wall_is_attacked_from_the_nearer_side() {
    let upright = wall((10, -10), (10, 10));
    assert_eq!(cell_to_attack(&upright, point(-50, 0)), cell(0, 0));
    assert_eq!(cell_to_attack(&upright, point(50, 0)), cell(1, 0));
    assert_eq!(cell_to_attack(&upright, point(10, 77)), cell(0, 0));
    let level = wall((30, -50), (10, -50));
    assert_eq!(cell_to_attack(&level, point(0, -100)), cell(1, -3));
    assert_eq!(cell_to_attack(&level, point(0, 100)), cell(1, -2));
    assert_eq!(cell_to_attack(&level, point(0, -50)), cell(1, -3));
}

#[test]
fn a_copy_of_an_enemy_keeps_its_path() {
    let enemy = enemy_at(5, 6, EnemyBehavior::AttackWalls(2, 150, vec![cell(1, 0), cell(1, 1)]));
    let copy = enemy.clone();
    assert_eq!(copy.pos, point(5, 6));
    assert_eq!(copy.health, (100, 100));
    match copy.behavior {
        EnemyBehavior::AttackWalls(2, 150, path) => assert_eq!(path, vec![cell(1, 0), cell(1, 1)]),
        _ => panic!("the errand has changed"),
    }
}
