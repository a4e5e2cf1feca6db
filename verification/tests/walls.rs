use battle_core::battle_objects::buildables::{find_wall, is_corner_of, place_wall, walls_aligned, Wall, Window};
use battle_core::battle_objects::coordinates::{GameCoord, GridCoord};

fn cell(x: i32, y: i32) -> GridCoord {
    GridCoord { x, y }
}

fn point(x: i32, y: i32) -> GameCoord {
    GameCoord { x, y }
}

fn wall(a: (i32, i32), b: (i32, i32)) -> Wall {
    Wall { endpoints: (point(a.0, a.1), point(b.0, b.1)), health: (100, 100) }
}

#[test]
fn a_wall_blocks_the_edge_it_lies_on() {
    // the edge between the cells (0,0) and (1,0)
    let w = wall((10, -10), (10, 10));
    assert!(w.is_blocking(cell(0, 0), cell(1, 0)));
    assert!(w.is_blocking(cell(1, 0), cell(0, 0)));
    assert!(!w.is_blocking(cell(0, 0), cell(0, 1)));
    assert!(!w.is_blocking(cell(0, 0), cell(-1, 0)));
    assert!(!w.is_blocking(cell(1, 0), cell(2, 0)));
    let turned = wall((10, 10), (10, -10));
    assert!(turned.is_blocking(cell(0, 0), cell(1, 0)));
}

#[test]
fn a_wall_of_no_length_blocks_nothing() {
    let w = wall((10, 10), (10, 10));
    assert!(!w.is_blocking(cell(0, 0), cell(1, 0)));
    assert!(!w.is_blocking(cell(0, 0), cell(0, 1)));
}

#[test]
fn a_wall_at_the_end_of_the_world_blocks_without_overflow() {
    let w = wall((i32::MAX, i32::MAX), (i32::MAX, i32::MIN));
    assert!(!w.is_blocking(cell(i32::MAX, i32::MAX), cell(i32::MIN, i32::MIN)));
    assert!(!is_corner_of(cell(i32::MAX, 0), point(i32::MAX, 10)));
    assert!(is_corner_of(cell(-2, 3), point(-50, 70)));
}

#[test]
fn walls_along_one_edge_are_aligned() {
    assert!(wall((10, -10), (10, 10)).is_aligned());
    assert!(wall((10, 10), (-10, 10)).is_aligned());
    assert!(wall((-30, -50), (-30, -30)).is_aligned());
    assert!(!wall((10, -10), (10, 30)).is_aligned());
    assert!(!wall((10, 10), (10, 10)).is_aligned());
    assert!(!wall((-10, -10), (10, 10)).is_aligned());
    assert!(!wall((0, 0), (0, 20)).is_aligned());
    assert!(!wall((11, -10), (11, 10)).is_aligned());
    assert!(walls_aligned(&vec![wall((10, -10), (10, 10)), wall((10, 10), (-10, 10))]));
    assert!(!walls_aligned(&vec![wall((10, -10), (10, 10)), wall((0, 0), (0, 20))]));
    assert!(walls_aligned(&Vec::new()));
}

#[test]
fn a_wall_is_found_by_its_ends_in_either_order() {
    let walls = vec![wall((10, -10), (10, 10)), wall((10, 10), (-10, 10)), wall((10, 10), (10, -10))];
    assert_eq!(find_wall(&walls, point(10, -10), point(10, 10)), Some(0));
    assert_eq!(find_wall(&walls, point(10, 10), point(10, -10)), Some(0));
    assert_eq!(find_wall(&walls, point(-10, 10), point(10, 10)), Some(1));
    assert_eq!(find_wall(&walls, point(-10, -10), point(10, -10)), None);
    assert!(walls[0].is_on(point(10, 10), point(10, -10)));
    assert!(!walls[0].is_on(point(10, 10), point(10, 10)));
}

#[test]
fn a_second_wall_on_one_edge_is_not_built() {
    let mut walls: Vec<Wall> = Vec::new();
    assert!(place_wall(&mut walls, (point(10, -10), point(10, 10))));
    assert_eq!(walls.len(), 1);
    assert_eq!(walls[0].health, (100, 100));
    assert_eq!(walls[0].endpoints, (point(10, -10), point(10, 10)));
    assert!(!place_wall(&mut walls, (point(10, -10), point(10, 10))));
    assert_eq!(walls.len(), 1);
    assert!(!place_wall(&mut walls, (point(10, 10), point(10, -10))));
    assert_eq!(walls.len(), 1);
    assert!(place_wall(&mut walls, (point(10, 10), point(-10, 10))));
    assert_eq!(walls.len(), 2);
    assert_eq!(walls[1].endpoints, (point(10, 10), point(-10, 10)));
}

#[test]
fn a_window_is_held_like_a_wall() {
    let window = Window { endpoints: (point(10, -10), point(10, 10)), health: (3, 100) };
    let copy = window;
    assert_eq!(copy.endpoints, window.endpoints);
    assert_eq!(copy.health, (3, 100));
    assert!(window.is_aligned());
    assert!(!Window { endpoints: (point(10, -10), point(30, 10)), health: (3, 100) }.is_aligned());
}
