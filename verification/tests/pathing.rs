use battle_core::battle_objects::buildables::Wall;
use battle_core::battle_objects::coordinates::{GameCoord, GridCoord};
use battle_core::utils::pathing::{path_to, EXPANSION_CAP, SURE_REACH};

fn cell(x: i32, y: i32) -> GridCoord {
    GridCoord { x, y }
}

fn wall(a: (i32, i32), b: (i32, i32)) -> Wall {
    Wall {
        endpoints: (GameCoord { x: a.0, y: a.1 }, GameCoord { x: b.0, y: b.1 }),
        health: (100, 100),
    }
}

/// The four walls around the cell `c`.
fn pen(c: GridCoord) -> Vec<Wall> {
    let (w, e, n, s) = (c.x * 20 - 10, c.x * 20 + 10, c.y * 20 - 10, c.y * 20 + 10);
    vec![wall((w, n), (e, n)), wall((e, n), (e, s)), wall((w, s), (e, s)), wall((w, n), (w, s))]
}

fn assert_walkable(from: GridCoord, path: &Vec<GridCoord>, walls: &Vec<Wall>, blocked: &Vec<GridCoord>) {
    let mut here = from;
    for next in path {
        assert_eq!((here.x - next.x).abs() + (here.y - next.y).abs(), 1);
        assert!(!blocked.contains(next));
        assert!(!walls.iter().any(|w| w.is_blocking(here, *next)));
        here = *next;
    }
}

#[test]
fn the_way_to_the_same_cell_is_empty() {
    assert_eq!(path_to(cell(3, -4), cell(3, -4), &Vec::new(), &Vec::new()), Some(Vec::new()));
    // also inside a pen, and on a blocked cell
    assert_eq!(path_to(cell(0, 0), cell(0, 0), &pen(cell(0, 0)), &vec![cell(0, 0)]), Some(Vec::new()));
}

#[test]
fn the_way_to_the_next_cell_is_one_step() {
    for goal in [cell(1, 0), cell(-1, 0), cell(0, 1), cell(0, -1)] {
        assert_eq!(path_to(cell(0, 0), goal, &Vec::new(), &Vec::new()), Some(vec![goal]));
    }
    assert_eq!(path_to(cell(5, 5), cell(5, 6), &pen(cell(0, 0)), &vec![cell(5, 5)]), Some(vec![cell(5, 6)]));
}

#[test]
fn a_straight_way_in_the_open() {
    let path = path_to(cell(0, 0), cell(5, 0), &Vec::new(), &Vec::new()).unwrap();
    assert_eq!(path, vec![cell(1, 0), cell(2, 0), cell(3, 0), cell(4, 0), cell(5, 0)]);
}

#[test]
fn a_way_in_the_open_is_as_long_as_the_steps_apart() {
    for (x, y) in [(3, 4), (-3, 4), (6, -2), (-5, -5), (0, 7), (7, 0), (-1, 6)] {
        let path = path_to(cell(2, 2), cell(2 + x, 2 + y), &Vec::new(), &vec![cell(2, 2)]).unwrap();
        assert_eq!(path.len() as i32, x.abs() + y.abs());
        assert_eq!(*path.last().unwrap(), cell(2 + x, 2 + y));
        assert_walkable(cell(2, 2), &path, &Vec::new(), &vec![cell(2, 2)]);
    }
}

#[test]
fn a_wall_in_the_way_is_walked_around() {
    let walls = vec![wall((10, -10), (10, 10))];
    let path = path_to(cell(0, 0), cell(1, 0), &walls, &Vec::new()).unwrap();
    assert_eq!(path.len(), 3);
    assert_eq!(*path.last().unwrap(), cell(1, 0));
    assert_walkable(cell(0, 0), &path, &walls, &Vec::new());
}

#[test]
fn a_blocked_cell_is_walked_around() {
    let blocked = vec![cell(1, 0)];
    let path = path_to(cell(0, 0), cell(2, 0), &Vec::new(), &blocked).unwrap();
    assert_eq!(path.len(), 4);
    assert_walkable(cell(0, 0), &path, &Vec::new(), &blocked);
}

#[test]
fn there_is_no_way_out_of_a_pen() {
    assert_eq!(path_to(cell(0, 0), cell(3, 0), &pen(cell(0, 0)), &Vec::new()), None);
    assert_eq!(path_to(cell(0, 0), cell(1, 0), &pen(cell(0, 0)), &Vec::new()), None);
}

#[test]
fn there_is_no_way_into_a_pen_or_onto_a_blocked_cell() {
    assert_eq!(path_to(cell(0, 0), cell(3, 0), &pen(cell(3, 0)), &Vec::new()), None);
    assert_eq!(path_to(cell(0, 0), cell(1, 0), &Vec::new(), &vec![cell(1, 0)]), None);
}

#[test]
fn a_goal_beyond_the_cap_is_given_up() {
    assert_eq!(EXPANSION_CAP, 250);
    assert_eq!(path_to(cell(0, 0), cell(300, 0), &Vec::new(), &Vec::new()), None);
    let path = path_to(cell(0, 0), cell(200, 0), &Vec::new(), &Vec::new()).unwrap();
    assert_eq!(path.len(), 200);
}

#[test]
fn the_grid_ends_where_the_numbers_end() {
    let corner = cell(i32::MAX, i32::MAX);
    let path = path_to(corner, cell(i32::MAX - 1, i32::MAX - 1), &Vec::new(), &Vec::new()).unwrap();
    assert_eq!(path.len(), 2);
    assert_walkable(corner, &path, &Vec::new(), &Vec::new());
}

#[test]
fn a_goal_within_sure_reach_is_found_among_walls() {
    assert_eq!(SURE_REACH, 10);
    // a fence of walls north to south, east of the start, with one gap
    let mut walls = Vec::new();
    for row in -4..=4 {
        if row != 3 {
            walls.push(wall((10, row * 20 - 10), (10, row * 20 + 10)));
        }
    }
    let path = path_to(cell(0, 0), cell(1, 0), &walls, &vec![cell(0, 0)]).unwrap();
    assert_eq!(path.len(), 7);
    assert_walkable(cell(0, 0), &path, &walls, &vec![cell(0, 0)]);
    for (x, y) in [(5, 5), (-5, 5), (10, 0), (0, -10), (7, -3)] {
        let path = path_to(cell(0, 0), cell(x, y), &Vec::new(), &Vec::new()).unwrap();
        assert_eq!(path.len() as i32, x.abs() + y.abs());
    }
}

#[test]
fn no_way_found_is_longer_than_need_be() {
    // two ways around a wall: the search takes a short one
    let walls = vec![wall((10, -10), (10, 10)), wall((10, 10), (10, 30))];
    let path = path_to(cell(0, 0), cell(1, 1), &walls, &Vec::new()).unwrap();
    assert_eq!(path.len(), 4);
    assert_walkable(cell(0, 0), &path, &walls, &Vec::new());
}
