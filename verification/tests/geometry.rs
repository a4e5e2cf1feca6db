use battle_core::utils::collisions::{line_to_line_intersect, line_to_square_intersect};
use battle_core::utils::distance::{floor_root_of, scaled_distance, squared_offset};

#[test]
fn crossing_segments_meet() {
    assert!(line_to_line_intersect(((0, 0), (10, 10)), ((0, 10), (10, 0))));
    assert!(line_to_line_intersect(((-5, 0), (5, 0)), ((0, -5), (0, 5))));
}

#[test]
fn segments_that_stop_short_do_not_meet() {
    assert!(!line_to_line_intersect(((0, 0), (4, 4)), ((0, 10), (10, 0))));
    assert!(!line_to_line_intersect(((0, 0), (10, 0)), ((5, 1), (5, 9))));
}

#[test]
fn segments_that_touch_at_an_end_meet() {
    assert!(line_to_line_intersect(((0, 0), (5, 5)), ((5, 5), (9, 0))));
    assert!(line_to_line_intersect(((0, 0), (10, 0)), ((5, 0), (5, 9))));
}

#[test]
fn parallel_segments_off_one_line_do_not_meet() {
    assert!(!line_to_line_intersect(((0, 0), (10, 0)), ((0, 1), (10, 1))));
    assert!(!line_to_line_intersect(((0, 0), (3, 3)), ((1, 0), (4, 3))));
}

#[test]
fn segments_on_one_line_count_as_meeting() {
    assert!(line_to_line_intersect(((0, 0), (10, 0)), ((5, 0), (20, 0))));
    // apart on the same line: still counted
    assert!(line_to_line_intersect(((0, 0), (1, 0)), ((5, 0), (6, 0))));
}

#[test]
fn meeting_does_not_depend_on_the_order() {
    let segments = [
        ((0, 0), (10, 10)),
        ((0, 10), (10, 0)),
        ((0, 0), (4, 4)),
        ((0, 0), (10, 0)),
        ((5, 0), (20, 0)),
        ((5, 1), (5, 9)),
        ((-7, 3), (2, -8)),
        ((3, 3), (3, 3)),
        ((10, -10), (-10, -10)),
    ];
    for a in segments {
        for b in segments {
            assert_eq!(line_to_line_intersect(a, b), line_to_line_intersect(b, a));
        }
    }
}

#[test]
fn a_point_meets_a_segment_only_on_its_line() {
    let line = ((5, 5), (10, 5));
    for dot in [((0, 0), (0, 0)), ((3, 3), (3, 3)), ((7, 6), (7, 6))] {
        assert!(!line_to_line_intersect(dot, line));
        assert!(!line_to_line_intersect(line, dot));
    }
    // on the line through the segment, on it or off it
    for dot in [((7, 5), (7, 5)), ((5, 5), (5, 5)), ((0, 5), (0, 5)), ((-40, 5), (-40, 5))] {
        assert!(line_to_line_intersect(dot, line));
        assert!(line_to_line_intersect(line, dot));
    }
    // two points lie on one line
    assert!(line_to_line_intersect(((1, 2), (1, 2)), ((3, 9), (3, 9))));
    assert!(line_to_line_intersect(((3, 9), (3, 9)), ((1, 2), (1, 2))));
}

#[test]
fn huge_segments_are_told_exactly() {
    let a = ((i32::MIN, i32::MIN), (i32::MAX, i32::MAX));
    let b = ((i32::MIN, i32::MAX), (i32::MAX, i32::MIN));
    assert!(line_to_line_intersect(a, b));
    let c = ((i32::MIN, i32::MAX), (-2, 0));
    assert!(!line_to_line_intersect(a, c));
}

#[test]
fn a_segment_with_an_end_in_the_square_touches_it() {
    assert!(line_to_square_intersect(((0, 0), (100, 100)), ((0, 0), 16)));
    assert!(line_to_square_intersect(((100, 100), (8, -8)), ((0, 0), 16)));
    assert!(!line_to_square_intersect(((100, 100), (9, -8)), ((0, 0), 16)));
}

#[test]
fn a_segment_through_the_square_touches_it() {
    assert!(line_to_square_intersect(((-20, 0), (20, 0)), ((0, 0), 16)));
    assert!(line_to_square_intersect(((-10, -10), (10, -10)), ((0, -5), 16)));
    assert!(line_to_square_intersect(((-20, 5), (5, -20)), ((0, 0), 16)));
}

#[test]
fn a_segment_beside_the_square_misses_it() {
    assert!(!line_to_square_intersect(((-10, -10), (10, -10)), ((0, 0), 16)));
    assert!(!line_to_square_intersect(((9, -20), (9, 20)), ((0, 0), 16)));
    assert!(!line_to_square_intersect(((-20, 0), (0, -20)), ((0, 0), 16)));
    assert!(!line_to_square_intersect(((-30, -9), (30, -9)), ((0, 0), 16)));
}

#[test]
fn half_of_an_odd_side_is_rounded_down() {
    assert!(line_to_square_intersect(((7, 7), (7, 7)), ((0, 0), 15)));
    assert!(!line_to_square_intersect(((8, 0), (8, 0)), ((0, 0), 15)));
    assert!(line_to_square_intersect(((i32::MAX, i32::MAX), (i32::MAX, i32::MAX)), ((i32::MAX, i32::MAX), u32::MAX)));
}

#[test]
fn a_square_of_no_size_is_touched_only_through_its_middle() {
    for side in [0, 1] {
        assert!(line_to_square_intersect(((-5, -5), (5, 5)), ((0, 0), side)));
        assert!(line_to_square_intersect(((0, 0), (9, 4)), ((0, 0), side)));
        assert!(!line_to_square_intersect(((-5, -5), (5, 4)), ((0, 0), side)));
        assert!(!line_to_square_intersect(((-5, 1), (5, 1)), ((0, 0), side)));
        assert!(!line_to_square_intersect(((-6, 3), (4, -3)), ((0, 0), side)));
    }
}

#[test]
fn square_roots_are_rounded_down() {
    assert_eq!(floor_root_of(0), 0);
    assert_eq!(floor_root_of(1), 1);
    assert_eq!(floor_root_of(3), 1);
    assert_eq!(floor_root_of(4), 2);
    assert_eq!(floor_root_of(99), 9);
    assert_eq!(floor_root_of(100), 10);
    assert_eq!(floor_root_of(u128::MAX), u64::MAX);
    assert_eq!(floor_root_of(1u128 << 64), 1u64 << 32);
    assert_eq!(floor_root_of((1u128 << 64) - 1), (1u64 << 32) - 1);
}

#[test]
fn offsets_are_squared_without_overflow() {
    assert_eq!(squared_offset(0, 0, 3, 4), 25);
    assert_eq!(squared_offset(-1, -1, 1, 1), 8);
    assert_eq!(squared_offset(i32::MIN, i32::MIN, i32::MAX, i32::MAX), 2 * 4294967295u128 * 4294967295u128);
    assert_eq!(scaled_distance(0, 0, 3, 4), 5 * 256);
    assert_eq!(scaled_distance(0, 0, 0, 0), 0);
}
