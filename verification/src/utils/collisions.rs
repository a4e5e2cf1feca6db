use vstd::prelude::*;

verus! {

/// A point, by its `x` and `y`.
pub type Point = (i32, i32);

/// A line segment, by its start and its end.
pub type LineSegment = (Point, Point);

/// An axis-aligned square, by its center and the length of its side.
pub type Square = (Point, u32);

/// The cross product of the vectors `(ax, ay)` and `(bx, by)`.
pub open spec fn cross(ax: int, ay: int, bx: int, by: int) -> int {
    ax * by - ay * bx
}

/// Whether the segment from `(px, py)` to `(pex, pey)` meets the segment from
/// `(qx, qy)` to `(qex, qey)`.
///
/// With `r` and `s` the directions of the two segments and `d` the offset
/// from the first start to the second: where `r x s` is zero the segments
/// are parallel, and they count as meeting exactly when `d x r` and `d x s`
/// are both zero too, that is when the two lie on one line, whether or not
/// they overlap. A single point is parallel to everything, and lies on one
/// line with a segment when it lies on the line through it. Otherwise the
/// segments meet when both `d x s` and `d x r`, taken over `r x s`, lie
/// between 0 and 1, ends included.
pub open spec fn segments_cross(
    px: int,
    py: int,
    pex: int,
    pey: int,
    qx: int,
    qy: int,
    qex: int,
    qey: int,
) -> bool {
    let r_cross_s = cross(pex - px, pey - py, qex - qx, qey - qy);
    let d_cross_r = cross(qx - px, qy - py, pex - px, pey - py);
    let d_cross_s = cross(qx - px, qy - py, qex - qx, qey - qy);
    if r_cross_s == 0 {
        d_cross_r == 0 && d_cross_s == 0
    } else if r_cross_s > 0 {
        0 <= d_cross_s <= r_cross_s && 0 <= d_cross_r <= r_cross_s
    } else {
        r_cross_s <= d_cross_s <= 0 && r_cross_s <= d_cross_r <= 0
    }
}

/// Whether two segments meet (see `segments_cross`).
pub open spec fn segments_intersect(first: LineSegment, second: LineSegment) -> bool {
    segments_cross(
        first.0.0 as int,
        first.0.1 as int,
        first.1.0 as int,
        first.1.1 as int,
        second.0.0 as int,
        second.0.1 as int,
        second.1.0 as int,
        second.1.1 as int,
    )
}

/// Whether `point` lies on the line through `segment`. Every point lies on
/// the line through a segment that is a single point.
pub open spec fn on_line_of(segment: LineSegment, point: Point) -> bool {
    cross(
        point.0 - segment.0.0,
        point.1 - segment.0.1,
        segment.1.0 - segment.0.0,
        segment.1.1 - segment.0.1,
    ) == 0
}

/// Whether `point` lies in the square, its border included. Half the side
/// is rounded down.
pub open spec fn point_in_square(point: Point, square: Square) -> bool {
    let half = (square.1 / 2) as int;
    &&& square.0.0 - half <= point.0 <= square.0.0 + half
    &&& square.0.1 - half <= point.1 <= square.0.1 + half
}

/// Whether the segment meets one of the four sides of the square.
pub open spec fn crosses_a_side(line: LineSegment, square: Square) -> bool {
    let half = (square.1 / 2) as int;
    let west = square.0.0 - half;
    let east = square.0.0 + half;
    let north = square.0.1 - half;
    let south = square.0.1 + half;
    let ax = line.0.0 as int;
    let ay = line.0.1 as int;
    let bx = line.1.0 as int;
    let by = line.1.1 as int;
    ||| segments_cross(ax, ay, bx, by, west, north, west, south)
    ||| segments_cross(ax, ay, bx, by, west, north, east, north)
    ||| segments_cross(ax, ay, bx, by, east, north, east, south)
    ||| segments_cross(ax, ay, bx, by, west, south, east, south)
}

/// Whether both ends of the segment lie strictly beyond the same side of the
/// square.
pub open spec fn wholly_beyond_a_side(line: LineSegment, square: Square) -> bool {
    let half = (square.1 / 2) as int;
    ||| (line.0.0 < square.0.0 - half && line.1.0 < square.0.0 - half)
    ||| (line.0.0 > square.0.0 + half && line.1.0 > square.0.0 + half)
    ||| (line.0.1 < square.0.1 - half && line.1.1 < square.0.1 - half)
    ||| (line.0.1 > square.0.1 + half && line.1.1 > square.0.1 + half)
}

/// Whether a segment touches a square: an end of the segment lies in the
/// square; or else neither do both ends lie beyond one side, and the segment
/// meets one of the four sides.
pub open spec fn segment_hits_square(line: LineSegment, square: Square) -> bool {
    if point_in_square(line.0, square) || point_in_square(line.1, square) {
        true
    } else if wholly_beyond_a_side(line, square) {
        false
    } else {
        crosses_a_side(line, square)
    }
}

fn cross_of(ax: i64, ay: i64, bx: i64, by: i64) -> (c: i128)
    requires
        -0x4_0000_0000 <= ax <= 0x4_0000_0000,
        -0x4_0000_0000 <= ay <= 0x4_0000_0000,
        -0x4_0000_0000 <= bx <= 0x4_0000_0000,
        -0x4_0000_0000 <= by <= 0x4_0000_0000,
    ensures
        c == cross(ax as int, ay as int, bx as int, by as int),
{
    proof {
        assert(-0x4_0000_0000 * 0x4_0000_0000 <= ax * by <= 0x4_0000_0000 * 0x4_0000_0000)
            by (nonlinear_arith)
            requires
                -0x4_0000_0000 <= ax <= 0x4_0000_0000,
                -0x4_0000_0000 <= by <= 0x4_0000_0000,
        ;
        assert(-0x4_0000_0000 * 0x4_0000_0000 <= ay * bx <= 0x4_0000_0000 * 0x4_0000_0000)
            by (nonlinear_arith)
            requires
                -0x4_0000_0000 <= ay <= 0x4_0000_0000,
                -0x4_0000_0000 <= bx <= 0x4_0000_0000,
        ;
    }
    (ax as i128) * (by as i128) - (ay as i128) * (bx as i128)
}

fn wide_segments_cross(
    px: i64,
    py: i64,
    pex: i64,
    pey: i64,
    qx: i64,
    qy: i64,
    qex: i64,
    qey: i64,
) -> (meet: bool)
    requires
        -0x2_0000_0000 <= px <= 0x2_0000_0000,
        -0x2_0000_0000 <= py <= 0x2_0000_0000,
        -0x2_0000_0000 <= pex <= 0x2_0000_0000,
        -0x2_0000_0000 <= pey <= 0x2_0000_0000,
        -0x2_0000_0000 <= qx <= 0x2_0000_0000,
        -0x2_0000_0000 <= qy <= 0x2_0000_0000,
        -0x2_0000_0000 <= qex <= 0x2_0000_0000,
        -0x2_0000_0000 <= qey <= 0x2_0000_0000,
    ensures
        meet == segments_cross(
            px as int,
            py as int,
            pex as int,
            pey as int,
            qx as int,
            qy as int,
            qex as int,
            qey as int,
        ),
{
    let r_cross_s = cross_of(pex - px, pey - py, qex - qx, qey - qy);
    let d_cross_r = cross_of(qx - px, qy - py, pex - px, pey - py);
    let d_cross_s = cross_of(qx - px, qy - py, qex - qx, qey - qy);
    if r_cross_s == 0 {
        d_cross_r == 0 && d_cross_s == 0
    } else if r_cross_s > 0 {
        0 <= d_cross_s && d_cross_s <= r_cross_s && 0 <= d_cross_r && d_cross_r <= r_cross_s
    } else {
        r_cross_s <= d_cross_s && d_cross_s <= 0 && r_cross_s <= d_cross_r && d_cross_r <= 0
    }
}

/// Whether two segments meet. Parallel segments on one line count as
/// meeting even where they do not overlap; the order of the two does not
/// matter.
pub fn line_to_line_intersect(first: LineSegment, second: LineSegment) -> (meet: bool)
    ensures
        meet == segments_intersect(first, second),
{
    wide_segments_cross(
        first.0.0 as i64,
        first.0.1 as i64,
        first.1.0 as i64,
        first.1.1 as i64,
        second.0.0 as i64,
        second.0.1 as i64,
        second.1.0 as i64,
        second.1.1 as i64,
    )
}

/// Whether a segment touches an axis-aligned square.
pub fn line_to_square_intersect(line: LineSegment, square: Square) -> (hit: bool)
    ensures
        hit == segment_hits_square(line, square),
{
    let half: i64 = (square.1 / 2) as i64;
    let west: i64 = square.0.0 as i64 - half;
    let east: i64 = square.0.0 as i64 + half;
    let north: i64 = square.0.1 as i64 - half;
    let south: i64 = square.0.1 as i64 + half;
    let ax: i64 = line.0.0 as i64;
    let ay: i64 = line.0.1 as i64;
    let bx: i64 = line.1.0 as i64;
    let by: i64 = line.1.1 as i64;
    //if either endpoint of the line is inside the square, true
    if (west <= ax && ax <= east && north <= ay && ay <= south) || (west <= bx && bx <= east
        && north <= by && by <= south) {
        return true;
    }
    //if both points are beyond one side of the square, false
    if ax < west && bx < west {
        return false;
    }
    if ax > east && bx > east {
        return false;
    }
    if ay < north && by < north {
        return false;
    }
    if ay > south && by > south {
        return false;
    }
    //if the line intersects any of the square's sides, true
    if wide_segments_cross(ax, ay, bx, by, west, north, west, south) {
        return true;
    }
    if wide_segments_cross(ax, ay, bx, by, west, north, east, north) {
        return true;
    }
    if wide_segments_cross(ax, ay, bx, by, east, north, east, south) {
        return true;
    }
    if wide_segments_cross(ax, ay, bx, by, west, south, east, south) {
        return true;
    }
    false
}

/// A segment meets another whichever of its own ends comes first.
pub proof fn lemma_reversed_segment(
    px: int,
    py: int,
    pex: int,
    pey: int,
    qx: int,
    qy: int,
    qex: int,
    qey: int,
)
    ensures
        segments_cross(px, py, pex, pey, qx, qy, qex, qey) == segments_cross(
            pex,
            pey,
            px,
            py,
            qx,
            qy,
            qex,
            qey,
        ),
{
    let rx = pex - px;
    let ry = pey - py;
    let sx = qex - qx;
    let sy = qey - qy;
    let dx = qx - px;
    let dy = qy - py;
    assert(cross(-rx, -ry, sx, sy) == -cross(rx, ry, sx, sy)) by (nonlinear_arith);
    assert(cross(dx - rx, dy - ry, -rx, -ry) == -cross(dx, dy, rx, ry)) by (nonlinear_arith);
    assert(cross(dx - rx, dy - ry, sx, sy) == cross(dx, dy, sx, sy) - cross(rx, ry, sx, sy))
        by (nonlinear_arith);
    assert(px - pex == -rx && py - pey == -ry);
    assert(qx - pex == dx - rx && qy - pey == dy - ry);
}

/// A segment touches a square whichever of its ends comes first.
pub proof fn lemma_reversed_line_hits(line: LineSegment, square: Square)
    ensures
        segment_hits_square(line, square) == segment_hits_square((line.1, line.0), square),
{
    let half = (square.1 / 2) as int;
    let west = square.0.0 - half;
    let east = square.0.0 + half;
    let north = square.0.1 - half;
    let south = square.0.1 + half;
    let ax = line.0.0 as int;
    let ay = line.0.1 as int;
    let bx = line.1.0 as int;
    let by = line.1.1 as int;
    lemma_reversed_segment(ax, ay, bx, by, west, north, west, south);
    lemma_reversed_segment(ax, ay, bx, by, west, north, east, north);
    lemma_reversed_segment(ax, ay, bx, by, east, north, east, south);
    lemma_reversed_segment(ax, ay, bx, by, west, south, east, south);
}

/// Two segments meet in whichever order they are given.
pub proof fn lemma_intersection_symmetric(first: LineSegment, second: LineSegment)
    ensures
        segments_intersect(first, second) == segments_intersect(second, first),
{
    let rx = first.1.0 - first.0.0;
    let ry = first.1.1 - first.0.1;
    let sx = second.1.0 - second.0.0;
    let sy = second.1.1 - second.0.1;
    let dx = second.0.0 - first.0.0;
    let dy = second.0.1 - first.0.1;
    assert(cross(sx, sy, rx, ry) == -cross(rx, ry, sx, sy)) by (nonlinear_arith);
    assert(cross(-dx, -dy, rx, ry) == -cross(dx, dy, rx, ry)) by (nonlinear_arith);
    assert(cross(-dx, -dy, sx, sy) == -cross(dx, dy, sx, sy)) by (nonlinear_arith);
    assert(first.0.0 - second.0.0 == -dx);
    assert(first.0.1 - second.0.1 == -dy);
}

/// Parallel segments meet exactly when each end of either lies on the line
/// through the other.
pub proof fn lemma_parallel_meet_on_one_line(first: LineSegment, second: LineSegment)
    requires
        cross(
            first.1.0 - first.0.0,
            first.1.1 - first.0.1,
            second.1.0 - second.0.0,
            second.1.1 - second.0.1,
        ) == 0,
    ensures
        segments_intersect(first, second) == (on_line_of(first, second.0) && on_line_of(first, second.1)
            && on_line_of(second, first.0) && on_line_of(second, first.1)),
{
    let rx = first.1.0 - first.0.0;
    let ry = first.1.1 - first.0.1;
    let sx = second.1.0 - second.0.0;
    let sy = second.1.1 - second.0.1;
    let dx = second.0.0 - first.0.0;
    let dy = second.0.1 - first.0.1;
    assert(cross(dx + sx, dy + sy, rx, ry) == cross(dx, dy, rx, ry) - cross(rx, ry, sx, sy))
        by (nonlinear_arith);
    assert(cross(-dx, -dy, sx, sy) == -cross(dx, dy, sx, sy)) by (nonlinear_arith);
    assert(cross(rx - dx, ry - dy, sx, sy) == cross(rx, ry, sx, sy) - cross(dx, dy, sx, sy))
        by (nonlinear_arith);
    assert(second.1.0 - first.0.0 == dx + sx && second.1.1 - first.0.1 == dy + sy);
    assert(first.0.0 - second.0.0 == -dx && first.0.1 - second.0.1 == -dy);
    assert(first.1.0 - second.0.0 == rx - dx && first.1.1 - second.0.1 == ry - dy);
}

} // verus!
