use vstd::prelude::*;

verus! {

/// `r` is the square root of `n`, rounded down.
pub open spec fn is_floor_root(n: nat, r: nat) -> bool {
    r * r <= n && n < (r + 1) * (r + 1)
}

/// The square root of `n`, rounded down.
pub open spec fn floor_root(n: nat) -> nat {
    choose|r: nat| is_floor_root(n, r)
}

/// The length whose square is `squared`, in 256ths of a unit, rounded down.
pub open spec fn scaled_root(squared: nat) -> nat {
    floor_root(squared * 65536)
}

/// The squared length of the offset `(dx, dy)`.
pub open spec fn squared_length(dx: int, dy: int) -> nat {
    (dx * dx + dy * dy) as nat
}

/// A number has at most one rounded-down square root.
pub proof fn lemma_floor_root_unique(n: nat, a: nat, b: nat)
    requires
        is_floor_root(n, a),
        is_floor_root(n, b),
    ensures
        a == b,
{
    if a < b {
        assert((a + 1) * (a + 1) <= b * b) by (nonlinear_arith)
            requires
                a + 1 <= b,
        ;
    } else if b < a {
        assert((b + 1) * (b + 1) <= a * a) by (nonlinear_arith)
            requires
                b + 1 <= a,
        ;
    }
}

/// The rounded-down square root of nothing is nothing.
pub proof fn lemma_floor_root_of_zero()
    ensures
        floor_root(0) == 0,
        scaled_root(0) == 0,
{
    assert(is_floor_root(0, 0)) by (nonlinear_arith);
    lemma_floor_root_unique(0, 0, floor_root(0));
}

/// A length whose square is a whole number above zero is at least one unit.
pub proof fn lemma_scaled_root_of_positive(squared: nat)
    requires
        squared >= 1,
    ensures
        scaled_root(squared) >= 256,
{
    let r = floor_root(squared * 65536);
    if r < 256 {
        // some rounded-down root exists below the number itself
        lemma_floor_root_exists(squared * 65536);
        assert((r + 1) * (r + 1) <= 256 * 256) by (nonlinear_arith)
            requires
                r + 1 <= 256,
        ;
    }
}

/// Every number has a rounded-down square root.
pub proof fn lemma_floor_root_exists(n: nat)
    ensures
        is_floor_root(n, floor_root(n)),
    decreases n,
{
    if n == 0 {
        assert(is_floor_root(0, 0)) by (nonlinear_arith);
    } else {
        lemma_floor_root_exists((n - 1) as nat);
        let r = floor_root((n - 1) as nat);
        if n < (r + 1) * (r + 1) {
            assert(is_floor_root(n, r));
        } else {
            assert((r + 2) * (r + 2) > (r + 1) * (r + 1)) by (nonlinear_arith);
            assert(is_floor_root(n, r + 1));
        }
    }
}

proof fn lemma_square_fits(mid: u128)
    requires
        mid <= 0xffff_ffff_ffff_ffff,
    ensures
        mid * mid <= u128::MAX,
{
    assert(mid * mid <= 0xffff_ffff_ffff_ffff * 0xffff_ffff_ffff_ffff) by (nonlinear_arith)
        requires
            0 <= mid <= 0xffff_ffff_ffff_ffff,
    ;
    assert(0xffff_ffff_ffff_ffff * 0xffff_ffff_ffff_ffff <= u128::MAX);
}

/// The square root of `n`, rounded down, found by bisection.
pub fn floor_root_of(n: u128) -> (r: u64)
    ensures
        is_floor_root(n as nat, r as nat),
        r as nat == floor_root(n as nat),
{
    let mut lo: u128 = 0;
    let mut hi: u128 = 0x1_0000_0000_0000_0000;
    proof {
        assert(0x1_0000_0000_0000_0000 * 0x1_0000_0000_0000_0000 > u128::MAX);
    }
    while hi - lo > 1
        invariant
            lo < hi <= 0x1_0000_0000_0000_0000,
            lo * lo <= n,
            n < hi * hi,
        decreases hi - lo,
    {
        let mid: u128 = lo + (hi - lo) / 2;
        proof {
            lemma_square_fits(mid);
        }
        if mid * mid <= n {
            lo = mid;
        } else {
            hi = mid;
        }
    }
    proof {
        assert(hi == lo + 1);
        assert(is_floor_root(n as nat, lo as nat));
        let chosen = floor_root(n as nat);
        assert(is_floor_root(n as nat, chosen));
        lemma_floor_root_unique(n as nat, lo as nat, chosen);
    }
    lo as u64
}

/// The squared length of the offset between two points given by their axes.
pub fn squared_offset(ax: i32, ay: i32, bx: i32, by: i32) -> (squared: u128)
    ensures
        squared as nat == squared_length(ax - bx, ay - by),
        squared <= 0x2_0000_0000_0000_0000,
{
    let dx: i64 = ax as i64 - bx as i64;
    let dy: i64 = ay as i64 - by as i64;
    let wx: u128 = if dx < 0 { (-dx) as u128 } else { dx as u128 };
    let wy: u128 = if dy < 0 { (-dy) as u128 } else { dy as u128 };
    proof {
        assert(wx * wx <= 0x1_0000_0000 * 0x1_0000_0000) by (nonlinear_arith)
            requires
                0 <= wx <= 0x1_0000_0000,
        ;
        assert(wy * wy <= 0x1_0000_0000 * 0x1_0000_0000) by (nonlinear_arith)
            requires
                0 <= wy <= 0x1_0000_0000,
        ;
        assert(wx * wx == (ax - bx) * (ax - bx)) by (nonlinear_arith)
            requires
                wx == ax - bx || wx == -(ax - bx),
        ;
        assert(wy * wy == (ay - by) * (ay - by)) by (nonlinear_arith)
            requires
                wy == ay - by || wy == -(ay - by),
        ;
    }
    wx * wx + wy * wy
}

/// The length of the offset between two points, in 256ths of a unit, rounded
/// down.
pub fn scaled_distance(ax: i32, ay: i32, bx: i32, by: i32) -> (d: u64)
    ensures
        d as nat == scaled_root(squared_length(ax - bx, ay - by)),
{
    let squared = squared_offset(ax, ay, bx, by);
    floor_root_of(squared * 65536)
}

} // verus!
