use vstd::prelude::*;

verus! {

/// A point, extent or velocity in the plane, in integer units.
#[derive(Clone, Copy, Debug, PartialEq, Eq, Structural)]
pub struct Vector2 {
    pub x: i64,
    pub y: i64,
}

/// Largest coordinate magnitude that the overlap test accepts.
pub const POSITION_BOUND: i64 = 100_000_000_000_000_000;

/// Largest extent magnitude that the overlap test accepts.
pub const SIZE_BOUND: i64 = 10_000_000_000_000_000;

pub open spec fn within(v: Vector2, bound: int) -> bool {
    -bound <= v.x <= bound && -bound <= v.y <= bound
}

/// Whether two centered axis-aligned rectangles overlap, with open intervals
/// on both axes. Halves are avoided by comparing doubled coordinates, so the
/// test is exact for odd extents too.
pub open spec fn overlaps_spec(a_pos: Vector2, a_size: Vector2, b_pos: Vector2, b_size: Vector2) -> bool {
    &&& 2 * a_pos.x - a_size.x < 2 * b_pos.x + b_size.x
    &&& 2 * a_pos.x + a_size.x > 2 * b_pos.x - b_size.x
    &&& 2 * a_pos.y - a_size.y < 2 * b_pos.y + b_size.y
    &&& 2 * a_pos.y + a_size.y > 2 * b_pos.y - b_size.y
}

/// Overlap test between rectangle A (center `a_pos`, full extent `a_size`) and
/// rectangle B. Touching edges do not count as an overlap.
pub fn overlaps(a_pos: Vector2, a_size: Vector2, b_pos: Vector2, b_size: Vector2) -> (r: bool)
    requires
        within(a_pos, POSITION_BOUND as int),
        within(b_pos, POSITION_BOUND as int),
        within(a_size, SIZE_BOUND as int),
        within(b_size, SIZE_BOUND as int),
    ensures
        r == overlaps_spec(a_pos, a_size, b_pos, b_size),
{
    let a_min_x = 2 * a_pos.x - a_size.x;
    let a_max_x = 2 * a_pos.x + a_size.x;
    let a_min_y = 2 * a_pos.y - a_size.y;
    let a_max_y = 2 * a_pos.y + a_size.y;
    let b_min_x = 2 * b_pos.x - b_size.x;
    let b_max_x = 2 * b_pos.x + b_size.x;
    let b_min_y = 2 * b_pos.y - b_size.y;
    let b_max_y = 2 * b_pos.y + b_size.y;
    a_min_x < b_max_x && a_max_x > b_min_x && a_min_y < b_max_y && a_max_y > b_min_y
}

/// Overlap does not depend on which rectangle is named first.
pub proof fn lemma_overlaps_symmetric(a_pos: Vector2, a_size: Vector2, b_pos: Vector2, b_size: Vector2)
    ensures
        overlaps_spec(a_pos, a_size, b_pos, b_size) == overlaps_spec(b_pos, b_size, a_pos, a_size),
{
}

/// Two rectangles whose edges touch exactly, A's right edge on B's left edge,
/// do not overlap.
pub proof fn lemma_touching_edges_do_not_overlap(a_pos: Vector2, a_size: Vector2, b_pos: Vector2, b_size: Vector2)
    requires
        2 * a_pos.x + a_size.x == 2 * b_pos.x - b_size.x,
    ensures
        !overlaps_spec(a_pos, a_size, b_pos, b_size),
        !overlaps_spec(b_pos, b_size, a_pos, a_size),
{
}

/// Two rectangles whose edges touch exactly, A's top edge on B's bottom edge,
/// do not overlap.
pub proof fn lemma_touching_vertical_edges_do_not_overlap(a_pos: Vector2, a_size: Vector2, b_pos: Vector2, b_size: Vector2)
    requires
        2 * a_pos.y + a_size.y == 2 * b_pos.y - b_size.y,
    ensures
        !overlaps_spec(a_pos, a_size, b_pos, b_size),
        !overlaps_spec(b_pos, b_size, a_pos, a_size),
{
}

/// The integer square root: the largest `r` with `r * r <= n`.
pub open spec fn floor_sqrt(n: nat) -> nat
    decreases n,
{
    if n == 0 {
        0
    } else {
        let r = floor_sqrt((n - 1) as nat);
        if (r + 1) * (r + 1) <= n {
            r + 1
        } else {
            r
        }
    }
}

pub proof fn lemma_floor_sqrt(n: nat)
    ensures
        floor_sqrt(n) * floor_sqrt(n) <= n,
        n < (floor_sqrt(n) + 1) * (floor_sqrt(n) + 1),
    decreases n,
{
    if n > 0 {
        lemma_floor_sqrt((n - 1) as nat);
        let r = floor_sqrt((n - 1) as nat);
        assert((r + 2) * (r + 2) == (r + 1) * (r + 1) + 2 * r + 3) by (nonlinear_arith);
        if (r + 1) * (r + 1) <= n {
            assert(floor_sqrt(n) == r + 1);
            assert(floor_sqrt(n) * floor_sqrt(n) == (r + 1) * (r + 1));
            assert((floor_sqrt(n) + 1) * (floor_sqrt(n) + 1) == (r + 2) * (r + 2));
        } else {
            assert(floor_sqrt(n) == r);
        }
    } else {
        assert(floor_sqrt(n) == 0);
        assert(floor_sqrt(n) * floor_sqrt(n) == 0);
        assert((0int + 1) * (0int + 1) == 1);
    }
}

proof fn lemma_sqrt_unique(n: nat, r: nat, s: nat)
    requires
        r * r <= n < (r + 1) * (r + 1),
        s * s <= n < (s + 1) * (s + 1),
    ensures
        r == s,
{
    if r < s {
        assert((r + 1) * (r + 1) <= s * s) by (nonlinear_arith)
            requires r + 1 <= s;
    } else if s < r {
        assert((s + 1) * (s + 1) <= r * r) by (nonlinear_arith)
            requires s + 1 <= r;
    }
}

/// Integer square root of `n`, rounded down.
pub fn isqrt(n: u64) -> (r: u64)
    ensures
        r == floor_sqrt(n as nat),
{
    let mut lo: u64 = 0;
    let mut hi: u64 = 4_294_967_296;
    assert(hi * hi > u64::MAX) by (nonlinear_arith)
        requires hi == 4_294_967_296u64;
    while hi - lo > 1
        invariant
            lo < hi <= 4_294_967_296,
            lo * lo <= n,
            n < hi * hi,
        decreases hi - lo,
    {
        let mid: u64 = lo + (hi - lo) / 2;
        assert(mid * mid < 18_446_744_073_709_551_616) by (nonlinear_arith)
            requires mid < 4_294_967_296;
        if mid * mid <= n {
            lo = mid;
        } else {
            hi = mid;
        }
    }
    proof {
        lemma_floor_sqrt(n as nat);
        lemma_sqrt_unique(n as nat, lo as nat, floor_sqrt(n as nat));
    }
    lo
}

} // verus!
