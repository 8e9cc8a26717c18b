use crate::grid::dist_sq;
use vstd::prelude::*;

verus! {

/// Lengths, speeds, angles and times are whole numbers of thousandths.
pub const UNIT: i64 = 1000;

/// Whether `r` is the whole part of the square root of `n`.
pub open spec fn is_root(n: int, r: int) -> bool {
    0 <= r && r * r <= n < (r + 1) * (r + 1)
}

/// A number has one whole root only.
pub proof fn lemma_root_unique(n: int, a: int, b: int)
    requires
        is_root(n, a),
        is_root(n, b),
    ensures
        a == b,
{
    if a < b {
        assert((a + 1) * (a + 1) <= b * b) by (nonlinear_arith)
            requires
                0 <= a,
                a + 1 <= b,
        ;
    } else if b < a {
        assert((b + 1) * (b + 1) <= a * a) by (nonlinear_arith)
            requires
                0 <= b,
                b + 1 <= a,
        ;
    }
}

/// The whole part of the square root of `n`.
pub open spec fn root_of(n: int) -> int {
    choose|r: int| is_root(n, r)
}

/// Every number from zero on has a whole root.
pub proof fn lemma_root_exists(n: int)
    requires
        n >= 0,
    ensures
        is_root(n, root_of(n)),
    decreases n,
{
    if n == 0 {
        assert(is_root(0, 0));
    } else {
        lemma_root_exists(n - 1);
        let r = root_of(n - 1);
        if (r + 1) * (r + 1) <= n {
            assert(n < (r + 2) * (r + 2)) by (nonlinear_arith)
                requires
                    n - 1 < (r + 1) * (r + 1),
                    r >= 0,
            ;
            assert(is_root(n, r + 1));
        } else {
            assert(r * r <= n);
            assert(is_root(n, r));
        }
    }
}

/// The whole part of the square root of `n`, for `n` below 2^68.
pub fn whole_root(n: u128) -> (r: u64)
    requires
        n < 0x10_0000_0000_0000_0000,
    ensures
        is_root(n as int, r as int),
        r as int == root_of(n as int),
        r < 0x4_0000_0000,
{
    let mut lo: u64 = 0;
    let mut hi: u64 = 0x4_0000_0000;
    assert(0x4_0000_0000 * 0x4_0000_0000 == 0x10_0000_0000_0000_0000) by (nonlinear_arith);
    while hi - lo > 1
        invariant
            lo < hi <= 0x4_0000_0000,
            lo * lo <= n < hi * hi,
        decreases hi - lo,
    {
        let mid: u64 = lo + (hi - lo) / 2;
        assert(mid * mid <= 0x4_0000_0000 * 0x4_0000_0000) by (nonlinear_arith)
            requires
                0 <= mid <= 0x4_0000_0000,
        ;
        if (mid as u128) * (mid as u128) <= n {
            lo = mid;
        } else {
            hi = mid;
        }
    }
    proof {
        lemma_root_unique(n as int, lo as int, root_of(n as int));
    }
    lo
}

/// The straight-line distance between two points, rounded down.
pub open spec fn gap(a: (int, int), b: (int, int)) -> int {
    root_of(dist_sq(a, b))
}

/// A distance is not negative, and between points with 32-bit coordinates
/// it stays below 2^33.
pub proof fn lemma_gap_bounded(a: (int, int), b: (int, int))
    ensures
        0 <= gap(a, b),
        is_root(dist_sq(a, b), gap(a, b)),
        i32::MIN <= a.0 <= i32::MAX && i32::MIN <= a.1 <= i32::MAX && i32::MIN <= b.0 <= i32::MAX
            && i32::MIN <= b.1 <= i32::MAX ==> gap(a, b) <= 0x2_0000_0000,
{
    let dx = a.0 - b.0;
    let dy = a.1 - b.1;
    assert(dx * dx >= 0 && dy * dy >= 0) by (nonlinear_arith);
    lemma_root_exists(dist_sq(a, b));
    let d = gap(a, b);
    if i32::MIN <= a.0 <= i32::MAX && i32::MIN <= a.1 <= i32::MAX && i32::MIN <= b.0 <= i32::MAX
        && i32::MIN <= b.1 <= i32::MAX {
        assert(dx * dx <= 0x1_0000_0000 * 0x1_0000_0000) by (nonlinear_arith)
            requires
                -0x1_0000_0000 <= dx <= 0x1_0000_0000,
        ;
        assert(dy * dy <= 0x1_0000_0000 * 0x1_0000_0000) by (nonlinear_arith)
            requires
                -0x1_0000_0000 <= dy <= 0x1_0000_0000,
        ;
        assert(d <= 0x2_0000_0000) by (nonlinear_arith)
            requires
                d >= 0,
                d * d <= dist_sq(a, b),
                dist_sq(a, b) <= 2 * (0x1_0000_0000 * 0x1_0000_0000),
        ;
    }
}

/// The straight-line distance between two points, rounded down.
pub fn distance(a: (i32, i32), b: (i32, i32)) -> (d: u64)
    ensures
        d as int == gap((a.0 as int, a.1 as int), (b.0 as int, b.1 as int)),
        is_root(dist_sq((a.0 as int, a.1 as int), (b.0 as int, b.1 as int)), d as int),
        d <= 0x2_0000_0000,
{
    let dx: i128 = a.0 as i128 - b.0 as i128;
    let dy: i128 = a.1 as i128 - b.1 as i128;
    assert(0 <= dx * dx <= 0x1_0000_0000 * 0x1_0000_0000) by (nonlinear_arith)
        requires
            -0x1_0000_0000 <= dx <= 0x1_0000_0000,
    ;
    assert(0 <= dy * dy <= 0x1_0000_0000 * 0x1_0000_0000) by (nonlinear_arith)
        requires
            -0x1_0000_0000 <= dy <= 0x1_0000_0000,
    ;
    let n: u128 = (dx * dx + dy * dy) as u128;
    let d = whole_root(n);
    assert(d <= 0x2_0000_0000) by (nonlinear_arith)
        requires
            d * d <= n,
            n <= 2 * (0x1_0000_0000 * 0x1_0000_0000),
    ;
    d
}

/// `v` held between `lo` and `hi`.
pub open spec fn clamp_int(v: int, lo: int, hi: int) -> int {
    if v < lo {
        lo
    } else if v > hi {
        hi
    } else {
        v
    }
}

/// The quotient of `a` by a positive `b`, rounded towards zero.
pub open spec fn trunc_div(a: int, b: int) -> int {
    if a >= 0 {
        a / b
    } else {
        -((-a) / b)
    }
}

/// The product of a number with a factor in thousandths, rounded towards zero.
pub open spec fn scale(v: int, by: int) -> int {
    trunc_div(v * by, UNIT as int)
}

/// The product of a number with a factor in thousandths, rounded towards zero.
pub fn scaled(v: i64, by: i64) -> (r: i128)
    ensures
        r as int == scale(v as int, by as int),
        -0x4000_0000_0000_0000_0000_0000_0000_0000 <= r <= 0x4000_0000_0000_0000_0000_0000_0000_0000,
        (v >= 0 && by >= 0) || (v <= 0 && by <= 0) ==> r >= 0,
{
    assert(-0x4000_0000_0000_0000_0000_0000_0000_0000 <= (v as int) * (by as int)
        <= 0x4000_0000_0000_0000_0000_0000_0000_0000) by (nonlinear_arith)
        requires
            -0x8000_0000_0000_0000 <= v <= 0x8000_0000_0000_0000,
            -0x8000_0000_0000_0000 <= by <= 0x8000_0000_0000_0000,
    ;
    assert((v >= 0 && by >= 0) || (v <= 0 && by <= 0) ==> (v as int) * (by as int) >= 0)
        by (nonlinear_arith);
    let p: i128 = (v as i128) * (by as i128);
    if p >= 0 {
        ((p as u128) / 1000) as i128
    } else {
        -((((-p) as u128) / 1000) as i128)
    }
}

/// The quotient of `a` by a positive `b`, rounded towards zero.
pub fn cut_div(a: i128, b: u128) -> (q: i128)
    requires
        b > 0,
        a > i128::MIN,
    ensures
        q as int == trunc_div(a as int, b as int),
        a >= 0 ==> 0 <= q <= a,
        a <= 0 ==> a <= q <= 0,
{
    if a >= 0 {
        let q: u128 = (a as u128) / b;
        assert(q <= a) by (nonlinear_arith)
            requires
                q == (a as u128) / b,
                b >= 1,
                a >= 0,
        ;
        q as i128
    } else {
        let size: u128 = (-a) as u128;
        let q: u128 = size / b;
        assert(q <= size) by (nonlinear_arith)
            requires
                q == size / b,
                b >= 1,
        ;
        -(q as i128)
    }
}

/// The vector of length one thousand that points as `v` does, each
/// coordinate rounded towards zero; the zero vector for a `v` shorter than
/// one.
pub open spec fn unit_of(v: (int, int)) -> (int, int) {
    let len = root_of(v.0 * v.0 + v.1 * v.1);
    if len == 0 {
        (0, 0)
    } else {
        (trunc_div(v.0 * 1000, len), trunc_div(v.1 * 1000, len))
    }
}

/// The length of `v`, rounded down.
pub open spec fn length_of(v: (int, int)) -> int {
    root_of(v.0 * v.0 + v.1 * v.1)
}

/// No coordinate of a vector is longer than the vector, rounded down.
pub proof fn lemma_part_within_length(v: (int, int))
    ensures
        length_of(v) >= 0,
        -length_of(v) <= v.0 <= length_of(v),
        -length_of(v) <= v.1 <= length_of(v),
{
    let n = v.0 * v.0 + v.1 * v.1;
    assert(v.0 * v.0 >= 0 && v.1 * v.1 >= 0) by (nonlinear_arith);
    lemma_root_exists(n);
    let d = length_of(v);
    assert(-d <= v.0 <= d) by (nonlinear_arith)
        requires
            d >= 0,
            v.0 * v.0 < (d + 1) * (d + 1),
    ;
    assert(-d <= v.1 <= d) by (nonlinear_arith)
        requires
            d >= 0,
            v.1 * v.1 < (d + 1) * (d + 1),
    ;
}

/// The length of a vector whose coordinates lie within 2^33, and the unit
/// vector that points as it does.
pub fn polar(v: (i64, i64)) -> (r: ((i32, i32), u64))
    requires
        -0x2_0000_0000 <= v.0 <= 0x2_0000_0000,
        -0x2_0000_0000 <= v.1 <= 0x2_0000_0000,
    ensures
        (r.0.0 as int, r.0.1 as int) == unit_of((v.0 as int, v.1 as int)),
        r.1 as int == length_of((v.0 as int, v.1 as int)),
        -1000 <= r.0.0 <= 1000,
        -1000 <= r.0.1 <= 1000,
{
    assert(0 <= v.0 * v.0 <= 0x2_0000_0000 * 0x2_0000_0000) by (nonlinear_arith)
        requires
            -0x2_0000_0000 <= v.0 <= 0x2_0000_0000,
    ;
    assert(0 <= v.1 * v.1 <= 0x2_0000_0000 * 0x2_0000_0000) by (nonlinear_arith)
        requires
            -0x2_0000_0000 <= v.1 <= 0x2_0000_0000,
    ;
    let n: u128 = ((v.0 as i128) * (v.0 as i128) + (v.1 as i128) * (v.1 as i128)) as u128;
    let len: u64 = whole_root(n);
    if len == 0 {
        ((0, 0), 0)
    } else {
        proof {
            lemma_part_within_length((v.0 as int, v.1 as int));
            lemma_unit_part(v.0 as int, len as int);
            lemma_unit_part(v.1 as int, len as int);
        }
        let x: i128 = cut_div((v.0 as i128) * 1000, len as u128);
        let y: i128 = cut_div((v.1 as i128) * 1000, len as u128);
        ((x as i32, y as i32), len)
    }
}

/// A coordinate no longer than a length, taken in thousandths of it, lies
/// between minus and plus one thousand.
pub proof fn lemma_unit_part(part: int, len: int)
    requires
        len > 0,
        -len <= part <= len,
    ensures
        -1000 <= trunc_div(part * 1000, len) <= 1000,
{
    if part >= 0 {
        assert(0 <= (part * 1000) / len <= 1000) by (nonlinear_arith)
            requires
                len > 0,
                0 <= part <= len,
        ;
    } else {
        assert(0 <= (-(part * 1000)) / len <= 1000) by (nonlinear_arith)
            requires
                len > 0,
                0 <= -part <= len,
        ;
    }
}

/// A scaled number is no larger than the sizes of the number and of the
/// factor allow.
pub proof fn lemma_scale_bounded(v: int, by: int, a: int, b: int)
    requires
        -a <= v <= a,
        -b <= by <= b,
    ensures
        -(a * b) <= scale(v, by) <= a * b,
        (v >= 0 && by >= 0) ==> scale(v, by) >= 0,
{
    assert(-(a * b) <= v * by <= a * b) by (nonlinear_arith)
        requires
            -a <= v <= a,
            -b <= by <= b,
    ;
    assert((v >= 0 && by >= 0) ==> v * by >= 0) by (nonlinear_arith);
    let p = v * by;
    if p >= 0 {
        assert(0 <= p / 1000 <= p);
    } else {
        assert(0 <= (-p) / 1000 <= -p);
    }
}

/// A coordinate kept within 32 bits.
pub open spec fn sat32(v: int) -> int {
    clamp_int(v, i32::MIN as int, i32::MAX as int)
}

/// A coordinate kept within 32 bits.
pub fn saturate(v: i128) -> (r: i32)
    ensures
        r as int == sat32(v as int),
{
    if v < i32::MIN as i128 {
        i32::MIN
    } else if v > i32::MAX as i128 {
        i32::MAX
    } else {
        v as i32
    }
}

/// The direction from `from` to `to`, as a vector of length one thousand;
/// zero where the two are less than one thousandth apart.
pub open spec fn heading(from: (int, int), to: (int, int)) -> (int, int) {
    unit_of((to.0 - from.0, to.1 - from.1))
}

/// The point that lies `len` from `from` in the direction `dir`, kept
/// within 32 bits.
pub open spec fn offset(from: (int, int), dir: (int, int), len: int) -> (int, int) {
    (sat32(from.0 + scale(dir.0, len)), sat32(from.1 + scale(dir.1, len)))
}

/// The direction from `from` to `to`.
pub fn heading_to(from: (i32, i32), to: (i32, i32)) -> (dir: (i32, i32))
    ensures
        (dir.0 as int, dir.1 as int) == heading(
            (from.0 as int, from.1 as int),
            (to.0 as int, to.1 as int),
        ),
        -1000 <= dir.0 <= 1000,
        -1000 <= dir.1 <= 1000,
{
    polar((to.0 as i64 - from.0 as i64, to.1 as i64 - from.1 as i64)).0
}

/// The point that lies `len` from `from` in the direction `dir`.
pub fn offset_by(from: (i32, i32), dir: (i32, i32), len: i64) -> (p: (i32, i32))
    ensures
        (p.0 as int, p.1 as int) == offset(
            (from.0 as int, from.1 as int),
            (dir.0 as int, dir.1 as int),
            len as int,
        ),
{
    (
        saturate(from.0 as i128 + scaled(dir.0 as i64, len)),
        saturate(from.1 as i128 + scaled(dir.1 as i64, len)),
    )
}

} // verus!
