use vstd::prelude::*;

verus! {

/// Half the width of the coordinate range of a grid axis.
pub const AXIS_OFFSET: u64 = 0x8000_0000;

/// Number of distinct coordinates on one grid axis.
pub const AXIS_SPAN: u64 = 0x1_0000_0000;

/// Whether `(x, y)` names a grid cell, that is both coordinates are 32-bit.
pub open spec fn on_grid(c: (int, int)) -> bool {
    &&& i32::MIN <= c.0 <= i32::MAX
    &&& i32::MIN <= c.1 <= i32::MAX
}

/// The number under which a cell is stored: rows of `AXIS_SPAN` cells, the
/// lowest coordinates first.
pub open spec fn cell_key(c: (int, int)) -> int {
    (c.0 + AXIS_OFFSET as int) * (AXIS_SPAN as int) + (c.1 + AXIS_OFFSET as int)
}

/// The cell that is stored under `k`.
pub open spec fn key_cell(k: int) -> (int, int) {
    (k / (AXIS_SPAN as int) - AXIS_OFFSET as int, k % (AXIS_SPAN as int) - AXIS_OFFSET as int)
}

/// Every cell has a key of its own, and every 64-bit number is the key of a cell.
pub proof fn lemma_key_round_trip(c: (int, int), k: int)
    ensures
        on_grid(c) ==> 0 <= cell_key(c) <= u64::MAX && key_cell(cell_key(c)) == c,
        0 <= k <= u64::MAX ==> on_grid(key_cell(k)) && cell_key(key_cell(k)) == k,
{
}

/// The square of the straight-line distance between two cells.
pub open spec fn dist_sq(a: (int, int), b: (int, int)) -> int {
    (a.0 - b.0) * (a.0 - b.0) + (a.1 - b.1) * (a.1 - b.1)
}

/// Whether `p` lies strictly less than `radius` away from `q`.
pub open spec fn in_reach(p: (int, int), q: (int, int), radius: int) -> bool {
    radius >= 0 && dist_sq(p, q) < radius * radius
}

/// The square of the straight-line distance between two cells.
pub fn distance_squared(a: (i32, i32), b: (i32, i32)) -> (d: u128)
    ensures
        d as int == dist_sq((a.0 as int, a.1 as int), (b.0 as int, b.1 as int)),
{
    let dx: i128 = a.0 as i128 - b.0 as i128;
    let dy: i128 = a.1 as i128 - b.1 as i128;
    assert(0 <= dx * dx <= 0x1_0000_0000 * 0x1_0000_0000) by (nonlinear_arith)
        requires
            -0x1_0000_0000 <= dx <= 0x1_0000_0000,
    ;
    assert(0 <= dy * dy <= 0x1_0000_0000 * 0x1_0000_0000) by (nonlinear_arith)
        requires
            -0x1_0000_0000 <= dy <= 0x1_0000_0000,
    ;
    (dx * dx + dy * dy) as u128
}

pub fn pack(x: i32, y: i32) -> (k: u64)
    ensures
        k as int == cell_key((x as int, y as int)),
{
    let col: u64 = (x as i64 + 0x8000_0000i64) as u64;
    let row: u64 = (y as i64 + 0x8000_0000i64) as u64;
    col * AXIS_SPAN + row
}

pub fn unpack(k: u64) -> (c: (i32, i32))
    ensures
        (c.0 as int, c.1 as int) == key_cell(k as int),
{
    let x: i64 = (k / AXIS_SPAN) as i64 - 0x8000_0000i64;
    let y: i64 = (k % AXIS_SPAN) as i64 - 0x8000_0000i64;
    (x as i32, y as i32)
}

} // verus!
