use crate::fixed::{cut_div, sat32, saturate, trunc_div};
use crate::grid::{cell_key, dist_sq, distance_squared, in_reach, on_grid};
use crate::totals::{
    bag_order,
    bag_total,
    lemma_bag_order,
    lemma_total_linear,
    lemma_total_nonneg,
    lemma_total_permute,
    lemma_weighted_bounds,
    lemma_weighted_upper,
    seq_total,
};
use vstd::multiset::Multiset;
use vstd::prelude::*;

verus! {

/// Scent strengths are whole numbers of thousandths.
pub const STRENGTH_UNIT: u32 = 1000;

/// The two kinds of trail that ants lay.
#[derive(Clone, Copy, PartialEq, Eq, Structural, Debug, Hash)]
pub enum ScentType {
    FoundFoodSmell,
    AntSmell,
}

/// Which cells around an ant count when it looks for a trail. The point
/// of reference is a position in thousandths.
#[derive(Clone, Copy, Debug)]
pub enum WeightType {
    /// Only cells strictly nearer to the given point than the ant is.
    CloserTo((i32, i32)),
    /// Only cells strictly further from the given point than the ant is.
    FurtherFrom((i32, i32)),
    /// Every cell.
    Unweighted,
}

/// How scent is laid and how fast it fades, in thousandths of a strength
/// unit; the radius in cells.
#[derive(Clone, Copy, Debug)]
pub struct ScentSettings {
    pub decay_rate: u32,
    pub smell_radius: i32,
    pub starting_strength: u32,
    pub max_smell: u32,
}

impl Default for ScentSettings {
    fn default() -> (s: Self)
        ensures
            s.decay_rate == 2500,
            s.smell_radius == 10,
            s.starting_strength == 50 * STRENGTH_UNIT,
            s.max_smell == 150 * STRENGTH_UNIT,
    {
        ScentSettings {
            decay_rate: 2500,
            smell_radius: 10,
            starting_strength: 50 * STRENGTH_UNIT,
            max_smell: 150 * STRENGTH_UNIT,
        }
    }
}

/// The strength of a cell after a deposit of `strength`: a cell that holds
/// scent gains it up to `max_strength`, an empty cell takes it as it is.
pub open spec fn deposited(before: Option<nat>, strength: nat, max_strength: nat) -> nat {
    match before {
        Some(v) => if v + strength <= max_strength {
            v + strength
        } else {
            max_strength
        },
        None => strength,
    }
}

/// The strength of a cell after it has faded by `decay_by`, never below zero.
pub open spec fn faded(strength: nat, decay_by: nat) -> nat {
    if strength > decay_by {
        (strength - decay_by) as nat
    } else {
        0
    }
}

/// What is left of a field when the cells without scent are dropped.
pub open spec fn culled(cells: Map<(int, int), nat>) -> Map<(int, int), nat> {
    Map::new(|c: (int, int)| cells.contains_key(c) && cells[c] > 0, |c: (int, int)| cells[c])
}

/// What is left of a field when every cell has faded by `decay_by`.
pub open spec fn decayed(cells: Map<(int, int), nat>, decay_by: nat) -> Map<(int, int), nat> {
    Map::new(|c: (int, int)| cells.contains_key(c), |c: (int, int)| faded(cells[c], decay_by))
}

/// The field that a table of keyed strengths stands for.
pub open spec fn field_of(table: Map<u64, u32>) -> Map<(int, int), nat> {
    Map::new(
        |c: (int, int)| on_grid(c) && table.contains_key(cell_key(c) as u64),
        |c: (int, int)| table[cell_key(c) as u64] as nat,
    )
}

/// A grid cell, as the contracts speak of it.
pub open spec fn cell_of(c: (i32, i32)) -> (int, int) {
    (c.0 as int, c.1 as int)
}

/// The strength that a field holds at `c`, if it holds any.
pub open spec fn strength_in(cells: Map<(int, int), nat>, c: (int, int)) -> Option<nat> {
    if cells.contains_key(c) {
        Some(cells[c])
    } else {
        None
    }
}

/// The other kind of scent.
pub open spec fn other_scent(scent: ScentType) -> ScentType {
    match scent {
        ScentType::FoundFoodSmell => ScentType::AntSmell,
        ScentType::AntSmell => ScentType::FoundFoodSmell,
    }
}

/// The position of a cell in thousandths: its coordinates as lengths.
pub open spec fn spot_of(cell: (int, int)) -> (int, int) {
    (cell.0 * 1000, cell.1 * 1000)
}

impl WeightType {
    /// Whether the cell `p` counts for an ant at the position `me`: the
    /// cell's distance from the point of reference is held against the
    /// ant's own.
    pub open spec fn admits(self, p: (int, int), me: (int, int)) -> bool {
        match self {
            WeightType::CloserTo(home) => dist_sq(spot_of(p), cell_of(home)) < dist_sq(
                me,
                cell_of(home),
            ),
            WeightType::FurtherFrom(home) => dist_sq(spot_of(p), cell_of(home)) > dist_sq(
                me,
                cell_of(home),
            ),
            WeightType::Unweighted => true,
        }
    }

    /// Whether the cell `p` counts for an ant at the position `me`.
    pub fn lets_in(&self, p: (i32, i32), me: (i32, i32)) -> (b: bool)
        ensures
            b == self.admits(cell_of(p), cell_of(me)),
    {
        match self {
            WeightType::CloserTo(home) => spot_distance_squared(p, *home) < distance_squared(
                me,
                *home,
            ),
            WeightType::FurtherFrom(home) => spot_distance_squared(p, *home) > distance_squared(
                me,
                *home,
            ),
            WeightType::Unweighted => true,
        }
    }
}

/// The square of the distance between a cell and a position.
fn spot_distance_squared(cell: (i32, i32), pos: (i32, i32)) -> (d: u128)
    ensures
        d as int == dist_sq(spot_of(cell_of(cell)), cell_of(pos)),
{
    let dx: i128 = (cell.0 as i128) * 1000 - pos.0 as i128;
    let dy: i128 = (cell.1 as i128) * 1000 - pos.1 as i128;
    assert(0 <= dx * dx <= 0x400_0000_0000 * 0x400_0000_0000) by (nonlinear_arith)
        requires
            -0x400_0000_0000 <= dx <= 0x400_0000_0000,
    ;
    assert(0 <= dy * dy <= 0x400_0000_0000 * 0x400_0000_0000) by (nonlinear_arith)
        requires
            -0x400_0000_0000 <= dy <= 0x400_0000_0000,
    ;
    (dx * dx + dy * dy) as u128
}

/// Whether the cell `p` is one that an ant at the position `me` steers by:
/// another cell than the one it stands in, with scent in it, that the
/// weighting lets in.
pub open spec fn is_candidate(
    cells: Map<(int, int), nat>,
    weighting: WeightType,
    me: (int, int),
    p: (int, int),
) -> bool {
    p != grid_cell(me) && cells.contains_key(p) && weighting.admits(p, me)
}

/// The weight with which each cell enters the centroid: its strength for a
/// candidate, nothing for any other cell.
pub open spec fn pull(cells: Map<(int, int), nat>, weighting: WeightType, me: (int, int)) -> spec_fn(
    (int, int),
) -> int {
    |p: (int, int)|
        if is_candidate(cells, weighting, me, p) {
            cells[p] as int
        } else {
            0
        }
}

/// Each cell's weight times its first coordinate.
pub open spec fn pull_x(cells: Map<(int, int), nat>, weighting: WeightType, me: (int, int)) -> spec_fn(
    (int, int),
) -> int {
    |p: (int, int)| pull(cells, weighting, me)(p) * p.0
}

/// Each cell's weight times its second coordinate.
pub open spec fn pull_y(cells: Map<(int, int), nat>, weighting: WeightType, me: (int, int)) -> spec_fn(
    (int, int),
) -> int {
    |p: (int, int)| pull(cells, weighting, me)(p) * p.1
}

/// The indexed cells that lie within `radius` of `me`.
pub open spec fn reachable(indexed: Multiset<(int, int)>, me: (int, int), radius: int) -> Multiset<
    (int, int),
> {
    indexed.filter(|p: (int, int)| in_reach(p, me, radius))
}

/// The strength-weighted centroid of the candidates among the indexed cells
/// within `radius` of the cell that the position `me` falls into, as the two
/// weighted coordinate sums and the total weight; nothing where the total
/// weight is zero.
pub open spec fn weighted_target(
    cells: Map<(int, int), nat>,
    indexed: Multiset<(int, int)>,
    weighting: WeightType,
    radius: int,
    me: (int, int),
) -> Option<(int, int, int)> {
    let hits = reachable(indexed, grid_cell(me), radius);
    let weight = bag_total(hits, pull(cells, weighting, me));
    if weight == 0 {
        None
    } else {
        Some(
            (
                bag_total(hits, pull_x(cells, weighting, me)),
                bag_total(hits, pull_y(cells, weighting, me)),
                weight,
            ),
        )
    }
}

/// A strength-weighted centroid, kept exact: the point is
/// `(sum_x / weight, sum_y / weight)`.
#[derive(Clone, Copy, Debug)]
pub struct Centroid {
    pub sum_x: i128,
    pub sum_y: i128,
    pub weight: u128,
}

impl Centroid {
    /// The weight is positive and no more than all the cells of a grid can
    /// hold, and the point lies on the grid.
    pub open spec fn wf(&self) -> bool {
        &&& 0 < self.weight <= 0x1_0000_0000_0000_0000_0000_0000
        &&& i32::MIN * self.weight <= self.sum_x <= i32::MAX * self.weight
        &&& i32::MIN * self.weight <= self.sum_y <= i32::MAX * self.weight
    }

    /// The sums and the weight as a contract states them.
    pub open spec fn parts(&self) -> (int, int, int) {
        (self.sum_x as int, self.sum_y as int, self.weight as int)
    }

    /// The grid cell that holds the centroid: each coordinate cut off
    /// towards zero.
    pub fn cell(&self) -> (c: (i32, i32))
        requires
            self.wf(),
        ensures
            c.0 as int == trunc_div(self.sum_x as int, self.weight as int),
            c.1 as int == trunc_div(self.sum_y as int, self.weight as int),
    {
        (cut(self.sum_x, self.weight), cut(self.sum_y, self.weight))
    }

    /// The centroid as a position in thousandths of a cell's width, each
    /// coordinate cut off towards zero and kept within 32 bits.
    pub fn position(&self) -> (p: (i32, i32))
        requires
            self.wf(),
        ensures
            p.0 as int == sat32(milli_ratio(self.sum_x as int, self.weight as int)),
            p.1 as int == sat32(milli_ratio(self.sum_y as int, self.weight as int)),
    {
        (milli(self.sum_x, self.weight), milli(self.sum_y, self.weight))
    }
}

/// The ratio of `a` to a positive `w` in thousandths, cut off towards zero:
/// the whole part times one thousand, and the thousandths of what is left.
pub open spec fn milli_ratio(a: int, w: int) -> int {
    let whole = trunc_div(a, w);
    whole * 1000 + trunc_div((a - whole * w) * 1000, w)
}

/// The grid cell that a position in thousandths falls into: each
/// coordinate cut off towards zero.
pub open spec fn grid_cell(pos: (int, int)) -> (int, int) {
    (trunc_div(pos.0, 1000), trunc_div(pos.1, 1000))
}

/// The grid cell that a position in thousandths falls into.
pub fn scent_grid_coords(pos: (i32, i32)) -> (c: (i32, i32))
    ensures
        cell_of(c) == grid_cell(cell_of(pos)),
{
    (cut_div(pos.0 as i128, 1000) as i32, cut_div(pos.1 as i128, 1000) as i32)
}

fn milli(sum: i128, weight: u128) -> (r: i32)
    requires
        0 < weight <= 0x1_0000_0000_0000_0000_0000_0000,
        i32::MIN * weight <= sum <= i32::MAX * weight,
    ensures
        r as int == sat32(milli_ratio(sum as int, weight as int)),
{
    let q: i32 = cut(sum, weight);
    proof {
        let a = sum as int;
        let w = weight as int;
        if a >= 0 {
            assert(0 <= a - (a / w) * w < w) by (nonlinear_arith)
                requires
                    a >= 0,
                    w > 0,
            ;
        } else {
            assert(0 <= (-a) - ((-a) / w) * w < w) by (nonlinear_arith)
                requires
                    a < 0,
                    w > 0,
            ;
            assert((-((-a) / w)) * w == -(((-a) / w) * w)) by (nonlinear_arith);
        }
        assert(-w < a - (q as int) * w < w);
        assert(-0x8000_0000 * 0x1_0000_0000_0000_0000_0000_0000 <= (q as int) * w <= 0x8000_0000
            * 0x1_0000_0000_0000_0000_0000_0000) by (nonlinear_arith)
            requires
                -0x8000_0000 <= q <= 0x8000_0000,
                0 < w <= 0x1_0000_0000_0000_0000_0000_0000,
        ;
    }
    let rest: i128 = sum - (q as i128) * (weight as i128);
    let part: i128 = cut_div(rest * 1000, weight);
    saturate((q as i128) * 1000 + part)
}

/// Truncation keeps a quotient between any two whole bounds of the exact ratio.
pub proof fn lemma_trunc_div_between(a: int, b: int, lo: int, hi: int)
    requires
        b > 0,
        lo * b <= a <= hi * b,
    ensures
        lo <= trunc_div(a, b) <= hi,
{
    if a >= 0 {
        let q = a / b;
        assert(q * b <= a < (q + 1) * b && q >= 0) by (nonlinear_arith)
            requires
                q == a / b,
                b > 0,
                a >= 0,
        ;
        assert(q <= hi) by (nonlinear_arith)
            requires
                q * b <= a,
                a <= hi * b,
                b > 0,
        ;
        assert(lo <= q) by (nonlinear_arith)
            requires
                lo * b <= a,
                a < (q + 1) * b,
                b > 0,
        ;
    } else {
        let q = (-a) / b;
        assert(q * b <= -a < (q + 1) * b && q >= 0) by (nonlinear_arith)
            requires
                q == (-a) / b,
                b > 0,
                a < 0,
        ;
        assert(-q <= hi) by (nonlinear_arith)
            requires
                -a < (q + 1) * b,
                a <= hi * b,
                b > 0,
        ;
        assert(lo <= -q) by (nonlinear_arith)
            requires
                lo * b <= a,
                q * b <= -a,
                b > 0,
        ;
    }
}

fn cut(sum: i128, weight: u128) -> (q: i32)
    requires
        weight > 0,
        i32::MIN * weight <= sum <= i32::MAX * weight,
    ensures
        q as int == trunc_div(sum as int, weight as int),
{
    proof {
        lemma_trunc_div_between(sum as int, weight as int, i32::MIN as int, i32::MAX as int);
    }
    if sum >= 0 {
        let q: u128 = sum as u128 / weight;
        q as i32
    } else {
        let size: u128 = (-(sum + 1)) as u128 + 1;
        let q: u128 = size / weight;
        (-(q as i64)) as i32
    }
}

/// Fading never raises a cell's strength and never takes it below zero:
/// a cell keeps its place and holds what it held less `decay_by`, or
/// nothing where it held less than that.
pub proof fn lemma_decay_monotone(cells: Map<(int, int), nat>, decay_by: nat, c: (int, int))
    requires
        cells.contains_key(c),
        decay_by > 0,
    ensures
        decayed(cells, decay_by).contains_key(c),
        0 <= decayed(cells, decay_by)[c] <= cells[c],
        cells[c] > 0 ==> decayed(cells, decay_by)[c] < cells[c],
        decayed(cells, decay_by)[c] == if cells[c] >= decay_by {
            cells[c] - decay_by
        } else {
            0
        },
{
}

/// After a cull no cell is left without scent, and every cell with scent
/// is left as it was.
pub proof fn lemma_cull_complete(cells: Map<(int, int), nat>, c: (int, int))
    ensures
        culled(cells).contains_key(c) ==> culled(cells)[c] > 0,
        cells.contains_key(c) && cells[c] > 0 ==> culled(cells).contains_key(c) && culled(
            cells,
        )[c] == cells[c],
{
}

/// The strength of a cell after the deposits `strengths`, laid one after
/// the other from the first to the last.
pub open spec fn deposit_all(before: Option<nat>, strengths: Seq<nat>, max_strength: nat) -> Option<
    nat,
>
    decreases strengths.len(),
{
    if strengths.len() == 0 {
        before
    } else {
        Some(
            deposited(
                deposit_all(before, strengths.drop_last(), max_strength),
                strengths.last(),
                max_strength,
            ),
        )
    }
}

/// The sum of a list of strengths.
pub open spec fn strength_sum(strengths: Seq<nat>) -> int {
    seq_total(strengths, |v: nat| v as int)
}

/// Deposits into an empty cell add up to their sum, capped at
/// `max_strength`. A single deposit above the cap is left out: an empty
/// cell takes its first deposit as it is.
pub proof fn lemma_deposits_add_up(strengths: Seq<nat>, max_strength: nat)
    requires
        strengths.len() >= 2 || (strengths.len() == 1 && strengths[0] <= max_strength),
    ensures
        strength_sum(strengths) >= 0,
        deposit_all(None, strengths, max_strength) == Some(
            if strength_sum(strengths) <= max_strength {
                strength_sum(strengths) as nat
            } else {
                max_strength
            },
        ),
    decreases strengths.len(),
{
    let f = |v: nat| v as int;
    let head = strengths.drop_last();
    lemma_total_nonneg(head, f);
    if strengths.len() == 1 {
        assert(head.len() == 0);
        assert(deposit_all(None, head, max_strength) is None);
    } else if strengths.len() == 2 {
        assert(head.drop_last().len() == 0);
        assert(deposit_all(None, head.drop_last(), max_strength) is None);
        assert(seq_total(head.drop_last(), f) == 0);
        assert(deposit_all(None, head, max_strength) == Some(head.last()));
    } else {
        lemma_deposits_add_up(head, max_strength);
    }
}

/// Deposits into a cell that holds scent add up with what it holds, capped
/// at `max_strength`.
pub proof fn lemma_deposits_onto(held: nat, strengths: Seq<nat>, max_strength: nat)
    requires
        strengths.len() >= 1,
    ensures
        strength_sum(strengths) >= 0,
        deposit_all(Some(held), strengths, max_strength) == Some(
            if held + strength_sum(strengths) <= max_strength {
                (held + strength_sum(strengths)) as nat
            } else {
                max_strength
            },
        ),
    decreases strengths.len(),
{
    let f = |v: nat| v as int;
    let head = strengths.drop_last();
    lemma_total_nonneg(head, f);
    if strengths.len() == 1 {
        assert(head.len() == 0);
        assert(deposit_all(Some(held), head, max_strength) == Some(held));
    } else {
        lemma_deposits_onto(held, head, max_strength);
    }
}

/// Deposits commute: laid in any order into the same cell, whatever it
/// held before, the same strengths leave the same strength behind.
pub proof fn lemma_deposits_commute(before: Option<nat>, a: Seq<nat>, b: Seq<nat>, max_strength: nat)
    requires
        a.to_multiset() == b.to_multiset(),
    ensures
        strength_sum(a) == strength_sum(b),
        deposit_all(before, a, max_strength) == deposit_all(before, b, max_strength),
{
    broadcast use vstd::seq_lib::group_to_multiset_ensures;

    assert(a.len() == a.to_multiset().len());
    assert(b.len() == b.to_multiset().len());
    lemma_total_permute(a, b, |v: nat| v as int);
    if a.len() == 0 {
    } else {
        match before {
            Some(held) => {
                lemma_deposits_onto(held, a, max_strength);
                lemma_deposits_onto(held, b, max_strength);
            },
            None => {
                if a.len() == 1 {
                    assert(a.contains(a[0]));
                    assert(b.to_multiset().count(a[0]) > 0);
                    assert(b.contains(a[0]));
                    assert(b[0] == a[0]);
                    assert(a =~= b);
                } else {
                    lemma_deposits_add_up(a, max_strength);
                    lemma_deposits_add_up(b, max_strength);
                }
            },
        }
    }
}

/// A field after the deposits `strengths` have been laid in the cell `c`,
/// one after the other: each step is what one deposit does to a field.
pub open spec fn laid(
    cells: Map<(int, int), nat>,
    c: (int, int),
    strengths: Seq<nat>,
    max_strength: nat,
) -> Map<(int, int), nat>
    decreases strengths.len(),
{
    if strengths.len() == 0 {
        cells
    } else {
        let so_far = laid(cells, c, strengths.drop_last(), max_strength);
        so_far.insert(c, deposited(strength_in(so_far, c), strengths.last(), max_strength))
    }
}

/// Deposits into one cell change that cell only, and leave in it what
/// `deposit_all` says.
pub proof fn lemma_laid(cells: Map<(int, int), nat>, c: (int, int), strengths: Seq<nat>, max_strength: nat)
    ensures
        strength_in(laid(cells, c, strengths, max_strength), c) == deposit_all(
            strength_in(cells, c),
            strengths,
            max_strength,
        ),
        forall|p: (int, int)|
            p != c ==> strength_in(#[trigger] laid(cells, c, strengths, max_strength), p)
                == strength_in(cells, p),
        laid(cells, c, strengths, max_strength) == match deposit_all(
            strength_in(cells, c),
            strengths,
            max_strength,
        ) {
            Some(v) => cells.insert(c, v),
            None => cells,
        },
    decreases strengths.len(),
{
    if strengths.len() > 0 {
        lemma_laid(cells, c, strengths.drop_last(), max_strength);
        let so_far = laid(cells, c, strengths.drop_last(), max_strength);
        let v = deposited(strength_in(so_far, c), strengths.last(), max_strength);
        assert(so_far.insert(c, v) =~= cells.insert(c, v));
    } else if cells.contains_key(c) {
        assert(cells.insert(c, cells[c]) =~= cells);
    }
}

/// The field does not depend on the order of deposits into a cell: two
/// runs that lay the same strengths there, in any two orders, end alike.
pub proof fn lemma_deposit_order(
    cells: Map<(int, int), nat>,
    c: (int, int),
    a: Seq<nat>,
    b: Seq<nat>,
    max_strength: nat,
)
    requires
        a.to_multiset() == b.to_multiset(),
    ensures
        laid(cells, c, a, max_strength) == laid(cells, c, b, max_strength),
{
    lemma_laid(cells, c, a, max_strength);
    lemma_laid(cells, c, b, max_strength);
    lemma_deposits_commute(strength_in(cells, c), a, b, max_strength);
}

/// A weighted centroid lies within every box that holds the cells it is
/// taken over: the candidates with scent among the indexed cells in reach.
/// This holds of the exact ratios and of the grid cell they are cut to.
pub proof fn lemma_target_within(
    cells: Map<(int, int), nat>,
    indexed: Multiset<(int, int)>,
    weighting: WeightType,
    radius: int,
    me: (int, int),
    lo: (int, int),
    hi: (int, int),
)
    requires
        forall|p: (int, int)|
            indexed.count(p) > 0 && in_reach(p, grid_cell(me), radius) && is_candidate(
                cells,
                weighting,
                me,
                p,
            )
                && cells[p] > 0 ==> lo.0 <= p.0 <= hi.0 && lo.1 <= p.1 <= hi.1,
    ensures
        match weighted_target(cells, indexed, weighting, radius, me) {
            Some((sum_x, sum_y, weight)) => {
                &&& weight > 0
                &&& lo.0 * weight <= sum_x <= hi.0 * weight
                &&& lo.1 * weight <= sum_y <= hi.1 * weight
                &&& lo.0 <= trunc_div(sum_x, weight) <= hi.0
                &&& lo.1 <= trunc_div(sum_y, weight) <= hi.1
            },
            None => true,
        },
{
    broadcast use vstd::multiset::group_multiset_axioms;
    broadcast use vstd::seq_lib::group_to_multiset_ensures;

    let hits = reachable(indexed, grid_cell(me), radius);
    let s = bag_order(hits);
    lemma_bag_order(hits);
    let fw = pull(cells, weighting, me);
    let fx = pull_x(cells, weighting, me);
    let fy = pull_y(cells, weighting, me);
    assert forall|p: (int, int)| #[trigger] s.contains(p) implies fw(p) >= 0 && fx(p) == fw(p) * p.0
        && fy(p) == fw(p) * p.1 && (fw(p) > 0 ==> lo.0 <= p.0 <= hi.0 && lo.1 <= p.1 <= hi.1) by {
        assert(s.to_multiset().count(p) > 0);
        assert(indexed.count(p) > 0 && in_reach(p, grid_cell(me), radius));
    }
    lemma_weighted_bounds(s, fw, fx, |p: (int, int)| p.0, lo.0, hi.0);
    lemma_weighted_bounds(s, fw, fy, |p: (int, int)| p.1, lo.1, hi.1);
    let weight = seq_total(s, fw);
    if weight != 0 {
        lemma_trunc_div_between(seq_total(s, fx), weight, lo.0, hi.0);
        lemma_trunc_div_between(seq_total(s, fy), weight, lo.1, hi.1);
    }
}

/// A weighted centroid lies in the convex hull of the cells it is taken
/// over: whatever line has all of them on one side has the centroid on
/// that side too. The line is `a * x + b * y == c`.
pub proof fn lemma_target_in_hull(
    cells: Map<(int, int), nat>,
    indexed: Multiset<(int, int)>,
    weighting: WeightType,
    radius: int,
    me: (int, int),
    a: int,
    b: int,
    c: int,
)
    requires
        forall|p: (int, int)|
            indexed.count(p) > 0 && in_reach(p, grid_cell(me), radius) && is_candidate(
                cells,
                weighting,
                me,
                p,
            )
                && cells[p] > 0 ==> a * p.0 + b * p.1 <= c,
    ensures
        match weighted_target(cells, indexed, weighting, radius, me) {
            Some((sum_x, sum_y, weight)) => weight > 0 && a * sum_x + b * sum_y <= c * weight,
            None => true,
        },
{
    broadcast use vstd::multiset::group_multiset_axioms;
    broadcast use vstd::seq_lib::group_to_multiset_ensures;

    let hits = reachable(indexed, grid_cell(me), radius);
    let s = bag_order(hits);
    lemma_bag_order(hits);
    let fw = pull(cells, weighting, me);
    let fx = pull_x(cells, weighting, me);
    let fy = pull_y(cells, weighting, me);
    let side = |p: (int, int)| a * p.0 + b * p.1;
    let fh = |p: (int, int)| fw(p) * (a * p.0 + b * p.1);
    assert forall|p: (int, int)| #[trigger] s.contains(p) implies fw(p) >= 0 && fh(p) == fw(p)
        * side(p) && (fw(p) > 0 ==> side(p) <= c) by {
        assert(s.to_multiset().count(p) > 0);
        assert(indexed.count(p) > 0 && in_reach(p, grid_cell(me), radius));
    }
    lemma_weighted_upper(s, fw, fh, side, c);
    assert forall|i: int| 0 <= i < s.len() implies fh(#[trigger] s[i]) == a * fx(s[i]) + b * fy(
        s[i],
    ) by {
        let w = fw(s[i]);
        let x = s[i].0;
        let y = s[i].1;
        assert(w * (a * x + b * y) == a * (w * x) + b * (w * y)) by (nonlinear_arith);
    }
    lemma_total_linear(s, fx, fy, fh, a, b);
    lemma_total_nonneg(s, fw);
}

} // verus!
