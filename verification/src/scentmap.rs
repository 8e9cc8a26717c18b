use crate::grid::{cell_key, key_cell, lemma_key_round_trip, on_grid, pack, unpack};
use crate::index::{
    hits_of,
    index_build,
    index_points,
    index_within_radius,
    point_of,
    points_of,
    CellIndex,
};
use crate::scent::{
    cell_of,
    culled,
    decayed,
    deposited,
    faded,
    field_of,
    grid_cell,
    laid,
    other_scent,
    pull,
    pull_x,
    pull_y,
    reachable,
    scent_grid_coords,
    strength_in,
    weighted_target,
    Centroid,
    ScentSettings,
    ScentType,
    WeightType,
};
use crate::table::{
    table_entries, table_get, table_insert, table_keys, table_new, table_remove, CellTable,
};
use crate::totals::{lemma_bag_total, lemma_total_push, lemma_weighted_bounds, seq_total};
use vstd::multiset::Multiset;
use vstd::prelude::*;

verus! {

/// Every strength in the table fades by `decay_by`, never below zero.
fn decay_cells(cells: &mut CellTable, decay_by: u32)
    ensures
        table_entries(*final(cells)).dom() == table_entries(*old(cells)).dom(),
        forall|k: u64| #[trigger]
            table_entries(*old(cells)).contains_key(k) ==> table_entries(*final(cells))[k] as nat == faded(
                table_entries(*old(cells))[k] as nat,
                decay_by as nat,
            ),
{
    let keys = table_keys(cells);
    let ghost before = table_entries(*cells);
    let mut i: usize = 0;
    while i < keys.len()
        invariant
            i <= keys.len(),
            keys@.no_duplicates(),
            keys@.to_set() == before.dom(),
            table_entries(*cells).dom() == before.dom(),
            forall|j: int|
                0 <= j < i ==> (#[trigger] table_entries(*cells)[keys@[j]]) as nat == faded(
                    before[keys@[j]] as nat,
                    decay_by as nat,
                ),
            forall|j: int| i <= j < keys.len() ==> #[trigger] table_entries(*cells)[keys@[j]] == before[keys@[j]],
        decreases keys.len() - i,
    {
        let k: u64 = keys[i];
        assert(keys@.to_set().contains(keys@[i as int]));
        let v: u32 = match table_get(cells, k) {
            Some(v) => v,
            None => 0,
        };
        let w: u32 = if v > decay_by {
            v - decay_by
        } else {
            0
        };
        table_insert(cells, k, w);
        assert(table_entries(*cells).dom() =~= before.dom());
        i = i + 1;
    }
    assert forall|k: u64| #[trigger] before.contains_key(k) implies table_entries(*cells)[k] as nat == faded(
        before[k] as nat,
        decay_by as nat,
    ) by {
        assert(keys@.to_set().contains(k));
        let j = choose|j: int| 0 <= j < keys@.len() && keys@[j] == k;
        assert(table_entries(*cells)[keys@[j]] as nat == faded(before[keys@[j]] as nat, decay_by as nat));
    }
}

/// Drops every entry of the table whose strength is zero.
fn cull_cells(cells: &mut CellTable)
    ensures
        forall|k: u64|
            table_entries(*final(cells)).contains_key(k) <==> table_entries(*old(cells)).contains_key(k) && table_entries(*old(cells))[k] != 0,
        forall|k: u64| #[trigger] table_entries(*final(cells)).contains_key(k) ==> table_entries(*final(cells))[k] == table_entries(*old(cells))[k],
{
    let keys = table_keys(cells);
    let ghost before = table_entries(*cells);
    let mut i: usize = 0;
    while i < keys.len()
        invariant
            i <= keys.len(),
            keys@.no_duplicates(),
            keys@.to_set() == before.dom(),
            forall|k: u64| #[trigger] table_entries(*cells).contains_key(k) ==> before.contains_key(k) && table_entries(*cells)[k] == before[k],
            forall|j: int|
                0 <= j < i ==> (#[trigger] table_entries(*cells).contains_key(keys@[j]) <==> before[keys@[j]] != 0),
            forall|j: int| i <= j < keys.len() ==> #[trigger] table_entries(*cells).contains_key(keys@[j]),
        decreases keys.len() - i,
    {
        let k: u64 = keys[i];
        let empty: bool = match table_get(cells, k) {
            Some(v) => v == 0,
            None => false,
        };
        if empty {
            table_remove(cells, k);
        }
        i = i + 1;
    }
    assert forall|k: u64| table_entries(*cells).contains_key(k) <==> before.contains_key(k) && before[k] != 0 by {
        if before.contains_key(k) {
            assert(keys@.to_set().contains(k));
            let j = choose|j: int| 0 <= j < keys@.len() && keys@[j] == k;
            assert(table_entries(*cells).contains_key(keys@[j]) <==> before[keys@[j]] != 0);
        }
    }
}

/// One kind of scent over the grid: the strength of every cell that holds
/// any, and a spatial index over the cells that held some when the index was
/// last rebuilt.
pub struct ScentLayer {
    cells: CellTable,
    index: CellIndex,
}

impl ScentLayer {
    /// The strength of each cell that holds scent.
    pub closed spec fn strengths(&self) -> Map<(int, int), nat> {
        field_of(table_entries(self.cells))
    }

    /// The cells that the spatial index knows.
    pub closed spec fn indexed(&self) -> Multiset<(int, int)> {
        index_points(self.index)
    }

    /// Every indexed cell lies on the grid.
    pub closed spec fn wf(&self) -> bool {
        forall|p: (int, int)| self.indexed().count(p) > 0 ==> on_grid(p)
    }

    /// Every cell with scent lies on the grid, and so does every indexed cell.
    pub proof fn lemma_on_grid(&self)
        requires
            self.wf(),
        ensures
            forall|p: (int, int)| self.strengths().contains_key(p) ==> on_grid(p),
            forall|p: (int, int)| self.indexed().count(p) > 0 ==> on_grid(p),
    {
    }

    /// A layer without scent.
    pub fn new() -> (layer: Self)
        ensures
            layer.wf(),
            layer.strengths() == Map::<(int, int), nat>::empty(),
            layer.indexed() == Multiset::<(int, int)>::empty(),
    {
        let points: Vec<[i64; 2]> = Vec::new();
        let layer = ScentLayer { cells: table_new(), index: index_build(points) };
        proof {
            broadcast use vstd::multiset::group_multiset_axioms;
            broadcast use vstd::seq_lib::group_to_multiset_ensures;

            assert(points_of(points@) =~= Seq::<(int, int)>::empty());
            assert(layer.indexed() =~= Multiset::<(int, int)>::empty());
            assert(layer.strengths() =~= Map::<(int, int), nat>::empty());
        }
        layer
    }

    /// The strength at `cell`, if the cell holds scent.
    pub fn strength_at(&self, cell: (i32, i32)) -> (v: Option<u32>)
        ensures
            match v {
                Some(s) => strength_in(self.strengths(), cell_of(cell)) == Some(s as nat),
                None => strength_in(self.strengths(), cell_of(cell)) is None,
            },
    {
        table_get(&self.cells, pack(cell.0, cell.1))
    }

    /// Lays `strength` at `cell`: added to what the cell holds, up to
    /// `max_strength`; taken as it is where the cell held nothing.
    pub fn deposit(&mut self, cell: (i32, i32), strength: u32, max_strength: u32)
        ensures
            final(self).strengths() == old(self).strengths().insert(
                cell_of(cell),
                deposited(
                    strength_in(old(self).strengths(), cell_of(cell)),
                    strength as nat,
                    max_strength as nat,
                ),
            ),
            final(self).indexed() == old(self).indexed(),
            old(self).wf() ==> final(self).wf(),
    {
        let k = pack(cell.0, cell.1);
        let v: u32 = match table_get(&self.cells, k) {
            Some(held) => {
                let sum: u64 = held as u64 + strength as u64;
                if sum <= max_strength as u64 {
                    sum as u32
                } else {
                    max_strength
                }
            },
            None => strength,
        };
        table_insert(&mut self.cells, k, v);
        proof {
            assert forall|c: (int, int)| on_grid(c) && c != cell_of(cell) implies cell_key(c)
                != cell_key(cell_of(cell)) by {
                lemma_key_round_trip(c, 0);
                lemma_key_round_trip(cell_of(cell), 0);
            }
            assert(final(self).strengths() =~= old(self).strengths().insert(
                cell_of(cell),
                deposited(
                    strength_in(old(self).strengths(), cell_of(cell)),
                    strength as nat,
                    max_strength as nat,
                ),
            ));
        }
    }

    /// Every cell fades by `decay_by`, never below zero.
    pub fn decay(&mut self, decay_by: u32)
        ensures
            final(self).strengths() == decayed(old(self).strengths(), decay_by as nat),
            final(self).indexed() == old(self).indexed(),
            old(self).wf() ==> final(self).wf(),
    {
        decay_cells(&mut self.cells, decay_by);
        proof {
            assert(final(self).strengths() =~= decayed(old(self).strengths(), decay_by as nat));
        }
    }

    /// Drops every cell whose strength is zero.
    pub fn cull(&mut self)
        ensures
            final(self).strengths() == culled(old(self).strengths()),
            forall|c: (int, int)| #[trigger]
                final(self).strengths().contains_key(c) ==> final(self).strengths()[c] > 0,
            final(self).indexed() == old(self).indexed(),
            old(self).wf() ==> final(self).wf(),
    {
        cull_cells(&mut self.cells);
        proof {
            assert(final(self).strengths() =~= culled(old(self).strengths()));
        }
    }

    /// Rebuilds the spatial index: afterwards it knows exactly the cells that
    /// hold scent, each once.
    pub fn reindex(&mut self)
        ensures
            final(self).wf(),
            final(self).strengths() == old(self).strengths(),
            forall|p: (int, int)|
                final(self).indexed().count(p) == if final(self).strengths().contains_key(p) {
                    1nat
                } else {
                    0nat
                },
    {
        let keys = table_keys(&self.cells);
        let mut points: Vec<[i64; 2]> = Vec::new();
        let mut i: usize = 0;
        while i < keys.len()
            invariant
                i <= keys.len(),
                points@.len() == i,
                forall|j: int|
                    0 <= j < i ==> point_of(#[trigger] points@[j]) == key_cell(keys@[j] as int),
            decreases keys.len() - i,
        {
            let c = unpack(keys[i]);
            let p: [i64; 2] = [c.0 as i64, c.1 as i64];
            points.push(p);
            i = i + 1;
        }
        self.index = index_build(points);
        proof {
            broadcast use vstd::multiset::group_multiset_axioms;
            broadcast use vstd::seq_lib::group_to_multiset_ensures;

            let cells = points_of(points@);
            assert forall|j: int| 0 <= j < cells.len() implies #[trigger] cells[j] == key_cell(
                keys@[j] as int,
            ) && on_grid(cells[j]) && cell_key(cells[j]) == keys@[j] by {
                assert(cells[j] == point_of(points@[j]));
                lemma_key_round_trip((0, 0), keys@[j] as int);
            }
            assert forall|a: int, b: int| 0 <= a < cells.len() && 0 <= b < cells.len() && a
                != b implies cells[a] != cells[b] by {
                assert(cell_key(cells[a]) == keys@[a]);
                assert(cell_key(cells[b]) == keys@[b]);
            }
            assert(cells.no_duplicates());
            cells.lemma_multiset_has_no_duplicates();
            assert forall|p: (int, int)| cells.contains(p) <==> final(self).strengths().contains_key(
                p,
            ) by {
                if cells.contains(p) {
                    let j = choose|j: int| 0 <= j < cells.len() && cells[j] == p;
                    assert(keys@.to_set().contains(keys@[j]));
                }
                if final(self).strengths().contains_key(p) {
                    let k = cell_key(p) as u64;
                    lemma_key_round_trip(p, 0);
                    assert(keys@.to_set().contains(k));
                    let j = choose|j: int| 0 <= j < keys@.len() && keys@[j] == k;
                    assert(cells[j] == p);
                }
            }
            assert forall|p: (int, int)|
                final(self).indexed().count(p) == if final(self).strengths().contains_key(p) {
                    1nat
                } else {
                    0nat
                } by {
                assert(cells.contains(p) <==> cells.to_multiset().count(p) > 0);
                assert(cells.to_multiset().contains(p) <==> cells.to_multiset().count(p) > 0);
            }
        }
    }

    /// The strength-weighted centroid of the cells that an ant at the
    /// position `pos` steers by: those the index knows within `radius` of
    /// the cell it stands in, other than that cell, that still hold scent
    /// and that `weighting` lets in. Nothing where their strengths add up to
    /// zero, so also where there is no such cell.
    pub fn weighted_target(&self, radius: i32, weighting: WeightType, pos: (i32, i32)) -> (target:
        Option<Centroid>)
        requires
            self.wf(),
        ensures
            match target {
                Some(c) => c.wf() && weighted_target(
                    self.strengths(),
                    self.indexed(),
                    weighting,
                    radius as int,
                    cell_of(pos),
                ) == Some(c.parts()),
                None => weighted_target(
                    self.strengths(),
                    self.indexed(),
                    weighting,
                    radius as int,
                    cell_of(pos),
                ) is None,
            },
    {
        let cell = scent_grid_coords(pos);
        let query: [i64; 2] = [cell.0 as i64, cell.1 as i64];
        let hits = index_within_radius(&self.index, &query, radius as i64);
        let ghost me = cell_of(pos);
        let ghost pts = hits_of(hits@);
        let ghost fw = pull(self.strengths(), weighting, me);
        let ghost fx = pull_x(self.strengths(), weighting, me);
        let ghost fy = pull_y(self.strengths(), weighting, me);
        proof {
            broadcast use vstd::multiset::group_multiset_axioms;
            broadcast use vstd::seq_lib::group_to_multiset_ensures;

            assert(pts.to_multiset() =~= reachable(self.indexed(), grid_cell(me), radius as int));
            assert forall|j: int| 0 <= j < pts.len() implies on_grid(#[trigger] pts[j]) by {
                assert(pts.contains(pts[j]));
                assert(pts.to_multiset().count(pts[j]) > 0);
                assert(self.indexed().count(pts[j]) > 0);
            }
        }
        let mut weight: u128 = 0;
        let mut sum_x: i128 = 0;
        let mut sum_y: i128 = 0;
        let mut i: usize = 0;
        while i < hits.len()
            invariant
                i <= hits.len(),
                pts == hits_of(hits@),
                me == cell_of(pos),
                cell_of(cell) == grid_cell(me),
                fw == pull(self.strengths(), weighting, me),
                fx == pull_x(self.strengths(), weighting, me),
                fy == pull_y(self.strengths(), weighting, me),
                forall|j: int| 0 <= j < pts.len() ==> on_grid(#[trigger] pts[j]),
                weight as int == seq_total(pts.take(i as int), fw),
                sum_x as int == seq_total(pts.take(i as int), fx),
                sum_y as int == seq_total(pts.take(i as int), fy),
                0 <= weight <= i * 0xFFFF_FFFF,
                -(i * 0x8000_0000_0000_0000) <= sum_x <= i * 0x8000_0000_0000_0000,
                -(i * 0x8000_0000_0000_0000) <= sum_y <= i * 0x8000_0000_0000_0000,
            decreases hits.len() - i,
        {
            let hit: &[i64; 2] = hits[i];
            let x: i64 = hit[0];
            let y: i64 = hit[1];
            proof {
                assert(pts[i as int] == (x as int, y as int));
                assert(on_grid(pts[i as int]));
                assert(pts.take(i + 1) =~= pts.take(i as int).push(pts[i as int]));
                lemma_total_push(pts.take(i as int), fw, pts[i as int]);
                lemma_total_push(pts.take(i as int), fx, pts[i as int]);
                lemma_total_push(pts.take(i as int), fy, pts[i as int]);
                lemma_key_round_trip(pts[i as int], 0);
                assert(fx(pts[i as int]) == fw(pts[i as int]) * x);
                assert(fy(pts[i as int]) == fw(pts[i as int]) * y);
                assert(fw(pts[i as int]) == 0 ==> fx(pts[i as int]) == 0 && fy(pts[i as int]) == 0)
                    by (nonlinear_arith)
                    requires
                        fx(pts[i as int]) == fw(pts[i as int]) * x,
                        fy(pts[i as int]) == fw(pts[i as int]) * y,
                ;
            }
            let here: (i32, i32) = (x as i32, y as i32);
            if here.0 != cell.0 || here.1 != cell.1 {
                match table_get(&self.cells, pack(here.0, here.1)) {
                    Some(held) => {
                        if weighting.lets_in(here, pos) {
                            let v: u32 = held;
                            assert(fw(pts[i as int]) == v as int);
                            assert(-0x8000_0000_0000_0000 <= (v as int) * (x as int)
                                <= 0x8000_0000_0000_0000) by (nonlinear_arith)
                                requires
                                    0 <= v <= 0xFFFF_FFFF,
                                    -0x8000_0000 <= x <= 0x8000_0000,
                            ;
                            assert(-0x8000_0000_0000_0000 <= (v as int) * (y as int)
                                <= 0x8000_0000_0000_0000) by (nonlinear_arith)
                                requires
                                    0 <= v <= 0xFFFF_FFFF,
                                    -0x8000_0000 <= y <= 0x8000_0000,
                            ;
                            assert(fx(pts[i as int]) == (v as int) * (x as int));
                            assert(fy(pts[i as int]) == (v as int) * (y as int));
                            let share_x: i128 = (v as i128) * (x as i128);
                            let share_y: i128 = (v as i128) * (y as i128);
                            weight = weight + v as u128;
                            sum_x = sum_x + share_x;
                            sum_y = sum_y + share_y;
                        } else {
                            assert(fw(pts[i as int]) == 0);
                        }
                    },
                    None => {
                        assert(fw(pts[i as int]) == 0);
                    },
                }
            } else {
                assert(fw(pts[i as int]) == 0);
            }
            i = i + 1;
        }
        proof {
            assert(pts.take(i as int) =~= pts);
            lemma_bag_total(pts, fw);
            lemma_bag_total(pts, fx);
            lemma_bag_total(pts, fy);
            self.lemma_on_grid();
            assert forall|p: (int, int)| #[trigger]
                pts.contains(p) implies fw(p) >= 0 && fx(p) == fw(p) * p.0 && fy(p) == fw(p) * p.1
                && i32::MIN <= p.0 <= i32::MAX && i32::MIN <= p.1 <= i32::MAX by {
                let j = choose|j: int| 0 <= j < pts.len() && pts[j] == p;
                assert(on_grid(pts[j]));
            }
            lemma_weighted_bounds(
                pts,
                fw,
                fx,
                |p: (int, int)| p.0,
                i32::MIN as int,
                i32::MAX as int,
            );
            lemma_weighted_bounds(
                pts,
                fw,
                fy,
                |p: (int, int)| p.1,
                i32::MIN as int,
                i32::MAX as int,
            );
        }
        if weight == 0 {
            None
        } else {
            Some(Centroid { sum_x, sum_y, weight })
        }
    }
}

/// The scent field of a colony: one layer for each kind of scent.
pub struct ScentMap {
    found_food_smell: ScentLayer,
    ant_smell: ScentLayer,
}

impl ScentMap {
    /// The layer that holds the given kind of scent.
    pub closed spec fn layer(&self, scent: ScentType) -> ScentLayer {
        match scent {
            ScentType::FoundFoodSmell => self.found_food_smell,
            ScentType::AntSmell => self.ant_smell,
        }
    }

    /// The strength of each cell that holds scent of the given kind.
    pub open spec fn strengths(&self, scent: ScentType) -> Map<(int, int), nat> {
        self.layer(scent).strengths()
    }

    /// The cells that the spatial index of the given kind of scent knows.
    pub open spec fn indexed(&self, scent: ScentType) -> Multiset<(int, int)> {
        self.layer(scent).indexed()
    }

    /// Both layers are well formed.
    pub open spec fn wf(&self) -> bool {
        self.layer(ScentType::FoundFoodSmell).wf() && self.layer(ScentType::AntSmell).wf()
    }

    /// A field without scent.
    pub fn new() -> (map: Self)
        ensures
            map.wf(),
            forall|scent: ScentType| #[trigger]
                map.strengths(scent) == Map::<(int, int), nat>::empty(),
            forall|scent: ScentType| #[trigger]
                map.indexed(scent) == Multiset::<(int, int)>::empty(),
    {
        ScentMap { found_food_smell: ScentLayer::new(), ant_smell: ScentLayer::new() }
    }

    /// The strength of the given kind at `cell`, if the cell holds any.
    pub fn strength_at(&self, scent: ScentType, cell: (i32, i32)) -> (v: Option<u32>)
        ensures
            match v {
                Some(s) => strength_in(self.strengths(scent), cell_of(cell)) == Some(s as nat),
                None => strength_in(self.strengths(scent), cell_of(cell)) is None,
            },
    {
        match scent {
            ScentType::FoundFoodSmell => self.found_food_smell.strength_at(cell),
            ScentType::AntSmell => self.ant_smell.strength_at(cell),
        }
    }

    /// Lays `strength` of the given kind at `cell`: added to what the cell
    /// holds, up to `max_strength`; taken as it is where the cell held
    /// nothing. The other kind and both indexes stay as they are. This is
    /// one step of `laid`, so that what a run of deposits leaves in a cell
    /// does not depend on their order.
    pub fn log_scent(&mut self, max_strength: u32, cell: (i32, i32), scent: ScentType, strength: u32)
        ensures
            final(self).strengths(scent) == old(self).strengths(scent).insert(
                cell_of(cell),
                deposited(
                    strength_in(old(self).strengths(scent), cell_of(cell)),
                    strength as nat,
                    max_strength as nat,
                ),
            ),
            final(self).strengths(scent) == laid(
                old(self).strengths(scent),
                cell_of(cell),
                seq![strength as nat],
                max_strength as nat,
            ),
            forall|any: ScentType| #[trigger] final(self).indexed(any) == old(self).indexed(any),
            final(self).strengths(other_scent(scent)) == old(self).strengths(other_scent(scent)),
            old(self).wf() ==> final(self).wf(),
    {
        match scent {
            ScentType::FoundFoodSmell => self.found_food_smell.deposit(cell, strength, max_strength),
            ScentType::AntSmell => self.ant_smell.deposit(cell, strength, max_strength),
        }
        proof {
            let one = seq![strength as nat];
            assert(one.drop_last() =~= Seq::<nat>::empty());
            assert(laid(old(self).strengths(scent), cell_of(cell), one.drop_last(), max_strength as nat)
                == old(self).strengths(scent));
            assert forall|any: ScentType| #[trigger]
                final(self).indexed(any) == old(self).indexed(any) by {
                if any == scent {
                } else {
                    assert(any == other_scent(scent));
                }
            }
        }
    }

    /// Every cell of both kinds fades by `decay_by`, never below zero.
    pub fn decay_smells(&mut self, decay_by: u32)
        ensures
            forall|scent: ScentType| #[trigger]
                final(self).strengths(scent) == decayed(old(self).strengths(scent), decay_by as nat),
            forall|scent: ScentType| #[trigger] final(self).indexed(scent) == old(self).indexed(scent),
            old(self).wf() ==> final(self).wf(),
    {
        self.ant_smell.decay(decay_by);
        self.found_food_smell.decay(decay_by);
    }

    /// Drops every cell whose strength is zero, in both kinds: no cell that
    /// is left is without scent.
    pub fn cull_zeros(&mut self)
        ensures
            forall|scent: ScentType| #[trigger]
                final(self).strengths(scent) == culled(old(self).strengths(scent)),
            forall|scent: ScentType, c: (int, int)| #[trigger]
                final(self).strengths(scent).contains_key(c) ==> final(self).strengths(scent)[c] > 0,
            forall|scent: ScentType| #[trigger] final(self).indexed(scent) == old(self).indexed(scent),
            old(self).wf() ==> final(self).wf(),
    {
        self.ant_smell.cull();
        self.found_food_smell.cull();
    }

    /// Rebuilds both spatial indexes: afterwards each knows exactly the cells
    /// that hold scent of its kind, each once.
    pub fn update_trees(&mut self)
        ensures
            final(self).wf(),
            forall|scent: ScentType| #[trigger]
                final(self).strengths(scent) == old(self).strengths(scent),
            forall|scent: ScentType, p: (int, int)|
                #[trigger] final(self).indexed(scent).count(p) == if final(self).strengths(
                    scent,
                ).contains_key(p) {
                    1nat
                } else {
                    0nat
                },
    {
        self.found_food_smell.reindex();
        self.ant_smell.reindex();
    }

    /// One round of upkeep: fade, drop what has faded away, rebuild the
    /// indexes.
    pub fn update_index(&mut self, settings: &ScentSettings)
        ensures
            final(self).wf(),
            forall|scent: ScentType| #[trigger]
                final(self).strengths(scent) == culled(
                    decayed(old(self).strengths(scent), settings.decay_rate as nat),
                ),
            forall|scent: ScentType, p: (int, int)|
                #[trigger] final(self).indexed(scent).count(p) == if final(self).strengths(
                    scent,
                ).contains_key(p) {
                    1nat
                } else {
                    0nat
                },
    {
        self.decay_smells(settings.decay_rate);
        self.cull_zeros();
        self.update_trees();
    }

    /// The strength-weighted centroid of the cells that an ant at the
    /// position `pos` steers by: those the index of the given kind knows
    /// within `radius` of the cell it stands in, other than that cell, that
    /// still hold scent and that `weighting` lets in. Nothing where their
    /// strengths add up to zero, so also where there is no such cell.
    pub fn strongest_smell_weighted(
        &self,
        radius: i32,
        scent: ScentType,
        weighting: WeightType,
        pos: (i32, i32),
    ) -> (target: Option<Centroid>)
        requires
            self.wf(),
        ensures
            match target {
                Some(c) => c.wf() && weighted_target(
                    self.strengths(scent),
                    self.indexed(scent),
                    weighting,
                    radius as int,
                    cell_of(pos),
                ) == Some(c.parts()),
                None => weighted_target(
                    self.strengths(scent),
                    self.indexed(scent),
                    weighting,
                    radius as int,
                    cell_of(pos),
                ) is None,
            },
    {
        match scent {
            ScentType::FoundFoodSmell => self.found_food_smell.weighted_target(radius, weighting, pos),
            ScentType::AntSmell => self.ant_smell.weighted_target(radius, weighting, pos),
        }
    }
}

/// An ant as far as its scent goes: where it is, in thousandths, and
/// whether it is bringing food home.
#[derive(Clone, Copy, Debug)]
pub struct Stinker {
    pub pos: (i32, i32),
    pub carries_food: bool,
}

/// A field after one ant has laid `strength` in the cell it stands on; with
/// `food_only` only an ant that brings food home lays any.
pub open spec fn stunk_one(
    cells: Map<(int, int), nat>,
    ant: Stinker,
    food_only: bool,
    strength: nat,
    max_strength: nat,
) -> Map<(int, int), nat> {
    if food_only && !ant.carries_food {
        cells
    } else {
        cells.insert(
            grid_cell(cell_of(ant.pos)),
            deposited(strength_in(cells, grid_cell(cell_of(ant.pos))), strength, max_strength),
        )
    }
}

/// A field after each of the ants has laid its scent, one after the other.
pub open spec fn stunk(
    cells: Map<(int, int), nat>,
    ants: Seq<Stinker>,
    food_only: bool,
    strength: nat,
    max_strength: nat,
) -> Map<(int, int), nat>
    decreases ants.len(),
{
    if ants.len() == 0 {
        cells
    } else {
        stunk_one(
            stunk(cells, ants.drop_last(), food_only, strength, max_strength),
            ants.last(),
            food_only,
            strength,
            max_strength,
        )
    }
}

/// Every ant lays the colony's scent in the cell it stands on, and every
/// ant that brings food home lays the scent of found food there too. The
/// spatial indexes stay as they are until the next upkeep.
pub fn ant_stink(map: &mut ScentMap, settings: &ScentSettings, ants: &Vec<Stinker>)
    ensures
        final(map).strengths(ScentType::AntSmell) == stunk(
            old(map).strengths(ScentType::AntSmell),
            ants@,
            false,
            settings.starting_strength as nat,
            settings.max_smell as nat,
        ),
        final(map).strengths(ScentType::FoundFoodSmell) == stunk(
            old(map).strengths(ScentType::FoundFoodSmell),
            ants@,
            true,
            settings.starting_strength as nat,
            settings.max_smell as nat,
        ),
        forall|scent: ScentType| #[trigger] final(map).indexed(scent) == old(map).indexed(scent),
        old(map).wf() ==> final(map).wf(),
{
    let max_smell = settings.max_smell;
    let strength = settings.starting_strength;
    let mut i: usize = 0;
    while i < ants.len()
        invariant
            i <= ants.len(),
            map.strengths(ScentType::AntSmell) == stunk(
                old(map).strengths(ScentType::AntSmell),
                ants@.take(i as int),
                false,
                strength as nat,
                max_smell as nat,
            ),
            map.strengths(ScentType::FoundFoodSmell) == stunk(
                old(map).strengths(ScentType::FoundFoodSmell),
                ants@.take(i as int),
                true,
                strength as nat,
                max_smell as nat,
            ),
            forall|scent: ScentType| #[trigger] map.indexed(scent) == old(map).indexed(scent),
            old(map).wf() ==> map.wf(),
        decreases ants.len() - i,
    {
        let ant = ants[i];
        let cell = scent_grid_coords(ant.pos);
        proof {
            assert(ants@.take(i + 1).drop_last() =~= ants@.take(i as int));
            assert(ants@.take(i + 1).last() == ant);
            assert(other_scent(ScentType::AntSmell) == ScentType::FoundFoodSmell);
            assert(other_scent(ScentType::FoundFoodSmell) == ScentType::AntSmell);
        }
        map.log_scent(max_smell, cell, ScentType::AntSmell, strength);
        if ant.carries_food {
            map.log_scent(max_smell, cell, ScentType::FoundFoodSmell, strength);
        }
        i = i + 1;
    }
    proof {
        assert(ants@.take(i as int) =~= ants@);
    }
}

} // verus!
