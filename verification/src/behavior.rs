use crate::fixed::{distance, gap, heading, heading_to, offset, offset_by, polar, sat32, saturate, unit_of};
use crate::scent::{cell_of, milli_ratio, weighted_target, ScentType, WeightType};
use crate::scentmap::ScentMap;
use vstd::prelude::*;

verus! {

/// The radius, in cells, within which an ant smells a trail.
pub const SMELL_RADIUS: i32 = 10;

/// An idle ant further from home than this turns back.
pub const IDLE_RANGE: u64 = 30_000;

/// A nursemaid further from home than this turns back.
pub const NURSEMAID_RANGE: u64 = 45_000;

/// How far a wandering ant goes in one leg.
pub const WANDER_LEG: i64 = 10_000;

/// How far ahead on its bearing an ant aims when it has nothing better.
pub const BEARING_LEG: i64 = 20_000;

/// How far an ant walks straight on where its jittered aim would take it
/// away from where it wants to go.
pub const AHEAD_LEG: i64 = 7_000;

/// How far past the end of a trail an ant aims.
pub const OVERSHOOT: i64 = 5_000;

/// What an ant without a target does next.
#[derive(Clone, Copy, PartialEq, Eq, Structural, Debug)]
pub enum Plan {
    /// Nothing changes.
    Keep,
    /// It heads for the given point.
    Goto { x: i32, y: i32 },
    /// It heads for a jittered point on its bearing to the given point,
    /// which `select_random_pos_along_bearing` picks from two draws.
    BearTowards { x: i32, y: i32 },
    /// It heads for a point nearby, which `select_random_wander_pos` picks
    /// from one draw.
    Wander,
}

/// The point one wander leg from `pos` in the drawn direction.
pub open spec fn wander_pos(pos: (int, int), drawn: (int, int)) -> (int, int) {
    offset(pos, drawn, WANDER_LEG as int)
}

/// The point one wander leg from `pos` in the drawn direction `drawn`, a
/// vector of length one thousand.
pub fn select_random_wander_pos(pos: (i32, i32), drawn: (i32, i32)) -> (p: (i32, i32))
    ensures
        cell_of(p) == wander_pos(cell_of(pos), cell_of(drawn)),
{
    offset_by(pos, drawn, WANDER_LEG)
}

/// The most that the jitter of an aim on the bearing to `dest` may be: the
/// distance to `dest`, but no less than 5.1 and no more than 10.
pub open spec fn jitter_cap(pos: (int, int), dest: (int, int)) -> int {
    let far = gap(pos, dest);
    if far < 5_100 {
        5_100
    } else if far > 10_000 {
        10_000
    } else {
        far
    }
}

/// The most that the jitter of an aim on the bearing to `dest` may be.
pub fn jitter_ceiling(pos: (i32, i32), dest: (i32, i32)) -> (cap: u32)
    ensures
        cap as int == jitter_cap(cell_of(pos), cell_of(dest)),
        5_100 <= cap <= 10_000,
{
    let far = distance(pos, dest);
    if far < 5_100 {
        5_100
    } else if far > 10_000 {
        10_000
    } else {
        far as u32
    }
}

/// A point on the bearing from `pos` to `dest`, moved by the drawn
/// `jitter`: one bearing leg ahead, or `dest` itself where that is nearer
/// or the leg would pass it. Where the jitter would take the ant further
/// from `dest` than it is, it walks straight on along `up` instead.
pub open spec fn bearing_pos(pos: (int, int), up: (int, int), dest: (int, int), jitter: (int, int)) -> (
    int,
    int,
) {
    let far = gap(pos, dest);
    let ahead = offset(pos, heading(pos, dest), BEARING_LEG as int);
    let base = if far < BEARING_LEG || gap(ahead, dest) > far {
        dest
    } else {
        ahead
    };
    let aim = (sat32(base.0 + jitter.0), sat32(base.1 + jitter.1));
    if gap(aim, dest) > far {
        offset(pos, unit_of(up), AHEAD_LEG as int)
    } else {
        aim
    }
}

/// A jittered point on the bearing from `pos` to `dest`, for an ant that
/// faces along `up` and has drawn the offset `jitter`.
pub fn select_random_pos_along_bearing(pos: (i32, i32), up: (i32, i32), dest: (i32, i32), jitter: (
    i32,
    i32,
)) -> (p: (i32, i32))
    ensures
        cell_of(p) == bearing_pos(cell_of(pos), cell_of(up), cell_of(dest), cell_of(jitter)),
{
    let far = distance(pos, dest);
    let ahead = offset_by(pos, heading_to(pos, dest), BEARING_LEG);
    let base = if far < BEARING_LEG as u64 || distance(ahead, dest) > far {
        dest
    } else {
        ahead
    };
    let aim: (i32, i32) = (
        saturate(base.0 as i128 + jitter.0 as i128),
        saturate(base.1 as i128 + jitter.1 as i128),
    );
    if distance(aim, dest) > far {
        let ahead_dir = polar((up.0 as i64, up.1 as i64)).0;
        offset_by(pos, ahead_dir, AHEAD_LEG)
    } else {
        aim
    }
}

/// The point that lies `lead` past the trail point `found`, towards or away
/// from home as `dir_from` and `dir_to` say.
pub open spec fn trail_end(found: (int, int), dir_from: (int, int), dir_to: (int, int), lead: int) -> (
    int,
    int,
) {
    offset(found, heading(dir_from, dir_to), lead)
}

/// The point on the line from `pos` through `end` that lies past `end` by
/// the overshoot.
pub open spec fn past(pos: (int, int), end: (int, int)) -> (int, int) {
    offset(pos, heading(pos, end), gap(pos, end) + OVERSHOOT)
}

fn aim_past(pos: (i32, i32), end: (i32, i32)) -> (p: (i32, i32))
    ensures
        cell_of(p) == past(cell_of(pos), cell_of(end)),
{
    let far = distance(pos, end);
    offset_by(pos, heading_to(pos, end), far as i64 + OVERSHOOT)
}

/// Where the map's trail of the given kind leads an ant at `pos`, as a
/// position: the weighted centroid of what it smells around its cell.
pub open spec fn smelled(
    map: ScentMap,
    scent: ScentType,
    weighting: WeightType,
    pos: (int, int),
) -> Option<(int, int)> {
    match weighted_target(
        map.strengths(scent),
        map.indexed(scent),
        weighting,
        SMELL_RADIUS as int,
        pos,
    ) {
        Some((sum_x, sum_y, weight)) => Some(
            (sat32(milli_ratio(sum_x, weight)), sat32(milli_ratio(sum_y, weight))),
        ),
        None => None,
    }
}

/// Where the map's trail of the given kind leads an ant at `pos`.
pub fn smell(map: &ScentMap, scent: ScentType, weighting: WeightType, pos: (i32, i32)) -> (found:
    Option<(i32, i32)>)
    requires
        map.wf(),
    ensures
        match found {
            Some(p) => smelled(*map, scent, weighting, cell_of(pos)) == Some(cell_of(p)),
            None => smelled(*map, scent, weighting, cell_of(pos)) is None,
        },
{
    match map.strongest_smell_weighted(SMELL_RADIUS, scent, weighting, pos) {
        Some(c) => Some(c.position()),
        None => None,
    }
}

/// Only what lies nearer to `home` than the ant does.
pub open spec fn nearer_home(home: (i32, i32)) -> WeightType {
    WeightType::CloserTo(home)
}

/// What an ant that is `far` from home does with a trail of ant scent that
/// leads to `found`: it follows it past its end where that end is nearer
/// to home than the ant is; where not, and without a trail, it takes its
/// bearing on home.
pub open spec fn homeward(found: Option<(int, int)>, pos: (int, int), home: (i32, i32), far: int) -> Plan {
    match found {
        Some(p) => {
            let end = trail_end(p, p, cell_of(home), WANDER_LEG as int);
            if gap(cell_of(home), end) < far {
                Plan::Goto { x: past(pos, end).0 as i32, y: past(pos, end).1 as i32 }
            } else {
                Plan::BearTowards { x: home.0, y: home.1 }
            }
        },
        None => Plan::BearTowards { x: home.0, y: home.1 },
    }
}

/// What an ant with no work does: nothing while it has a target; beyond
/// `range` from home it turns homeward; within it wanders. Without a
/// target it always gets one.
pub open spec fn wander_or_return(
    map: ScentMap,
    has_target: bool,
    pos: (i32, i32),
    home: (i32, i32),
    range: int,
) -> Plan {
    if has_target {
        Plan::Keep
    } else if gap(cell_of(pos), cell_of(home)) >= range {
        homeward(
            smelled(map, ScentType::AntSmell, nearer_home(home), cell_of(pos)),
            cell_of(pos),
            home,
            gap(cell_of(pos), cell_of(home)),
        )
    } else {
        Plan::Wander
    }
}

/// An ant with no work and no target is never left without one: its plan
/// is to go somewhere, and it keeps what it has only while it has a target.
pub proof fn lemma_idle_gets_target(
    map: ScentMap,
    has_target: bool,
    pos: (i32, i32),
    home: (i32, i32),
    range: int,
)
    ensures
        wander_or_return(map, has_target, pos, home, range) == Plan::Keep <==> has_target,
{
}

fn turn_homeward(map: &ScentMap, pos: (i32, i32), home: (i32, i32), far: u64) -> (plan: Plan)
    requires
        map.wf(),
    ensures
        plan == homeward(
            smelled(*map, ScentType::AntSmell, nearer_home(home), cell_of(pos)),
            cell_of(pos),
            home,
            far as int,
        ),
{
    match smell(map, ScentType::AntSmell, WeightType::CloserTo(home), pos) {
        Some(p) => {
            let end = offset_by(p, heading_to(p, home), WANDER_LEG);
            if distance(home, end) < far {
                let dest = aim_past(pos, end);
                Plan::Goto { x: dest.0, y: dest.1 }
            } else {
                Plan::BearTowards { x: home.0, y: home.1 }
            }
        },
        None => Plan::BearTowards { x: home.0, y: home.1 },
    }
}

fn wander_or_turn(map: &ScentMap, has_target: bool, pos: (i32, i32), home: (i32, i32), range: u64) -> (plan:
    Plan)
    requires
        map.wf(),
    ensures
        plan == wander_or_return(*map, has_target, pos, home, range as int),
{
    if has_target {
        return Plan::Keep;
    }
    let far = distance(pos, home);
    if far >= range {
        turn_homeward(map, pos, home, far)
    } else {
        Plan::Wander
    }
}

/// What an idle ant at `pos` does next.
pub fn idle_ant_behavior(map: &ScentMap, has_target: bool, pos: (i32, i32), home: (i32, i32)) -> (plan:
    Plan)
    requires
        map.wf(),
    ensures
        plan == wander_or_return(*map, has_target, pos, home, IDLE_RANGE as int),
{
    wander_or_turn(map, has_target, pos, home, IDLE_RANGE)
}

/// What a nursemaid at `pos` does next.
pub fn nursmaid_ant_behavior(map: &ScentMap, has_target: bool, pos: (i32, i32), home: (i32, i32)) -> (plan:
    Plan)
    requires
        map.wf(),
    ensures
        plan == wander_or_return(*map, has_target, pos, home, NURSEMAID_RANGE as int),
{
    wander_or_turn(map, has_target, pos, home, NURSEMAID_RANGE)
}

} // verus!
