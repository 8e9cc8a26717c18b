use crate::fixed::{lemma_part_within_length, 
    clamp_int,
    cut_div,
    distance,
    lemma_scale_bounded,
    length_of,
    polar,
    root_of,
    scale,
    scaled,
    trunc_div,
    unit_of,
};
use crate::grid::{dist_sq, distance_squared, in_reach};
use crate::misc_utility::{Reading, Reading2};
use crate::steering::Navigate;
use vstd::prelude::*;

verus! {

/// The walking speed of an ant, in thousandths of a length unit per second.
pub const ANT_MOVE_SPEED: i64 = 5000;

/// The fastest that drift moves an ant: nine tenths of its walking speed.
pub const MAX_DRIFT: i64 = 4500;

/// Drift weaker than this is let be.
pub const DRIFT_THRESHOLD: i64 = 100;

/// Ants further apart than this do not push each other.
pub const CROWD_RADIUS: i64 = 20_000;

/// The coordinates of a blended drift are cut off at this size.
pub const DRIFT_LIMIT: i64 = 0x2_0000_0000;

/// What every ant of a colony has in common. The repulsion between ants
/// and its cap are in thousandths.
#[derive(Clone, Copy, Debug)]
pub struct AntSettings {
    pub carry_capacity: i32,
    pub life_span: u64,
    pub ant_i_gravity: u32,
    pub ant_i_gravity_max: u32,
}

impl Default for AntSettings {
    fn default() -> (s: Self)
        ensures
            s.carry_capacity == 5,
            s.life_span == 240,
            s.ant_i_gravity == 15_000,
            s.ant_i_gravity_max == 50_000,
    {
        AntSettings {
            carry_capacity: 5,
            life_span: 240,
            ant_i_gravity: 15_000,
            ant_i_gravity_max: 50_000,
        }
    }
}

/// The push that an ant has gathered from the ants around it: a direction
/// of length one thousand, or zero, and a strength in thousandths.
#[derive(Clone, Copy, Debug)]
pub struct Drift {
    vec: (i32, i32),
    mag: i64,
}

/// The push that the ant at `other` gives the ant at `me`: away from
/// `other`, falling off with the square of the distance, no stronger than
/// `max`. An ant on the same spot gives none, nor does one that is not
/// strictly within the crowding radius.
pub open spec fn repulsion(me: (int, int), other: (int, int), factor: int, max: int) -> (int, int) {
    if other == me || !in_reach(other, me, CROWD_RADIUS as int) {
        (0, 0)
    } else {
        let strength = clamp_int(factor * 1_000_000 / dist_sq(me, other), 0, max);
        let far = root_of(dist_sq(me, other));
        (trunc_div((me.0 - other.0) * strength, far), trunc_div((me.1 - other.1) * strength, far))
    }
}

/// The sum of the pushes that the ants at `others` give the ant at `me`.
pub open spec fn crowd_push(me: (int, int), others: Seq<(int, int)>, factor: int, max: int) -> (
    int,
    int,
)
    decreases others.len(),
{
    if others.len() == 0 {
        (0, 0)
    } else {
        let rest = crowd_push(me, others.drop_last(), factor, max);
        let one = repulsion(me, others.last(), factor, max);
        (rest.0 + one.0, rest.1 + one.1)
    }
}

/// A coordinate cut off at `DRIFT_LIMIT`.
pub open spec fn held(v: int) -> int {
    clamp_int(v, -(DRIFT_LIMIT as int), DRIFT_LIMIT as int)
}

/// The drift after a frame of `frame` thousandths of a second in which the
/// crowd pushed with `push`: what was left of the old drift and the new push
/// added up, as a direction and a strength of at most `max`.
pub open spec fn blended(vec: (int, int), mag: int, push: (int, int), frame: int, max: int) -> (
    (int, int),
    int,
) {
    let fresh = (scale(held(push.0), frame), scale(held(push.1), frame));
    let stale = (scale(vec.0, mag), scale(vec.1, mag));
    let sum = (held(fresh.0 + stale.0), held(fresh.1 + stale.1));
    (
        unit_of(sum),
        if length_of(sum) <= max {
            length_of(sum)
        } else {
            max
        },
    )
}

/// What a frame of drifting does: how far the ant and its target are moved,
/// and the strength that is left. Drift at or below the threshold does
/// nothing.
pub open spec fn drifted(vec: (int, int), mag: int, frame: int) -> ((int, int), int) {
    if mag > DRIFT_THRESHOLD {
        let pace = scale(clamp_int(mag, 0, MAX_DRIFT as int), frame);
        ((scale(vec.0, pace), scale(vec.1, pace)), mag - pace * 11 / 10)
    } else {
        ((0, 0), mag)
    }
}

/// A blended drift is never stronger than the cap, and never negative.
pub proof fn lemma_blended_capped(vec: (int, int), mag: int, push: (int, int), frame: int, max: int)
    requires
        max >= 0,
    ensures
        0 <= blended(vec, mag, push, frame, max).1 <= max,
{
    let fresh = (scale(held(push.0), frame), scale(held(push.1), frame));
    let stale = (scale(vec.0, mag), scale(vec.1, mag));
    lemma_part_within_length((held(fresh.0 + stale.0), held(fresh.1 + stale.1)));
}

/// Drifting never strengthens a drift: what has moved the ant is used up,
/// and a tenth more.
pub proof fn lemma_drift_decays(vec: (int, int), mag: int, frame: int)
    requires
        frame >= 0,
    ensures
        drifted(vec, mag, frame).1 <= mag,
        mag <= DRIFT_THRESHOLD ==> drifted(vec, mag, frame) == ((0int, 0int), mag),
{
    if mag > DRIFT_THRESHOLD {
        lemma_scale_bounded(clamp_int(mag, 0, MAX_DRIFT as int), frame, MAX_DRIFT as int, frame);
    }
}

/// A target coordinate moved by `by`, kept within 32 bits; what is no
/// number stays none.
pub open spec fn shifted(r: Reading, by: int) -> Reading {
    match r {
        Reading::Nan => Reading::Nan,
        Reading::Num(v) => Reading::Num(clamp_int(v + by, i32::MIN as int, i32::MAX as int) as i32),
    }
}

fn shift(r: Reading, by: i64) -> (s: Reading)
    requires
        -0x1_0000_0000_0000 <= by <= 0x1_0000_0000_0000,
    ensures
        s == shifted(r, by as int),
{
    match r {
        Reading::Nan => Reading::Nan,
        Reading::Num(v) => {
            let w: i64 = v as i64 + by;
            Reading::Num(
                if w < i32::MIN as i64 {
                    i32::MIN
                } else if w > i32::MAX as i64 {
                    i32::MAX
                } else {
                    w as i32
                },
            )
        },
    }
}

fn hold(v: i128) -> (h: i64)
    ensures
        h as int == held(v as int),
        -DRIFT_LIMIT <= h <= DRIFT_LIMIT,
{
    if v < -(DRIFT_LIMIT as i128) {
        -DRIFT_LIMIT
    } else if v > DRIFT_LIMIT as i128 {
        DRIFT_LIMIT
    } else {
        v as i64
    }
}

impl Drift {
    /// The direction of the drift.
    pub closed spec fn dir(&self) -> (int, int) {
        (self.vec.0 as int, self.vec.1 as int)
    }

    /// The strength of the drift.
    pub closed spec fn strength(&self) -> int {
        self.mag as int
    }

    /// The direction is no longer than one thousand a side, and the strength
    /// lies within what a frame of drifting can leave behind.
    pub closed spec fn wf(&self) -> bool {
        &&& -1000 <= self.vec.0 <= 1000
        &&& -1000 <= self.vec.1 <= 1000
        &&& -400_000_000 <= self.mag <= u32::MAX
    }

    /// No drift.
    pub fn new() -> (d: Self)
        ensures
            d.wf(),
            d.dir() == (0int, 0int),
            d.strength() == 0,
    {
        Drift { vec: (0, 0), mag: 0 }
    }

    /// The direction of the drift.
    pub fn direction(&self) -> (v: (i32, i32))
        ensures
            (v.0 as int, v.1 as int) == self.dir(),
    {
        self.vec
    }

    /// The strength of the drift.
    pub fn magnitude(&self) -> (m: i64)
        ensures
            m as int == self.strength(),
    {
        self.mag
    }
}

/// The push that the ant at `other` gives the ant at `me`.
pub fn push_from(me: (i32, i32), other: (i32, i32), factor: u32, max: u32) -> (v: (i64, i64))
    ensures
        (v.0 as int, v.1 as int) == repulsion(
            (me.0 as int, me.1 as int),
            (other.0 as int, other.1 as int),
            factor as int,
            max as int,
        ),
        -(max as int) <= v.0 <= max,
        -(max as int) <= v.1 <= max,
{
    if other.0 == me.0 && other.1 == me.1 {
        return (0, 0);
    }
    if distance_squared(other, me) >= (CROWD_RADIUS * CROWD_RADIUS) as u128 {
        return (0, 0);
    }
    let ghost a = (me.0 as int, me.1 as int);
    let ghost b = (other.0 as int, other.1 as int);
    let far: u64 = distance(me, other);
    let dx: i64 = me.0 as i64 - other.0 as i64;
    let dy: i64 = me.1 as i64 - other.1 as i64;
    proof {
        lemma_part_within_length((dx as int, dy as int));
        assert(dist_sq(a, b) == dx * dx + dy * dy);
        assert(dx * dx + dy * dy >= 1) by (nonlinear_arith)
            requires
                dx != 0 || dy != 0,
        ;
        assert(far >= 1) by (nonlinear_arith)
            requires
                far >= 0,
                dx * dx + dy * dy >= 1,
                dx * dx + dy * dy < (far + 1) * (far + 1),
        ;
        assert(dx * dx <= 0x1_0000_0000 * 0x1_0000_0000) by (nonlinear_arith)
            requires
                -0x1_0000_0000 <= dx <= 0x1_0000_0000,
        ;
        assert(dy * dy <= 0x1_0000_0000 * 0x1_0000_0000) by (nonlinear_arith)
            requires
                -0x1_0000_0000 <= dy <= 0x1_0000_0000,
        ;
    }
    let n: u128 = ((dx as i128) * (dx as i128) + (dy as i128) * (dy as i128)) as u128;
    let raw: u128 = (factor as u128 * 1_000_000) / n;
    let strength: i64 = if raw > max as u128 {
        max as i64
    } else {
        raw as i64
    };
    proof {
        lemma_push_part(dx as int, strength as int, far as int);
        lemma_push_part(dy as int, strength as int, far as int);
        assert(far * strength <= 0x2_0000_0000 * 0x1_0000_0000) by (nonlinear_arith)
            requires
                0 <= far <= 0x2_0000_0000,
                0 <= strength <= 0x1_0000_0000,
        ;
    }
    let x: i128 = cut_div((dx as i128) * (strength as i128), far as u128);
    let y: i128 = cut_div((dy as i128) * (strength as i128), far as u128);
    (x as i64, y as i64)
}

/// A coordinate no longer than the distance, times a strength and over the
/// distance, is no more than the strength.
pub proof fn lemma_push_part(part: int, strength: int, far: int)
    requires
        far > 0,
        -far <= part <= far,
        0 <= strength,
    ensures
        -strength <= trunc_div(part * strength, far) <= strength,
        -(far * strength) <= part * strength <= far * strength,
{
    assert(-(far * strength) <= part * strength <= far * strength) by (nonlinear_arith)
        requires
            -far <= part <= far,
            0 <= strength,
    ;
    if part * strength >= 0 {
        assert((part * strength) / far <= strength) by (nonlinear_arith)
            requires
                far > 0,
                0 <= part * strength <= far * strength,
        ;
        assert((part * strength) / far >= 0) by (nonlinear_arith)
            requires
                far > 0,
                0 <= part * strength,
        ;
    } else {
        assert((-(part * strength)) / far <= strength) by (nonlinear_arith)
            requires
                far > 0,
                0 <= -(part * strength) <= far * strength,
        ;
        assert((-(part * strength)) / far >= 0) by (nonlinear_arith)
            requires
                far > 0,
                0 <= -(part * strength),
        ;
    }
}

/// The positions of a list of ants, as the contracts speak of them.
pub open spec fn spots(ants: Seq<(i32, i32)>) -> Seq<(int, int)> {
    ants.map_values(|p: (i32, i32)| (p.0 as int, p.1 as int))
}

/// Gathers the push of the ants at `nearby` on the ant at `me` over a frame
/// of `frame` thousandths of a second, and blends it into the ant's drift.
/// The drift that results is never stronger than the settings allow.
pub fn ant_i_gravity(
    drift: &mut Drift,
    me: (i32, i32),
    nearby: &Vec<(i32, i32)>,
    settings: &AntSettings,
    frame: u16,
)
    requires
        old(drift).wf(),
    ensures
        final(drift).wf(),
        (final(drift).dir(), final(drift).strength()) == blended(
            old(drift).dir(),
            old(drift).strength(),
            crowd_push(
                (me.0 as int, me.1 as int),
                spots(nearby@),
                settings.ant_i_gravity as int,
                settings.ant_i_gravity_max as int,
            ),
            frame as int,
            settings.ant_i_gravity_max as int,
        ),
        0 <= final(drift).strength() <= settings.ant_i_gravity_max,
{
    let factor = settings.ant_i_gravity;
    let max = settings.ant_i_gravity_max;
    let ghost at = (me.0 as int, me.1 as int);
    let ghost others = spots(nearby@);
    let mut sum_x: i128 = 0;
    let mut sum_y: i128 = 0;
    let mut i: usize = 0;
    while i < nearby.len()
        invariant
            i <= nearby.len(),
            others == spots(nearby@),
            at == (me.0 as int, me.1 as int),
            (sum_x as int, sum_y as int) == crowd_push(
                at,
                others.take(i as int),
                factor as int,
                max as int,
            ),
            -(i * 0x1_0000_0000) <= sum_x <= i * 0x1_0000_0000,
            -(i * 0x1_0000_0000) <= sum_y <= i * 0x1_0000_0000,
        decreases nearby.len() - i,
    {
        let one = push_from(me, nearby[i], factor, max);
        proof {
            assert(others.take(i + 1).drop_last() =~= others.take(i as int));
            assert(others.take(i + 1).last() == (nearby[i as int].0 as int, nearby[i as int].1 as int));
        }
        sum_x = sum_x + one.0 as i128;
        sum_y = sum_y + one.1 as i128;
        i = i + 1;
    }
    proof {
        assert(others.take(i as int) =~= others);
        lemma_scale_bounded(held(sum_x as int), frame as int, DRIFT_LIMIT as int, 0xFFFF);
        lemma_scale_bounded(held(sum_y as int), frame as int, DRIFT_LIMIT as int, 0xFFFF);
        lemma_scale_bounded(drift.vec.0 as int, drift.mag as int, 1000, 0x1_0000_0000);
        lemma_scale_bounded(drift.vec.1 as int, drift.mag as int, 1000, 0x1_0000_0000);
    }
    let fresh_x: i128 = scaled(hold(sum_x), frame as i64);
    let fresh_y: i128 = scaled(hold(sum_y), frame as i64);
    let stale_x: i128 = scaled(drift.vec.0 as i64, drift.mag);
    let stale_y: i128 = scaled(drift.vec.1 as i64, drift.mag);
    let sum: (i64, i64) = (hold(fresh_x + stale_x), hold(fresh_y + stale_y));
    let (dir, len) = polar(sum);
    drift.vec = dir;
    drift.mag = if len <= max as u64 {
        len as i64
    } else {
        max as i64
    };
}

/// Lets an ant drift for a frame of `frame` thousandths of a second: the
/// displacement to add to its position is returned and added to its target,
/// if it has one, and the drift loses a tenth more than it has moved the
/// ant. A drift at or below the threshold does nothing. The strength of a
/// drift never grows by this.
pub fn tokyo(nav: &mut Navigate, drift: &mut Drift, frame: u16) -> (adj: (i64, i64))
    requires
        old(drift).wf(),
    ensures
        final(drift).wf(),
        final(drift).dir() == old(drift).dir(),
        ((adj.0 as int, adj.1 as int), final(drift).strength()) == drifted(
            old(drift).dir(),
            old(drift).strength(),
            frame as int,
        ),
        final(drift).strength() <= old(drift).strength(),
        final(nav).move_to == match old(nav).move_to {
            Some(t) => Some(Reading2 { x: shifted(t.x, adj.0 as int), y: shifted(t.y, adj.1 as int) }),
            None => None,
        },
        final(nav).max_speed == old(nav).max_speed,
        final(nav).max_radians_per_sec == old(nav).max_radians_per_sec,
{
    if drift.mag <= DRIFT_THRESHOLD {
        proof {
            match nav.move_to {
                Some(t) => {
                    assert(shifted(t.x, 0) == t.x);
                    assert(shifted(t.y, 0) == t.y);
                },
                None => {},
            }
        }
        return (0, 0);
    }
    let capped: i64 = if drift.mag > MAX_DRIFT {
        MAX_DRIFT
    } else {
        drift.mag
    };
    proof {
        lemma_scale_bounded(capped as int, frame as int, MAX_DRIFT as int, 0xFFFF);
    }
    let pace: i64 = scaled(capped, frame as i64) as i64;
    proof {
        lemma_scale_bounded(drift.vec.0 as int, pace as int, 1000, MAX_DRIFT * 0xFFFF);
        lemma_scale_bounded(drift.vec.1 as int, pace as int, 1000, MAX_DRIFT * 0xFFFF);
    }
    let adj: (i64, i64) = (scaled(drift.vec.0 as i64, pace) as i64, scaled(drift.vec.1 as i64, pace) as i64);
    match nav.move_to {
        Some(t) => {
            nav.move_to = Some(Reading2 { x: shift(t.x, adj.0), y: shift(t.y, adj.1) });
        },
        None => {},
    }
    drift.mag = drift.mag - pace * 11 / 10;
    adj
}

} // verus!
