use crate::fixed::{
    clamp_int, cut_div, distance, gap, heading, heading_to, lemma_gap_bounded, scale, scaled,
    trunc_div,
};
use crate::grid::dist_sq;
use crate::misc_utility::{Reading, Reading2};
use vstd::prelude::*;

verus! {

/// How fast an ant walks and turns, in thousandths of a length unit and of a
/// radian per second, and where it is heading, if anywhere.
#[derive(Clone, Copy, Debug)]
pub struct Navigate {
    pub max_speed: u32,
    pub max_radians_per_sec: u32,
    pub move_to: Option<Reading2>,
}

/// An ant's heading before a step, as the host measures it.
#[derive(Clone, Copy, Debug)]
pub struct Bearing {
    /// The direction the ant faces, as a vector of length one thousand.
    pub facing: Reading2,
    /// The signed angle from the direction of the target to the facing.
    pub angle_delta: Reading,
}

/// What one step of steering does to an ant.
#[derive(Clone, Copy, PartialEq, Eq, Structural, Debug)]
pub enum Step {
    /// There is no target: the ant stays as it is.
    Idle,
    /// The target was no number and has been dropped: the ant stays as it is.
    Cleared,
    /// The ant is put on the target, and the target has been dropped.
    Snapped { x: i32, y: i32 },
    /// The ant turns by `turn` and then walks `speed`: straight at the target
    /// where `onto_target`, else along its new facing.
    Moved { turn: i64, speed: u64, onto_target: bool },
}

/// The factor by which a stride may fall short of the target and still
/// reach it, in tenths.
pub const SNAP_TENTHS: u64 = 13;

/// The length of a frame as steering takes it: at most a second, and
/// nothing while time stands still.
pub open spec fn frame_of(frame_delta: int) -> int {
    clamp_int(frame_delta, 0, 1000)
}

/// The way an ant may walk in a frame: its speed times the frame, and no
/// further than the target is away.
pub open spec fn stride(max_speed: int, frame: int, distance: int) -> int {
    clamp_int(max_speed * frame / 1000, 0, distance)
}

/// The angle by which an ant may turn in a frame.
pub open spec fn sweep(max_radians_per_sec: int, frame: int) -> int {
    max_radians_per_sec * frame / 1000
}

/// Whether a target at `distance` is so near that the ant is put on it.
pub open spec fn snaps(distance: int, stride: int) -> bool {
    distance * 10 <= stride * SNAP_TENTHS
}

/// A coordinate of a unit vector: a number between minus one and one, or
/// nothing.
pub open spec fn unit_part(r: Reading) -> Option<int> {
    match r {
        Reading::Nan => None,
        Reading::Num(v) => Some(clamp_int(v as int, -1000, 1000)),
    }
}

/// The unit vector to an ant's right: from the ant to the centre of its
/// right-hand turning circle. The left-hand one lies opposite.
pub open spec fn side_of(facing: Reading2) -> Option<(int, int)> {
    match (unit_part(facing.x), unit_part(facing.y)) {
        (Some(fx), Some(fy)) => Some((fy, -fx)),
        _ => None,
    }
}

/// The cosine of the angle between an ant's facing and the direction from
/// `pos` to `target`, in thousandths: the dot product of the two unit
/// vectors.
pub open spec fn cos_of(pos: (int, int), target: (int, int), facing: Reading2) -> Option<int> {
    match (unit_part(facing.x), unit_part(facing.y)) {
        (Some(fx), Some(fy)) => Some(
            trunc_div(heading(pos, target).0 * fx + heading(pos, target).1 * fy, 1000),
        ),
        _ => None,
    }
}

/// Whether the target lies inside one of the two circles that an ant cannot
/// enter while it turns as tightly as it can. It never does for an ant that
/// cannot turn, nor where the facing is no number.
pub open spec fn in_dead_zone(nav: Navigate, pos: (int, int), target: (int, int), facing: Reading2) -> bool {
    match side_of(facing) {
        Some(side) => nav.max_radians_per_sec > 0 && {
            let radius = nav.max_speed * 1000 / (nav.max_radians_per_sec as int);
            let off = (scale(side.0, radius), scale(side.1, radius));
            let left = (pos.0 - off.0, pos.1 - off.1);
            let right = (pos.0 + off.0, pos.1 + off.1);
            dist_sq(target, left) < radius * radius || dist_sq(target, right) < radius * radius
        },
        None => false,
    }
}

/// The way an ant may walk in a frame towards a target inside a dead zone:
/// the slower the wider the arc it needs, and never more than `straight`,
/// the way it may walk towards a target outside. Nothing where the cosine
/// is no number or negative.
pub open spec fn arc_stride(
    max_radians_per_sec: int,
    distance: int,
    cos_delta: Option<int>,
    frame: int,
    straight: int,
) -> int {
    let pull = max_radians_per_sec * (distance / 2);
    match cos_delta {
        None => 0,
        Some(c) => if c > 0 {
            clamp_int((pull / c) * frame / 1000, 0, straight)
        } else if c == 0 && pull > 0 {
            straight
        } else {
            0
        },
    }
}

/// The heading error as steering takes it: nothing measured counts as no
/// error.
pub open spec fn error_of(angle_delta: Reading) -> int {
    match angle_delta {
        Reading::Nan => 0,
        Reading::Num(a) => a as int,
    }
}

/// The turn that undoes a heading error, as far as `sweep` allows.
pub open spec fn bounded_turn(error: int, sweep: int) -> int {
    if error > sweep {
        -sweep
    } else if error < -sweep {
        sweep
    } else {
        -error
    }
}

/// One step of steering: what happens to the ant, and its target afterwards.
pub open spec fn advance(nav: Navigate, pos: (int, int), bearing: Bearing, frame_delta: int) -> (
    Step,
    Option<Reading2>,
) {
    match nav.move_to {
        None => (Step::Idle, None),
        Some(Reading2 { x: Reading::Num(tx), y: Reading::Num(ty) }) => {
            let target = (tx as int, ty as int);
            let frame = frame_of(frame_delta);
            let distance = gap(target, pos);
            let straight = stride(nav.max_speed as int, frame, distance);
            if snaps(distance, straight) {
                (Step::Snapped { x: tx, y: ty }, None)
            } else {
                let speed = if in_dead_zone(nav, pos, target, bearing.facing) {
                    arc_stride(
                        nav.max_radians_per_sec as int,
                        distance,
                        cos_of(pos, target, bearing.facing),
                        frame,
                        straight,
                    )
                } else {
                    straight
                };
                let error = error_of(bearing.angle_delta);
                let most = sweep(nav.max_radians_per_sec as int, frame);
                (
                    Step::Moved {
                        turn: bounded_turn(error, most) as i64,
                        speed: speed as u64,
                        onto_target: -most <= error <= most,
                    },
                    nav.move_to,
                )
            }
        },
        Some(_) => (Step::Cleared, None),
    }
}

/// A step never turns an ant by more than its turning speed times the
/// frame, and never moves it further than its speed times the frame, nor
/// further than the target is away; inside a dead zone as outside. While
/// time stands still it neither turns nor moves.
pub proof fn lemma_step_bounded(nav: Navigate, pos: (int, int), bearing: Bearing, frame_delta: int)
    requires
        i32::MIN <= pos.0 <= i32::MAX,
        i32::MIN <= pos.1 <= i32::MAX,
        frame_delta >= 0,
    ensures
        match advance(nav, pos, bearing, frame_delta).0 {
            Step::Moved { turn, speed, onto_target } => {
                &&& -(nav.max_radians_per_sec * frame_delta / 1000) <= turn
                    <= nav.max_radians_per_sec * frame_delta / 1000
                &&& -sweep(nav.max_radians_per_sec as int, frame_of(frame_delta)) <= turn <= sweep(
                    nav.max_radians_per_sec as int,
                    frame_of(frame_delta),
                )
                &&& sweep(nav.max_radians_per_sec as int, frame_of(frame_delta))
                    <= nav.max_radians_per_sec
                &&& 0 <= speed <= nav.max_speed * frame_delta / 1000
                &&& nav.move_to is Some
                &&& match nav.move_to {
                    Some(Reading2 { x: Reading::Num(tx), y: Reading::Num(ty) }) => speed <= stride(
                        nav.max_speed as int,
                        frame_of(frame_delta),
                        gap((tx as int, ty as int), pos),
                    ) <= gap((tx as int, ty as int), pos),
                    _ => false,
                }
                &&& frame_delta == 0 ==> turn == 0 && speed == 0
            },
            _ => true,
        },
{
    let frame = frame_of(frame_delta);
    let most = sweep(nav.max_radians_per_sec as int, frame);
    let rate = nav.max_radians_per_sec as int;
    let pace = nav.max_speed as int;
    assert(0 <= most <= rate && most <= rate * frame_delta / 1000) by (nonlinear_arith)
        requires
            most == rate * frame / 1000,
            0 <= frame <= 1000,
            frame <= frame_delta,
            rate >= 0,
    ;
    assert(0 <= pace * frame / 1000 <= pace * frame_delta / 1000) by (nonlinear_arith)
        requires
            0 <= frame <= frame_delta,
            pace >= 0,
    ;
    assert(frame == 0 ==> rate * frame / 1000 == 0 && pace * frame / 1000 == 0) by (nonlinear_arith);
    match nav.move_to {
        Some(Reading2 { x: Reading::Num(tx), y: Reading::Num(ty) }) => {
            let target = (tx as int, ty as int);
            lemma_gap_bounded(target, pos);
            let far = gap(target, pos);
            let straight = stride(pace, frame, far);
            assert(0 <= straight <= far && straight <= pace * frame_delta / 1000);
            let arc = arc_stride(rate, far, cos_of(pos, target, bearing.facing), frame, straight);
            assert(0 <= arc <= straight);
            let error = error_of(bearing.angle_delta);
            assert(-most <= bounded_turn(error, most) <= most);
            assert(frame_delta == 0 ==> most == 0 && straight == 0);
        },
        _ => {},
    }
}

/// Once the target is within reach of a stride, a single step puts the ant
/// on it and drops it; every step after that finds no target and leaves the
/// ant where it is.
pub proof fn lemma_snap_once(
    nav: Navigate,
    target: (i32, i32),
    pos: (int, int),
    bearing: Bearing,
    frame_delta: int,
    later: Bearing,
    later_frame: int,
)
    requires
        nav.move_to == Some(Reading2 { x: Reading::Num(target.0), y: Reading::Num(target.1) }),
        snaps(
            gap((target.0 as int, target.1 as int), pos),
            stride(
                nav.max_speed as int,
                frame_of(frame_delta),
                gap((target.0 as int, target.1 as int), pos),
            ),
        ),
    ensures
        advance(nav, pos, bearing, frame_delta) == (
            Step::Snapped { x: target.0, y: target.1 },
            None::<Reading2>,
        ),
        advance(
            Navigate { move_to: advance(nav, pos, bearing, frame_delta).1, ..nav },
            (target.0 as int, target.1 as int),
            later,
            later_frame,
        ) == (Step::Idle, None::<Reading2>),
{
}

/// Without a target an ant does not move under steering.
pub proof fn lemma_idle_without_target(nav: Navigate, pos: (int, int), bearing: Bearing, frame_delta: int)
    requires
        nav.move_to is None,
    ensures
        advance(nav, pos, bearing, frame_delta) == (Step::Idle, None::<Reading2>),
{
}

/// A step never leaves an ant with a target that is no number: such a
/// target is dropped, and any other is kept as it is or dropped.
pub proof fn lemma_target_stays_number(nav: Navigate, pos: (int, int), bearing: Bearing, frame_delta: int)
    ensures
        match advance(nav, pos, bearing, frame_delta).1 {
            Some(t) => !t.is_nan() && nav.move_to == Some(t),
            None => true,
        },
{
}

fn unit_coord(r: Reading) -> (v: Option<i64>)
    ensures
        match v {
            Some(c) => unit_part(r) == Some(c as int),
            None => unit_part(r) is None,
        },
{
    match r {
        Reading::Nan => None,
        Reading::Num(c) => Some(
            if c < -1000 {
                -1000i64
            } else if c > 1000 {
                1000i64
            } else {
                c as i64
            },
        ),
    }
}

fn square_of_gap(a: (i128, i128), b: (i128, i128)) -> (d: i128)
    requires
        -0x1000_0000_0000 <= a.0 <= 0x1000_0000_0000,
        -0x1000_0000_0000 <= a.1 <= 0x1000_0000_0000,
        -0x1000_0000_0000 <= b.0 <= 0x1000_0000_0000,
        -0x1000_0000_0000 <= b.1 <= 0x1000_0000_0000,
    ensures
        d as int == dist_sq((a.0 as int, a.1 as int), (b.0 as int, b.1 as int)),
{
    let dx: i128 = a.0 - b.0;
    let dy: i128 = a.1 - b.1;
    assert(0 <= dx * dx <= 0x2000_0000_0000 * 0x2000_0000_0000) by (nonlinear_arith)
        requires
            -0x2000_0000_0000 <= dx <= 0x2000_0000_0000,
    ;
    assert(0 <= dy * dy <= 0x2000_0000_0000 * 0x2000_0000_0000) by (nonlinear_arith)
        requires
            -0x2000_0000_0000 <= dy <= 0x2000_0000_0000,
    ;
    dx * dx + dy * dy
}

/// Whether the target lies inside one of the two circles that an ant cannot
/// enter while it turns as tightly as it can.
pub fn inside_dead_zone(nav: &Navigate, pos: (i32, i32), target: (i32, i32), facing: Reading2) -> (b: bool)
    ensures
        b == in_dead_zone(
            *nav,
            (pos.0 as int, pos.1 as int),
            (target.0 as int, target.1 as int),
            facing,
        ),
{
    if nav.max_radians_per_sec == 0 {
        return false;
    }
    match (unit_coord(facing.x), unit_coord(facing.y)) {
        (Some(fx), Some(fy)) => {
            let radius: u64 = nav.max_speed as u64 * 1000 / nav.max_radians_per_sec as u64;
            assert(radius <= 0xFFFF_FFFF * 1000);
            let ox: i128 = scaled(fy, radius as i64);
            let oy: i128 = scaled(-fx, radius as i64);
            assert(-(radius as int) <= ox <= radius && -(radius as int) <= oy <= radius) by {
                lemma_scale_unit(fy as int, radius as int);
                lemma_scale_unit(-fx as int, radius as int);
            }
            let left: (i128, i128) = (pos.0 as i128 - ox, pos.1 as i128 - oy);
            let right: (i128, i128) = (pos.0 as i128 + ox, pos.1 as i128 + oy);
            let goal: (i128, i128) = (target.0 as i128, target.1 as i128);
            assert(radius * radius <= (0xFFFF_FFFF * 1000) * (0xFFFF_FFFF * 1000)) by (nonlinear_arith)
                requires
                    0 <= radius <= 0xFFFF_FFFF * 1000,
            ;
            let reach: i128 = (radius as i128) * (radius as i128);
            square_of_gap(goal, left) < reach || square_of_gap(goal, right) < reach
        },
        _ => false,
    }
}

/// The cosine of the angle between an ant's facing and the direction from
/// `pos` to `target`, in thousandths.
pub fn cosine(pos: (i32, i32), target: (i32, i32), facing: Reading2) -> (c: Option<i32>)
    ensures
        match c {
            Some(v) => cos_of(
                (pos.0 as int, pos.1 as int),
                (target.0 as int, target.1 as int),
                facing,
            ) == Some(v as int),
            None => cos_of(
                (pos.0 as int, pos.1 as int),
                (target.0 as int, target.1 as int),
                facing,
            ) is None,
        },
{
    match (unit_coord(facing.x), unit_coord(facing.y)) {
        (Some(fx), Some(fy)) => {
            let h = heading_to(pos, target);
            assert(-1_000_000 <= (h.0 as int) * (fx as int) <= 1_000_000) by (nonlinear_arith)
                requires
                    -1000 <= h.0 <= 1000,
                    -1000 <= fx <= 1000,
            ;
            assert(-1_000_000 <= (h.1 as int) * (fy as int) <= 1_000_000) by (nonlinear_arith)
                requires
                    -1000 <= h.1 <= 1000,
                    -1000 <= fy <= 1000,
            ;
            let dot: i64 = (h.0 as i64) * fx + (h.1 as i64) * fy;
            Some(cut_div(dot as i128, 1000) as i32)
        },
        _ => None,
    }
}

/// A unit vector's coordinate times a length is no longer than the length.
pub proof fn lemma_scale_unit(part: int, length: int)
    requires
        -1000 <= part <= 1000,
        length >= 0,
    ensures
        -length <= scale(part, length) <= length,
{
    assert(-1000 * length <= part * length <= 1000 * length) by (nonlinear_arith)
        requires
            -1000 <= part <= 1000,
            length >= 0,
    ;
}

/// The way an ant may walk in a frame towards a target inside a dead zone,
/// where `straight` is the way it may walk towards a target outside.
pub fn arc_speed(
    max_radians_per_sec: u32,
    distance: u64,
    cos_delta: Option<i32>,
    frame: u32,
    straight: u64,
) -> (v: u64)
    requires
        frame <= 1000,
        distance <= 0x2_0000_0000,
    ensures
        v as int == arc_stride(
            max_radians_per_sec as int,
            distance as int,
            match cos_delta {
                Some(c) => Some(c as int),
                None => None,
            },
            frame as int,
            straight as int,
        ),
        v <= straight,
{
    assert((max_radians_per_sec as int) * ((distance / 2) as int) <= 0xFFFF_FFFF * 0x1_0000_0000)
        by (nonlinear_arith)
        requires
            0 <= max_radians_per_sec <= 0xFFFF_FFFF,
            0 <= distance / 2 <= 0x1_0000_0000,
    ;
    let pull: u128 = (max_radians_per_sec as u128) * ((distance / 2) as u128);
    match cos_delta {
        None => 0,
        Some(c) => {
            if c > 0 {
                let raw: u128 = pull / (c as u128);
                assert(raw <= pull) by (nonlinear_arith)
                    requires
                        raw == pull / (c as u128),
                        c >= 1,
                ;
                assert(raw * frame <= 0xFFFF_FFFF * 0x1_0000_0000 * 1000) by (nonlinear_arith)
                    requires
                        0 <= raw <= 0xFFFF_FFFF * 0x1_0000_0000,
                        0 <= frame <= 1000,
                ;
                let step: u128 = raw * (frame as u128) / 1000;
                if step > straight as u128 {
                    straight
                } else {
                    step as u64
                }
            } else if c == 0 && pull > 0 {
                straight
            } else {
                0
            }
        },
    }
}

/// What a rate per second comes to in a frame.
pub fn per_frame(rate: u32, frame: u32) -> (r: u64)
    requires
        frame <= 1000,
    ensures
        r as int == (rate as int) * (frame as int) / 1000,
        r <= rate,
{
    assert(0 <= (rate as int) * (frame as int) <= rate * 1000) by (nonlinear_arith)
        requires
            0 <= rate,
            0 <= frame <= 1000,
    ;
    rate as u64 * frame as u64 / 1000
}

/// One step of steering over a frame of `frame_delta` thousandths of a
/// second, of which at most a second counts. Nothing moves without a
/// target; a target that is no number is dropped; a target within reach of
/// one stride is taken at once and dropped; else the ant turns towards it,
/// by no more than its turning speed allows in the frame, and walks on, no
/// further than its speed allows in the frame, and more slowly where the
/// target lies inside its turning circle.
pub fn navigate_move(nav: &mut Navigate, pos: (i32, i32), bearing: &Bearing, frame_delta: u32) -> (step:
    Step)
    ensures
        (step, final(nav).move_to) == advance(
            *old(nav),
            (pos.0 as int, pos.1 as int),
            *bearing,
            frame_delta as int,
        ),
        final(nav).max_speed == old(nav).max_speed,
        final(nav).max_radians_per_sec == old(nav).max_radians_per_sec,
{
    let target: (i32, i32) = match nav.move_to {
        None => {
            return Step::Idle;
        },
        Some(Reading2 { x: Reading::Num(tx), y: Reading::Num(ty) }) => (tx, ty),
        Some(_) => {
            nav.move_to = None;
            return Step::Cleared;
        },
    };
    let frame: u32 = if frame_delta > 1000 {
        1000
    } else {
        frame_delta
    };
    let far: u64 = distance(target, pos);
    let reach: u64 = per_frame(nav.max_speed, frame);
    let straight: u64 = if reach > far {
        far
    } else {
        reach
    };
    if far * 10 <= straight * SNAP_TENTHS {
        nav.move_to = None;
        return Step::Snapped { x: target.0, y: target.1 };
    }
    let speed: u64 = if inside_dead_zone(nav, pos, target, bearing.facing) {
        arc_speed(nav.max_radians_per_sec, far, cosine(pos, target, bearing.facing), frame, straight)
    } else {
        straight
    };
    let error: i64 = match bearing.angle_delta {
        Reading::Nan => 0,
        Reading::Num(a) => a as i64,
    };
    let most: i64 = per_frame(nav.max_radians_per_sec, frame) as i64;
    let turn: i64 = if error > most {
        -most
    } else if error < -most {
        most
    } else {
        -error
    };
    Step::Moved { turn, speed, onto_target: -most <= error && error <= most }
}

} // verus!
