use ant_colony::fixed::{cut_div, distance, heading_to, offset_by, polar, saturate, scaled, whole_root};
use ant_colony::misc_utility::{NaNGuard, Reading, Reading2};
use ant_colony::steering::{
    arc_speed, cosine, inside_dead_zone, navigate_move, per_frame, Bearing, Navigate, Step,
};

fn num2(x: i32, y: i32) -> Reading2 {
    Reading2 { x: Reading::Num(x), y: Reading::Num(y) }
}

fn ahead() -> Bearing {
    Bearing { facing: num2(0, 1000), angle_delta: Reading::Num(0) }
}

fn ant(target: Option<Reading2>) -> Navigate {
    Navigate { max_speed: 5000, max_radians_per_sec: 1257, move_to: target }
}

#[test]
fn no_target_no_move() {
    let mut nav = ant(None);
    assert_eq!(navigate_move(&mut nav, (0, 0), &ahead(), 1000), Step::Idle);
    assert_eq!(nav.move_to, None);
}

#[test]
fn target_that_is_no_number_is_dropped() {
    for t in [
        Reading2 { x: Reading::Nan, y: Reading::Num(3) },
        Reading2 { x: Reading::Num(3), y: Reading::Nan },
        Reading2 { x: Reading::Nan, y: Reading::Nan },
    ] {
        let mut nav = ant(Some(t));
        assert_eq!(navigate_move(&mut nav, (0, 0), &ahead(), 1000), Step::Cleared);
        assert_eq!(nav.move_to, None);
    }
}

#[test]
fn walks_straight_at_a_far_target() {
    let mut nav = ant(Some(num2(0, 100_000)));
    let step = navigate_move(&mut nav, (0, 0), &ahead(), 1000);
    assert_eq!(step, Step::Moved { turn: 0, speed: 5000, onto_target: true });
    assert_eq!(nav.move_to, Some(num2(0, 100_000)));
    match step {
        Step::Moved { speed, .. } => assert!(speed > 0 && speed <= 5000),
        _ => panic!("the ant did not move"),
    }
}

#[test]
fn snaps_onto_a_near_target_in_one_step() {
    let mut nav = ant(Some(num2(10, 10)));
    assert_eq!(navigate_move(&mut nav, (0, 0), &ahead(), 1000), Step::Snapped { x: 10, y: 10 });
    assert_eq!(nav.move_to, None);
    assert_eq!(navigate_move(&mut nav, (10, 10), &ahead(), 1000), Step::Idle);
    assert_eq!(nav.move_to, None);
}

#[test]
fn snap_reaches_thirteen_tenths_of_a_stride() {
    let mut nav = ant(Some(num2(0, 6500)));
    assert_eq!(navigate_move(&mut nav, (0, 0), &ahead(), 1000), Step::Snapped { x: 0, y: 6500 });
    let mut nav = ant(Some(num2(0, 6501)));
    assert_eq!(
        navigate_move(&mut nav, (0, 0), &ahead(), 1000),
        Step::Moved { turn: 0, speed: 5000, onto_target: true }
    );
    let mut nav = ant(Some(num2(0, 0)));
    assert_eq!(navigate_move(&mut nav, (0, 0), &ahead(), 1000), Step::Snapped { x: 0, y: 0 });
}

#[test]
fn turn_is_bounded_by_the_turning_speed() {
    for (error, frame, turn, onto) in [
        (2000, 1000, -1257i64, false),
        (-2000, 1000, 1257, false),
        (1257, 1000, -1257, true),
        (-300, 1000, 300, true),
        (2000, 500, -628, false),
        (2000, 9000, -1257, false),
        (2000, 0, 0, false),
        (0, 0, 0, true),
    ] {
        let mut nav = ant(Some(num2(0, 100_000)));
        let bearing = Bearing { facing: num2(0, 1000), angle_delta: Reading::Num(error) };
        match navigate_move(&mut nav, (0, 0), &bearing, frame) {
            Step::Moved { turn: t, onto_target, .. } => {
                assert_eq!((t, onto_target), (turn, onto));
                assert!(t.abs() <= per_frame(1257, frame.min(1000)) as i64);
                assert!(t.abs() as u64 <= 1257 * frame as u64 / 1000);
            }
            other => panic!("no move: {:?}", other),
        }
    }
}

#[test]
fn heading_error_that_is_no_number_counts_as_none() {
    let mut nav = ant(Some(num2(0, 100_000)));
    let bearing = Bearing { facing: num2(0, 1000), angle_delta: Reading::Nan };
    assert_eq!(
        navigate_move(&mut nav, (0, 0), &bearing, 1000),
        Step::Moved { turn: 0, speed: 5000, onto_target: true }
    );
}

#[test]
fn dead_zone_slows_the_ant() {
    let nav = Navigate { max_speed: 5000, max_radians_per_sec: 1000, move_to: Some(num2(5000, 1000)) };
    assert!(inside_dead_zone(&nav, (0, 0), (5000, 1000), num2(0, 1000)));
    assert!(inside_dead_zone(&nav, (0, 0), (-5000, 1000), num2(0, 1000)));
    assert!(!inside_dead_zone(&nav, (0, 0), (0, 5000), num2(0, 1000)));
    assert!(inside_dead_zone(&nav, (0, 0), (0, 5000), num2(1000, 0)));
    assert!(inside_dead_zone(&nav, (0, 0), (3000, 4000), num2(-800, 600)));
    assert!(!inside_dead_zone(&nav, (0, 0), (5000, 1000), Reading2 { x: Reading::Nan, y: Reading::Num(0) }));
    let still = Navigate { max_speed: 5000, max_radians_per_sec: 0, move_to: None };
    assert!(!inside_dead_zone(&still, (0, 0), (5000, 1000), num2(0, 1000)));

    let mut nav = nav;
    let bearing = Bearing { facing: num2(0, 1000), angle_delta: Reading::Num(200) };
    assert_eq!(
        navigate_move(&mut nav, (0, 0), &bearing, 100),
        Step::Moved { turn: -100, speed: 500, onto_target: false }
    );
    let mut nav = Navigate { max_speed: 5000, max_radians_per_sec: 1000, move_to: Some(num2(2000, 2000)) };
    assert!(inside_dead_zone(&nav, (0, 0), (2000, 2000), num2(0, 1000)));
    let bearing = Bearing { facing: num2(0, 1000), angle_delta: Reading::Num(785) };
    assert_eq!(
        navigate_move(&mut nav, (0, 0), &bearing, 100),
        Step::Moved { turn: -100, speed: 200, onto_target: false }
    );
    assert_eq!(nav.move_to, Some(num2(2000, 2000)));
}

#[test]
fn arc_speed_cases() {
    assert_eq!(arc_speed(1000, 5099, Some(500), 100, 5099), 509);
    assert_eq!(arc_speed(1000, 5099, Some(196), 100, 5099), 1300);
    assert_eq!(arc_speed(1000, 5099, Some(196), 100, 500), 500);
    assert_eq!(arc_speed(1000, 5099, Some(500), 100, 500), 500);
    assert_eq!(arc_speed(1000, 2828, Some(707), 100, 500), 200);
    assert_eq!(arc_speed(1000, 5099, Some(1), 1000, 5000), 5000);
    assert_eq!(arc_speed(1000, 5099, Some(0), 100, 500), 500);
    assert_eq!(arc_speed(1000, 5099, Some(500), 0, 0), 0);
    assert_eq!(arc_speed(1000, 5099, Some(0), 0, 0), 0);
    assert_eq!(arc_speed(0, 5099, Some(0), 100, 500), 0);
    assert_eq!(arc_speed(1000, 5099, Some(-100), 100, 500), 0);
    assert_eq!(arc_speed(1000, 5099, None, 100, 500), 0);
}

#[test]
fn cosine_is_the_dot_product() {
    assert_eq!(cosine((0, 0), (5000, 1000), num2(0, 1000)), Some(196));
    assert_eq!(cosine((0, 0), (0, 7000), num2(0, 1000)), Some(1000));
    assert_eq!(cosine((0, 0), (0, -7000), num2(0, 1000)), Some(-1000));
    assert_eq!(cosine((0, 0), (7000, 0), num2(0, 1000)), Some(0));
    assert_eq!(cosine((0, 0), (3000, 4000), num2(600, 800)), Some(1000));
    assert_eq!(cosine((5, 5), (5, 5), num2(600, 800)), Some(0));
    assert_eq!(cosine((0, 0), (0, 7000), num2(0, i32::MAX)), Some(1000));
    assert_eq!(cosine((0, 0), (0, 7000), Reading2 { x: Reading::Nan, y: Reading::Num(1000) }), None);
}

#[test]
fn rates_per_frame() {
    assert_eq!(per_frame(5000, 1000), 5000);
    assert_eq!(per_frame(5000, 16), 80);
    assert_eq!(per_frame(1257, 1), 1);
    assert_eq!(per_frame(1257, 0), 0);
    assert_eq!(per_frame(u32::MAX, 1000), u32::MAX as u64);
}

#[test]
fn steering_never_leaves_what_is_no_number() {
    let mut seed: u64 = 0x9E37_79B9_7F4A_7C15;
    let mut next = move || {
        seed = seed.wrapping_mul(6364136223846793005).wrapping_add(1442695040888963407);
        (seed >> 33) as u32
    };
    let reading = |r: u32, v: u32| if r % 5 == 0 { Reading::Nan } else { Reading::Num((v % 20_001) as i32 - 10_000) };
    for _ in 0..10_000 {
        let target = match next() % 4 {
            0 => None,
            1 => Some(Reading2 { x: reading(next(), next()), y: reading(next(), next()) }),
            2 => Some(num2(0, 0)),
            _ => Some(num2((next() % 2001) as i32 - 1000, (next() % 2001) as i32 - 1000)),
        };
        let mut nav = Navigate {
            max_speed: next() % 10_000,
            max_radians_per_sec: next() % 3_000,
            move_to: target,
        };
        let bearing = Bearing {
            facing: Reading2 { x: reading(next(), next()), y: reading(next(), next()) },
            angle_delta: reading(next(), next()),
        };
        let frame = next() % 2000;
        let pos = ((next() % 3) as i32 - 1, (next() % 3) as i32 - 1);
        let far = target.filter(|t| !t.has_no_number()).map(|t| match (t.x, t.y) {
            (Reading::Num(x), Reading::Num(y)) => distance((x, y), pos),
            _ => 0,
        });
        let step = navigate_move(&mut nav, pos, &bearing, frame);
        if let Some(t) = nav.move_to {
            assert!(!t.has_no_number());
        }
        if let Step::Moved { turn, speed, .. } = step {
            assert!(turn.unsigned_abs() <= per_frame(nav.max_radians_per_sec, frame.min(1000)));
            assert!(speed <= per_frame(nav.max_speed, frame.min(1000)));
            assert!(speed <= far.unwrap());
        }
    }
}

#[test]
fn guards_replace_what_is_no_number() {
    assert_eq!(Reading::Nan.nan_guard(Reading::Num(7)), Reading::Num(7));
    assert_eq!(Reading::Num(3).nan_guard(Reading::Num(7)), Reading::Num(3));
    let mut r = Reading::Nan;
    r.if_nan(Reading::Num(0));
    assert_eq!(r, Reading::Num(0));
    r.if_nan(Reading::Num(9));
    assert_eq!(r, Reading::Num(0));
    let half = Reading2 { x: Reading::Num(1), y: Reading::Nan };
    assert!(half.has_no_number());
    assert_eq!(half.nan_guard(num2(0, 0)), num2(0, 0));
    assert_eq!(num2(4, 5).nan_guard(num2(0, 0)), num2(4, 5));
    let mut v = half;
    v.if_nan(num2(1, 1));
    assert_eq!(v, num2(1, 1));
    assert!(!Reading::Num(0).has_no_number());
}

#[test]
fn whole_roots() {
    for (n, r) in [(0u128, 0u64), (1, 1), (3, 1), (4, 2), (15, 3), (16, 4), (26_000_000, 5099)] {
        assert_eq!(whole_root(n), r);
    }
    assert_eq!(whole_root((1u128 << 68) - 1), (1u64 << 34) - 1);
    assert_eq!(distance((0, 0), (3000, 4000)), 5000);
    assert_eq!(distance((i32::MIN, i32::MIN), (i32::MAX, i32::MAX)), 6_074_000_998);
}

#[test]
fn fixed_point_arithmetic() {
    assert_eq!(scaled(1500, 2000), 3000);
    assert_eq!(scaled(-1500, 2000), -3000);
    assert_eq!(scaled(-1, 999), 0);
    assert_eq!(scaled(1, 999), 0);
    assert_eq!(cut_div(7, 2), 3);
    assert_eq!(cut_div(-7, 2), -3);
    assert_eq!(saturate(1 << 40), i32::MAX);
    assert_eq!(saturate(-(1 << 40)), i32::MIN);
    assert_eq!(saturate(-5), -5);
    assert_eq!(polar((3000, 4000)), ((600, 800), 5000));
    assert_eq!(polar((0, 0)), ((0, 0), 0));
    assert_eq!(polar((-7, 0)), ((-1000, 0), 7));
    assert_eq!(heading_to((1000, 1000), (1000, -5000)), (0, -1000));
    assert_eq!(heading_to((5, 5), (5, 5)), (0, 0));
    assert_eq!(offset_by((1000, 1000), (600, -800), 5000), (4000, -3000));
    assert_eq!(offset_by((i32::MAX, 0), (1000, 0), 5000), (i32::MAX, 0));
}

#[test]
fn paused_frame_neither_turns_nor_moves() {
    let mut nav = ant(Some(num2(0, 100_000)));
    let bearing = Bearing { facing: num2(1000, 0), angle_delta: Reading::Num(500) };
    assert_eq!(
        navigate_move(&mut nav, (0, 0), &bearing, 0),
        Step::Moved { turn: 0, speed: 0, onto_target: false }
    );
    assert_eq!(nav.move_to, Some(num2(0, 100_000)));
    let mut nav = ant(Some(num2(3, 4)));
    assert_eq!(navigate_move(&mut nav, (3, 4), &bearing, 0), Step::Snapped { x: 3, y: 4 });
}

#[test]
fn dead_zone_never_speeds_the_ant_up() {
    let mut nav = ant(Some(num2(6965, 700)));
    assert!(inside_dead_zone(&nav, (0, 0), (6965, 700), num2(0, 1000)));
    let bearing = Bearing { facing: num2(0, 1000), angle_delta: Reading::Num(-1470) };
    match navigate_move(&mut nav, (0, 0), &bearing, 500) {
        Step::Moved { turn, speed, onto_target } => {
            assert_eq!(turn, 628);
            assert!(speed <= 2500);
            assert_eq!(speed, 2500);
            assert!(!onto_target);
        }
        other => panic!("no move: {:?}", other),
    }
}
