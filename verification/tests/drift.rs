use ant_colony::drift::{ant_i_gravity, push_from, tokyo, AntSettings, Drift};
use ant_colony::misc_utility::{Reading, Reading2};
use ant_colony::steering::Navigate;

fn num2(x: i32, y: i32) -> Reading2 {
    Reading2 { x: Reading::Num(x), y: Reading::Num(y) }
}

#[test]
fn default_ant_settings() {
    let s = AntSettings::default();
    assert_eq!((s.carry_capacity, s.life_span, s.ant_i_gravity, s.ant_i_gravity_max), (5, 240, 15_000, 50_000));
}

#[test]
fn push_falls_off_with_the_square() {
    assert_eq!(push_from((0, 0), (1000, 0), 15_000, 50_000), (-15_000, 0));
    assert_eq!(push_from((0, 0), (2000, 0), 15_000, 50_000), (-3_750, 0));
    assert_eq!(push_from((0, 0), (0, -2000), 15_000, 50_000), (0, 3_750));
    assert_eq!(push_from((0, 0), (3000, 4000), 15_000, 50_000), (-360, -480));
}

#[test]
fn push_is_capped_and_none_from_the_same_spot() {
    assert_eq!(push_from((0, 0), (100, 0), 15_000, 50_000), (-50_000, 0));
    assert_eq!(push_from((0, 0), (1, 0), u32::MAX, u32::MAX), (-(u32::MAX as i64), 0));
    assert_eq!(push_from((7, 7), (7, 7), 15_000, 50_000), (0, 0));
    assert_eq!(push_from((0, 0), (19_999, 0), 15_000, 50_000), (-37, 0));
    assert_eq!(push_from((0, 0), (20_000, 0), 15_000, 50_000), (0, 0));
    assert_eq!(push_from((0, 0), (12_000, 16_000), u32::MAX, u32::MAX), (0, 0));
    assert_eq!(push_from((i32::MIN, i32::MIN), (i32::MAX, i32::MAX), 15_000, 50_000), (0, 0));
}

#[test]
fn fresh_drift_is_none() {
    let d = Drift::new();
    assert_eq!((d.direction(), d.magnitude()), ((0, 0), 0));
}

#[test]
fn gathering_blends_and_caps() {
    let settings = AntSettings::default();
    let mut d = Drift::new();
    ant_i_gravity(&mut d, (0, 0), &vec![(1000, 0)], &settings, 1000);
    assert_eq!((d.direction(), d.magnitude()), ((-1000, 0), 15_000));
    ant_i_gravity(&mut d, (0, 0), &vec![(0, 1000), (0, 0)], &settings, 1000);
    assert_eq!((d.direction(), d.magnitude()), ((-707, -707), 21_213));
    let crowd: Vec<(i32, i32)> = vec![(100, 0); 10];
    ant_i_gravity(&mut d, (0, 0), &crowd, &settings, 1000);
    assert_eq!(d.magnitude(), 50_000);
    assert!(d.direction().0 < -990);
}

#[test]
fn gathering_scales_with_the_frame() {
    let settings = AntSettings::default();
    let mut d = Drift::new();
    ant_i_gravity(&mut d, (0, 0), &vec![(1000, 0)], &settings, 16);
    assert_eq!((d.direction(), d.magnitude()), ((-1000, 0), 240));
    let mut d = Drift::new();
    ant_i_gravity(&mut d, (0, 0), &vec![], &settings, 16);
    assert_eq!((d.direction(), d.magnitude()), ((0, 0), 0));
    let mut d = Drift::new();
    ant_i_gravity(&mut d, (0, 0), &vec![(1000, 0), (-1000, 0)], &settings, 1000);
    assert_eq!((d.direction(), d.magnitude()), ((0, 0), 0));
}

#[test]
fn drifting_moves_ant_and_target_and_wears_off() {
    let settings = AntSettings::default();
    let mut d = Drift::new();
    ant_i_gravity(&mut d, (0, 0), &vec![(1000, 0)], &settings, 1000);
    let mut nav = Navigate { max_speed: 5000, max_radians_per_sec: 1257, move_to: Some(num2(5000, 5000)) };
    let adj = tokyo(&mut nav, &mut d, 16);
    assert_eq!(adj, (-72, 0));
    assert_eq!(nav.move_to, Some(num2(4928, 5000)));
    assert_eq!((d.direction(), d.magnitude()), ((-1000, 0), 14_921));
    let mut idle = Navigate { max_speed: 5000, max_radians_per_sec: 1257, move_to: None };
    let adj = tokyo(&mut idle, &mut d, 1000);
    assert_eq!(adj, (-4500, 0));
    assert_eq!(idle.move_to, None);
    assert_eq!(d.magnitude(), 14_921 - 4_950);
}

#[test]
fn weak_drift_is_let_be() {
    let settings = AntSettings::default();
    let mut d = Drift::new();
    ant_i_gravity(&mut d, (0, 0), &vec![(1000, 0)], &settings, 6);
    assert_eq!(d.magnitude(), 90);
    let mut nav = Navigate { max_speed: 5000, max_radians_per_sec: 1257, move_to: Some(num2(1, 2)) };
    assert_eq!(tokyo(&mut nav, &mut d, 1000), (0, 0));
    assert_eq!(nav.move_to, Some(num2(1, 2)));
    assert_eq!(d.magnitude(), 90);
}

#[test]
fn drift_wears_off_to_rest() {
    let settings = AntSettings::default();
    let mut d = Drift::new();
    ant_i_gravity(&mut d, (0, 0), &vec![(300, 400)], &settings, 1000);
    let mut nav = Navigate { max_speed: 5000, max_radians_per_sec: 1257, move_to: None };
    let mut last = d.magnitude();
    assert_eq!(last, 50_000);
    let mut ticks = 0;
    while d.magnitude() > 100 {
        tokyo(&mut nav, &mut d, 250);
        assert!(d.magnitude() < last);
        last = d.magnitude();
        ticks += 1;
        assert!(ticks < 1000);
    }
    assert_eq!(tokyo(&mut nav, &mut d, 250), (0, 0));
}

#[test]
fn target_that_is_no_number_stays_so() {
    let settings = AntSettings::default();
    let mut d = Drift::new();
    ant_i_gravity(&mut d, (0, 0), &vec![(1000, 0)], &settings, 1000);
    let t = Reading2 { x: Reading::Nan, y: Reading::Num(i32::MIN) };
    let mut nav = Navigate { max_speed: 5000, max_radians_per_sec: 1257, move_to: Some(t) };
    tokyo(&mut nav, &mut d, 1000);
    assert_eq!(nav.move_to, Some(t));
    let mut nav = Navigate { max_speed: 5000, max_radians_per_sec: 1257, move_to: Some(num2(i32::MIN, 0)) };
    tokyo(&mut nav, &mut d, 1000);
    assert_eq!(nav.move_to, Some(num2(i32::MIN, 0)));
}

#[test]
fn gathering_never_exceeds_the_cap() {
    let mut seed: u64 = 42;
    let mut next = move || {
        seed = seed.wrapping_mul(6364136223846793005).wrapping_add(1442695040888963407);
        (seed >> 33) as u32
    };
    let mut d = Drift::new();
    let mut nav = Navigate { max_speed: 5000, max_radians_per_sec: 1257, move_to: Some(num2(0, 0)) };
    for _ in 0..10_000 {
        let settings = AntSettings {
            carry_capacity: 5,
            life_span: 240,
            ant_i_gravity: next() % 100_000,
            ant_i_gravity_max: next() % 100_000,
        };
        let n = next() % 4;
        let mut crowd = Vec::new();
        for _ in 0..n {
            crowd.push(((next() % 5) as i32 - 2, (next() % 5) as i32 - 2));
        }
        ant_i_gravity(&mut d, (0, 0), &crowd, &settings, (next() % 3000) as u16);
        assert!(0 <= d.magnitude() && d.magnitude() <= settings.ant_i_gravity_max as i64);
        let (x, y) = d.direction();
        assert!(x.abs() <= 1000 && y.abs() <= 1000);
        let before = d.magnitude();
        tokyo(&mut nav, &mut d, (next() % 3000) as u16);
        assert!(d.magnitude() <= before);
    }
}
