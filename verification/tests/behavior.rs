use ant_colony::behavior::{
    idle_ant_behavior, jitter_ceiling, nursmaid_ant_behavior, select_random_pos_along_bearing,
    select_random_wander_pos, smell, Plan,
};
use ant_colony::colony::{admit_ant, census_possible, labor_census, task_ants, Assign, LaborData, LaborStats, Role};
use ant_colony::drift::AntSettings;
use ant_colony::food::{placement_clear, FoodDeltaEvent, FoodQuant};
use ant_colony::forager::{
    chunks_in_sight, forager_ant_behavior, forager_timer_reset, move_to_nearest_chunk, Decision, FoodSight,
    ForagerAnt, Load,
};
use ant_colony::gametimer::{scaled_time, TickRate};
use ant_colony::scent::{ScentType, WeightType};
use ant_colony::scentmap::ScentMap;

fn field(scent: ScentType, cells: &[((i32, i32), u32)]) -> ScentMap {
    let mut map = ScentMap::new();
    for (cell, strength) in cells {
        map.log_scent(u32::MAX, *cell, scent, *strength);
    }
    map.update_trees();
    map
}

fn decide(
    map: &ScentMap,
    behavior: ForagerAnt,
    pos: (i32, i32),
    home: (i32, i32),
    food: &Vec<FoodSight>,
    load: Option<Load>,
    timer_finished: bool,
) -> Decision {
    forager_ant_behavior(map, behavior, false, pos, home, food, load, 77, &AntSettings::default(), timer_finished)
}

const BACKPACK: Load = Load { entity: 9, quant: FoodQuant(4) };

#[test]
fn wander_goes_one_leg() {
    assert_eq!(select_random_wander_pos((1000, 2000), (0, 1000)), (1000, 12_000));
    assert_eq!(select_random_wander_pos((1000, 2000), (-600, 800)), (-5000, 10_000));
    assert_eq!(select_random_wander_pos((1000, 2000), (0, 0)), (1000, 2000));
}

#[test]
fn jitter_ceiling_follows_the_distance() {
    assert_eq!(jitter_ceiling((0, 0), (3000, 0)), 5100);
    assert_eq!(jitter_ceiling((0, 0), (8000, 0)), 8000);
    assert_eq!(jitter_ceiling((0, 0), (50_000, 0)), 10_000);
    assert_eq!(jitter_ceiling((0, 0), (0, 0)), 5100);
}

#[test]
fn bearing_picks_a_point_ahead() {
    assert_eq!(select_random_pos_along_bearing((0, 0), (0, 1000), (100_000, 0), (0, 5000)), (20_000, 5000));
    assert_eq!(select_random_pos_along_bearing((0, 0), (0, 1000), (10_000, 0), (10_000, 0)), (20_000, 0));
    assert_eq!(select_random_pos_along_bearing((0, 0), (0, 1000), (10_000, 0), (10_001, 0)), (0, 7000));
    assert_eq!(select_random_pos_along_bearing((0, 0), (0, 0), (10_000, 0), (10_001, 0)), (0, 0));
    assert_eq!(select_random_pos_along_bearing((0, 0), (3, 4), (0, 0), (5000, 0)), (4200, 5600));
}

#[test]
fn smelling_gives_a_position() {
    let map = field(ScentType::AntSmell, &[((1, 0), 10), ((3, 0), 30)]);
    assert_eq!(smell(&map, ScentType::AntSmell, WeightType::Unweighted, (500, 999)), Some((2500, 0)));
    assert_eq!(smell(&map, ScentType::AntSmell, WeightType::Unweighted, (1999, 0)), Some((3000, 0)));
    assert_eq!(smell(&map, ScentType::FoundFoodSmell, WeightType::Unweighted, (500, 999)), None);
    assert_eq!(smell(&map, ScentType::AntSmell, WeightType::Unweighted, (50_000, 0)), None);
}

#[test]
fn idle_ant_with_a_target_keeps_it() {
    let map = ScentMap::new();
    assert_eq!(idle_ant_behavior(&map, true, (100_000, 0), (0, 0)), Plan::Keep);
    assert_eq!(nursmaid_ant_behavior(&map, true, (0, 0), (0, 0)), Plan::Keep);
}

#[test]
fn idle_ant_wanders_near_home_and_returns_from_afar() {
    let map = ScentMap::new();
    assert_eq!(idle_ant_behavior(&map, false, (0, 0), (1000, 0)), Plan::Wander);
    assert_eq!(idle_ant_behavior(&map, false, (29_999, 0), (0, 0)), Plan::Wander);
    assert_eq!(idle_ant_behavior(&map, false, (30_000, 0), (0, 0)), Plan::BearTowards { x: 0, y: 0 });
    assert_eq!(nursmaid_ant_behavior(&map, false, (40_000, 0), (0, 0)), Plan::Wander);
    assert_eq!(nursmaid_ant_behavior(&map, false, (45_000, 0), (0, -7)), Plan::BearTowards { x: 0, y: -7 });
}

#[test]
fn idle_ant_follows_the_trail_home() {
    let map = field(ScentType::AntSmell, &[((98, 0), 10), ((103, 0), 90)]);
    assert_eq!(idle_ant_behavior(&map, false, (100_000, 0), (0, 0)), Plan::Goto { x: 83_000, y: 0 });
    assert_eq!(nursmaid_ant_behavior(&map, false, (100_500, 0), (0, 0)), Plan::Goto { x: 83_000, y: 0 });
}

#[test]
fn idle_ant_far_from_home_always_gets_a_target() {
    let map = field(ScentType::AntSmell, &[((0, 1), 10)]);
    assert_eq!(idle_ant_behavior(&map, false, (0, 30_000), (0, 30_000 - 30_000)), Plan::BearTowards { x: 0, y: 0 });
    let map = field(ScentType::AntSmell, &[((1, 0), 10)]);
    assert_eq!(idle_ant_behavior(&map, false, (2_000, 0), (-28_500, 0)), Plan::Goto { x: -14_000, y: 0 });
}

#[test]
fn forager_with_a_target_changes_nothing() {
    let map = ScentMap::new();
    let food = vec![FoodSight { entity: 1, pos: (0, 0), quant: FoodQuant(100) }];
    for b in [ForagerAnt::Seeking, ForagerAnt::FollowingTrail, ForagerAnt::BringingHomeFood, ForagerAnt::GoingHomeEmpty] {
        let d = forager_ant_behavior(&map, b, true, (0, 0), (0, 0), &food, Some(BACKPACK), 77, &AntSettings::default(), true);
        assert_eq!(d, Decision { behavior: b, plan: Plan::Keep, event: None });
    }
}

#[test]
fn forager_takes_food_in_reach() {
    let map = ScentMap::new();
    let food = vec![
        FoodSight { entity: 1, pos: (40_000, 0), quant: FoodQuant(100) },
        FoodSight { entity: 2, pos: (3000, 4000), quant: FoodQuant(100) },
        FoodSight { entity: 3, pos: (0, 0), quant: FoodQuant(100) },
    ];
    for b in [ForagerAnt::Seeking, ForagerAnt::FollowingTrail, ForagerAnt::GoingHomeEmpty] {
        let d = decide(&map, b, (0, 0), (500_000, 0), &food, Some(BACKPACK), false);
        assert_eq!(
            d,
            Decision {
                behavior: ForagerAnt::BringingHomeFood,
                plan: Plan::Keep,
                event: Some(FoodDeltaEvent { requested: 5, food_from: 2, food_to: 9 }),
            }
        );
    }
}

#[test]
fn forager_goes_for_the_nearest_chunk() {
    let map = ScentMap::new();
    let food = vec![
        FoodSight { entity: 1, pos: (40_000, 0), quant: FoodQuant(100) },
        FoodSight { entity: 2, pos: (0, -30_000), quant: FoodQuant(100) },
        FoodSight { entity: 3, pos: (35_000, 0), quant: FoodQuant(100) },
    ];
    let d = decide(&map, ForagerAnt::Seeking, (0, 0), (500_000, 0), &food, Some(BACKPACK), false);
    assert_eq!(
        d,
        Decision { behavior: ForagerAnt::FollowingTrail, plan: Plan::Goto { x: 0, y: -30_000 }, event: None }
    );
    let scan = move_to_nearest_chunk((0, 0), &food, None, 5);
    assert_eq!(scan.nearest, (0, -30_000));
    assert!(!scan.done);
}

#[test]
fn forager_without_a_backpack_cannot_take() {
    let map = ScentMap::new();
    let food = vec![FoodSight { entity: 1, pos: (1000, 0), quant: FoodQuant(100) }];
    let d = decide(&map, ForagerAnt::Seeking, (0, 0), (500_000, 0), &food, None, false);
    assert_eq!(d, Decision { behavior: ForagerAnt::Seeking, plan: Plan::Keep, event: None });
}

#[test]
fn big_chunks_are_reached_from_further() {
    let map = ScentMap::new();
    let food = vec![FoodSight { entity: 1, pos: (32_500, 0), quant: FoodQuant(1800) }];
    let d = decide(&map, ForagerAnt::Seeking, (0, 0), (500_000, 0), &food, Some(BACKPACK), false);
    assert_eq!(d.behavior, ForagerAnt::BringingHomeFood);
    let food = vec![FoodSight { entity: 1, pos: (32_500, 0), quant: FoodQuant(1799) }];
    let d = decide(&map, ForagerAnt::Seeking, (0, 0), (500_000, 0), &food, Some(BACKPACK), false);
    assert_eq!(d.behavior, ForagerAnt::FollowingTrail);
}

#[test]
fn forager_follows_a_food_trail_outward() {
    let map = field(ScentType::FoundFoodSmell, &[((5, 0), 10), ((-5, 0), 99)]);
    for b in [ForagerAnt::Seeking, ForagerAnt::FollowingTrail] {
        let d = decide(&map, b, (0, 0), (-50_000, 0), &vec![], Some(BACKPACK), true);
        assert_eq!(
            d,
            Decision { behavior: ForagerAnt::FollowingTrail, plan: Plan::Goto { x: 30_000, y: 0 }, event: None }
        );
    }
}

#[test]
fn forager_gives_up_when_its_time_is_over() {
    let map = field(ScentType::AntSmell, &[((5, 0), 10)]);
    for b in [ForagerAnt::Seeking, ForagerAnt::FollowingTrail] {
        let d = decide(&map, b, (0, 0), (-50_000, 0), &vec![], Some(BACKPACK), true);
        assert_eq!(d, Decision { behavior: ForagerAnt::GoingHomeEmpty, plan: Plan::Keep, event: None });
    }
}

#[test]
fn forager_spreads_away_from_the_colonys_scent() {
    let map = field(ScentType::AntSmell, &[((5, 0), 10)]);
    let d = decide(&map, ForagerAnt::FollowingTrail, (0, 0), (-50_000, 0), &vec![], None, false);
    assert_eq!(d, Decision { behavior: ForagerAnt::Seeking, plan: Plan::Goto { x: -30_000, y: 0 }, event: None });
}

#[test]
fn forager_with_nothing_to_go_by_bears_on_home() {
    let map = ScentMap::new();
    let d = decide(&map, ForagerAnt::FollowingTrail, (0, 0), (-50_000, 0), &vec![], None, false);
    assert_eq!(
        d,
        Decision { behavior: ForagerAnt::Seeking, plan: Plan::BearTowards { x: -50_000, y: 0 }, event: None }
    );
}

#[test]
fn forager_hands_over_at_home() {
    let map = ScentMap::new();
    let food = vec![FoodSight { entity: 1, pos: (101_000, 0), quant: FoodQuant(100) }];
    let d = decide(&map, ForagerAnt::BringingHomeFood, (100_000, 0), (103_000, 0), &food, Some(BACKPACK), false);
    assert_eq!(
        d,
        Decision {
            behavior: ForagerAnt::Seeking,
            plan: Plan::Keep,
            event: Some(FoodDeltaEvent { requested: 4, food_from: 9, food_to: 77 }),
        }
    );
    let d = decide(&map, ForagerAnt::GoingHomeEmpty, (100_000, 0), (103_000, 0), &vec![], None, false);
    assert_eq!(d, Decision { behavior: ForagerAnt::Seeking, plan: Plan::Keep, event: None });
    let d = decide(&map, ForagerAnt::BringingHomeFood, (3_000, 0), (0, 0), &vec![], Some(BACKPACK), false);
    assert_eq!(d.behavior, ForagerAnt::Seeking);
    let d = decide(&map, ForagerAnt::BringingHomeFood, (3_001, 0), (0, 0), &vec![], Some(BACKPACK), false);
    assert_eq!(
        d,
        Decision { behavior: ForagerAnt::BringingHomeFood, plan: Plan::Goto { x: 0, y: 0 }, event: None }
    );
}

#[test]
fn forager_near_the_origin_has_not_arrived() {
    let map = ScentMap::new();
    let d = decide(&map, ForagerAnt::BringingHomeFood, (10_000, 0), (100_000, 0), &vec![], Some(BACKPACK), false);
    assert_eq!(
        d,
        Decision { behavior: ForagerAnt::BringingHomeFood, plan: Plan::BearTowards { x: 100_000, y: 0 }, event: None }
    );
    let d = decide(&map, ForagerAnt::BringingHomeFood, (25_000, 0), (-100, 0), &vec![], Some(BACKPACK), false);
    assert_eq!(
        d,
        Decision { behavior: ForagerAnt::BringingHomeFood, plan: Plan::Goto { x: -100, y: 0 }, event: None }
    );
    let d = decide(&map, ForagerAnt::GoingHomeEmpty, (0, 0), (50_000, 0), &vec![], None, false);
    assert_eq!(
        d,
        Decision { behavior: ForagerAnt::GoingHomeEmpty, plan: Plan::Goto { x: 50_000, y: 0 }, event: None }
    );
}

#[test]
fn forager_walks_home_when_it_is_in_sight() {
    let map = field(ScentType::AntSmell, &[((101, 0), 10)]);
    let d = decide(&map, ForagerAnt::BringingHomeFood, (100_000, 0), (160_000, 0), &vec![], Some(BACKPACK), false);
    assert_eq!(
        d,
        Decision { behavior: ForagerAnt::BringingHomeFood, plan: Plan::Goto { x: 160_000, y: 0 }, event: None }
    );
}

#[test]
fn forager_follows_the_colonys_scent_home() {
    let map = field(ScentType::AntSmell, &[((101, 0), 10), ((99, 0), 10)]);
    let d = decide(&map, ForagerAnt::GoingHomeEmpty, (100_000, 0), (200_000, 0), &vec![], None, false);
    assert_eq!(
        d,
        Decision { behavior: ForagerAnt::GoingHomeEmpty, plan: Plan::Goto { x: 116_000, y: 0 }, event: None }
    );
    let d = decide(&ScentMap::new(), ForagerAnt::BringingHomeFood, (100_000, 0), (200_000, 0), &vec![], None, false);
    assert_eq!(
        d,
        Decision { behavior: ForagerAnt::BringingHomeFood, plan: Plan::BearTowards { x: 200_000, y: 0 }, event: None }
    );
}

#[test]
fn seeking_time_runs_only_while_seeking() {
    assert!(!forager_timer_reset(ForagerAnt::Seeking));
    assert!(forager_timer_reset(ForagerAnt::FollowingTrail));
    assert!(forager_timer_reset(ForagerAnt::BringingHomeFood));
    assert!(forager_timer_reset(ForagerAnt::GoingHomeEmpty));
    assert_eq!(ForagerAnt::default(), ForagerAnt::Seeking);
}

#[test]
fn idle_ants_fill_open_places() {
    let orders = task_ants(2, 1, &vec![1, 2, 3, 4], &vec![], &vec![]);
    assert_eq!(
        orders,
        vec![
            Assign { entity: 1, role: Role::Nursemaid },
            Assign { entity: 2, role: Role::Forager },
            Assign { entity: 3, role: Role::Forager },
        ]
    );
}

#[test]
fn foragers_change_over_or_stand_down_unless_busy() {
    let foragers = vec![
        (5, ForagerAnt::BringingHomeFood),
        (6, ForagerAnt::Seeking),
        (7, ForagerAnt::FollowingTrail),
        (8, ForagerAnt::GoingHomeEmpty),
        (9, ForagerAnt::Seeking),
    ];
    let orders = task_ants(3, 1, &vec![], &vec![], &foragers);
    assert_eq!(
        orders,
        vec![Assign { entity: 6, role: Role::Nursemaid }, Assign { entity: 8, role: Role::Idle }, Assign { entity: 9, role: Role::Idle }]
    );
}

#[test]
fn nursemaids_that_are_too_many_stand_down() {
    let orders = task_ants(0, 1, &vec![40], &vec![7, 8, 9], &vec![]);
    assert_eq!(orders, vec![Assign { entity: 7, role: Role::Idle }, Assign { entity: 8, role: Role::Idle }]);
    assert_eq!(task_ants(0, 0, &vec![1, 2], &vec![], &vec![]), vec![]);
    assert_eq!(task_ants(i32::MIN, i32::MIN, &vec![1], &vec![2], &vec![(3, ForagerAnt::Seeking)]).len(), 2);
}

#[test]
fn census_counts_and_asks_for_foragers() {
    let mut stats = LaborStats {
        forager_stats: LaborData { requested: 0, active: 0 },
        nursemaid_stats: LaborData { requested: 3, active: 9 },
        idle_stats: LaborData { requested: 0, active: 9 },
    };
    let roles = vec![Role::Forager, Role::Forager, Role::Nursemaid, Role::Idle, Role::Forager];
    assert!(census_possible(50, 200, 5));
    labor_census(&mut stats, &roles, 50, 200, 5);
    assert_eq!(stats.forager_stats, LaborData { requested: 30, active: 3 });
    assert_eq!(stats.nursemaid_stats, LaborData { requested: 3, active: 1 });
    assert_eq!(stats.idle_stats, LaborData { requested: 0, active: 1 });
    labor_census(&mut stats, &vec![], 207, 200, 5);
    assert_eq!(stats.forager_stats, LaborData { requested: -1, active: 0 });
    labor_census(&mut stats, &vec![], 0, 200, -3);
    assert_eq!(stats.forager_stats.requested, -66);
    assert!(!census_possible(0, 200, 0));
    assert!(!census_possible(i32::MIN, 1, 5));
    assert!(!census_possible(0, i32::MIN, -1));
}

#[test]
fn food_moves_from_one_holder_to_the_other() {
    let mut from = FoodQuant(10);
    let mut to = FoodQuant::empty();
    assert!(from.can_take_food(&to, 5, None));
    from.take_food(&mut to, 5, None);
    assert_eq!((from, to), (FoodQuant(5), FoodQuant(5)));
    from.take_food(&mut to, 50, None);
    assert_eq!((from, to), (FoodQuant(0), FoodQuant(10)));
    let mut from = FoodQuant(10);
    let mut to = FoodQuant(1);
    from.take_food(&mut to, 5, Some(3));
    assert_eq!((from, to), (FoodQuant(8), FoodQuant(3)));
    from.take_food(&mut to, -5, Some(3));
    assert_eq!((from, to), (FoodQuant(8), FoodQuant(3)));
    assert!(!from.can_take_food(&FoodQuant(4), 1, Some(3)));
    assert!(!FoodQuant(-1).can_take_food(&to, 1, None));
    assert!(!FoodQuant(i32::MAX).can_take_food(&FoodQuant(i32::MAX), 1, None));
}

#[test]
fn reach_grows_with_the_chunk() {
    assert_eq!(FoodQuant(100).exclusion_distance(), 0);
    assert_eq!(FoodQuant(100).interaction_distance(), 5000);
    assert_eq!(FoodQuant(1800).exclusion_distance(), 65_000);
    assert_eq!(FoodQuant(1800).interaction_distance(), 32_500);
    assert_eq!(FoodQuant(3600).interaction_distance(), 65_000);
    assert_eq!(FoodQuant(-3600).interaction_distance(), 5000);
}

#[test]
fn time_is_stretched_by_the_rate() {
    assert_eq!(scaled_time(TickRate::X4, 1000), 4000);
    assert_eq!(scaled_time(TickRate::Paused, 1000), 0);
    assert_eq!(scaled_time(TickRate::Paused, u64::MAX), 0);
    assert_eq!(scaled_time(TickRate::default(), u64::MAX / 4), u64::MAX - 3);
}

#[test]
fn colony_grows_while_it_has_room() {
    assert_eq!(admit_ant(0, 35), Some(1));
    assert_eq!(admit_ant(34, 35), Some(35));
    assert_eq!(admit_ant(35, 35), None);
    assert_eq!(admit_ant(i32::MAX, i32::MAX), None);
    assert_eq!(admit_ant(i32::MAX - 1, i32::MAX), Some(i32::MAX));
    assert!(FoodQuant(0).is_spent());
    assert!(FoodQuant(-3).is_spent());
    assert!(!FoodQuant(1).is_spent());
}

#[test]
fn food_out_of_sight_does_not_count() {
    let map = ScentMap::new();
    let far = vec![FoodSight { entity: 1, pos: (60_000, 0), quant: FoodQuant(100) }];
    let d = decide(&map, ForagerAnt::Seeking, (0, 0), (-50_000, 0), &far, Some(BACKPACK), false);
    assert_eq!(
        d,
        Decision { behavior: ForagerAnt::Seeking, plan: Plan::BearTowards { x: -50_000, y: 0 }, event: None }
    );
    let near = vec![
        FoodSight { entity: 1, pos: (60_000, 0), quant: FoodQuant(100) },
        FoodSight { entity: 2, pos: (59_999, 0), quant: FoodQuant(100) },
        FoodSight { entity: 3, pos: (0, -70_000), quant: FoodQuant(100) },
    ];
    let d = decide(&map, ForagerAnt::Seeking, (0, 0), (-50_000, 0), &near, Some(BACKPACK), false);
    assert_eq!(
        d,
        Decision { behavior: ForagerAnt::FollowingTrail, plan: Plan::Goto { x: 59_999, y: 0 }, event: None }
    );
    let seen = chunks_in_sight((0, 0), &near);
    assert_eq!(seen.len(), 1);
    assert_eq!(seen[0].entity, 2);
}

#[test]
fn new_chunks_keep_their_distance() {
    let lying = vec![((0, 0), FoodQuant(1800)), ((500_000, 0), FoodQuant(100))];
    assert!(placement_clear((130_000, 0), FoodQuant(1800), &lying));
    assert!(!placement_clear((129_999, 0), FoodQuant(1800), &lying));
    assert!(placement_clear((65_000, 0), FoodQuant(1799), &lying));
    assert!(!placement_clear((0, 64_999), FoodQuant(20), &lying));
    assert!(placement_clear((500_000, 0), FoodQuant(20), &lying));
    assert!(!placement_clear((500_000, 1), FoodQuant(1800), &lying));
    assert!(placement_clear((7, 7), FoodQuant(3600), &vec![]));
}
