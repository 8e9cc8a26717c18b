use crate::behavior::{nearer_home, OVERSHOOT, past, smell, smelled, trail_end, WANDER_LEG, Plan};
use crate::drift::AntSettings;
use crate::fixed::{distance, gap, heading, heading_to, offset, offset_by, sat32, saturate};
use crate::food::{FoodDeltaEvent, FoodQuant};
use crate::grid::{distance_squared, in_reach};
use crate::scent::{cell_of, ScentType, WeightType};
use crate::scentmap::ScentMap;
use vstd::prelude::*;

verus! {

/// A forager at or within this distance of home has arrived.
pub const HOME_REACHED: u64 = 3_000;

/// A forager within this distance of home walks straight there.
pub const HOME_IN_SIGHT: u64 = 60_000;

/// How far a forager sees food.
pub const SIGHT: i64 = 60_000;

/// How far past the centroid of a food trail, away from home, a forager aims.
pub const FOOD_TRAIL_LEG: i64 = 20_000;

/// How far a forager that finds only the colony's own scent moves away from it.
pub const SPREAD_LEG: i64 = 30_000;

/// Before any chunk is seen, the nearest one counts as this far off on
/// either axis.
pub const UNSEEN_OFFSET: i64 = 120_000;

/// What a forager is about.
#[derive(Clone, Copy, PartialEq, Eq, Structural, Debug)]
pub enum ForagerAnt {
    Seeking,
    FollowingTrail,
    BringingHomeFood,
    GoingHomeEmpty,
}

impl Default for ForagerAnt {
    fn default() -> (b: Self)
        ensures
            b == ForagerAnt::Seeking,
    {
        ForagerAnt::Seeking
    }
}

/// A chunk of food that a forager sees.
#[derive(Clone, Copy, Debug)]
pub struct FoodSight {
    pub entity: u64,
    pub pos: (i32, i32),
    pub quant: FoodQuant,
}

/// What an ant carries, and the number of the holder on its back.
#[derive(Clone, Copy, Debug)]
pub struct Load {
    pub entity: u64,
    pub quant: FoodQuant,
}

/// What a forager decides in a tick: what it is about from now on, what
/// becomes of its target, and the food it asks to have moved.
#[derive(Clone, Copy, PartialEq, Eq, Structural, Debug)]
pub struct Decision {
    pub behavior: ForagerAnt,
    pub plan: Plan,
    pub event: Option<FoodDeltaEvent>,
}

/// What a forager has made of the chunks it has looked at so far.
#[derive(Clone, Copy, Debug)]
pub struct Scan {
    /// The nearest chunk out of reach, or the unseen point.
    pub nearest: (i32, i32),
    pub behavior: Option<ForagerAnt>,
    pub target: Option<(i32, i32)>,
    pub event: Option<FoodDeltaEvent>,
    /// It has taken food and looks no further.
    pub done: bool,
}

/// The chunks that lie strictly within sight of a forager at `pos`, in the
/// order in which they were handed in.
pub open spec fn in_sight(pos: (i32, i32), food: Seq<FoodSight>) -> Seq<FoodSight>
    decreases food.len(),
{
    if food.len() == 0 {
        food
    } else if in_reach(cell_of(food.last().pos), cell_of(pos), SIGHT as int) {
        in_sight(pos, food.drop_last()).push(food.last())
    } else {
        in_sight(pos, food.drop_last())
    }
}

/// The chunks that lie strictly within sight of a forager at `pos`.
pub fn chunks_in_sight(pos: (i32, i32), food: &Vec<FoodSight>) -> (seen: Vec<FoodSight>)
    ensures
        seen@ == in_sight(pos, food@),
{
    let mut seen: Vec<FoodSight> = Vec::new();
    let mut i: usize = 0;
    while i < food.len()
        invariant
            i <= food.len(),
            seen@ == in_sight(pos, food@.take(i as int)),
        decreases food.len() - i,
    {
        let chunk = food[i];
        proof {
            assert(food@.take(i + 1).drop_last() =~= food@.take(i as int));
            assert(food@.take(i + 1).last() == chunk);
        }
        if distance_squared(chunk.pos, pos) < (SIGHT * SIGHT) as u128 {
            seen.push(chunk);
        }
        i = i + 1;
    }
    proof {
        assert(food@.take(i as int) =~= food@);
    }
    seen
}

/// The point that stands for the nearest chunk before any is seen.
pub open spec fn unseen(pos: (i32, i32)) -> (i32, i32) {
    (sat32(pos.0 + UNSEEN_OFFSET) as i32, sat32(pos.1 + UNSEEN_OFFSET) as i32)
}

/// What one more chunk makes of a scan: a chunk within reach is taken from,
/// by an ant that has something to carry it in, and ends the scan; a chunk
/// out of reach becomes the target where none nearer was seen.
pub open spec fn look_at(prev: Scan, pos: (i32, i32), chunk: FoodSight, load: Option<Load>, capacity: i32) -> Scan {
    if prev.done {
        prev
    } else if gap(cell_of(pos), cell_of(chunk.pos)) <= chunk.quant.interaction() {
        match load {
            Some(l) => Scan {
                nearest: prev.nearest,
                behavior: Some(ForagerAnt::BringingHomeFood),
                target: None,
                event: Some(
                    FoodDeltaEvent { requested: capacity, food_from: chunk.entity, food_to: l.entity },
                ),
                done: true,
            },
            None => prev,
        }
    } else if gap(cell_of(pos), cell_of(chunk.pos)) <= gap(cell_of(pos), cell_of(prev.nearest)) {
        Scan {
            nearest: chunk.pos,
            behavior: Some(ForagerAnt::FollowingTrail),
            target: Some(chunk.pos),
            event: prev.event,
            done: false,
        }
    } else {
        prev
    }
}

/// What a forager makes of the chunks it sees, looked at in order.
pub open spec fn scan_food(pos: (i32, i32), food: Seq<FoodSight>, load: Option<Load>, capacity: i32) -> Scan
    decreases food.len(),
{
    if food.len() == 0 {
        Scan { nearest: unseen(pos), behavior: None, target: None, event: None, done: false }
    } else {
        look_at(scan_food(pos, food.drop_last(), load, capacity), pos, food.last(), load, capacity)
    }
}

/// What a forager makes of the chunks it sees.
pub fn move_to_nearest_chunk(pos: (i32, i32), food: &Vec<FoodSight>, load: Option<Load>, capacity: i32) -> (scan:
    Scan)
    ensures
        scan == scan_food(pos, food@, load, capacity),
{
    let mut scan = Scan {
        nearest: (
            saturate(pos.0 as i128 + UNSEEN_OFFSET as i128),
            saturate(pos.1 as i128 + UNSEEN_OFFSET as i128),
        ),
        behavior: None,
        target: None,
        event: None,
        done: false,
    };
    let mut i: usize = 0;
    while i < food.len()
        invariant
            i <= food.len(),
            scan == scan_food(pos, food@.take(i as int), load, capacity),
        decreases food.len() - i,
    {
        let chunk = food[i];
        proof {
            assert(food@.take(i + 1).drop_last() =~= food@.take(i as int));
            assert(food@.take(i + 1).last() == chunk);
        }
        if !scan.done {
            let far = distance(pos, chunk.pos);
            if far as i64 <= chunk.quant.interaction_distance() {
                match load {
                    Some(l) => {
                        scan = Scan {
                            nearest: scan.nearest,
                            behavior: Some(ForagerAnt::BringingHomeFood),
                            target: None,
                            event: Some(
                                FoodDeltaEvent {
                                    requested: capacity,
                                    food_from: chunk.entity,
                                    food_to: l.entity,
                                },
                            ),
                            done: true,
                        };
                    },
                    None => {},
                }
            } else if far <= distance(pos, scan.nearest) {
                scan = Scan {
                    nearest: chunk.pos,
                    behavior: Some(ForagerAnt::FollowingTrail),
                    target: Some(chunk.pos),
                    event: scan.event,
                    done: false,
                };
            }
        }
        i = i + 1;
    }
    proof {
        assert(food@.take(i as int) =~= food@);
    }
    scan
}

/// Only what lies further from `home` than the ant does.
pub open spec fn further_out(home: (i32, i32)) -> WeightType {
    WeightType::FurtherFrom(home)
}

/// Whether a forager on its way home has arrived: it has reached home.
pub open spec fn arrived(pos: (i32, i32), home: (i32, i32)) -> bool {
    gap(cell_of(pos), cell_of(home)) <= HOME_REACHED
}

/// What a forager on its way home does: arrived, it hands over what it
/// carries and seeks anew; with home in sight it walks there; else it
/// follows the colony's scent where that brings it nearer, and takes its
/// bearing on home where not.
pub open spec fn homing(
    map: ScentMap,
    behavior: ForagerAnt,
    pos: (i32, i32),
    home: (i32, i32),
    load: Option<Load>,
    colony: u64,
) -> Decision {
    if arrived(pos, home) {
        Decision {
            behavior: ForagerAnt::Seeking,
            plan: Plan::Keep,
            event: match load {
                Some(l) => Some(
                    FoodDeltaEvent { requested: l.quant.0, food_from: l.entity, food_to: colony },
                ),
                None => None,
            },
        }
    } else if gap(cell_of(pos), cell_of(home)) <= HOME_IN_SIGHT {
        Decision { behavior, plan: Plan::Goto { x: home.0, y: home.1 }, event: None }
    } else {
        let bear = Decision { behavior, plan: Plan::BearTowards { x: home.0, y: home.1 }, event: None };
        match smelled(map, ScentType::AntSmell, nearer_home(home), cell_of(pos)) {
            Some(p) => {
                let dest = past(cell_of(pos), trail_end(p, p, cell_of(home), WANDER_LEG as int));
                if gap(dest, cell_of(home)) < gap(cell_of(pos), cell_of(home)) {
                    Decision {
                        behavior,
                        plan: Plan::Goto { x: dest.0 as i32, y: dest.1 as i32 },
                        event: None,
                    }
                } else {
                    bear
                }
            },
            None => bear,
        }
    }
}

/// What a forager does that sees no food: it follows a food trail outward
/// where it smells one; else it gives up once its time is over; else it
/// moves away from the colony's own scent, or takes its bearing on home
/// where it smells none.
pub open spec fn searching(map: ScentMap, pos: (i32, i32), home: (i32, i32), timer_finished: bool) -> Decision {
    match smelled(map, ScentType::FoundFoodSmell, further_out(home), cell_of(pos)) {
        Some(p) => {
            let dest = past(cell_of(pos), trail_end(p, cell_of(home), p, FOOD_TRAIL_LEG as int));
            Decision {
                behavior: ForagerAnt::FollowingTrail,
                plan: Plan::Goto { x: dest.0 as i32, y: dest.1 as i32 },
                event: None,
            }
        },
        None => if timer_finished {
            Decision { behavior: ForagerAnt::GoingHomeEmpty, plan: Plan::Keep, event: None }
        } else {
            match smelled(map, ScentType::AntSmell, WeightType::Unweighted, cell_of(pos)) {
                Some(p) => {
                    let dest = offset(cell_of(pos), heading(cell_of(pos), p), -SPREAD_LEG);
                    Decision {
                        behavior: ForagerAnt::Seeking,
                        plan: Plan::Goto { x: dest.0 as i32, y: dest.1 as i32 },
                        event: None,
                    }
                },
                None => Decision {
                    behavior: ForagerAnt::Seeking,
                    plan: Plan::BearTowards { x: home.0, y: home.1 },
                    event: None,
                },
            }
        },
    }
}

/// What a forager decides in a tick. With a target it changes nothing. On
/// its way home with food, or without and with no food in sight, it homes.
/// With food in sight it goes for the nearest chunk or takes from one in
/// reach. Else it searches. Only the chunks strictly within sight count.
pub open spec fn forager_decision(
    map: ScentMap,
    behavior: ForagerAnt,
    has_target: bool,
    pos: (i32, i32),
    home: (i32, i32),
    food: Seq<FoodSight>,
    load: Option<Load>,
    colony: u64,
    capacity: i32,
    timer_finished: bool,
) -> Decision {
    let seen = in_sight(pos, food);
    if has_target {
        Decision { behavior, plan: Plan::Keep, event: None }
    } else if behavior == ForagerAnt::BringingHomeFood || (behavior == ForagerAnt::GoingHomeEmpty
        && seen.len() == 0) {
        homing(map, behavior, pos, home, load, colony)
    } else if seen.len() > 0 {
        let scan = scan_food(pos, seen, load, capacity);
        Decision {
            behavior: match scan.behavior {
                Some(b) => b,
                None => behavior,
            },
            plan: match scan.target {
                Some(t) => Plan::Goto { x: t.0, y: t.1 },
                None => Plan::Keep,
            },
            event: scan.event,
        }
    } else {
        searching(map, pos, home, timer_finished)
    }
}

/// The turns that a forager's work takes. With a target nothing changes.
/// A forager that arrives hands over what it carries and seeks anew. One
/// that sees no food and smells no food trail gives up once its time is
/// over, and keeps or resumes seeking before that. One that smells a food
/// trail follows it. One that sees food follows or takes it, and takes it
/// only for its carrying capacity.
pub proof fn lemma_forager_turns(
    map: ScentMap,
    behavior: ForagerAnt,
    has_target: bool,
    pos: (i32, i32),
    home: (i32, i32),
    food: Seq<FoodSight>,
    load: Option<Load>,
    colony: u64,
    capacity: i32,
    timer_finished: bool,
)
    ensures
        ({
            let d = forager_decision(
                map,
                behavior,
                has_target,
                pos,
                home,
                food,
                load,
                colony,
                capacity,
                timer_finished,
            );
            let seen = in_sight(pos, food);
            let homing = behavior == ForagerAnt::BringingHomeFood || (behavior
                == ForagerAnt::GoingHomeEmpty && seen.len() == 0);
            let trail = smelled(map, ScentType::FoundFoodSmell, further_out(home), cell_of(pos));
            &&& has_target ==> d == Decision { behavior, plan: Plan::Keep, event: None }
            &&& !has_target && homing && arrived(pos, home) ==> d.behavior == ForagerAnt::Seeking
                && d.plan == Plan::Keep && (d.event is Some <==> load is Some)
            &&& !has_target && homing && !arrived(pos, home) ==> d.behavior == behavior && d.plan
                != Plan::Keep && d.event is None
            &&& !has_target && !homing && seen.len() == 0 && trail is Some ==> d.behavior
                == ForagerAnt::FollowingTrail && d.event is None
            &&& !has_target && !homing && seen.len() == 0 && trail is None && timer_finished
                ==> d.behavior == ForagerAnt::GoingHomeEmpty && d.plan == Plan::Keep
            &&& !has_target && !homing && seen.len() == 0 && trail is None && !timer_finished
                ==> d.behavior == ForagerAnt::Seeking && d.plan != Plan::Keep && d.plan
                != Plan::Wander
            &&& !has_target && !homing && seen.len() > 0 ==> (d.behavior == behavior || d.behavior
                == ForagerAnt::FollowingTrail || d.behavior == ForagerAnt::BringingHomeFood)
            &&& !has_target && !homing && seen.len() > 0 ==> (d.behavior
                == ForagerAnt::BringingHomeFood <==> d.event is Some)
            &&& !has_target && !homing && seen.len() > 0 && d.event is Some ==> load is Some
                && d.event->0.requested == capacity && d.event->0.food_to == load->0.entity
                && d.plan == Plan::Keep
        }),
{
    let seen = in_sight(pos, food);
    if !has_target && behavior != ForagerAnt::BringingHomeFood && seen.len() > 0 {
        lemma_scan(pos, seen, load, capacity);
    }
}

/// A scan ends with food taken exactly where it asks for food to be moved,
/// and then it is about bringing food home and has no target; else it is
/// about nothing new or about following, with a target exactly then.
pub proof fn lemma_scan(pos: (i32, i32), food: Seq<FoodSight>, load: Option<Load>, capacity: i32)
    ensures
        ({
            let s = scan_food(pos, food, load, capacity);
            &&& s.done <==> s.event is Some
            &&& s.done <==> s.behavior == Some(ForagerAnt::BringingHomeFood)
            &&& s.done ==> s.target is None && load is Some && s.event->0.requested == capacity
                && s.event->0.food_to == load->0.entity
            &&& !s.done ==> (s.behavior is None && s.target is None) || (s.behavior == Some(
                ForagerAnt::FollowingTrail,
            ) && s.target is Some)
        }),
    decreases food.len(),
{
    if food.len() > 0 {
        lemma_scan(pos, food.drop_last(), load, capacity);
    }
}

fn head_home(map: &ScentMap, behavior: ForagerAnt, pos: (i32, i32), home: (i32, i32), load: Option<Load>, colony: u64) -> (d:
    Decision)
    requires
        map.wf(),
    ensures
        d == homing(*map, behavior, pos, home, load, colony),
{
    let to_home = distance(pos, home);
    if to_home <= HOME_REACHED {
        return Decision {
            behavior: ForagerAnt::Seeking,
            plan: Plan::Keep,
            event: match load {
                Some(l) => Some(
                    FoodDeltaEvent { requested: l.quant.0, food_from: l.entity, food_to: colony },
                ),
                None => None,
            },
        };
    }
    if to_home <= HOME_IN_SIGHT {
        return Decision { behavior, plan: Plan::Goto { x: home.0, y: home.1 }, event: None };
    }
    let bear = Decision { behavior, plan: Plan::BearTowards { x: home.0, y: home.1 }, event: None };
    match smell(map, ScentType::AntSmell, WeightType::CloserTo(home), pos) {
        Some(p) => {
            let end = offset_by(p, heading_to(p, home), WANDER_LEG);
            let far = distance(pos, end);
            let dest = offset_by(pos, heading_to(pos, end), far as i64 + OVERSHOOT);
            if distance(dest, home) < to_home {
                Decision { behavior, plan: Plan::Goto { x: dest.0, y: dest.1 }, event: None }
            } else {
                bear
            }
        },
        None => bear,
    }
}

fn search(map: &ScentMap, pos: (i32, i32), home: (i32, i32), timer_finished: bool) -> (d: Decision)
    requires
        map.wf(),
    ensures
        d == searching(*map, pos, home, timer_finished),
{
    match smell(map, ScentType::FoundFoodSmell, WeightType::FurtherFrom(home), pos) {
        Some(p) => {
            let end = offset_by(p, heading_to(home, p), FOOD_TRAIL_LEG);
            let far = distance(pos, end);
            let dest = offset_by(pos, heading_to(pos, end), far as i64 + OVERSHOOT);
            return Decision {
                behavior: ForagerAnt::FollowingTrail,
                plan: Plan::Goto { x: dest.0, y: dest.1 },
                event: None,
            };
        },
        None => {},
    }
    if timer_finished {
        return Decision { behavior: ForagerAnt::GoingHomeEmpty, plan: Plan::Keep, event: None };
    }
    match smell(map, ScentType::AntSmell, WeightType::Unweighted, pos) {
        Some(p) => {
            let dest = offset_by(pos, heading_to(pos, p), -SPREAD_LEG);
            Decision {
                behavior: ForagerAnt::Seeking,
                plan: Plan::Goto { x: dest.0, y: dest.1 },
                event: None,
            }
        },
        None => Decision {
            behavior: ForagerAnt::Seeking,
            plan: Plan::BearTowards { x: home.0, y: home.1 },
            event: None,
        },
    }
}

/// What the forager at `pos` decides in a tick, from what it is about, the
/// food it sees, what it carries, the scent around it and whether its time
/// for seeking is over.
pub fn forager_ant_behavior(
    map: &ScentMap,
    behavior: ForagerAnt,
    has_target: bool,
    pos: (i32, i32),
    home: (i32, i32),
    food_in_sight: &Vec<FoodSight>,
    load: Option<Load>,
    colony: u64,
    settings: &AntSettings,
    timer_finished: bool,
) -> (d: Decision)
    requires
        map.wf(),
    ensures
        d == forager_decision(
            *map,
            behavior,
            has_target,
            pos,
            home,
            food_in_sight@,
            load,
            colony,
            settings.carry_capacity,
            timer_finished,
        ),
{
    if has_target {
        return Decision { behavior, plan: Plan::Keep, event: None };
    }
    let seen = chunks_in_sight(pos, food_in_sight);
    let food_nearby = seen.len() > 0;
    match behavior {
        ForagerAnt::BringingHomeFood => head_home(map, behavior, pos, home, load, colony),
        ForagerAnt::GoingHomeEmpty if !food_nearby => head_home(map, behavior, pos, home, load, colony),
        _ => {
            if food_nearby {
                let scan = move_to_nearest_chunk(pos, &seen, load, settings.carry_capacity);
                Decision {
                    behavior: match scan.behavior {
                        Some(b) => b,
                        None => behavior,
                    },
                    plan: match scan.target {
                        Some(t) => Plan::Goto { x: t.0, y: t.1 },
                        None => Plan::Keep,
                    },
                    event: scan.event,
                }
            } else {
                search(map, pos, home, timer_finished)
            }
        },
    }
}

/// Whether a forager's seeking time runs on: it does only while it seeks.
pub fn forager_timer_reset(behavior: ForagerAnt) -> (reset: bool)
    ensures
        reset == (behavior != ForagerAnt::Seeking),
{
    match behavior {
        ForagerAnt::Seeking => false,
        _ => true,
    }
}

} // verus!
