use crate::fixed::{cut_div, trunc_div};
use crate::forager::ForagerAnt;
use vstd::prelude::*;

verus! {

/// The work that an ant does.
#[derive(Clone, Copy, PartialEq, Eq, Structural, Debug)]
pub enum Role {
    Forager,
    Nursemaid,
    Idle,
}

/// An order to give an ant other work. Ants are named by the numbers that
/// the host gives them.
#[derive(Clone, Copy, PartialEq, Eq, Structural, Debug)]
pub struct Assign {
    pub entity: u64,
    pub role: Role,
}

/// How many ants a colony wants in a line of work, and how many it has.
#[derive(Clone, Copy, PartialEq, Eq, Structural, Debug)]
pub struct LaborData {
    pub requested: i32,
    pub active: i32,
}

/// The colony's count of its three lines of work.
#[derive(Clone, Copy, PartialEq, Eq, Structural, Debug)]
pub struct LaborStats {
    pub forager_stats: LaborData,
    pub nursemaid_stats: LaborData,
    pub idle_stats: LaborData,
}

/// The open places while ants are being tasked, and the orders given so far.
/// A negative number of places says how many ants are too many.
pub ghost struct Tally {
    pub nurse: int,
    pub forager: int,
    pub orders: Seq<Assign>,
}

/// Whether a forager is in the middle of something and is left alone.
pub open spec fn busy(behavior: ForagerAnt) -> bool {
    behavior == ForagerAnt::BringingHomeFood || behavior == ForagerAnt::FollowingTrail
}

/// An idle ant fills an open place: a nursemaid's first, else a forager's.
pub open spec fn task_idle_one(t: Tally, ant: u64) -> Tally {
    if t.nurse > 0 {
        Tally {
            nurse: t.nurse - 1,
            forager: t.forager,
            orders: t.orders.push(Assign { entity: ant, role: Role::Nursemaid }),
        }
    } else if t.forager > 0 {
        Tally {
            nurse: t.nurse,
            forager: t.forager - 1,
            orders: t.orders.push(Assign { entity: ant, role: Role::Forager }),
        }
    } else {
        t
    }
}

/// A forager that is not busy becomes a nursemaid where one is wanted, and
/// goes idle where there are too many foragers.
pub open spec fn task_forager_one(t: Tally, ant: (u64, ForagerAnt)) -> Tally {
    if t.nurse > 0 && !busy(ant.1) {
        Tally {
            nurse: t.nurse - 1,
            forager: t.forager,
            orders: t.orders.push(Assign { entity: ant.0, role: Role::Nursemaid }),
        }
    } else if t.forager < 0 && !busy(ant.1) {
        Tally {
            nurse: t.nurse,
            forager: t.forager + 1,
            orders: t.orders.push(Assign { entity: ant.0, role: Role::Idle }),
        }
    } else {
        t
    }
}

/// A nursemaid goes idle where there are too many nursemaids.
pub open spec fn task_nursemaid_one(t: Tally, ant: u64) -> Tally {
    if t.nurse < 0 {
        Tally {
            nurse: t.nurse + 1,
            forager: t.forager,
            orders: t.orders.push(Assign { entity: ant, role: Role::Idle }),
        }
    } else {
        t
    }
}

/// The tally after the idle ants have been gone through in order.
pub open spec fn task_idle(t: Tally, ants: Seq<u64>) -> Tally
    decreases ants.len(),
{
    if ants.len() == 0 {
        t
    } else {
        task_idle_one(task_idle(t, ants.drop_last()), ants.last())
    }
}

/// The tally after the foragers have been gone through in order.
pub open spec fn task_foragers(t: Tally, ants: Seq<(u64, ForagerAnt)>) -> Tally
    decreases ants.len(),
{
    if ants.len() == 0 {
        t
    } else {
        task_forager_one(task_foragers(t, ants.drop_last()), ants.last())
    }
}

/// The tally after the nursemaids have been gone through in order.
pub open spec fn task_nursemaids(t: Tally, ants: Seq<u64>) -> Tally
    decreases ants.len(),
{
    if ants.len() == 0 {
        t
    } else {
        task_nursemaid_one(task_nursemaids(t, ants.drop_last()), ants.last())
    }
}

/// The orders that bring a colony's work force nearer to what it wants:
/// first the idle ants fill open places, then foragers that are not busy
/// change over or stand down, then nursemaids that are too many stand down.
pub open spec fn tasked(
    foragers_wanted: i32,
    nursemaids_wanted: i32,
    idle: Seq<u64>,
    nursemaids: Seq<u64>,
    foragers: Seq<(u64, ForagerAnt)>,
) -> Seq<Assign> {
    let start = Tally {
        nurse: nursemaids_wanted - nursemaids.len(),
        forager: foragers_wanted - foragers.len(),
        orders: Seq::<Assign>::empty(),
    };
    task_nursemaids(task_foragers(task_idle(start, idle), foragers), nursemaids).orders
}

/// The orders that bring a colony's work force nearer to what it wants.
pub fn task_ants(
    foragers_wanted: i32,
    nursemaids_wanted: i32,
    idle: &Vec<u64>,
    nursemaids: &Vec<u64>,
    foragers: &Vec<(u64, ForagerAnt)>,
) -> (orders: Vec<Assign>)
    ensures
        orders@ == tasked(foragers_wanted, nursemaids_wanted, idle@, nursemaids@, foragers@),
{
    let mut nurse: i128 = nursemaids_wanted as i128 - nursemaids.len() as i128;
    let mut forager: i128 = foragers_wanted as i128 - foragers.len() as i128;
    let mut orders: Vec<Assign> = Vec::new();
    let ghost start = Tally {
        nurse: nurse as int,
        forager: forager as int,
        orders: Seq::<Assign>::empty(),
    };
    let mut i: usize = 0;
    while i < idle.len()
        invariant
            i <= idle.len(),
            (Tally { nurse: nurse as int, forager: forager as int, orders: orders@ }) == task_idle(
                start,
                idle@.take(i as int),
            ),
            -0x1_0000_0000_0000_0000 - 0x8000_0000 <= nurse <= 0x8000_0000,
            -0x1_0000_0000_0000_0000 - 0x8000_0000 <= forager <= 0x8000_0000,
        decreases idle.len() - i,
    {
        proof {
            assert(idle@.take(i + 1).drop_last() =~= idle@.take(i as int));
        }
        if nurse > 0 {
            orders.push(Assign { entity: idle[i], role: Role::Nursemaid });
            nurse = nurse - 1;
        } else if forager > 0 {
            orders.push(Assign { entity: idle[i], role: Role::Forager });
            forager = forager - 1;
        }
        i = i + 1;
    }
    let ghost after_idle = task_idle(start, idle@);
    proof {
        assert(idle@.take(i as int) =~= idle@);
    }
    let mut j: usize = 0;
    while j < foragers.len()
        invariant
            j <= foragers.len(),
            (Tally { nurse: nurse as int, forager: forager as int, orders: orders@ }) == task_foragers(
                after_idle,
                foragers@.take(j as int),
            ),
            -0x1_0000_0000_0000_0000 - 0x8000_0000 <= nurse <= 0x8000_0000,
            -0x1_0000_0000_0000_0000 - 0x8000_0000 <= forager <= 0x8000_0000 + j,
        decreases foragers.len() - j,
    {
        proof {
            assert(foragers@.take(j + 1).drop_last() =~= foragers@.take(j as int));
        }
        let (entity, behavior) = foragers[j];
        let is_busy = match behavior {
            ForagerAnt::BringingHomeFood => true,
            ForagerAnt::FollowingTrail => true,
            _ => false,
        };
        if nurse > 0 && !is_busy {
            orders.push(Assign { entity, role: Role::Nursemaid });
            nurse = nurse - 1;
        } else if forager < 0 && !is_busy {
            orders.push(Assign { entity, role: Role::Idle });
            forager = forager + 1;
        }
        j = j + 1;
    }
    let ghost after_foragers = task_foragers(after_idle, foragers@);
    proof {
        assert(foragers@.take(j as int) =~= foragers@);
    }
    let mut k: usize = 0;
    while k < nursemaids.len()
        invariant
            k <= nursemaids.len(),
            (Tally { nurse: nurse as int, forager: forager as int, orders: orders@ }) == task_nursemaids(
                after_foragers,
                nursemaids@.take(k as int),
            ),
            -0x1_0000_0000_0000_0000 - 0x8000_0000 <= nurse <= 0x8000_0000 + k,
        decreases nursemaids.len() - k,
    {
        proof {
            assert(nursemaids@.take(k + 1).drop_last() =~= nursemaids@.take(k as int));
        }
        if nurse < 0 {
            orders.push(Assign { entity: nursemaids[k], role: Role::Idle });
            nurse = nurse + 1;
        }
        k = k + 1;
    }
    proof {
        assert(nursemaids@.take(k as int) =~= nursemaids@);
    }
    orders
}

/// How many of the ants do the given work.
pub open spec fn head_count(roles: Seq<Role>, role: Role) -> int
    decreases roles.len(),
{
    if roles.len() == 0 {
        0
    } else {
        head_count(roles.drop_last(), role) + if roles.last() == role {
            1int
        } else {
            0int
        }
    }
}

/// A count kept within what a colony's books can hold.
pub open spec fn booked(n: int) -> i32 {
    if n > i32::MAX {
        i32::MAX
    } else {
        n as i32
    }
}

/// The quotient of `a` by `b`, which is not zero, rounded towards zero.
pub open spec fn quotient(a: int, b: int) -> int {
    if b > 0 {
        trunc_div(a, b)
    } else {
        -trunc_div(a, -b)
    }
}

/// Whether the books can say how many foragers are wanted: an ant carries
/// something, and neither the room in the store nor the number of trips
/// leaves 32 bits.
pub open spec fn can_book(food: i32, max_food: i32, carry_capacity: i32) -> bool {
    &&& carry_capacity != 0
    &&& i32::MIN <= max_food - food <= i32::MAX
    &&& !(max_food - food == i32::MIN && carry_capacity == -1)
}

/// Whether the books can say how many foragers are wanted.
pub fn census_possible(food: i32, max_food: i32, carry_capacity: i32) -> (ok: bool)
    ensures
        ok == can_book(food, max_food, carry_capacity),
{
    let room: i64 = max_food as i64 - food as i64;
    carry_capacity != 0 && i32::MIN as i64 <= room && room <= i32::MAX as i64 && !(room
        == i32::MIN as i64 && carry_capacity == -1)
}

/// Counts the colony's ants by their work, and asks for as many foragers as
/// it takes to fill the food store in one trip each.
pub fn labor_census(stats: &mut LaborStats, roles: &Vec<Role>, food: i32, max_food: i32, carry_capacity: i32)
    requires
        can_book(food, max_food, carry_capacity),
    ensures
        final(stats).forager_stats.active == booked(head_count(roles@, Role::Forager)),
        final(stats).nursemaid_stats.active == booked(head_count(roles@, Role::Nursemaid)),
        final(stats).idle_stats.active == booked(head_count(roles@, Role::Idle)),
        final(stats).forager_stats.requested == quotient(max_food - food, carry_capacity as int),
        final(stats).nursemaid_stats.requested == old(stats).nursemaid_stats.requested,
        final(stats).idle_stats.requested == old(stats).idle_stats.requested,
{
    let mut foragers: u64 = 0;
    let mut nursemaids: u64 = 0;
    let mut idle: u64 = 0;
    let mut i: usize = 0;
    while i < roles.len()
        invariant
            i <= roles.len(),
            foragers as int == head_count(roles@.take(i as int), Role::Forager),
            nursemaids as int == head_count(roles@.take(i as int), Role::Nursemaid),
            idle as int == head_count(roles@.take(i as int), Role::Idle),
            foragers <= i,
            nursemaids <= i,
            idle <= i,
        decreases roles.len() - i,
    {
        proof {
            assert(roles@.take(i + 1).drop_last() =~= roles@.take(i as int));
        }
        match roles[i] {
            Role::Forager => {
                foragers = foragers + 1;
            },
            Role::Nursemaid => {
                nursemaids = nursemaids + 1;
            },
            Role::Idle => {
                idle = idle + 1;
            },
        }
        i = i + 1;
    }
    proof {
        assert(roles@.take(i as int) =~= roles@);
    }
    stats.idle_stats.active = book(idle);
    stats.nursemaid_stats.active = book(nursemaids);
    stats.forager_stats.active = book(foragers);
    let room: i128 = max_food as i128 - food as i128;
    stats.forager_stats.requested = if carry_capacity > 0 {
        cut_div(room, carry_capacity as u128) as i32
    } else {
        let size: u128 = (-(carry_capacity as i64)) as u128;
        let q: i128 = cut_div(room, size);
        proof {
            if room == i32::MIN {
                let m = -(room as int);
                let c = size as int;
                assert(m / c <= 0x4000_0000) by (nonlinear_arith)
                    requires
                        m == 0x8000_0000,
                        c >= 2,
                ;
            }
        }
        (-q) as i32
    };
}

fn book(n: u64) -> (b: i32)
    ensures
        b == booked(n as int),
{
    if n > i32::MAX as u64 {
        i32::MAX
    } else {
        n as i32
    }
}

/// The population after one more ant has hatched, where the colony has
/// room for it; nothing where it is full.
pub fn admit_ant(population: i32, capacity: i32) -> (grown: Option<i32>)
    ensures
        grown == if population < capacity {
            Some((population + 1) as i32)
        } else {
            None
        },
{
    if population < capacity {
        Some(population + 1)
    } else {
        None
    }
}

} // verus!
