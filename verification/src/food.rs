use crate::fixed::{clamp_int, cut_div, distance, gap, trunc_div};
use vstd::prelude::*;

verus! {

/// The most food that a fresh chunk holds.
pub const FOOD_CHUNK_MAX_STARTING_AMOUNT: i32 = 1800;

/// The distance, in thousandths, that a full chunk keeps other chunks away.
pub const BASELINE_EXCLUSION_DISTANCE: i64 = 65_000;

/// The least distance, in thousandths, from which an ant can reach food.
pub const MIN_INTERACTION_DISTANCE: i64 = 5_000;

/// An amount of food: in a chunk, in a colony's store or on an ant's back.
#[derive(Clone, Copy, PartialEq, Eq, Structural, Debug)]
pub struct FoodQuant(pub i32);

/// A request to move food from one holder to another. Holders are named by
/// the numbers that the host gives them.
#[derive(Clone, Copy, PartialEq, Eq, Structural, Debug)]
pub struct FoodDeltaEvent {
    pub requested: i32,
    pub food_from: u64,
    pub food_to: u64,
}

/// How much room the receiver of a transfer has: up to `max` where it has a
/// limit, else what the giver holds.
pub open spec fn room(giver: int, receiver: int, max: Option<i32>) -> int {
    match max {
        Some(m) => m - receiver,
        None => giver,
    }
}

/// How much of a request is moved: nothing of a negative request, and no
/// more than there is room for.
pub open spec fn granted(requested: int, room: int) -> int {
    clamp_int(requested, 0, room)
}

impl FoodQuant {
    /// No food.
    pub fn empty() -> (q: FoodQuant)
        ensures
            q.0 == 0,
    {
        FoodQuant(0)
    }

    /// Whether nothing is left of a chunk, so that it leaves the world.
    pub fn is_spent(&self) -> (b: bool)
        ensures
            b == (self.0 <= 0),
    {
        self.0 <= 0
    }

    /// The distance that a chunk of this size keeps other chunks away: the
    /// baseline for every full starting amount in it.
    pub open spec fn exclusion(&self) -> int {
        BASELINE_EXCLUSION_DISTANCE * trunc_div(self.0 as int, FOOD_CHUNK_MAX_STARTING_AMOUNT as int)
    }

    /// The distance from which an ant can take from a chunk of this size:
    /// half its exclusion distance, and no less than the least distance.
    pub open spec fn interaction(&self) -> int {
        if trunc_div(self.exclusion(), 2) > MIN_INTERACTION_DISTANCE {
            trunc_div(self.exclusion(), 2)
        } else {
            MIN_INTERACTION_DISTANCE as int
        }
    }

    /// The distance that a chunk of this size keeps other chunks away.
    pub fn exclusion_distance(&self) -> (d: i64)
        ensures
            d as int == self.exclusion(),
    {
        let fulls: i64 = cut_div(self.0 as i128, 1800) as i64;
        BASELINE_EXCLUSION_DISTANCE * fulls
    }

    /// The distance from which an ant can take from a chunk of this size.
    pub fn interaction_distance(&self) -> (d: i64)
        ensures
            d as int == self.interaction(),
            d >= MIN_INTERACTION_DISTANCE,
    {
        let half: i64 = cut_div(self.exclusion_distance() as i128, 2) as i64;
        if half > MIN_INTERACTION_DISTANCE {
            half
        } else {
            MIN_INTERACTION_DISTANCE
        }
    }

    /// Moves food from this holder to `to_quant`: as much as requested, but
    /// nothing of a negative request and no more than there is room for.
    /// What one holder loses the other gains.
    pub fn take_food(&mut self, to_quant: &mut FoodQuant, requested: i32, max: Option<i32>)
        requires
            0 <= room(old(self).0 as int, old(to_quant).0 as int, max) <= i32::MAX,
            old(to_quant).0 + granted(
                requested as int,
                room(old(self).0 as int, old(to_quant).0 as int, max),
            ) <= i32::MAX,
            old(self).0 - granted(
                requested as int,
                room(old(self).0 as int, old(to_quant).0 as int, max),
            ) >= i32::MIN,
        ensures
            final(self).0 == old(self).0 - granted(
                requested as int,
                room(old(self).0 as int, old(to_quant).0 as int, max),
            ),
            final(to_quant).0 == old(to_quant).0 + granted(
                requested as int,
                room(old(self).0 as int, old(to_quant).0 as int, max),
            ),
            final(self).0 + final(to_quant).0 == old(self).0 + old(to_quant).0,
    {
        let room: i32 = match max {
            Some(maximum) => maximum - to_quant.0,
            None => self.0,
        };
        let actual: i32 = if requested < 0 {
            0
        } else if requested > room {
            room
        } else {
            requested
        };
        self.0 = self.0 - actual;
        to_quant.0 = to_quant.0 + actual;
    }

    /// Whether a transfer of `requested` to `to_quant` can be made: there
    /// is room that is not negative, and neither amount leaves 32 bits.
    pub fn can_take_food(&self, to_quant: &FoodQuant, requested: i32, max: Option<i32>) -> (ok: bool)
        ensures
            ok == {
                let r = room(self.0 as int, to_quant.0 as int, max);
                &&& 0 <= r <= i32::MAX
                &&& to_quant.0 + granted(requested as int, r) <= i32::MAX
                &&& self.0 - granted(requested as int, r) >= i32::MIN
            },
    {
        let room: i64 = match max {
            Some(maximum) => maximum as i64 - to_quant.0 as i64,
            None => self.0 as i64,
        };
        if room < 0 || room > i32::MAX as i64 {
            return false;
        }
        let actual: i64 = if requested < 0 {
            0
        } else if requested as i64 > room {
            room
        } else {
            requested as i64
        };
        to_quant.0 as i64 + actual <= i32::MAX as i64 && self.0 as i64 - actual >= i32::MIN as i64
    }
}

/// Whether a new chunk of the given size at `pos` keeps its distance from
/// `chunk`: the two are at least their exclusion distances apart.
pub open spec fn clear_of(pos: (i32, i32), quant: FoodQuant, chunk: ((i32, i32), FoodQuant)) -> bool {
    gap((pos.0 as int, pos.1 as int), (chunk.0.0 as int, chunk.0.1 as int)) >= quant.exclusion()
        + chunk.1.exclusion()
}

/// Whether a new chunk of the given size can be placed at `pos`: it keeps
/// its distance from every chunk that lies there already.
pub fn placement_clear(pos: (i32, i32), quant: FoodQuant, chunks: &Vec<((i32, i32), FoodQuant)>) -> (ok:
    bool)
    ensures
        ok == (forall|i: int| 0 <= i < chunks.len() ==> clear_of(pos, quant, #[trigger] chunks[i])),
{
    let own = quant.exclusion_distance();
    let mut i: usize = 0;
    while i < chunks.len()
        invariant
            i <= chunks.len(),
            own as int == quant.exclusion(),
            forall|j: int| 0 <= j < i ==> clear_of(pos, quant, #[trigger] chunks[j]),
        decreases chunks.len() - i,
    {
        let (at, other) = chunks[i];
        if (distance(pos, at) as i64) < own + other.exclusion_distance() {
            return false;
        }
        i = i + 1;
    }
    true
}

} // verus!
