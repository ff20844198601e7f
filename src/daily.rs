use vstd::prelude::*;

use crate::entry::{amount_on, count_on, total_on, WaterEntry};

verus! {

/// The totals of one calendar date, measured against the goal in effect at
/// query time.
#[derive(Debug, Clone)]
pub struct DailyStats {
    pub date: String,
    pub total_ml: i64,
    pub goal_ml: i32,
    pub entries_count: i64,
}

/// The goal percentage `100 * total / goal` as a numerator and a positive
/// denominator; `0` (as `0 / 1`) when the goal is not positive.
pub open spec fn percentage_of(total: int, goal: int) -> (int, int) {
    if goal > 0 {
        (100 * total, goal)
    } else {
        (0, 1)
    }
}

/// The largest magnitude of one event's volume.
pub open spec fn amount_bound() -> int {
    0x8000_0000
}

impl DailyStats {
    /// The goal percentage of this day as an exact fraction.
    pub fn percentage(&self) -> (r: (i128, i64))
        ensures
            r.0 == percentage_of(self.total_ml as int, self.goal_ml as int).0,
            r.1 == percentage_of(self.total_ml as int, self.goal_ml as int).1,
            r.1 > 0,
    {
        if self.goal_ml > 0 {
            (100 * (self.total_ml as i128), self.goal_ml as i64)
        } else {
            (0, 1)
        }
    }
}

/// Total volume, number of events and goal of `date` over the event log.
pub fn daily_stats(log: &Vec<WaterEntry>, date: &String, goal_ml: i32) -> (r: DailyStats)
    requires
        log@.len() <= u32::MAX,
    ensures
        r.date@ == date@,
        r.total_ml == total_on(log@, date@),
        r.entries_count == count_on(log@, date@),
        r.goal_ml == goal_ml,
{
    let mut total: i64 = 0;
    let mut count: i64 = 0;
    let mut i: usize = 0;
    proof {
        assert(log@.skip(0) =~= log@);
    }
    while i < log.len()
        invariant
            0 <= i <= log@.len(),
            log@.len() <= u32::MAX,
            total + total_on(log@.skip(i as int), date@) == total_on(log@, date@),
            count + count_on(log@.skip(i as int), date@) == count_on(log@, date@),
            -(i * amount_bound()) <= total <= i * amount_bound(),
            0 <= count <= i,
        decreases log@.len() - i,
    {
        proof {
            let rest = log@.skip(i as int);
            assert(rest.skip(1) =~= log@.skip(i as int + 1));
            assert(rest[0] == log@[i as int]);
            assert(i * amount_bound() + amount_bound() == (i + 1) * amount_bound());
        }
        if log[i].date == *date {
            total = total + log[i].amount_ml as i64;
            count = count + 1;
        }
        i = i + 1;
    }
    proof {
        assert(log@.skip(i as int) =~= Seq::<WaterEntry>::empty());
    }
    DailyStats { date: date.clone(), total_ml: total, goal_ml, entries_count: count }
}

} // verus!
