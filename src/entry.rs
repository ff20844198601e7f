use vstd::prelude::*;

verus! {

/// One recorded intake event.
#[derive(Debug, Clone)]
pub struct WaterEntry {
    pub id: i64,
    pub amount_ml: i32,
    /// `YYYY-MM-DD HH:MM:SS`, local time at creation.
    pub timestamp: String,
    /// `YYYY-MM-DD`, the calendar date of `timestamp`.
    pub date: String,
}

/// The volume that `e` adds to the total of `date`.
pub open spec fn amount_on(e: WaterEntry, date: Seq<char>) -> int {
    if e.date@ == date {
        e.amount_ml as int
    } else {
        0
    }
}

/// The summed volume of the events of `log` dated `date`.
pub open spec fn total_on(log: Seq<WaterEntry>, date: Seq<char>) -> int
    decreases log.len(),
{
    if log.len() == 0 {
        0
    } else {
        amount_on(log[0], date) + total_on(log.skip(1), date)
    }
}

/// The number of events of `log` dated `date`.
pub open spec fn count_on(log: Seq<WaterEntry>, date: Seq<char>) -> int
    decreases log.len(),
{
    if log.len() == 0 {
        0
    } else {
        (if log[0].date@ == date { 1int } else { 0int }) + count_on(log.skip(1), date)
    }
}

/// `log` without its events whose identifier is `id`, order kept.
pub open spec fn without_id(log: Seq<WaterEntry>, id: i64) -> Seq<WaterEntry>
    decreases log.len(),
{
    if log.len() == 0 {
        log
    } else if log[0].id == id {
        without_id(log.skip(1), id)
    } else {
        seq![log[0]] + without_id(log.skip(1), id)
    }
}

/// No two events of `log` share an identifier.
pub open spec fn ids_unique(log: Seq<WaterEntry>) -> bool {
    forall|i: int, j: int| 0 <= i < log.len() && 0 <= j < log.len() && i != j ==> log[i].id != log[j].id
}

/// Deletes the events whose identifier is `id`; the others keep their order.
pub fn remove_entry(log: &mut Vec<WaterEntry>, id: i64)
    ensures
        final(log)@ == without_id(old(log)@, id),
{
    let ghost start = log@;
    let mut i: usize = 0;
    proof {
        assert(log@.skip(0) =~= log@);
        assert(log@.take(0) + without_id(log@, id) =~= without_id(log@, id));
    }
    while i < log.len()
        invariant
            0 <= i <= log@.len(),
            without_id(start, id) == log@.take(i as int) + without_id(log@.skip(i as int), id),
        decreases log@.len() - i,
    {
        let ghost cur = log@;
        proof {
            assert(cur.skip(i as int).skip(1) =~= cur.skip(i as int + 1));
            assert(cur.skip(i as int)[0] == cur[i as int]);
        }
        if log[i].id == id {
            log.remove(i);
            proof {
                assert(log@.take(i as int) =~= cur.take(i as int));
                assert(log@.skip(i as int) =~= cur.skip(i as int + 1));
            }
        } else {
            proof {
                assert(cur.take(i as int + 1) =~= cur.take(i as int) + seq![cur[i as int]]);
                assert(cur.take(i as int) + (seq![cur[i as int]] + without_id(
                    cur.skip(i as int + 1),
                    id,
                )) =~= cur.take(i as int + 1) + without_id(cur.skip(i as int + 1), id));
            }
            i = i + 1;
        }
    }
    proof {
        assert(log@.take(i as int) =~= log@);
        assert(log@.skip(i as int) =~= Seq::<WaterEntry>::empty());
    }
}

proof fn lemma_without_absent(log: Seq<WaterEntry>, id: i64)
    requires
        forall|j: int| 0 <= j < log.len() ==> log[j].id != id,
    ensures
        without_id(log, id) == log,
    decreases log.len(),
{
    if log.len() > 0 {
        lemma_without_absent(log.skip(1), id);
        assert(seq![log[0]] + log.skip(1) =~= log);
    }
}

/// Removing one event of a log whose identifiers are unique lowers the total
/// and the count of every date by exactly that event's share of them.
pub proof fn lemma_remove_lowers_total(log: Seq<WaterEntry>, k: int, date: Seq<char>)
    requires
        0 <= k < log.len(),
        ids_unique(log),
    ensures
        total_on(without_id(log, log[k].id), date) == total_on(log, date) - amount_on(log[k], date),
        count_on(without_id(log, log[k].id), date) == count_on(log, date) - (if log[k].date@ == date {
            1int
        } else {
            0int
        }),
    decreases log.len(),
{
    let id = log[k].id;
    let rest = log.skip(1);
    if k == 0 {
        assert forall|j: int| 0 <= j < rest.len() implies rest[j].id != id by {
            assert(rest[j] == log[j + 1]);
        }
        lemma_without_absent(rest, id);
    } else {
        assert(rest[k - 1] == log[k]);
        assert forall|i: int, j: int|
            0 <= i < rest.len() && 0 <= j < rest.len() && i != j implies rest[i].id != rest[j].id by {
            assert(rest[i] == log[i + 1] && rest[j] == log[j + 1]);
        }
        lemma_remove_lowers_total(rest, k - 1, date);
        let kept = seq![log[0]] + without_id(rest, id);
        assert(kept[0] == log[0]);
        assert(kept.skip(1) =~= without_id(rest, id));
    }
}

} // verus!
