use vstd::prelude::*;

use crate::calendar::{day_number_of, parse_day_number};

verus! {

/// One row of the per-date aggregate of the event log: a date as stored,
/// the summed volume logged on it and the number of events.
#[derive(Debug, Clone)]
pub struct DayTotal {
    pub date: String,
    pub total_ml: i32,
    pub entries_count: i32,
}

/// The state of the backward scan: `(current, best, run, checking, stopped)`,
/// where `run` is the length of the goal-met run being scanned, `checking`
/// holds until the chain from today first breaks, and `stopped` once a
/// calendar gap has ended the scan.
pub type ScanState = (int, int, int, bool, bool);

pub open spec fn scan_start() -> ScanState {
    (0, 0, 0, true, false)
}

pub open spec fn max_int(a: int, b: int) -> int {
    if a >= b { a } else { b }
}

/// One step of the scan, at position `i` (0 for the most recent row), over
/// a row whose parsed date is `day` and whose volume is `total`.
pub open spec fn scan_step(
    st: ScanState,
    i: int,
    day: Option<int>,
    total: int,
    today: int,
    goal: int,
) -> ScanState {
    let (current, best, run, checking, stopped) = st;
    if stopped {
        st
    } else {
        match day {
            None => st,
            Some(d) => if d == today - i && total >= goal {
                (if checking { run + 1 } else { current }, best, run + 1, checking, false)
            } else if d == today - i {
                (current, max_int(best, run), 0, false, false)
            } else {
                (current, max_int(best, run), run, checking, true)
            },
        }
    }
}

/// The scan state after the rows of `rows`, most recent first; each row is
/// a parsed date (none when the stored text is no date) and a volume.
pub open spec fn scan(rows: Seq<(Option<int>, int)>, today: int, goal: int) -> ScanState
    decreases rows.len(),
{
    if rows.len() == 0 {
        scan_start()
    } else {
        let last = rows.last();
        scan_step(scan(rows.drop_last(), today, goal), rows.len() - 1, last.0, last.1, today, goal)
    }
}

/// `(current streak, best streak)` as of day number `today`.
pub open spec fn streaks(rows: Seq<(Option<int>, int)>, today: int, goal: int) -> (int, int) {
    let st = scan(rows, today, goal);
    (st.0, max_int(st.1, st.2))
}

pub open spec fn parsed_view(rows: Seq<(Option<i32>, i32)>) -> Seq<(Option<int>, int)> {
    rows.map_values(
        |r: (Option<i32>, i32)|
            (
                match r.0 {
                    Some(d) => Some(d as int),
                    None => None,
                },
                r.1 as int,
            ),
    )
}

/// The rows of the per-date aggregate with each date read as a day number.
pub open spec fn parsed_totals(rows: Seq<DayTotal>) -> Seq<(Option<int>, int)> {
    rows.map_values(|r: DayTotal| (day_number_of(r.date@), r.total_ml as int))
}

pub open spec fn no_day_meets_goal(rows: Seq<(Option<int>, int)>, goal: int) -> bool {
    forall|k: int| 0 <= k < rows.len() ==> rows[k].1 < goal
}

proof fn lemma_scan_bounds(rows: Seq<(Option<int>, int)>, today: int, goal: int)
    ensures
        ({
            let st = scan(rows, today, goal);
            &&& 0 <= st.2 <= rows.len()
            &&& 0 <= st.0
            &&& 0 <= st.1 <= rows.len()
            &&& st.3 ==> st.0 == st.2
            &&& !st.3 ==> st.0 <= st.1
            &&& no_day_meets_goal(rows, goal) ==> st.0 == 0 && st.1 == 0 && st.2 == 0
        }),
    decreases rows.len(),
{
    if rows.len() > 0 {
        let prefix = rows.drop_last();
        lemma_scan_bounds(prefix, today, goal);
        if no_day_meets_goal(rows, goal) {
            assert forall|k: int| 0 <= k < prefix.len() implies prefix[k].1 < goal by {
                assert(prefix[k] == rows[k]);
            }
            assert(rows.last() == rows[rows.len() - 1]);
        }
    }
}

/// The streak scan over rows whose dates are already read as day numbers,
/// most recent first: a row with no day number is passed over, a day that
/// follows the chain from `today` extends or breaks the run, and the first
/// calendar gap ends the scan.
pub fn streaks_from_parsed(rows: &Vec<(Option<i32>, i32)>, today: i32, goal_ml: i32) -> (r: (
    i32,
    i32,
))
    requires
        rows@.len() <= i32::MAX,
    ensures
        r.0 == streaks(parsed_view(rows@), today as int, goal_ml as int).0,
        r.1 == streaks(parsed_view(rows@), today as int, goal_ml as int).1,
        0 <= r.0 <= r.1,
        no_day_meets_goal(parsed_view(rows@), goal_ml as int) ==> r.0 == 0 && r.1 == 0,
{
    let ghost view = parsed_view(rows@);
    let mut current: i32 = 0;
    let mut best: i32 = 0;
    let mut run: i32 = 0;
    let mut checking = true;
    let mut stopped = false;
    let mut i: usize = 0;
    while i < rows.len()
        invariant
            0 <= i <= rows@.len(),
            rows@.len() <= i32::MAX,
            view == parsed_view(rows@),
            scan(view.take(i as int), today as int, goal_ml as int) == (
                current as int,
                best as int,
                run as int,
                checking,
                stopped,
            ),
        decreases rows@.len() - i,
    {
        proof {
            lemma_scan_bounds(view.take(i as int), today as int, goal_ml as int);
            assert(view.take(i as int + 1).drop_last() =~= view.take(i as int));
        }
        let (day, total) = rows[i];
        if !stopped {
            if let Some(d) = day {
                let expected: i64 = today as i64 - i as i64;
                if d as i64 == expected && total >= goal_ml {
                    run = run + 1;
                    if checking {
                        current = run;
                    }
                } else if d as i64 == expected {
                    checking = false;
                    if run > best {
                        best = run;
                    }
                    run = 0;
                } else {
                    if run > best {
                        best = run;
                    }
                    stopped = true;
                }
            }
        }
        i = i + 1;
    }
    proof {
        assert(view.take(rows@.len() as int) =~= view);
        lemma_scan_bounds(view, today as int, goal_ml as int);
    }
    if run > best {
        best = run;
    }
    (current, best)
}

/// The current and best goal-met streaks as of day number `today` (days
/// since the start of the common era), from the per-date aggregate of the
/// whole history, most recent date first. A stored date that does not read
/// as `YYYY-MM-DD` is passed over.
pub fn calculate_streaks(rows: &Vec<DayTotal>, today: i32, goal_ml: i32) -> (r: (i32, i32))
    requires
        rows@.len() <= i32::MAX,
    ensures
        r.0 == streaks(parsed_totals(rows@), today as int, goal_ml as int).0,
        r.1 == streaks(parsed_totals(rows@), today as int, goal_ml as int).1,
        0 <= r.0 <= r.1,
        no_day_meets_goal(parsed_totals(rows@), goal_ml as int) ==> r.0 == 0 && r.1 == 0,
{
    let mut parsed: Vec<(Option<i32>, i32)> = Vec::new();
    let mut i: usize = 0;
    while i < rows.len()
        invariant
            0 <= i <= rows@.len(),
            parsed@.len() == i,
            parsed_view(parsed@) =~= parsed_totals(rows@).take(i as int),
        decreases rows@.len() - i,
    {
        let day = parse_day_number(rows[i].date.as_str());
        let ghost before = parsed@;
        parsed.push((day, rows[i].total_ml));
        proof {
            let row = rows@[i as int];
            assert(parsed@[i as int] == (day, row.total_ml));
            assert(parsed_totals(rows@)[i as int] == (day_number_of(row.date@), row.total_ml as int));
            assert forall|k: int| 0 <= k < i implies parsed@[k] == before[k] by {}
            assert(parsed_view(parsed@) =~= parsed_totals(rows@).take(i as int + 1));
        }
        i = i + 1;
    }
    proof {
        assert(parsed_totals(rows@).take(rows@.len() as int) =~= parsed_totals(rows@));
    }
    streaks_from_parsed(&parsed, today, goal_ml)
}

} // verus!
