use vstd::prelude::*;

use crate::daily::DailyStats;
use crate::streak::{calculate_streaks, parsed_totals, streaks, DayTotal};

verus! {

/// The totals of the days of one month that have at least one event.
#[derive(Debug, Clone)]
pub struct MonthlyStats {
    pub month: String,
    pub year: i32,
    /// One entry per present day, in ascending date order.
    pub days: Vec<DailyStats>,
    pub total_ml: i64,
    pub days_goal_met: i64,
    pub current_streak: i32,
    pub best_streak: i32,
}

pub open spec fn digit_char(d: int) -> char {
    if d == 0 { '0' }
    else if d == 1 { '1' }
    else if d == 2 { '2' }
    else if d == 3 { '3' }
    else if d == 4 { '4' }
    else if d == 5 { '5' }
    else if d == 6 { '6' }
    else if d == 7 { '7' }
    else if d == 8 { '8' }
    else { '9' }
}

/// The decimal digits of `n`.
pub open spec fn decimal(n: nat) -> Seq<char>
    decreases n,
{
    if n < 10 {
        seq![digit_char(n as int)]
    } else {
        decimal(n / 10).push(digit_char((n % 10) as int))
    }
}

/// `n` in decimal, led by zeros up to `width` characters.
pub open spec fn zero_padded(n: nat, width: nat) -> Seq<char> {
    let d = decimal(n);
    if d.len() < width {
        Seq::new((width - d.len()) as nat, |_i: int| '0') + d
    } else {
        d
    }
}

/// `n` in decimal with a leading `-` when negative, zeros put after the
/// sign up to `width` characters in all.
pub open spec fn signed_padded(n: int, width: nat) -> Seq<char> {
    if n < 0 {
        seq!['-'] + zero_padded((-n) as nat, (width - 1) as nat)
    } else {
        zero_padded(n as nat, width)
    }
}

/// The `YYYY-MM` prefix that the dates of a month carry.
pub open spec fn month_key(year: int, month: int) -> Seq<char> {
    signed_padded(year, 4) + seq!['-'] + zero_padded(month as nat, 2)
}

/// Relies on std's `format!` with `{:04}` and `{:02}`: decimal, zero
/// padded to the width, the sign counted in the width.
#[verifier::external_body]
fn month_key_text(year: i32, month: u32) -> (r: String)
    ensures
        r@ == month_key(year as int, month as int),
{
    format!("{:04}-{:02}", year, month)
}

pub open spec fn has_prefix(text: Seq<char>, prefix: Seq<char>) -> bool {
    prefix.len() <= text.len() && text.subrange(0, prefix.len() as int) == prefix
}

/// Whether `text` begins with `prefix`.
pub fn starts_with(text: &String, prefix: &String) -> (r: bool)
    ensures
        r == has_prefix(text@, prefix@),
{
    let t = text.as_str();
    let p = prefix.as_str();
    let n = p.unicode_len();
    if n > t.unicode_len() {
        return false;
    }
    let mut i: usize = 0;
    while i < n
        invariant
            0 <= i <= n,
            n == p@.len(),
            n <= t@.len(),
            t@ == text@,
            p@ == prefix@,
            forall|j: int| 0 <= j < i ==> t@[j] == p@[j],
        decreases n - i,
    {
        if t.get_char(i) != p.get_char(i) {
            assert(t@.subrange(0, n as int)[i as int] != p@[i as int]);
            return false;
        }
        i = i + 1;
    }
    assert(t@.subrange(0, n as int) =~= p@);
    true
}

/// The rows of `history` (most recent first) whose date carries `key`,
/// oldest first.
pub open spec fn rows_in_month(history: Seq<DayTotal>, key: Seq<char>) -> Seq<DayTotal>
    decreases history.len(),
{
    if history.len() == 0 {
        Seq::empty()
    } else {
        let last = history.last();
        (if has_prefix(last.date@, key) {
            seq![last]
        } else {
            Seq::empty()
        }) + rows_in_month(history.drop_last(), key)
    }
}

/// `days` holds one entry for each row of `rows`, in the same order, with
/// the row's date, volume and count and the goal `goal`.
pub open spec fn days_match(days: Seq<DailyStats>, rows: Seq<DayTotal>, goal: int) -> bool {
    &&& days.len() == rows.len()
    &&& forall|i: int|
        #![trigger days[i]]
        0 <= i < days.len() ==> {
            &&& days[i].date@ == rows[i].date@
            &&& days[i].total_ml == rows[i].total_ml as int
            &&& days[i].entries_count == rows[i].entries_count as int
            &&& days[i].goal_ml == goal
        }
}

/// The summed volume of `days`.
pub open spec fn sum_totals(days: Seq<DailyStats>) -> int
    decreases days.len(),
{
    if days.len() == 0 {
        0
    } else {
        days[0].total_ml + sum_totals(days.skip(1))
    }
}

/// The number of entries of `days` whose volume reaches `goal`.
pub open spec fn count_met(days: Seq<DailyStats>, goal: int) -> int
    decreases days.len(),
{
    if days.len() == 0 {
        0
    } else {
        (if days[0].total_ml >= goal { 1int } else { 0int }) + count_met(days.skip(1), goal)
    }
}

/// The average volume over the present days as a numerator and a positive
/// denominator; `0 / 1` when no day is present.
pub open spec fn average_of(total: int, days: int) -> (int, int) {
    if days > 0 {
        (total, days)
    } else {
        (0, 1)
    }
}

impl MonthlyStats {
    /// The average volume over the days that have data, as an exact fraction.
    pub fn average(&self) -> (r: (i64, i64))
        requires
            self.days@.len() <= i64::MAX,
        ensures
            r.0 == average_of(self.total_ml as int, self.days@.len() as int).0,
            r.1 == average_of(self.total_ml as int, self.days@.len() as int).1,
            r.1 > 0,
    {
        let n = self.days.len();
        if n > 0 {
            (self.total_ml, n as i64)
        } else {
            (0, 1)
        }
    }
}

/// The full English name of month `m`, `Unknown` outside 1 to 12.
pub open spec fn month_name(m: int) -> Seq<char> {
    if m == 1 { "January"@ }
    else if m == 2 { "February"@ }
    else if m == 3 { "March"@ }
    else if m == 4 { "April"@ }
    else if m == 5 { "May"@ }
    else if m == 6 { "June"@ }
    else if m == 7 { "July"@ }
    else if m == 8 { "August"@ }
    else if m == 9 { "September"@ }
    else if m == 10 { "October"@ }
    else if m == 11 { "November"@ }
    else if m == 12 { "December"@ }
    else { "Unknown"@ }
}

/// The three-letter English name of month `m`, `?` outside 1 to 12.
pub open spec fn month_abbrev(m: int) -> Seq<char> {
    if m == 1 { "Jan"@ }
    else if m == 2 { "Feb"@ }
    else if m == 3 { "Mar"@ }
    else if m == 4 { "Apr"@ }
    else if m == 5 { "May"@ }
    else if m == 6 { "Jun"@ }
    else if m == 7 { "Jul"@ }
    else if m == 8 { "Aug"@ }
    else if m == 9 { "Sep"@ }
    else if m == 10 { "Oct"@ }
    else if m == 11 { "Nov"@ }
    else if m == 12 { "Dec"@ }
    else { "?"@ }
}

fn month_name_text(m: u32) -> (r: String)
    ensures
        r@ == month_name(m as int),
{
    let s = match m {
        1 => "January",
        2 => "February",
        3 => "March",
        4 => "April",
        5 => "May",
        6 => "June",
        7 => "July",
        8 => "August",
        9 => "September",
        10 => "October",
        11 => "November",
        12 => "December",
        _ => "Unknown",
    };
    String::from_str(s)
}

fn month_abbrev_text(m: u32) -> (r: String)
    ensures
        r@ == month_abbrev(m as int),
{
    let s = match m {
        1 => "Jan",
        2 => "Feb",
        3 => "Mar",
        4 => "Apr",
        5 => "May",
        6 => "Jun",
        7 => "Jul",
        8 => "Aug",
        9 => "Sep",
        10 => "Oct",
        11 => "Nov",
        12 => "Dec",
        _ => "?",
    };
    String::from_str(s)
}

/// The day list of one month: a `DailyStats` for each row of `history`
/// (most recent first) whose date carries `key`, oldest first.
fn month_days(history: &Vec<DayTotal>, key: &String, goal_ml: i32) -> (days: Vec<DailyStats>)
    ensures
        days_match(days@, rows_in_month(history@, key@), goal_ml as int),
        days@.len() <= history@.len(),
{
    let mut days: Vec<DailyStats> = Vec::new();
    let ghost taken: Seq<DayTotal> = Seq::empty();
    let mut k: usize = history.len();
    proof {
        assert(history@.take(k as int) =~= history@);
        assert(taken + rows_in_month(history@, key@) =~= rows_in_month(history@, key@));
    }
    while k > 0
        invariant
            0 <= k <= history@.len(),
            rows_in_month(history@, key@) == taken + rows_in_month(history@.take(k as int), key@),
            days_match(days@, taken, goal_ml as int),
            days@.len() + k <= history@.len(),
        decreases k,
    {
        let ghost prefix = history@.take(k as int);
        proof {
            assert(prefix.drop_last() =~= history@.take(k as int - 1));
            assert(prefix.last() == history@[k as int - 1]);
        }
        let row = &history[k - 1];
        if starts_with(&row.date, key) {
            days.push(
                DailyStats {
                    date: row.date.clone(),
                    total_ml: row.total_ml as i64,
                    goal_ml,
                    entries_count: row.entries_count as i64,
                },
            );
            proof {
                let rest = rows_in_month(history@.take(k as int - 1), key@);
                assert(taken + (seq![*row] + rest) =~= taken.push(*row) + rest);
                taken = taken.push(*row);
            }
        } else {
            proof {
                let rest = rows_in_month(history@.take(k as int - 1), key@);
                assert(Seq::<DayTotal>::empty() + rest =~= rest);
            }
        }
        k = k - 1;
    }
    proof {
        assert(rows_in_month(history@.take(0), key@) =~= Seq::<DayTotal>::empty());
        assert(taken + Seq::<DayTotal>::empty() =~= taken);
    }
    days
}

/// The summed volume of `days` and the number of them that reach `goal_ml`.
fn month_totals(days: &Vec<DailyStats>, goal_ml: i32) -> (r: (i64, i64))
    requires
        days@.len() <= u32::MAX,
        forall|i: int| 0 <= i < days@.len() ==> i32::MIN <= #[trigger] days@[i].total_ml <= i32::MAX,
    ensures
        r.0 == sum_totals(days@),
        r.1 == count_met(days@, goal_ml as int),
{
    let mut total: i64 = 0;
    let mut met: i64 = 0;
    let mut i: usize = 0;
    proof {
        assert(days@.skip(0) =~= days@);
    }
    while i < days.len()
        invariant
            0 <= i <= days@.len(),
            days@.len() <= u32::MAX,
            forall|j: int| 0 <= j < days@.len() ==> i32::MIN <= #[trigger] days@[j].total_ml <= i32::MAX,
            total + sum_totals(days@.skip(i as int)) == sum_totals(days@),
            met + count_met(days@.skip(i as int), goal_ml as int) == count_met(days@, goal_ml as int),
            -(i * 0x8000_0000) <= total <= i * 0x8000_0000,
            0 <= met <= i,
        decreases days@.len() - i,
    {
        proof {
            let rest = days@.skip(i as int);
            assert(rest.skip(1) =~= days@.skip(i as int + 1));
            assert(rest[0] == days@[i as int]);
        }
        total = total + days[i].total_ml;
        if days[i].total_ml >= goal_ml as i64 {
            met = met + 1;
        }
        i = i + 1;
    }
    proof {
        assert(days@.skip(i as int) =~= Seq::<DailyStats>::empty());
    }
    (total, met)
}

/// The statistics of month `month` of `year`: one `DailyStats` per date of
/// `history` (the per-date aggregate, most recent first) whose text begins
/// with the month's `YYYY-MM` prefix, oldest first, all measured against
/// `goal_ml`, their summed volume, the number that reach the goal, and the
/// streaks of the whole history as of day number `today`.
pub fn get_monthly_stats(history: &Vec<DayTotal>, year: i32, month: u32, goal_ml: i32, today: i32) -> (r:
    MonthlyStats)
    requires
        history@.len() <= i32::MAX,
    ensures
        r.month@ == month_name(month as int),
        r.year == year,
        days_match(r.days@, rows_in_month(history@, month_key(year as int, month as int)), goal_ml as int),
        r.total_ml == sum_totals(r.days@),
        r.days_goal_met == count_met(r.days@, goal_ml as int),
        r.current_streak == streaks(parsed_totals(history@), today as int, goal_ml as int).0,
        r.best_streak == streaks(parsed_totals(history@), today as int, goal_ml as int).1,
        0 <= r.current_streak <= r.best_streak,
{
    let key = month_key_text(year, month);
    let days = month_days(history, &key, goal_ml);
    let (total_ml, days_goal_met) = month_totals(&days, goal_ml);
    let (current_streak, best_streak) = calculate_streaks(history, today, goal_ml);
    MonthlyStats {
        month: month_name_text(month),
        year,
        days,
        total_ml,
        days_goal_met,
        current_streak,
        best_streak,
    }
}

/// The statistics of one month as the yearly overview shows them: the same
/// day list and totals as `get_monthly_stats`, a three-letter month name,
/// and both streaks left at zero.
pub fn get_monthly_stats_internal(history: &Vec<DayTotal>, year: i32, month: u32, goal_ml: i32) -> (r:
    MonthlyStats)
    requires
        history@.len() <= u32::MAX,
    ensures
        r.month@ == month_abbrev(month as int),
        r.year == year,
        days_match(r.days@, rows_in_month(history@, month_key(year as int, month as int)), goal_ml as int),
        r.total_ml == sum_totals(r.days@),
        r.days_goal_met == count_met(r.days@, goal_ml as int),
        r.current_streak == 0,
        r.best_streak == 0,
{
    let key = month_key_text(year, month);
    let days = month_days(history, &key, goal_ml);
    let (total_ml, days_goal_met) = month_totals(&days, goal_ml);
    MonthlyStats {
        month: month_abbrev_text(month),
        year,
        days,
        total_ml,
        days_goal_met,
        current_streak: 0,
        best_streak: 0,
    }
}

} // verus!
