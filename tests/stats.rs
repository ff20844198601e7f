use chrono::{Datelike, NaiveDate};
use hydra::{
    calculate_streaks, daily_stats, get_monthly_stats, get_monthly_stats_internal,
    get_yearly_overview, goal_or_default, remove_entry, starts_with, streaks_from_parsed,
    DayTotal, MonthlyStats, Settings, WaterEntry,
};

fn entry(id: i64, amount_ml: i32, date: &str) -> WaterEntry {
    WaterEntry {
        id,
        amount_ml,
        timestamp: format!("{} 12:00:00", date),
        date: date.to_string(),
    }
}

fn day(date: &str, total_ml: i32, entries_count: i32) -> DayTotal {
    DayTotal {
        date: date.to_string(),
        total_ml,
        entries_count,
    }
}

fn day_number(y: i32, m: u32, d: u32) -> i32 {
    NaiveDate::from_ymd_opt(y, m, d).unwrap().num_days_from_ce()
}

#[test]
fn today_totals_and_percentage() {
    let log = vec![
        entry(1, 1500, "2024-03-05"),
        entry(2, 1000, "2024-03-05"),
        entry(3, 700, "2024-03-04"),
    ];
    let s = daily_stats(&log, &"2024-03-05".to_string(), 4000);
    assert_eq!(s.date, "2024-03-05");
    assert_eq!(s.total_ml, 2500);
    assert_eq!(s.entries_count, 2);
    assert_eq!(s.goal_ml, 4000);
    let (num, den) = s.percentage();
    assert_eq!((num, den), (250000, 4000));
    assert_eq!(num as f64 / den as f64, 62.5);
}

#[test]
fn empty_day_has_zero_totals() {
    let log = vec![entry(1, 900, "2024-03-04")];
    let s = daily_stats(&log, &"2024-03-05".to_string(), 4000);
    assert_eq!(s.total_ml, 0);
    assert_eq!(s.entries_count, 0);
    assert_eq!(s.percentage(), (0, 4000));
}

#[test]
fn percentage_is_zero_without_positive_goal() {
    let log = vec![entry(1, 1500, "2024-03-05")];
    let date = "2024-03-05".to_string();
    assert_eq!(daily_stats(&log, &date, 0).percentage(), (0, 1));
    assert_eq!(daily_stats(&log, &date, -10).percentage(), (0, 1));
}

#[test]
fn add_then_remove_leaves_day_empty() {
    let mut log = vec![entry(1, 300, "2024-03-04")];
    log.push(entry(2, 500, "2024-03-05"));
    remove_entry(&mut log, 2);
    let s = daily_stats(&log, &"2024-03-05".to_string(), 4000);
    assert_eq!(s.total_ml, 0);
    assert_eq!(s.entries_count, 0);
    assert_eq!(log.len(), 1);
    assert_eq!(log[0].id, 1);
}

#[test]
fn removing_lowers_total_by_its_amount() {
    let mut log = vec![
        entry(1, 250, "2024-03-05"),
        entry(2, 500, "2024-03-05"),
        entry(3, 750, "2024-03-05"),
    ];
    let date = "2024-03-05".to_string();
    let before = daily_stats(&log, &date, 4000).total_ml;
    remove_entry(&mut log, 2);
    let after = daily_stats(&log, &date, 4000);
    assert_eq!(before - after.total_ml, 500);
    assert_eq!(after.entries_count, 2);
    remove_entry(&mut log, 99);
    assert_eq!(log.len(), 2);
}

#[test]
fn month_with_two_present_days() {
    let history = vec![
        day("2024-04-01", 5000, 3),
        day("2024-03-03", 4500, 4),
        day("2024-03-01", 3000, 2),
        day("2024-02-29", 4200, 2),
    ];
    let today = day_number(2024, 4, 1);
    let m = get_monthly_stats(&history, 2024, 3, 4000, today);
    assert_eq!(m.month, "March");
    assert_eq!(m.year, 2024);
    assert_eq!(m.days.len(), 2);
    assert_eq!(m.days[0].date, "2024-03-01");
    assert_eq!(m.days[1].date, "2024-03-03");
    assert_eq!(m.days[0].entries_count, 2);
    assert_eq!(m.days[1].goal_ml, 4000);
    assert_eq!(m.total_ml, 7500);
    let (num, den) = m.average();
    assert_eq!(num as f64 / den as f64, 3750.0);
    assert_eq!(m.days_goal_met, 1);
    assert_eq!(m.current_streak, 1);
    assert_eq!(m.best_streak, 1);
}

#[test]
fn month_without_data() {
    let history = vec![day("2024-03-03", 4500, 1)];
    let m = get_monthly_stats_internal(&history, 2024, 5, 4000);
    assert_eq!(m.month, "May");
    assert!(m.days.is_empty());
    assert_eq!(m.total_ml, 0);
    assert_eq!(m.average(), (0, 1));
    assert_eq!(m.days_goal_met, 0);
}

#[test]
fn month_totals_match_day_list() {
    let history = vec![
        day("2023-11-30", 100, 1),
        day("2023-11-12", 4000, 5),
        day("2023-11-02", 3999, 5),
        day("2023-10-31", 9000, 2),
    ];
    let m = get_monthly_stats_internal(&history, 2023, 11, 4000);
    assert_eq!(m.month, "Nov");
    let sum: i64 = m.days.iter().map(|d| d.total_ml).sum();
    let met = m.days.iter().filter(|d| d.total_ml >= 4000).count() as i64;
    assert_eq!(m.total_ml, sum);
    assert_eq!(m.days_goal_met, met);
    assert_eq!(m.total_ml, 8099);
    assert_eq!(m.days_goal_met, 1);
    assert_eq!(m.current_streak, 0);
    assert_eq!(m.best_streak, 0);
}

#[test]
fn unknown_month_names() {
    let history = vec![day("2024-13-01", 10, 1)];
    let full = get_monthly_stats(&history, 2024, 13, 4000, day_number(2024, 3, 1));
    assert_eq!(full.month, "Unknown");
    assert_eq!(full.days.len(), 1);
    let short = get_monthly_stats_internal(&history, 2024, 0, 4000);
    assert_eq!(short.month, "?");
    assert!(short.days.is_empty());
}

#[test]
fn month_prefix_is_zero_padded() {
    let history = vec![day("0987-07-04", 10, 1), day("987-07-04", 20, 1)];
    let m = get_monthly_stats_internal(&history, 987, 7, 4000);
    assert_eq!(m.days.len(), 1);
    assert_eq!(m.days[0].date, "0987-07-04");
    assert!(starts_with(&"2024-03-05".to_string(), &"2024-03".to_string()));
    assert!(!starts_with(&"2024-03".to_string(), &"2024-03-05".to_string()));
    assert!(!starts_with(&"2024-13-05".to_string(), &"2024-03".to_string()));
}

#[test]
fn gap_ends_the_streak_scan() {
    let history = vec![
        day("2024-03-10", 2500, 2),
        day("2024-03-09", 2000, 1),
        day("2024-03-07", 3000, 3),
        day("2024-03-06", 3000, 3),
        day("2024-03-05", 3000, 3),
    ];
    let (current, best) = calculate_streaks(&history, day_number(2024, 3, 10), 2000);
    assert_eq!(current, 2);
    assert_eq!(best, 2);
}

#[test]
fn missed_goal_closes_current_streak() {
    let history = vec![
        day("2024-03-10", 2500, 1),
        day("2024-03-09", 100, 1),
        day("2024-03-08", 2500, 1),
        day("2024-03-07", 2500, 1),
        day("2024-03-06", 2500, 1),
    ];
    let (current, best) = calculate_streaks(&history, day_number(2024, 3, 10), 2000);
    assert_eq!(current, 1);
    assert_eq!(best, 3);
}

#[test]
fn no_day_meeting_goal_gives_zero_streaks() {
    let history = vec![day("2024-03-10", 100, 1), day("2024-03-09", 200, 1)];
    assert_eq!(calculate_streaks(&history, day_number(2024, 3, 10), 2000), (0, 0));
    assert_eq!(calculate_streaks(&Vec::new(), day_number(2024, 3, 10), 2000), (0, 0));
}

#[test]
fn streak_not_reaching_today_is_not_current() {
    let history = vec![day("2024-03-08", 2500, 1), day("2024-03-07", 2500, 1)];
    let (current, best) = calculate_streaks(&history, day_number(2024, 3, 10), 2000);
    assert_eq!(current, 0);
    assert_eq!(best, 0);
}

#[test]
fn unreadable_dates_are_passed_over() {
    let history = vec![
        day("2024-03-10", 2500, 1),
        day("not a date", 2500, 1),
        day("2024-03-08", 2500, 1),
    ];
    let (current, best) = calculate_streaks(&history, day_number(2024, 3, 10), 2000);
    assert_eq!(current, 2);
    assert_eq!(best, 2);
    let today = day_number(2024, 3, 10);
    let parsed = vec![(Some(today), 2500), (None, 2500), (Some(today - 2), 2500)];
    assert_eq!(streaks_from_parsed(&parsed, today, 2000), (2, 2));
}

#[test]
fn best_streak_never_below_current() {
    let today = 800_000;
    let parsed = vec![
        (Some(today), 5000),
        (Some(today - 1), 5000),
        (Some(today - 2), 5000),
        (Some(today - 3), 10),
        (Some(today - 4), 5000),
    ];
    let (current, best) = streaks_from_parsed(&parsed, today, 4000);
    assert_eq!((current, best), (3, 3));
    assert!(best >= current);
}

#[test]
fn year_omits_failed_month() {
    let history = vec![day("2024-07-02", 3000, 1), day("2024-03-01", 4500, 2)];
    let mut results: Vec<Result<MonthlyStats, String>> = Vec::new();
    for month in 1..=12u32 {
        if month == 7 {
            results.push(Err("database is locked".to_string()));
        } else {
            results.push(Ok(get_monthly_stats_internal(&history, 2024, month, 4000)));
        }
    }
    let year = get_yearly_overview(results);
    assert_eq!(year.len(), 11);
    assert!(year.iter().all(|m| m.month != "Jul"));
    assert_eq!(year[0].month, "Jan");
    assert_eq!(year[2].total_ml, 4500);
    assert_eq!(year[10].month, "Dec");
}

#[test]
fn default_settings() {
    let s = Settings::default();
    assert_eq!(s.daily_goal_ml, 4000);
    assert_eq!(s.reminder_interval_minutes, 60);
    assert!(s.reminder_enabled);
    assert!(s.sound_enabled);
    assert!(!s.start_with_system);
    assert_eq!(s.theme, "dark");
    assert_eq!(goal_or_default(None), 4000);
    assert_eq!(goal_or_default(Some(2500)), 2500);
}
