//! Statistics and streak engine for a personal hydration tracker.
//!
//! Intake events are recorded with a calendar date; this library derives
//! daily totals, goal percentages, monthly rollups, yearly overviews and
//! consecutive-day goal streaks from them.

mod calendar;
mod daily;
mod entry;
mod monthly;
mod settings;
mod streak;
mod yearly;

pub use daily::{daily_stats, DailyStats};
pub use entry::{lemma_remove_lowers_total, remove_entry, WaterEntry};
pub use monthly::{get_monthly_stats, get_monthly_stats_internal, starts_with, MonthlyStats};
pub use settings::{goal_or_default, Settings, DEFAULT_GOAL_ML};
pub use streak::{calculate_streaks, streaks_from_parsed, DayTotal};
pub use yearly::get_yearly_overview;
