use vstd::prelude::*;

verus! {

/// The goal used when none can be read.
pub const DEFAULT_GOAL_ML: i32 = 4000;

/// The single settings record: the daily goal and the reminder and display
/// preferences.
#[derive(Debug, Clone)]
pub struct Settings {
    pub daily_goal_ml: i32,
    pub reminder_interval_minutes: i32,
    pub reminder_enabled: bool,
    pub sound_enabled: bool,
    pub start_with_system: bool,
    pub theme: String,
}

impl Default for Settings {
    fn default() -> (r: Settings)
        ensures
            r.daily_goal_ml == DEFAULT_GOAL_ML,
            r.reminder_interval_minutes == 60,
            r.reminder_enabled,
            r.sound_enabled,
            !r.start_with_system,
            r.theme@ == "dark"@,
    {
        Settings {
            daily_goal_ml: DEFAULT_GOAL_ML,
            reminder_interval_minutes: 60,
            reminder_enabled: true,
            sound_enabled: true,
            start_with_system: false,
            theme: String::from_str("dark"),
        }
    }
}

/// The goal that aggregation measures against: the stored one when it
/// could be read, else the default.
pub fn goal_or_default(stored: Option<i32>) -> (r: i32)
    ensures
        r == match stored {
            Some(g) => g,
            None => DEFAULT_GOAL_ML,
        },
{
    match stored {
        Some(g) => g,
        None => DEFAULT_GOAL_ML,
    }
}

} // verus!
