use vstd::prelude::*;
use crate::clock::ClockReading;
use crate::config::{LogConfig, config_is_valid};
use crate::entry::{LogEntry, line_of, upper_of, details_view};
use crate::naming::{current_file_name, rotated_file_name, current_name_of, rotated_name_of};
use crate::policy::{should_rotate, exceeds};

verus! {

/// What one append does to the log directory, decided before any file is
/// touched: rotate the current file to `rotate_to` if that is set, prune by
/// retention, then append `line` to `current_file`.
#[derive(Debug)]
pub struct AppendPlan {
    pub current_file: String,
    pub rotate_to: Option<String>,
    pub line: String,
}

/// An append rotates when logging is on and a current file exists whose size
/// is over the threshold.
pub open spec fn rotates(current_size: Option<u64>, config: LogConfig) -> bool {
    config.enabled && match current_size {
        Some(size) => exceeds(size as int, config.max_file_size_micro_mb as int),
        None => false,
    }
}

/// Plans an append at clock reading `clock`, given the size of today's current
/// file (`None` where it does not exist). With logging off there is nothing to
/// do.
pub fn plan_append(
    clock: &ClockReading,
    current_size: Option<u64>,
    level: String,
    message: String,
    details: Option<String>,
    config: &LogConfig,
) -> (r: Option<AppendPlan>)
    ensures
        r is None <==> !config.enabled,
        r matches Some(p) ==> {
            &&& p.current_file@ == current_name_of(clock.date@)
            &&& (p.rotate_to is Some <==> rotates(current_size, *config))
            &&& p.rotate_to matches Some(t) ==> t@ == rotated_name_of(clock.date@, clock.stamp@)
            &&& p.line@ == line_of(
                clock.rfc3339@,
                upper_of(level@),
                message@,
                details_view(details),
            )
        },
{
    if !config.enabled {
        return None;
    }
    let current_file = current_file_name(clock.date.as_str());
    let rotate_to = match current_size {
        Some(size) => if should_rotate(size, config.max_file_size_micro_mb) {
            Some(rotated_file_name(clock.date.as_str(), clock.stamp.as_str()))
        } else {
            None
        },
        None => None,
    };
    let entry = LogEntry { timestamp: clock.rfc3339.clone(), level, message, details };
    let line = entry.render();
    Some(AppendPlan { current_file, rotate_to, line })
}

/// Rotation happens once: a current file over the threshold of a valid
/// configuration is rotated on the next append, and the fresh current file
/// that follows (absent, or empty once created) is not.
pub proof fn lemma_rotation_once(size: u64, config: LogConfig)
    requires
        config_is_valid(config),
        config.enabled,
        exceeds(size as int, config.max_file_size_micro_mb as int),
    ensures
        rotates(Some(size), config),
        !rotates(None, config),
        !rotates(Some(0), config),
{
}

} // verus!
