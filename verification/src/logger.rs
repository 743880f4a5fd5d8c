//! Which log messages the server writes, chosen from the `RUST_LOG`
//! setting.

use vstd::prelude::*;

verus! {

/// The least severe level of the messages that are written.
#[derive(Debug, Clone, Copy, PartialEq, Eq, Structural)]
pub enum LogLevel {
    Info,
    Error,
    Debug,
}

/// `info` and `error` select those levels; any other setting, or none,
/// selects `Debug`.
pub open spec fn log_level_for(setting: Option<Seq<char>>) -> LogLevel {
    match setting {
        Some(v) => if v == "info"@ {
            LogLevel::Info
        } else if v == "error"@ {
            LogLevel::Error
        } else {
            LogLevel::Debug
        },
        None => LogLevel::Debug,
    }
}

/// The level for the given `RUST_LOG` setting (`None` where it is unset or
/// not Unicode).
pub fn log_level_from_env(setting: Option<&str>) -> (level: LogLevel)
    ensures
        level == log_level_for(
            match setting {
                Some(v) => Some(v@),
                None => None,
            },
        ),
{
    match setting {
        Some(v) => {
            let given = v.to_string();
            if given == "info".to_string() {
                LogLevel::Info
            } else if given == "error".to_string() {
                LogLevel::Error
            } else {
                LogLevel::Debug
            }
        },
        None => LogLevel::Debug,
    }
}

} // verus!
