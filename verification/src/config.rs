//! Configuration values consumed by the orchestrator. Where the values come
//! from (a platform configuration directory, environment variables) is the
//! caller's concern; this module only lays out the paths.

use vstd::prelude::*;

verus! {

/// Durable paths and timing configuration.
pub struct AppConfig {
    pub sessions_file_path: String,
    pub logs_root_path: String,
    /// Seconds of output silence after which a running session is considered
    /// to be waiting for input.
    pub needs_input_timeout_sec: u64,
    /// Seconds between polls of the external task tracker.
    pub br_poll_interval_sec: u64,
    pub editor: String,
}

impl AppConfig {
    /// The configuration rooted at a platform configuration directory: the
    /// session list and the log files live under its `deck` subdirectory,
    /// the needs-input timeout defaults to 30 seconds and the tracker poll
    /// interval to 3 seconds.
    pub fn from_base(config_dir: &str, editor: String) -> (c: AppConfig)
        ensures
            c.sessions_file_path@ == config_dir@ + "/deck/sessions.json"@,
            c.logs_root_path@ == config_dir@ + "/deck/logs"@,
            c.needs_input_timeout_sec == 30,
            c.br_poll_interval_sec == 3,
            c.editor@ == editor@,
    {
        let mut sessions_file_path = config_dir.to_owned();
        sessions_file_path.append("/deck/sessions.json");
        let mut logs_root_path = config_dir.to_owned();
        logs_root_path.append("/deck/logs");
        AppConfig {
            sessions_file_path,
            logs_root_path,
            needs_input_timeout_sec: 30,
            br_poll_interval_sec: 3,
            editor,
        }
    }
}

} // verus!
