//! Logging settings, the rotation strategies, the health of the logging
//! system and its counters.

use vstd::prelude::*;
use crate::clock::{now_nanos, NANOS_PER_SEC};
use crate::text::{decimal_text, push_decimal};

verus! {

/// Logging settings.
#[derive(Clone, Debug)]
pub struct LoggingConfig {
    /// Log level (trace, debug, info, warn, error).
    pub level: String,
    /// Whether to write no log files.
    pub no_log_files: bool,
    /// Directory of the log files.
    pub log_dir: String,
    /// Name of the application log file.
    pub app_log_file: String,
    /// Name of the error log file.
    pub error_log_file: String,
    /// Largest log file, in MB.
    pub max_file_size_mb: u64,
    /// Number of log files kept.
    pub max_files: usize,
    /// Whether to log to the console.
    pub console_output: bool,
    /// Whether to write JSON.
    pub json_format: bool,
    /// Whether to write timestamps.
    pub include_timestamp: bool,
    /// Whether to write file and line.
    pub include_location: bool,
    /// Rotation strategy: "daily", "hourly", "size" or "hybrid".
    pub rotation_strategy: String,
    /// Hours between rotations, for hourly rotation.
    pub rotation_interval_hours: u32,
    /// Whether to compress rotated files.
    pub compress_rotated_logs: bool,
    /// Compression level, 1 to 9.
    pub compression_level: u8,
    /// Whether to write the host name.
    pub include_hostname: bool,
    /// Whether to write the process id.
    pub include_pid: bool,
    /// A custom format.
    pub custom_format: Option<String>,
    /// Whether to buffer writes.
    pub enable_buffering: bool,
    /// Buffer size in bytes.
    pub buffer_size_bytes: usize,
}

impl Default for LoggingConfig {
    /// Info level to the console and daily rotated files under `logs`, five
    /// files of at most 100 MB kept, compressed at level 6, with 64 KB buffers.
    fn default() -> (r: LoggingConfig)
        ensures
            r.level@ == "info"@,
            !r.no_log_files,
            r.log_dir@ == "logs"@,
            r.app_log_file@ == "tondi_seeder.log"@,
            r.error_log_file@ == "tondi_seeder_error.log"@,
            r.max_file_size_mb == 100,
            r.max_files == 5,
            r.console_output,
            !r.json_format,
            r.include_timestamp,
            r.include_location,
            r.rotation_strategy@ == "daily"@,
            r.rotation_interval_hours == 24,
            r.compress_rotated_logs,
            r.compression_level == 6,
            r.include_hostname,
            r.include_pid,
            r.custom_format is None,
            r.enable_buffering,
            r.buffer_size_bytes == 65536,
    {
        LoggingConfig {
            level: "info".to_owned(),
            no_log_files: false,
            log_dir: "logs".to_owned(),
            app_log_file: "tondi_seeder.log".to_owned(),
            error_log_file: "tondi_seeder_error.log".to_owned(),
            max_file_size_mb: 100,
            max_files: 5,
            console_output: true,
            json_format: false,
            include_timestamp: true,
            include_location: true,
            rotation_strategy: "daily".to_owned(),
            rotation_interval_hours: 24,
            compress_rotated_logs: true,
            compression_level: 6,
            include_hostname: true,
            include_pid: true,
            custom_format: None,
            enable_buffering: true,
            buffer_size_bytes: 64 * 1024,
        }
    }
}

/// The text of a boolean, as `Display` writes it.
pub open spec fn bool_text(b: bool) -> Seq<char> {
    if b {
        "true"@
    } else {
        "false"@
    }
}

impl LoggingConfig {
    /// A line describing the rotation settings:
    /// `Strategy: {s}, Interval: {h}h, Max Size: {mb}MB, Compress: {bool}`.
    pub fn get_rotation_info(&self) -> (r: String)
        ensures
            r@ == "Strategy: "@ + self.rotation_strategy@ + ", Interval: "@ + decimal_text(
                self.rotation_interval_hours as nat,
            ) + "h, Max Size: "@ + decimal_text(self.max_file_size_mb as nat) + "MB, Compress: "@
                + bool_text(self.compress_rotated_logs),
    {
        let mut r = "Strategy: ".to_owned();
        r.append(self.rotation_strategy.as_str());
        r.append(", Interval: ");
        push_decimal(&mut r, self.rotation_interval_hours as u64);
        r.append("h, Max Size: ");
        push_decimal(&mut r, self.max_file_size_mb);
        r.append("MB, Compress: ");
        r.append(if self.compress_rotated_logs {
            "true"
        } else {
            "false"
        });
        r
    }
}

/// How log files are rotated.
#[derive(Clone, Copy, Debug, PartialEq, Eq, Structural)]
pub enum RotationStrategy {
    Daily,
    Hourly,
    Size,
    Hybrid,
}

/// The ASCII lower case of a character; other characters are unchanged.
pub open spec fn ascii_lower(c: char) -> char {
    if 'A' <= c && c <= 'Z' {
        ((c as u32) + 32) as char
    } else {
        c
    }
}

/// Whether `s` spells `word` (written in lower-case ASCII letters) in any
/// mix of cases. For such words this is what comparing `s.to_lowercase()`
/// with `word` decides: no other character lower-cases to one of them.
pub open spec fn spells(s: Seq<char>, word: Seq<char>) -> bool {
    s.len() == word.len() && forall|i: int| 0 <= i < s.len() ==> ascii_lower(#[trigger] s[i]) == word[i]
}

/// The strategy a setting names: daily, hourly, size or hybrid in any mix
/// of cases; anything else is daily.
pub open spec fn strategy_of(s: Seq<char>) -> RotationStrategy {
    if spells(s, "hourly"@) {
        RotationStrategy::Hourly
    } else if spells(s, "size"@) {
        RotationStrategy::Size
    } else if spells(s, "hybrid"@) {
        RotationStrategy::Hybrid
    } else {
        RotationStrategy::Daily
    }
}

/// Whether `s` spells `word` in any mix of cases.
fn spells_word(s: &str, word: &str) -> (r: bool)
    ensures
        r == spells(s@, word@),
{
    let n = s.unicode_len();
    if n != word.unicode_len() {
        return false;
    }
    let mut i: usize = 0;
    while i < n
        invariant
            n == s@.len(),
            n == word@.len(),
            i <= n,
            forall|j: int| 0 <= j < i ==> ascii_lower(#[trigger] s@[j]) == word@[j],
        decreases n - i,
    {
        let c = s.get_char(i);
        let lower = if 'A' <= c && c <= 'Z' {
            ((c as u32) + 32) as u8 as char
        } else {
            c
        };
        assert(lower == ascii_lower(c)) by {
            if 'A' <= c && c <= 'Z' {
                assert(((c as u32) + 32) as u8 as char == ((c as u32) + 32) as char);
            }
        }
        if lower != word.get_char(i) {
            return false;
        }
        i = i + 1;
    }
    true
}

impl<'a> From<&'a str> for RotationStrategy {
    fn from(s: &'a str) -> (r: RotationStrategy) {
        if spells_word(s, "hourly") {
            RotationStrategy::Hourly
        } else if spells_word(s, "size") {
            RotationStrategy::Size
        } else if spells_word(s, "hybrid") {
            RotationStrategy::Hybrid
        } else {
            RotationStrategy::Daily
        }
    }
}

impl<'a> vstd::std_specs::convert::FromSpecImpl<&'a str> for RotationStrategy {
    open spec fn obeys_from_spec() -> bool {
        true
    }

    open spec fn from_spec(s: &'a str) -> RotationStrategy {
        strategy_of(s@)
    }
}

/// How often a rolling appender starts a new file.
#[derive(Clone, Copy, Debug, PartialEq, Eq, Structural)]
pub enum RotationPeriod {
    Daily,
    Hourly,
    Never,
}

/// The period of the appender that a strategy uses: daily and hybrid
/// rotate daily, hourly hourly, and size-based rotation never by time.
pub fn rotation_period(strategy: RotationStrategy) -> (r: RotationPeriod)
    ensures
        r == rotation_period_spec(strategy),
{
    match strategy {
        RotationStrategy::Daily => RotationPeriod::Daily,
        RotationStrategy::Hourly => RotationPeriod::Hourly,
        RotationStrategy::Size => RotationPeriod::Never,
        RotationStrategy::Hybrid => RotationPeriod::Daily,
    }
}

/// One rolling log file: its directory, its name and how often it rolls.
#[derive(Clone, Debug)]
pub struct LogFileSetup {
    pub dir: String,
    pub file: String,
    pub period: RotationPeriod,
}

/// What setting up logging from a configuration does: the level filter
/// used when the environment sets none, whether to log to the console and
/// with file and line, the directory to create, and the two rolling files.
#[derive(Clone, Debug)]
pub struct LogSetup {
    pub level: String,
    pub console: bool,
    pub include_location: bool,
    pub create_dir: Option<String>,
    pub app_log: Option<LogFileSetup>,
    pub error_log: Option<LogFileSetup>,
}

/// The rolling file `file` under the configured directory, rolled as the
/// configured strategy says.
pub open spec fn file_setup_of(config: LoggingConfig, file: Seq<char>, s: LogFileSetup) -> bool {
    s.dir@ == config.log_dir@ && s.file@ == file && s.period == rotation_period_spec(
        strategy_of(config.rotation_strategy@),
    )
}

/// The period of the appender that a strategy uses.
pub open spec fn rotation_period_spec(strategy: RotationStrategy) -> RotationPeriod {
    match strategy {
        RotationStrategy::Daily => RotationPeriod::Daily,
        RotationStrategy::Hourly => RotationPeriod::Hourly,
        RotationStrategy::Size => RotationPeriod::Never,
        RotationStrategy::Hybrid => RotationPeriod::Daily,
    }
}

/// How logging is set up from `config`: no directory and no files when log
/// files are off; otherwise the log directory is created and the
/// application and error logs roll in it by the configured strategy.
pub fn log_setup(config: &LoggingConfig) -> (r: LogSetup)
    ensures
        r.level@ == config.level@,
        r.console == config.console_output,
        r.include_location == config.include_location,
        config.no_log_files ==> r.create_dir is None && r.app_log is None && r.error_log is None,
        !config.no_log_files ==> {
            &&& r.create_dir matches Some(d) && d@ == config.log_dir@
            &&& r.app_log matches Some(a) && file_setup_of(*config, config.app_log_file@, a)
            &&& r.error_log matches Some(e) && file_setup_of(*config, config.error_log_file@, e)
        },
{
    let level = config.level.clone();
    if config.no_log_files {
        return LogSetup {
            level,
            console: config.console_output,
            include_location: config.include_location,
            create_dir: None,
            app_log: None,
            error_log: None,
        };
    }
    let period = rotation_period(RotationStrategy::from(config.rotation_strategy.as_str()));
    let app = LogFileSetup { dir: config.log_dir.clone(), file: config.app_log_file.clone(), period };
    let error = LogFileSetup { dir: config.log_dir.clone(), file: config.error_log_file.clone(), period };
    LogSetup {
        level,
        console: config.console_output,
        include_location: config.include_location,
        create_dir: Some(config.log_dir.clone()),
        app_log: Some(app),
        error_log: Some(error),
    }
}

/// The health of a system: healthy exactly when no issue is listed.
#[derive(Clone, Debug)]
pub struct HealthStatus {
    pub is_healthy: bool,
    pub issues: Vec<String>,
    /// When it was last checked, in nanoseconds since the Unix epoch.
    pub last_check: u64,
    pub uptime_seconds: u64,
}

impl HealthStatus {
    /// Healthy, no issue, checked now, no uptime.
    pub fn new() -> (r: HealthStatus)
        ensures
            r.is_healthy,
            r.issues@.len() == 0,
            r.uptime_seconds == 0,
    {
        HealthStatus { is_healthy: true, issues: Vec::new(), last_check: now_nanos(), uptime_seconds: 0 }
    }

    /// Lists an issue; the system is then unhealthy.
    pub fn add_issue(&mut self, issue: String)
        ensures
            !final(self).is_healthy,
            final(self).issues@ == old(self).issues@.push(issue),
            final(self).last_check == old(self).last_check,
            final(self).uptime_seconds == old(self).uptime_seconds,
    {
        self.is_healthy = false;
        self.issues.push(issue);
    }

    /// Clears the issues; the system is then healthy.
    pub fn clear_issues(&mut self)
        ensures
            final(self).is_healthy,
            final(self).issues@.len() == 0,
            final(self).last_check == old(self).last_check,
            final(self).uptime_seconds == old(self).uptime_seconds,
    {
        self.is_healthy = true;
        self.issues.clear();
    }

    /// Sets the uptime to the whole seconds since `start_time` (nanoseconds
    /// since the Unix epoch), read now; unchanged when the clock reads
    /// earlier than `start_time`.
    pub fn update_uptime(&mut self, start_time: u64)
        ensures
            final(self).is_healthy == old(self).is_healthy,
            final(self).issues@ == old(self).issues@,
            final(self).last_check == old(self).last_check,
            exists|now: u64| #[trigger] uptime_after(old(self).uptime_seconds, start_time, now) == final(self).uptime_seconds,
    {
        let now = now_nanos();
        self.update_uptime_at(start_time, now);
    }

    /// Sets the uptime to the whole seconds from `start_time` to `now`;
    /// unchanged when `now` is earlier.
    pub fn update_uptime_at(&mut self, start_time: u64, now: u64)
        ensures
            final(self).is_healthy == old(self).is_healthy,
            final(self).issues@ == old(self).issues@,
            final(self).last_check == old(self).last_check,
            final(self).uptime_seconds == uptime_after(old(self).uptime_seconds, start_time, now),
    {
        if now >= start_time {
            self.uptime_seconds = (now - start_time) / NANOS_PER_SEC;
        }
    }
}

/// What probing the log directory found: whether it exists, the error text
/// of a test write when it failed, and whether the application and error
/// log appenders are set up.
#[derive(Clone, Debug)]
pub struct LogDirProbe {
    pub dir_exists: bool,
    pub write_error: Option<String>,
    pub app_appender: bool,
    pub error_appender: bool,
}

/// The issues a check of the logging system finds: none when log files are
/// off; else a missing directory, a failed test write and each appender not
/// set up, in that order.
pub open spec fn log_health_issues(no_log_files: bool, log_dir: Seq<char>, probe: LogDirProbe) -> Seq<Seq<char>> {
    if no_log_files {
        Seq::<Seq<char>>::empty()
    } else {
        let missing = if !probe.dir_exists {
            seq!["Log directory does not exist: "@ + log_dir]
        } else {
            Seq::<Seq<char>>::empty()
        };
        let unwritable = match probe.write_error {
            Some(e) => seq!["Cannot write to log directory: "@ + e@],
            None => Seq::<Seq<char>>::empty(),
        };
        let app = if !probe.app_appender {
            seq!["App log appender not initialized"@]
        } else {
            Seq::<Seq<char>>::empty()
        };
        let error = if !probe.error_appender {
            seq!["Error log appender not initialized"@]
        } else {
            Seq::<Seq<char>>::empty()
        };
        missing + unwritable + app + error
    }
}

/// The texts of a list of strings.
pub open spec fn texts(v: Seq<String>) -> Seq<Seq<char>> {
    v.map_values(|s: String| s@)
}

impl HealthStatus {
    /// Checks the logging system at `now` from what probing its directory
    /// found: the issues listed are exactly those found, and the system is
    /// healthy when there are none.
    pub fn check_logs_at(&mut self, config: &LoggingConfig, probe: &LogDirProbe, now: u64)
        ensures
            texts(final(self).issues@) == log_health_issues(config.no_log_files, config.log_dir@, *probe),
            final(self).is_healthy == (final(self).issues@.len() == 0),
            final(self).last_check == now,
            final(self).uptime_seconds == old(self).uptime_seconds,
    {
        self.clear_issues();
        if !config.no_log_files {
            if !probe.dir_exists {
                let mut t = "Log directory does not exist: ".to_owned();
                t.append(config.log_dir.as_str());
                self.add_issue(t);
            }
            match &probe.write_error {
                Some(e) => {
                    let mut t = "Cannot write to log directory: ".to_owned();
                    t.append(e.as_str());
                    self.add_issue(t);
                },
                None => {},
            }
            if !probe.app_appender {
                self.add_issue("App log appender not initialized".to_owned());
            }
            if !probe.error_appender {
                self.add_issue("Error log appender not initialized".to_owned());
            }
        }
        self.last_check = now;
        assert(texts(self.issues@) =~= log_health_issues(config.no_log_files, config.log_dir@, *probe));
    }
}

/// The uptime after an update at `now` from `start_time`.
pub open spec fn uptime_after(previous: u64, start_time: u64, now: u64) -> u64 {
    if now >= start_time {
        ((now - start_time) / (NANOS_PER_SEC as int)) as u64
    } else {
        previous
    }
}

/// The level of a log message.
#[derive(Clone, Copy, Debug, PartialEq, Eq, Structural)]
pub enum LogLevel {
    Error,
    Warn,
    Info,
    Debug,
    Trace,
}

/// Counters of the logging system.
#[derive(Clone, Debug, Default)]
pub struct LoggingStats {
    pub total_logs: u64,
    pub error_logs: u64,
    pub warning_logs: u64,
    pub info_logs: u64,
    pub debug_logs: u64,
    pub trace_logs: u64,
    /// When the last message was logged, in nanoseconds since the Unix epoch.
    pub last_log_time: Option<u64>,
    pub total_rotations: u64,
    /// When files were last rotated, in nanoseconds since the Unix epoch.
    pub last_rotation_time: Option<u64>,
    pub total_compressed_files: u64,
    pub total_disk_usage_bytes: u64,
}

/// The counter of `level` in `s`.
pub open spec fn level_count(s: LoggingStats, level: LogLevel) -> u64 {
    match level {
        LogLevel::Error => s.error_logs,
        LogLevel::Warn => s.warning_logs,
        LogLevel::Info => s.info_logs,
        LogLevel::Debug => s.debug_logs,
        LogLevel::Trace => s.trace_logs,
    }
}

impl LoggingStats {
    /// No message, no rotation.
    pub fn new() -> (r: LoggingStats)
        ensures
            r.total_logs == 0,
            forall|l: LogLevel| level_count(r, l) == 0,
            r.last_log_time is None,
            r.total_rotations == 0,
            r.last_rotation_time is None,
            r.total_compressed_files == 0,
            r.total_disk_usage_bytes == 0,
    {
        LoggingStats {
            total_logs: 0,
            error_logs: 0,
            warning_logs: 0,
            info_logs: 0,
            debug_logs: 0,
            trace_logs: 0,
            last_log_time: None,
            total_rotations: 0,
            last_rotation_time: None,
            total_compressed_files: 0,
            total_disk_usage_bytes: 0,
        }
    }

    /// Counts one message of `level`, logged now.
    pub fn increment_log(&mut self, level: LogLevel)
        requires
            old(self).total_logs < u64::MAX,
            level_count(*old(self), level) < u64::MAX,
        ensures
            final(self).total_logs == old(self).total_logs + 1,
            level_count(*final(self), level) == level_count(*old(self), level) + 1,
            forall|l: LogLevel| l != level ==> level_count(*final(self), l) == level_count(*old(self), l),
            final(self).last_log_time is Some,
            final(self).total_rotations == old(self).total_rotations,
            final(self).last_rotation_time == old(self).last_rotation_time,
            final(self).total_compressed_files == old(self).total_compressed_files,
            final(self).total_disk_usage_bytes == old(self).total_disk_usage_bytes,
    {
        self.total_logs = self.total_logs + 1;
        self.last_log_time = Some(now_nanos());
        match level {
            LogLevel::Error => self.error_logs = self.error_logs + 1,
            LogLevel::Warn => self.warning_logs = self.warning_logs + 1,
            LogLevel::Info => self.info_logs = self.info_logs + 1,
            LogLevel::Debug => self.debug_logs = self.debug_logs + 1,
            LogLevel::Trace => self.trace_logs = self.trace_logs + 1,
        }
    }

    /// Counts one rotation done now, and one compressed file when it compressed.
    pub fn record_rotation(&mut self, compressed: bool)
        requires
            old(self).total_rotations < u64::MAX,
            old(self).total_compressed_files < u64::MAX,
        ensures
            final(self).total_rotations == old(self).total_rotations + 1,
            final(self).last_rotation_time is Some,
            final(self).total_compressed_files == old(self).total_compressed_files + if compressed {
                1int
            } else {
                0int
            },
            final(self).total_logs == old(self).total_logs,
            forall|l: LogLevel| level_count(*final(self), l) == level_count(*old(self), l),
            final(self).last_log_time == old(self).last_log_time,
            final(self).total_disk_usage_bytes == old(self).total_disk_usage_bytes,
    {
        self.total_rotations = self.total_rotations + 1;
        self.last_rotation_time = Some(now_nanos());
        if compressed {
            self.total_compressed_files = self.total_compressed_files + 1;
        }
    }
}

/// One field of a structured message: its key and its value.
pub type LogField<'a> = (&'a str, &'a str);

/// `k=v` for each field, separated by spaces.
pub open spec fn joined_fields(fields: Seq<(Seq<char>, Seq<char>)>) -> Seq<char>
    decreases fields.len(),
{
    if fields.len() == 0 {
        Seq::<char>::empty()
    } else if fields.len() == 1 {
        fields[0].0 + "="@ + fields[0].1
    } else {
        joined_fields(fields.drop_last()) + " "@ + fields.last().0 + "="@ + fields.last().1
    }
}

/// The texts of the fields.
pub open spec fn field_views(fields: Seq<LogField>) -> Seq<(Seq<char>, Seq<char>)> {
    fields.map_values(|f: LogField| (f.0@, f.1@))
}

/// The message alone when there is no field, else the message, ` | `, and
/// the fields as `k=v` separated by spaces.
pub fn format_structured_message(message: &str, fields: &[LogField]) -> (r: String)
    ensures
        r@ == if fields@.len() == 0 {
            message@
        } else {
            message@ + " | "@ + joined_fields(field_views(fields@))
        },
{
    let mut r = message.to_owned();
    if fields.len() == 0 {
        return r;
    }
    r.append(" | ");
    let ghost head = r@;
    let mut i: usize = 0;
    while i < fields.len()
        invariant
            i <= fields@.len(),
            r@ == head + joined_fields(field_views(fields@.take(i as int))),
        decreases fields@.len() - i,
    {
        let ghost before = r@;
        if i > 0 {
            r.append(" ");
        }
        let (k, v) = fields[i];
        r.append(k);
        r.append("=");
        r.append(v);
        proof {
            let fv = field_views(fields@.take(i + 1));
            assert(fv.drop_last() =~= field_views(fields@.take(i as int)));
            assert(fv.last() == (k@, v@));
            if i == 0 {
                assert(field_views(fields@.take(0)) =~= Seq::<(Seq<char>, Seq<char>)>::empty());
                assert(fv.len() == 1);
                assert(fv[0] == (k@, v@));
            }
            assert(r@ =~= head + joined_fields(fv));
        }
        i = i + 1;
    }
    assert(fields@.take(fields@.len() as int) =~= fields@);
    r
}

} // verus!
