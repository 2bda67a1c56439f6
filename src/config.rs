use vstd::prelude::*;

verus! {

/// How much the service logs, from nothing to everything.
#[derive(Clone, Copy, Debug, PartialEq, Eq, Structural)]
pub enum LogLevel {
    Off,
    Error,
    Warn,
    Info,
    Debug,
    Trace,
}

/// Whether `a` and `b` are the same character once ASCII letters are
/// lowercased.
pub open spec fn ascii_same_letter(a: char, b: char) -> bool {
    a == b || ('A' <= a <= 'Z' && b as u32 == a as u32 + 32) || ('A' <= b <= 'Z' && a as u32
        == b as u32 + 32)
}

/// Whether two texts are equal once ASCII letters are lowercased.
pub open spec fn ascii_caseless_eq(a: Seq<char>, b: Seq<char>) -> bool {
    a.len() == b.len() && forall|i: int| 0 <= i < a.len() ==> ascii_same_letter(a[i], b[i])
}

/// Relies on `str::eq_ignore_ascii_case`: equal lengths and, position by
/// position, the same character up to the case of ASCII letters.
#[verifier::external_body]
fn same_ignoring_ascii_case(a: &str, b: &str) -> (r: bool)
    ensures
        r == ascii_caseless_eq(a@, b@),
{
    a.eq_ignore_ascii_case(b)
}

/// The log level named by `name`, whatever the case of its ASCII letters;
/// `None` for any other text.
pub open spec fn level_named(name: Seq<char>) -> Option<LogLevel> {
    if ascii_caseless_eq(name, "off"@) {
        Some(LogLevel::Off)
    } else if ascii_caseless_eq(name, "error"@) {
        Some(LogLevel::Error)
    } else if ascii_caseless_eq(name, "warn"@) {
        Some(LogLevel::Warn)
    } else if ascii_caseless_eq(name, "info"@) {
        Some(LogLevel::Info)
    } else if ascii_caseless_eq(name, "debug"@) {
        Some(LogLevel::Debug)
    } else if ascii_caseless_eq(name, "trace"@) {
        Some(LogLevel::Trace)
    } else {
        None
    }
}

/// Default behaviour and values of the application's settings.
#[derive(Clone, Debug)]
pub struct AppConfig {
    profiling: bool,
    log_all: bool,
    time_format: String,
    log_level: String,
    routes: String,
    watch: bool,
}

impl PartialEq for AppConfig {
    fn eq(&self, other: &AppConfig) -> (r: bool) {
        self.profiling == other.profiling && self.log_all == other.log_all && self.time_format
            == other.time_format && self.log_level == other.log_level && self.routes
            == other.routes && self.watch == other.watch
    }
}

impl vstd::std_specs::cmp::PartialEqSpecImpl for AppConfig {
    open spec fn obeys_eq_spec() -> bool {
        true
    }

    open spec fn eq_spec(&self, other: &AppConfig) -> bool {
        self.profiling_spec() == other.profiling_spec() && self.log_all_spec()
            == other.log_all_spec() && self.time_format_spec() == other.time_format_spec()
            && self.log_level_spec() == other.log_level_spec() && self.links_file_spec()
            == other.links_file_spec() && self.watch_spec() == other.watch_spec()
    }
}

impl Eq for AppConfig {

}

impl Default for AppConfig {
    /// Every flag off and every text empty.
    fn default() -> (r: AppConfig)
        ensures
            !r.profiling_spec(),
            !r.log_all_spec(),
            r.time_format_spec().len() == 0,
            r.log_level_spec().len() == 0,
            r.links_file_spec().len() == 0,
            !r.watch_spec(),
    {
        AppConfig {
            profiling: false,
            log_all: false,
            time_format: String::new(),
            log_level: String::new(),
            routes: String::new(),
            watch: false,
        }
    }
}

impl AppConfig {
    pub closed spec fn profiling_spec(&self) -> bool {
        self.profiling
    }

    pub closed spec fn log_all_spec(&self) -> bool {
        self.log_all
    }

    pub closed spec fn time_format_spec(&self) -> Seq<char> {
        self.time_format@
    }

    pub closed spec fn log_level_spec(&self) -> Seq<char> {
        self.log_level@
    }

    pub closed spec fn links_file_spec(&self) -> Seq<char> {
        self.routes@
    }

    pub closed spec fn watch_spec(&self) -> bool {
        self.watch
    }

    /// Settings with the given values, as the environment supplies them.
    pub fn new(
        profiling: bool,
        log_all: bool,
        time_format: String,
        log_level: String,
        routes: String,
        watch: bool,
    ) -> (r: AppConfig)
        ensures
            r.profiling_spec() == profiling,
            r.log_all_spec() == log_all,
            r.time_format_spec() == time_format@,
            r.log_level_spec() == log_level@,
            r.links_file_spec() == routes@,
            r.watch_spec() == watch,
    {
        AppConfig { profiling, log_all, time_format, log_level, routes, watch }
    }

    /// Creates the settings from the values the environment supplies; each
    /// value it leaves out takes its default.
    pub fn build(
        profiling: Option<bool>,
        log_all: Option<bool>,
        time_format: Option<String>,
        log_level: Option<String>,
        routes: Option<String>,
        watch: Option<bool>,
    ) -> (r: AppConfig)
        ensures
            r.profiling_spec() == (profiling == Some(true)),
            r.log_all_spec() == (log_all == Some(true)),
            r.time_format_spec() == (match time_format {
                Some(t) => t@,
                None => "%Y-%m-%d - %H:%M:%S"@,
            }),
            r.log_level_spec() == (match log_level {
                Some(l) => l@,
                None => "info"@,
            }),
            r.links_file_spec() == (match routes {
                Some(f) => f@,
                None => "links.yaml"@,
            }),
            r.watch_spec() == (watch == Some(true)),
    {
        AppConfig {
            profiling: match profiling {
                Some(v) => v,
                None => _default_false(),
            },
            log_all: match log_all {
                Some(v) => v,
                None => _default_false(),
            },
            time_format: match time_format {
                Some(v) => v,
                None => _default_format(),
            },
            log_level: match log_level {
                Some(v) => v,
                None => _default_level(),
            },
            routes: match routes {
                Some(v) => v,
                None => _default_links_file(),
            },
            watch: match watch {
                Some(v) => v,
                None => _default_false(),
            },
        }
    }

    /// Gets a value indicating whether profiling should be enabled or not.
    pub fn profiling_enabled(&self) -> (r: bool)
        ensures
            r == self.profiling_spec(),
    {
        self.profiling
    }

    /// Gets a value indicating whether the application should watch the
    /// links file for changes and reload the routes when it does.
    pub fn watch(&self) -> (r: bool)
        ensures
            r == self.watch_spec(),
    {
        self.watch
    }

    /// Sets the flag to enable or disable profiling.
    pub fn enable_profiling(&mut self, val: bool)
        ensures
            final(self).profiling_spec() == val,
            final(self).log_all_spec() == old(self).log_all_spec(),
            final(self).time_format_spec() == old(self).time_format_spec(),
            final(self).log_level_spec() == old(self).log_level_spec(),
            final(self).links_file_spec() == old(self).links_file_spec(),
            final(self).watch_spec() == old(self).watch_spec(),
    {
        self.profiling = val;
    }

    /// Gets the format that times appear with in the logs.
    pub fn time_format(&self) -> (r: &str)
        ensures
            r@ == self.time_format_spec(),
    {
        self.time_format.as_str()
    }

    /// Gets the name of the log level, as it was configured.
    pub fn log_level(&self) -> (r: &str)
        ensures
            r@ == self.log_level_spec(),
    {
        self.log_level.as_str()
    }

    /// The log level that the configured name stands for, if it names one.
    pub fn known_level(&self) -> (r: Option<LogLevel>)
        ensures
            r == level_named(self.log_level_spec()),
    {
        let name = self.log_level.as_str();
        if same_ignoring_ascii_case(name, "off") {
            Some(LogLevel::Off)
        } else if same_ignoring_ascii_case(name, "error") {
            Some(LogLevel::Error)
        } else if same_ignoring_ascii_case(name, "warn") {
            Some(LogLevel::Warn)
        } else if same_ignoring_ascii_case(name, "info") {
            Some(LogLevel::Info)
        } else if same_ignoring_ascii_case(name, "debug") {
            Some(LogLevel::Debug)
        } else if same_ignoring_ascii_case(name, "trace") {
            Some(LogLevel::Trace)
        } else {
            None
        }
    }

    /// Gets the log level filter to use for logging; the configured name
    /// must be one of `off`, `error`, `warn`, `info`, `debug` or `trace`,
    /// in any case.
    pub fn level(&self) -> (r: LogLevel)
        requires
            level_named(self.log_level_spec()) is Some,
        ensures
            r == level_named(self.log_level_spec())->0,
    {
        match self.known_level() {
            Some(l) => l,
            None => LogLevel::Off,
        }
    }

    /// Gets the path to the file holding the links to redirect to.
    pub fn links_file(&self) -> (r: &str)
        ensures
            r@ == self.links_file_spec(),
    {
        self.routes.as_str()
    }

    /// Gets a value indicating whether logs of library dependencies are
    /// emitted too (`true`), or only those of the service (`false`).
    pub fn log_all(&self) -> (r: bool)
        ensures
            r == self.log_all_spec(),
    {
        self.log_all
    }
}

/// The value of a flag that the environment leaves unset: off.
pub fn _default_false() -> (r: bool)
    ensures
        !r,
{
    false
}

/// The time format used when the environment sets none.
pub fn _default_format() -> (r: String)
    ensures
        r@ == "%Y-%m-%d - %H:%M:%S"@,
{
    String::from_str("%Y-%m-%d - %H:%M:%S")
}

/// The log level used when the environment sets none.
pub fn _default_level() -> (r: String)
    ensures
        r@ == "info"@,
{
    String::from_str("info")
}

/// The links file used when the environment names none.
pub fn _default_links_file() -> (r: String)
    ensures
        r@ == "links.yaml"@,
{
    String::from_str("links.yaml")
}

} // verus!
