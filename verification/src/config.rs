//! Configuration values, with the built-in defaults. Loading a configuration
//! file and filling the gaps is the host's concern; these types carry the
//! values the components read.

use vstd::prelude::*;

verus! {

/// How the service process is started and probed.
#[derive(Debug, Clone)]
pub struct ApiConfig {
    pub command: String,
    pub health_url: String,
    pub health_timeout_secs: u64,
    pub health_interval_secs: u64,
}

/// How the test-runner process is started.
#[derive(Debug, Clone)]
pub struct KarateConfig {
    pub jar_path: String,
    pub classpath: Vec<String>,
    pub threads: u32,
    pub output_format: String,
    pub report_dir: String,
    pub default_test_path: String,
    pub use_compact_object_headers: bool,
    pub use_zgc: bool,
}

/// Filtering and export settings.
#[derive(Debug, Clone)]
pub struct LoggingConfig {
    pub level: String,
    pub include_patterns: Vec<String>,
    pub exclude_patterns: Vec<String>,
    pub colors: bool,
    pub export_path: String,
    pub export_format: String,
}

/// The prefixes lines are rendered with.
#[derive(Debug, Clone)]
pub struct DisplayConfig {
    pub api_prefix: String,
    pub karate_prefix: String,
    pub sql_prefix: String,
    pub error_prefix: String,
    pub success_prefix: String,
    pub show_timestamps: bool,
}

/// Which analyses run and how results are shown.
#[derive(Debug, Clone)]
pub struct AnalysisConfig {
    pub show_test_summary: bool,
    pub track_sql: bool,
    pub show_sql_stats: bool,
    pub failed_only: bool,
}

/// The whole configuration.
#[derive(Debug, Clone)]
pub struct Config {
    pub api: ApiConfig,
    pub karate: KarateConfig,
    pub logging: LoggingConfig,
    pub display: DisplayConfig,
    pub analysis: AnalysisConfig,
}

fn default_api_command() -> (r: String)
    ensures
        r@ == "/go/bin/api"@,
{
    "/go/bin/api".to_owned()
}

fn default_health_url() -> (r: String)
    ensures
        r@ == "http://localhost:1323/"@,
{
    "http://localhost:1323/".to_owned()
}

fn default_health_timeout() -> (r: u64)
    ensures
        r == 30,
{
    30
}

fn default_health_interval() -> (r: u64)
    ensures
        r == 1,
{
    1
}

fn default_jar_path() -> (r: String)
    ensures
        r@ == "/app/karate.jar"@,
{
    "/app/karate.jar".to_owned()
}

fn default_classpath() -> (r: Vec<String>)
    ensures
        r@.len() == 4,
        r@[0]@ == "mysql-connector-j.jar"@,
        r@[1]@ == "/mocks"@,
        r@[2]@ == "/shareutils"@,
        r@[3]@ == "/app"@,
{
    let mut v: Vec<String> = Vec::new();
    v.push("mysql-connector-j.jar".to_owned());
    v.push("/mocks".to_owned());
    v.push("/shareutils".to_owned());
    v.push("/app".to_owned());
    v
}

fn default_threads() -> (r: u32)
    ensures
        r == 1,
{
    1
}

fn default_output_format() -> (r: String)
    ensures
        r@ == "~html,cucumber:json"@,
{
    "~html,cucumber:json".to_owned()
}

fn default_report_dir() -> (r: String)
    ensures
        r@ == "/tmp/report"@,
{
    "/tmp/report".to_owned()
}

fn default_test_path() -> (r: String)
    ensures
        r@ == "/tests"@,
{
    "/tests".to_owned()
}

fn default_level() -> (r: String)
    ensures
        r@ == "ALL"@,
{
    "ALL".to_owned()
}

fn default_true() -> (r: bool)
    ensures
        r,
{
    true
}

fn default_export_format() -> (r: String)
    ensures
        r@ == "json"@,
{
    "json".to_owned()
}

fn default_api_prefix() -> (r: String)
    ensures
        r@ == "\u{1f537}"@,
{
    "\u{1f537}".to_owned()
}

fn default_karate_prefix() -> (r: String)
    ensures
        r@ == "\u{1f536}"@,
{
    "\u{1f536}".to_owned()
}

fn default_sql_prefix() -> (r: String)
    ensures
        r@ == "\u{1f5c3}\u{fe0f}"@,
{
    "\u{1f5c3}\u{fe0f}".to_owned()
}

fn default_error_prefix() -> (r: String)
    ensures
        r@ == "\u{274c}"@,
{
    "\u{274c}".to_owned()
}

fn default_success_prefix() -> (r: String)
    ensures
        r@ == "\u{2705}"@,
{
    "\u{2705}".to_owned()
}

impl ApiConfig {
    /// The built-in defaults.
    pub open spec fn is_default(&self) -> bool {
        &&& self.command@ == "/go/bin/api"@
        &&& self.health_url@ == "http://localhost:1323/"@
        &&& self.health_timeout_secs == 30
        &&& self.health_interval_secs == 1
    }
}

impl Default for ApiConfig {
    fn default() -> (r: ApiConfig)
        ensures
            r.is_default(),
    {
        ApiConfig {
            command: default_api_command(),
            health_url: default_health_url(),
            health_timeout_secs: default_health_timeout(),
            health_interval_secs: default_health_interval(),
        }
    }
}

impl KarateConfig {
    /// The built-in defaults.
    pub open spec fn is_default(&self) -> bool {
        &&& self.jar_path@ == "/app/karate.jar"@
        &&& self.classpath@.len() == 4
        &&& self.threads == 1
        &&& self.output_format@ == "~html,cucumber:json"@
        &&& self.report_dir@ == "/tmp/report"@
        &&& self.default_test_path@ == "/tests"@
        &&& !self.use_compact_object_headers
        &&& !self.use_zgc
    }
}

impl Default for KarateConfig {
    fn default() -> (r: KarateConfig)
        ensures
            r.is_default(),
    {
        KarateConfig {
            jar_path: default_jar_path(),
            classpath: default_classpath(),
            threads: default_threads(),
            output_format: default_output_format(),
            report_dir: default_report_dir(),
            default_test_path: default_test_path(),
            use_compact_object_headers: false,
            use_zgc: false,
        }
    }
}

impl LoggingConfig {
    /// The built-in defaults.
    pub open spec fn is_default(&self) -> bool {
        &&& self.level@ == "ALL"@
        &&& self.include_patterns@.len() == 0
        &&& self.exclude_patterns@.len() == 0
        &&& self.colors
        &&& self.export_path@ == Seq::<char>::empty()
        &&& self.export_format@ == "json"@
    }
}

impl Default for LoggingConfig {
    fn default() -> (r: LoggingConfig)
        ensures
            r.is_default(),
    {
        LoggingConfig {
            level: default_level(),
            include_patterns: Vec::new(),
            exclude_patterns: Vec::new(),
            colors: default_true(),
            export_path: String::new(),
            export_format: default_export_format(),
        }
    }
}

impl DisplayConfig {
    /// The built-in defaults.
    pub open spec fn is_default(&self) -> bool {
        &&& self.api_prefix@ == "\u{1f537}"@
        &&& self.karate_prefix@ == "\u{1f536}"@
        &&& self.sql_prefix@ == "\u{1f5c3}\u{fe0f}"@
        &&& self.error_prefix@ == "\u{274c}"@
        &&& self.success_prefix@ == "\u{2705}"@
        &&& !self.show_timestamps
    }
}

impl Default for DisplayConfig {
    fn default() -> (r: DisplayConfig)
        ensures
            r.is_default(),
    {
        DisplayConfig {
            api_prefix: default_api_prefix(),
            karate_prefix: default_karate_prefix(),
            sql_prefix: default_sql_prefix(),
            error_prefix: default_error_prefix(),
            success_prefix: default_success_prefix(),
            show_timestamps: false,
        }
    }
}

impl AnalysisConfig {
    /// The built-in defaults.
    pub open spec fn is_default(&self) -> bool {
        &&& self.show_test_summary
        &&& self.track_sql
        &&& !self.show_sql_stats
        &&& !self.failed_only
    }
}

impl Default for AnalysisConfig {
    fn default() -> (r: AnalysisConfig)
        ensures
            r.is_default(),
    {
        AnalysisConfig {
            show_test_summary: default_true(),
            track_sql: default_true(),
            show_sql_stats: false,
            failed_only: false,
        }
    }
}

impl Config {
    /// The built-in defaults, section for section.
    pub open spec fn is_default(&self) -> bool {
        &&& self.api.is_default()
        &&& self.karate.is_default()
        &&& self.logging.is_default()
        &&& self.display.is_default()
        &&& self.analysis.is_default()
    }
}

impl Default for Config {
    fn default() -> (r: Config)
        ensures
            r.is_default(),
    {
        Config {
            api: ApiConfig::default(),
            karate: KarateConfig::default(),
            logging: LoggingConfig::default(),
            display: DisplayConfig::default(),
            analysis: AnalysisConfig::default(),
        }
    }
}

} // verus!
