//! Line classification for service-log and test-runner output.
//!
//! A service-log line decodes into an [`ApiLogEntry`] (the decoding itself is
//! done by the host, which hands the library plain field values); the entry's
//! category is then a pure function of its fields. Test-runner lines are
//! classified and mined by character-level scanning with exact contracts.

use vstd::prelude::*;

use crate::text::{
    begins_with, chars_eq, chars_of, contains_at, contains_sub, digit_run_end,
    digit_run_end_spec, find_char, find_sub, first_char_idx, first_sub_idx, has_char,
    has_sub, is_digit, last_char_idx, lemma_digit_run_bounds, match_at, parse_u32_range,
    parsed_u32, rfind_char, skip_spaces, skip_spaces_spec, starts_with, str_eq, string_of,
    to_upper_chars, token_end, token_end_spec, trim_spec, trimmed, upper_seq,
};
use vstd::slice::slice_subrange;

verus! {

/// One parsed service-log line, as plain field values. The `extra` bag keeps
/// unrecognized fields as raw key/text pairs; the core never inspects it.
/// `request_body` and `response_body` hold the raw text of those values.
#[derive(Debug, Clone)]
pub struct ApiLogEntry {
    pub time: Option<String>,
    pub level: String,
    pub msg: String,
    pub request_id: Option<String>,
    pub uri: Option<String>,
    pub method: Option<String>,
    pub status: Option<u16>,
    pub latency_human: Option<String>,
    pub sql: Option<String>,
    pub elapsed: Option<String>,
    pub rows_affected: Option<i64>,
    pub err: Option<String>,
    pub func: Option<String>,
    pub office_id: Option<i64>,
    pub user_id: Option<i64>,
    pub request_body: Option<String>,
    pub response_body: Option<String>,
    pub extra: Vec<(String, String)>,
}

/// Severity of a service-log line.
#[derive(Debug, Clone, Copy, PartialEq, Eq, Structural, PartialOrd, Ord)]
pub enum LogLevel {
    Debug,
    Info,
    Warn,
    Error,
}

/// Aggregated scenario counts parsed from one runner summary line.
#[derive(Debug, Clone)]
pub struct KarateTestResult {
    pub total_scenarios: u32,
    pub passed: u32,
    pub failed: u32,
}

/// Details of one failed test, as mined from runner output.
#[derive(Debug, Clone)]
pub struct KarateFailure {
    pub feature_file: String,
    pub line_number: u32,
    pub assertion: String,
    pub url: Option<String>,
    pub expected: Option<String>,
    pub actual: Option<String>,
    pub response: Option<String>,
}

/// Category of one output line.
#[derive(Debug, Clone, Copy, PartialEq, Eq, Structural)]
pub enum LogType {
    ApiRequest,
    ApiSql,
    ApiError,
    ApiBodyDump,
    ApiGeneral,
    KarateScenarioStart,
    KarateScenarioEnd,
    KarateFailure,
    KarateInfo,
    KarateSummary,
}

impl LogLevel {
    /// Severity denoted by `s`, compared ASCII-case-insensitively; anything
    /// unrecognized reads as `Info`.
    pub open spec fn from_chars(s: Seq<char>) -> LogLevel {
        let u = upper_seq(s);
        if u == "DEBUG"@ {
            LogLevel::Debug
        } else if u == "INFO"@ {
            LogLevel::Info
        } else if u == "WARN"@ || u == "WARNING"@ {
            LogLevel::Warn
        } else if u == "ERROR"@ {
            LogLevel::Error
        } else {
            LogLevel::Info
        }
    }

    /// Parses a severity name.
    pub fn from_str(s: &str) -> (r: LogLevel)
        ensures
            r == LogLevel::from_chars(s@),
    {
        let v = chars_of(s);
        let u = to_upper_chars(v.as_slice());
        if chars_eq(u.as_slice(), chars_of("DEBUG").as_slice()) {
            LogLevel::Debug
        } else if chars_eq(u.as_slice(), chars_of("INFO").as_slice()) {
            LogLevel::Info
        } else if chars_eq(u.as_slice(), chars_of("WARN").as_slice()) || chars_eq(
            u.as_slice(),
            chars_of("WARNING").as_slice(),
        ) {
            LogLevel::Warn
        } else if chars_eq(u.as_slice(), chars_of("ERROR").as_slice()) {
            LogLevel::Error
        } else {
            LogLevel::Info
        }
    }

    /// Rank used to compare severities: `Debug < Info < Warn < Error`.
    pub open spec fn rank_spec(self) -> int {
        match self {
            LogLevel::Debug => 0,
            LogLevel::Info => 1,
            LogLevel::Warn => 2,
            LogLevel::Error => 3,
        }
    }

    /// Severity rank, for threshold filtering.
    pub fn rank(self) -> (r: u8)
        ensures
            r as int == self.rank_spec(),
    {
        match self {
            LogLevel::Debug => 0,
            LogLevel::Info => 1,
            LogLevel::Warn => 2,
            LogLevel::Error => 3,
        }
    }
}

impl ApiLogEntry {
    /// Category of a service-log record, in precedence order: an SQL-related
    /// line that is error-level is an error; an SQL line is a query; a
    /// body-dump marker; the terminal request summary; any other error-level
    /// line; otherwise general output.
    pub open spec fn log_type_spec(&self) -> LogType {
        if has_sub(self.msg@, "SQL"@) || self.sql is Some {
            if self.level@ == "ERROR"@ || self.err is Some {
                LogType::ApiError
            } else {
                LogType::ApiSql
            }
        } else if has_sub(self.msg@, "request / response body dump"@) {
            LogType::ApiBodyDump
        } else if self.msg@ == "REQUEST"@ {
            LogType::ApiRequest
        } else if self.level@ == "ERROR"@ {
            LogType::ApiError
        } else {
            LogType::ApiGeneral
        }
    }

    /// Classifies this record. The result depends on the record's fields
    /// alone, so classifying an identical record always yields the same
    /// category.
    pub fn log_type(&self) -> (t: LogType)
        ensures
            t == self.log_type_spec(),
    {
        let msg = chars_of(self.msg.as_str());
        if contains_sub(msg.as_slice(), chars_of("SQL").as_slice()) || self.sql.is_some() {
            if str_eq(self.level.as_str(), "ERROR") || self.err.is_some() {
                LogType::ApiError
            } else {
                LogType::ApiSql
            }
        } else if contains_sub(
            msg.as_slice(),
            chars_of("request / response body dump").as_slice(),
        ) {
            LogType::ApiBodyDump
        } else if str_eq(self.msg.as_str(), "REQUEST") {
            LogType::ApiRequest
        } else if str_eq(self.level.as_str(), "ERROR") {
            LogType::ApiError
        } else {
            LogType::ApiGeneral
        }
    }

    /// Severity of this record.
    pub fn log_level(&self) -> (r: LogLevel)
        ensures
            r == LogLevel::from_chars(self.level@),
    {
        LogLevel::from_str(self.level.as_str())
    }

    /// Whether this record is the terminal request summary: the one record
    /// per request carrying the final status together with the URI.
    pub open spec fn is_request_summary_spec(&self) -> bool {
        self.msg@ == "REQUEST"@ && self.status is Some
    }

    /// Whether this record is the terminal request summary.
    pub fn is_request_summary(&self) -> (r: bool)
        ensures
            r == self.is_request_summary_spec(),
    {
        str_eq(self.msg.as_str(), "REQUEST") && self.status.is_some()
    }

    /// The URI with query string, for correlation.
    pub fn get_full_uri(&self) -> (r: Option<String>)
        ensures
            r == self.uri,
    {
        clone_opt_string(&self.uri)
    }

    /// Timestamp of this record as microseconds since the Unix epoch, when
    /// the `time` field parses as an RFC 3339 date-time.
    pub fn parse_time(&self) -> (r: Option<i64>)
        ensures
            r == match self.time {
                Some(t) => utc_micros_of(t@),
                None => None::<i64>,
            },
    {
        match &self.time {
            Some(t) => parse_rfc3339_micros(t.as_str()),
            None => None,
        }
    }
}

/// Microseconds since the Unix epoch denoted by an RFC 3339 date-time
/// string, or nothing when the string does not parse as one.
pub uninterp spec fn utc_micros_of(s: Seq<char>) -> Option<i64>;

/// Relies on chrono's `DateTime<Utc>` string parsing (RFC 3339) and
/// `timestamp_micros`: the result depends on the characters alone, and
/// `timestamp_micros` cannot overflow within chrono's representable years.
#[verifier::external_body]
fn parse_rfc3339_micros(s: &str) -> (r: Option<i64>)
    ensures
        r == utc_micros_of(s@),
{
    s.parse::<chrono::DateTime<chrono::Utc>>().ok().map(|d| d.timestamp_micros())
}

/// Clones an optional string.
pub fn clone_opt_string(o: &Option<String>) -> (r: Option<String>)
    ensures
        r == *o,
{
    match o {
        Some(s) => Some(s.clone()),
        None => None,
    }
}

/// Category of one test-runner output line, judged on the line with ASCII
/// whitespace trimmed from both ends: a line carrying all three scenario
/// counters is a summary; a status-code mismatch is a failure; a scenario or
/// feature marker starts a scenario (or is a failure when it says so); a
/// features or elapsed label is a summary; anything else is informational.
pub open spec fn karate_line_type(line: Seq<char>) -> LogType {
    let t = trim_spec(line);
    if has_sub(t, "scenarios:"@) && has_sub(t, "passed:"@) && has_sub(t, "failed:"@) {
        LogType::KarateSummary
    } else if has_sub(t, "status code was:"@) && has_sub(t, "expected:"@) {
        LogType::KarateFailure
    } else if starts_with(t, "Scenario:"@) || has_sub(t, ".feature:"@) {
        if has_sub(t, "failed"@) {
            LogType::KarateFailure
        } else {
            LogType::KarateScenarioStart
        }
    } else if starts_with(t, "features:"@) || starts_with(t, "elapsed:"@) {
        LogType::KarateSummary
    } else {
        LogType::KarateInfo
    }
}

/// Classifies one test-runner output line.
pub fn parse_karate_line(line: &str) -> (t: LogType)
    ensures
        t == karate_line_type(line@),
{
    let v = chars_of(line);
    let tr = trimmed(v.as_slice());
    if contains_sub(tr, chars_of("scenarios:").as_slice()) && contains_sub(
        tr,
        chars_of("passed:").as_slice(),
    ) && contains_sub(tr, chars_of("failed:").as_slice()) {
        return LogType::KarateSummary;
    }
    if contains_sub(tr, chars_of("status code was:").as_slice()) && contains_sub(
        tr,
        chars_of("expected:").as_slice(),
    ) {
        return LogType::KarateFailure;
    }
    if begins_with(tr, chars_of("Scenario:").as_slice()) || contains_sub(
        tr,
        chars_of(".feature:").as_slice(),
    ) {
        if contains_sub(tr, chars_of("failed").as_slice()) {
            return LogType::KarateFailure;
        }
        return LogType::KarateScenarioStart;
    }
    if begins_with(tr, chars_of("features:").as_slice()) || begins_with(
        tr,
        chars_of("elapsed:").as_slice(),
    ) {
        return LogType::KarateSummary;
    }
    LogType::KarateInfo
}

/// The three digit groups of a summary pattern anchored at `i`: after the
/// `scenarios:` label come spaces, digits, spaces, a bar, and likewise for
/// `passed:` and `failed:`; each group is the maximal digit run after its
/// label and must be non-empty.
pub open spec fn summary_groups_at(s: Seq<char>, i: int) -> Option<
    (Seq<char>, Seq<char>, Seq<char>),
> {
    if !contains_at(s, "scenarios:"@, i) {
        None
    } else {
        let p1 = skip_spaces_spec(s, i + "scenarios:"@.len());
        let e1 = digit_run_end_spec(s, p1);
        if e1 == p1 {
            None
        } else {
            let p2 = skip_spaces_spec(s, e1);
            if p2 >= s.len() || s[p2] != '|' {
                None
            } else {
                let p3 = skip_spaces_spec(s, p2 + 1);
                if !contains_at(s, "passed:"@, p3) {
                    None
                } else {
                    let p4 = skip_spaces_spec(s, p3 + "passed:"@.len());
                    let e2 = digit_run_end_spec(s, p4);
                    if e2 == p4 {
                        None
                    } else {
                        let p5 = skip_spaces_spec(s, e2);
                        if p5 >= s.len() || s[p5] != '|' {
                            None
                        } else {
                            let p6 = skip_spaces_spec(s, p5 + 1);
                            if !contains_at(s, "failed:"@, p6) {
                                None
                            } else {
                                let p7 = skip_spaces_spec(s, p6 + "failed:"@.len());
                                let e3 = digit_run_end_spec(s, p7);
                                if e3 == p7 {
                                    None
                                } else {
                                    Some(
                                        (
                                            s.subrange(p1, e1),
                                            s.subrange(p4, e2),
                                            s.subrange(p7, e3),
                                        ),
                                    )
                                }
                            }
                        }
                    }
                }
            }
        }
    }
}

/// Position of the leftmost summary pattern match at or after `i`, if any.
pub open spec fn find_summary_from(s: Seq<char>, i: int) -> Option<int>
    decreases s.len() - i when 0 <= i <= s.len() && "scenarios:"@.len() > 0
{
    if i + "scenarios:"@.len() > s.len() {
        None
    } else if summary_groups_at(s, i) is Some {
        Some(i)
    } else {
        find_summary_from(s, i + 1)
    }
}

/// The digit groups of the leftmost summary pattern in `line`, if any.
pub open spec fn summary_groups(line: Seq<char>) -> Option<(Seq<char>, Seq<char>, Seq<char>)> {
    match find_summary_from(line, 0) {
        Some(i) => summary_groups_at(line, i),
        None => None,
    }
}

/// The three scenario counters of the leftmost summary pattern, when every
/// group fits a `u32`.
pub open spec fn summary_value(line: Seq<char>) -> Option<(u32, u32, u32)> {
    match summary_groups(line) {
        Some((d1, d2, d3)) => match (parsed_u32(d1), parsed_u32(d2), parsed_u32(d3)) {
            (Some(a), Some(b), Some(c)) => Some((a, b, c)),
            _ => None,
        },
        None => None,
    }
}

/// Checks the summary pattern anchored at `i` and returns the index ranges
/// of its three digit groups.
fn try_summary_at(s: &[char], i: usize) -> (r: Option<(usize, usize, usize, usize, usize, usize)>)
    requires
        i <= s@.len(),
    ensures
        match r {
            None => summary_groups_at(s@, i as int) is None,
            Some((p1, e1, p4, e2, p7, e3)) => {
                &&& summary_groups_at(s@, i as int) == Some(
                    (
                        s@.subrange(p1 as int, e1 as int),
                        s@.subrange(p4 as int, e2 as int),
                        s@.subrange(p7 as int, e3 as int),
                    ),
                )
                &&& p1 < e1 <= s@.len()
                &&& p4 < e2 <= s@.len()
                &&& p7 < e3 <= s@.len()
                &&& (forall|j: int| p1 <= j < e1 ==> is_digit(s@[j]))
                &&& (forall|j: int| p4 <= j < e2 ==> is_digit(s@[j]))
                &&& (forall|j: int| p7 <= j < e3 ==> is_digit(s@[j]))
            },
        },
{
    let n = s.len();
    let lit_scen = chars_of("scenarios:");
    if lit_scen.len() > n - i {
        return None;
    }
    if !match_at(s, lit_scen.as_slice(), i) {
        return None;
    }
    let p1 = skip_spaces(s, i + lit_scen.len());
    let e1 = digit_run_end(s, p1);
    if e1 == p1 {
        return None;
    }
    let p2 = skip_spaces(s, e1);
    if p2 >= n {
        return None;
    }
    if s[p2] != '|' {
        return None;
    }
    let p3 = skip_spaces(s, p2 + 1);
    let lit_pass = chars_of("passed:");
    if lit_pass.len() > n - p3 {
        return None;
    }
    if !match_at(s, lit_pass.as_slice(), p3) {
        return None;
    }
    let p4 = skip_spaces(s, p3 + lit_pass.len());
    let e2 = digit_run_end(s, p4);
    if e2 == p4 {
        return None;
    }
    let p5 = skip_spaces(s, e2);
    if p5 >= n {
        return None;
    }
    if s[p5] != '|' {
        return None;
    }
    let p6 = skip_spaces(s, p5 + 1);
    let lit_fail = chars_of("failed:");
    if lit_fail.len() > n - p6 {
        return None;
    }
    if !match_at(s, lit_fail.as_slice(), p6) {
        return None;
    }
    let p7 = skip_spaces(s, p6 + lit_fail.len());
    let e3 = digit_run_end(s, p7);
    if e3 == p7 {
        return None;
    }
    proof {
        lemma_digit_run_bounds(s@, p1 as int);
        lemma_digit_run_bounds(s@, p4 as int);
        lemma_digit_run_bounds(s@, p7 as int);
    }
    Some((p1, e1, p4, e2, p7, e3))
}

/// Extracts the three scenario counters from the leftmost summary pattern of
/// a runner summary line; a group whose value does not fit `u32` makes the
/// whole extraction fail.
pub fn parse_karate_summary(line: &str) -> (r: Option<KarateTestResult>)
    ensures
        match summary_value(line@) {
            Some(t) => r matches Some(k) && k.total_scenarios == t.0 && k.passed == t.1
                && k.failed == t.2,
            None => r is None,
        },
{
    proof {
        reveal_strlit("scenarios:");
    }
    let v = chars_of(line);
    let s = v.as_slice();
    let n = s.len();
    let m: usize = 10;
    if n < m {
        return None;
    }
    let last = n - m;
    let mut i: usize = 0;
    while i <= last
        invariant
            v@ == line@,
            s@ == line@,
            "scenarios:"@.len() == 10,
            n == line@.len(),
            m == 10,
            n >= m,
            last == n - m,
            i <= last + 1,
            find_summary_from(line@, 0) == find_summary_from(line@, i as int),
        decreases last - i + 1,
    {
        match try_summary_at(s, i) {
            Some((p1, e1, p4, e2, p7, e3)) => {
                let a = parse_u32_range(s, p1, e1);
                let b = parse_u32_range(s, p4, e2);
                let c = parse_u32_range(s, p7, e3);
                return match (a, b, c) {
                    (Some(x), Some(y), Some(z)) => Some(
                        KarateTestResult { total_scenarios: x, passed: y, failed: z },
                    ),
                    _ => None,
                };
            },
            None => {
                i += 1;
            },
        }
    }
    None
}

/// The URL token of a failure pattern anchored at `i`: after the `url:`
/// label come spaces, then an `http://` or `https://` scheme and the
/// non-empty run of characters up to the first space or comma.
pub open spec fn url_group_at(s: Seq<char>, i: int) -> Option<Seq<char>> {
    if !contains_at(s, "url:"@, i) {
        None
    } else {
        let p = skip_spaces_spec(s, i + "url:"@.len());
        if contains_at(s, "https://"@, p) {
            url_group_from(s, p, p + "https://"@.len())
        } else if contains_at(s, "http://"@, p) {
            url_group_from(s, p, p + "http://"@.len())
        } else {
            None
        }
    }
}

/// The URL token running from scheme start `p`, whose scheme ends at `q`.
pub open spec fn url_group_from(s: Seq<char>, p: int, q: int) -> Option<Seq<char>> {
    let e = token_end_spec(s, q);
    if e == q {
        None
    } else {
        Some(s.subrange(p, e))
    }
}

/// Position of the leftmost URL pattern match at or after `i`, if any.
pub open spec fn find_url_from(s: Seq<char>, i: int) -> Option<int>
    decreases s.len() - i when 0 <= i <= s.len() && "url:"@.len() > 0
{
    if i + "url:"@.len() > s.len() {
        None
    } else if url_group_at(s, i) is Some {
        Some(i)
    } else {
        find_url_from(s, i + 1)
    }
}

/// The URL token of the leftmost URL pattern in `line`, if any.
pub open spec fn failure_url_spec(line: Seq<char>) -> Option<Seq<char>> {
    match find_url_from(line, 0) {
        Some(i) => url_group_at(line, i),
        None => None,
    }
}

/// Checks the URL pattern anchored at `i` and returns the index range of its
/// URL token.
fn try_url_at(s: &[char], i: usize) -> (r: Option<(usize, usize)>)
    requires
        i <= s@.len(),
    ensures
        match r {
            None => url_group_at(s@, i as int) is None,
            Some((p, e)) => {
                &&& url_group_at(s@, i as int) == Some(s@.subrange(p as int, e as int))
                &&& p < e <= s@.len()
            },
        },
{
    let n = s.len();
    let lit_url = chars_of("url:");
    if lit_url.len() > n - i {
        return None;
    }
    if !match_at(s, lit_url.as_slice(), i) {
        return None;
    }
    let p = skip_spaces(s, i + lit_url.len());
    let lit_https = chars_of("https://");
    let lit_http = chars_of("http://");
    let q: usize = if lit_https.len() <= n - p && match_at(s, lit_https.as_slice(), p) {
        p + lit_https.len()
    } else if lit_http.len() <= n - p && match_at(s, lit_http.as_slice(), p) {
        p + lit_http.len()
    } else {
        return None;
    };
    let e = token_end(s, q);
    if e == q {
        return None;
    }
    Some((p, e))
}

/// Extracts the failure URL from a runner failure line: the token after the
/// `url:` label, when it begins with an HTTP scheme.
pub fn extract_failure_url(line: &str) -> (r: Option<String>)
    ensures
        match failure_url_spec(line@) {
            None => r is None,
            Some(g) => r matches Some(u) && u@ == g,
        },
{
    proof {
        reveal_strlit("url:");
    }
    let v = chars_of(line);
    let s = v.as_slice();
    let n = s.len();
    let m: usize = 4;
    if n < m {
        return None;
    }
    let last = n - m;
    let mut i: usize = 0;
    while i <= last
        invariant
            v@ == line@,
            s@ == line@,
            "url:"@.len() == 4,
            n == line@.len(),
            m == 4,
            n >= m,
            last == n - m,
            i <= last + 1,
            find_url_from(line@, 0) == find_url_from(line@, i as int),
        decreases last - i + 1,
    {
        match try_url_at(s, i) {
            Some((p, e)) => {
                return Some(string_of(slice_subrange(s, p, e)));
            },
            None => {
                i += 1;
            },
        }
    }
    None
}

/// The feature-file name carried by a runner line: the text after the first
/// `feature:` label, trimmed, when the line also mentions a feature file.
pub open spec fn feature_name_spec(line: Seq<char>) -> Option<Seq<char>> {
    if has_sub(line, "feature:"@) && has_sub(line, ".feature"@) {
        match first_sub_idx(line, "feature:"@, 0) {
            Some(i) => Some(trim_spec(line.subrange(i + "feature:"@.len(), line.len() as int))),
            None => None,
        }
    } else {
        None
    }
}

/// Extracts the feature-file name a runner line announces, if any.
pub fn extract_feature_name(line: &str) -> (r: Option<String>)
    ensures
        match feature_name_spec(line@) {
            None => r is None,
            Some(g) => r matches Some(u) && u@ == g,
        },
{
    let v = chars_of(line);
    let s = v.as_slice();
    let lit = chars_of("feature:");
    if contains_sub(s, lit.as_slice()) && contains_sub(s, chars_of(".feature").as_slice()) {
        match find_sub(s, lit.as_slice()) {
            Some(i) => {
                let rest = slice_subrange(s, i + lit.len(), s.len());
                Some(string_of(trimmed(rest)))
            },
            None => None,
        }
    } else {
        None
    }
}

/// The text after the last slash of a feature path, or the whole path when
/// it has no slash.
pub open spec fn short_name_spec(name: Seq<char>) -> Seq<char> {
    match last_char_idx(name, '/', name.len() as int) {
        Some(i) => name.subrange(i + 1, name.len() as int),
        None => name,
    }
}

/// Shortens a feature path to its last segment.
pub fn short_feature_name(name: &str) -> (r: String)
    ensures
        r@ == short_name_spec(name@),
{
    let v = chars_of(name);
    let s = v.as_slice();
    match rfind_char(s, '/') {
        Some(i) => string_of(slice_subrange(s, i + 1, s.len())),
        None => string_of(s),
    }
}

/// A line tagged as part of a background batch job's logging.
pub open spec fn is_batch_line_spec(line: Seq<char>) -> bool {
    has_char(line, '\u{1f4e6}')
}

/// Whether a runner line carries the batch-job marker.
pub fn is_batch_line(line: &str) -> (r: bool)
    ensures
        r == is_batch_line_spec(line@),
{
    let v = chars_of(line);
    match find_char(v.as_slice(), '\u{1f4e6}') {
        Some(_) => true,
        None => false,
    }
}

/// The structured part of a line: everything from the first opening brace.
pub open spec fn json_part_spec(line: Seq<char>) -> Option<Seq<char>> {
    match first_char_idx(line, '{', 0) {
        Some(i) => Some(line.subrange(i, line.len() as int)),
        None => None,
    }
}

/// Cuts a line down to its structured part, from the first opening brace.
pub fn json_part_of(line: &str) -> (r: Option<String>)
    ensures
        match json_part_spec(line@) {
            None => r is None,
            Some(g) => r matches Some(u) && u@ == g,
        },
{
    let v = chars_of(line);
    let s = v.as_slice();
    match find_char(s, '{') {
        Some(i) => Some(string_of(slice_subrange(s, i, s.len()))),
        None => None,
    }
}

/// Whether `needle` occurs in `line`.
pub fn line_has(line: &str, needle: &str) -> (r: bool)
    ensures
        r == has_sub(line@, needle@),
{
    let v = chars_of(line);
    let w = chars_of(needle);
    contains_sub(v.as_slice(), w.as_slice())
}

/// A per-feature scenario summary line: it carries scenario, pass and time
/// counters but is not the thread-summary line.
pub open spec fn per_feature_summary_spec(line: Seq<char>) -> bool {
    &&& has_sub(line, "scenarios:"@)
    &&& has_sub(line, "passed:"@)
    &&& has_sub(line, "time:"@)
    &&& !has_sub(line, "threads"@)
}

/// Whether a runner line is a per-feature scenario summary.
pub fn is_per_feature_summary(line: &str) -> (r: bool)
    ensures
        r == per_feature_summary_spec(line@),
{
    let v = chars_of(line);
    let s = v.as_slice();
    contains_sub(s, chars_of("scenarios:").as_slice()) && contains_sub(
        s,
        chars_of("passed:").as_slice(),
    ) && contains_sub(s, chars_of("time:").as_slice()) && !contains_sub(
        s,
        chars_of("threads").as_slice(),
    )
}

/// A summary line reporting zero failures, under either spacing the runner
/// prints.
pub open spec fn summary_all_passed_spec(line: Seq<char>) -> bool {
    has_sub(line, "failed:  0"@) || has_sub(line, "failed: 0"@)
}

/// Whether a per-feature summary line reports zero failures.
pub fn feature_summary_all_passed(line: &str) -> (r: bool)
    ensures
        r == summary_all_passed_spec(line@),
{
    let v = chars_of(line);
    let s = v.as_slice();
    contains_sub(s, chars_of("failed:  0").as_slice()) || contains_sub(
        s,
        chars_of("failed: 0").as_slice(),
    )
}

/// Path and query denoted by a URL string: what url's parser yields when the
/// string parses as an absolute URL — the normalized path, then `?` and the
/// query when one is present. Nothing when the string does not parse.
pub uninterp spec fn url_path_query_of(url: Seq<char>) -> Option<Seq<char>>;

/// Relies on `url::Url::parse` and the `path()` and `query()` accessors of
/// the parsed URL: the result depends on the URL string alone.
#[verifier::external_body]
pub fn extract_path_query(url: &str) -> (r: Option<String>)
    ensures
        r.deep_view() == url_path_query_of(url@),
{
    match url::Url::parse(url) {
        Ok(u) => match u.query() {
            Some(q) => Some(format!("{}?{}", u.path(), q)),
            None => Some(u.path().to_string()),
        },
        Err(_) => None,
    }
}

impl Default for ApiLogEntry {
    /// The empty record: severity reads as informational, every other field
    /// absent or empty.
    fn default() -> (r: ApiLogEntry)
        ensures
            r.time is None,
            r.level@ == "INFO"@,
            r.msg@ == Seq::<char>::empty(),
            r.request_id is None,
            r.uri is None,
            r.method is None,
            r.status is None,
            r.latency_human is None,
            r.sql is None,
            r.elapsed is None,
            r.rows_affected is None,
            r.err is None,
            r.func is None,
            r.office_id is None,
            r.user_id is None,
            r.request_body is None,
            r.response_body is None,
            r.extra@.len() == 0,
    {
        ApiLogEntry {
            time: None,
            level: "INFO".to_owned(),
            msg: String::new(),
            request_id: None,
            uri: None,
            method: None,
            status: None,
            latency_human: None,
            sql: None,
            elapsed: None,
            rows_affected: None,
            err: None,
            func: None,
            office_id: None,
            user_id: None,
            request_body: None,
            response_body: None,
            extra: Vec::new(),
        }
    }
}

/// Classification is a pure function of a record's fields: two records with
/// equal fields always classify alike, however often they are classified.
pub proof fn lemma_classification_deterministic(a: &ApiLogEntry, b: &ApiLogEntry)
    requires
        a.msg@ == b.msg@,
        a.level@ == b.level@,
        a.sql is Some <==> b.sql is Some,
        a.err is Some <==> b.err is Some,
    ensures
        a.log_type_spec() == b.log_type_spec(),
{
}

/// Classifying the same runner line twice always yields the same category.
pub proof fn lemma_karate_classification_deterministic(a: Seq<char>, b: Seq<char>)
    requires
        a == b,
    ensures
        karate_line_type(a) == karate_line_type(b),
{
}

} // verus!
