//! Filtering of service-log records by severity threshold and by
//! user-configured regular-expression patterns.
//!
//! Patterns are kept as their source strings; only patterns that compile are
//! retained, as the constructor's contract states. Matching itself is the
//! regex crate's, behind trusted declarations.

use vstd::prelude::*;
use vstd::string::StringExecFns;

use crate::log_parser::{ApiLogEntry, LogLevel};
use crate::text::{chars_of, upper_seq};

verus! {

/// Whether a pattern compiles as a regular expression (with the regex
/// crate's default settings); a function of the pattern alone.
pub uninterp spec fn regex_valid(pattern: Seq<char>) -> bool;

/// Whether a valid pattern matches somewhere in a text; a function of the
/// pattern and the text alone.
pub uninterp spec fn regex_match(pattern: Seq<char>, text: Seq<char>) -> bool;

/// Relies on `regex::Regex::new`: whether a pattern compiles depends on the
/// pattern alone.
#[verifier::external_body]
fn regex_is_valid(pattern: &str) -> (r: bool)
    ensures
        r == regex_valid(pattern@),
{
    regex::Regex::new(pattern).is_ok()
}

/// Relies on `regex::Regex::new` and `Regex::is_match`: whether a valid
/// pattern matches depends on the pattern and the text alone.
#[verifier::external_body]
fn regex_is_match(pattern: &str, text: &str) -> (r: bool)
    requires
        regex_valid(pattern@),
    ensures
        r == regex_match(pattern@, text@),
{
    match regex::Regex::new(pattern) {
        Ok(re) => re.is_match(text),
        Err(_) => false,
    }
}

/// The severity threshold a configuration string denotes; `ALL` or anything
/// unrecognized means no threshold.
pub open spec fn level_threshold_spec(s: Seq<char>) -> Option<LogLevel> {
    let u = upper_seq(s);
    if u == "DEBUG"@ {
        Some(LogLevel::Debug)
    } else if u == "INFO"@ {
        Some(LogLevel::Info)
    } else if u == "WARN"@ {
        Some(LogLevel::Warn)
    } else if u == "ERROR"@ {
        Some(LogLevel::Error)
    } else {
        None
    }
}

/// The patterns of `ps` that compile, in order.
pub open spec fn valid_patterns(ps: Seq<String>) -> Seq<String>
    decreases ps.len(),
{
    if ps.len() == 0 {
        Seq::empty()
    } else {
        let rest = valid_patterns(ps.drop_last());
        if regex_valid(ps.last()@) {
            rest.push(ps.last())
        } else {
            rest
        }
    }
}

pub proof fn lemma_valid_patterns_valid(ps: Seq<String>)
    ensures
        forall|j: int|
            0 <= j < valid_patterns(ps).len() ==> regex_valid(
                (#[trigger] valid_patterns(ps)[j])@,
            ),
    decreases ps.len(),
{
    if ps.len() > 0 {
        lemma_valid_patterns_valid(ps.drop_last());
        let rest = valid_patterns(ps.drop_last());
        if regex_valid(ps.last()@) {
            assert forall|j: int|
                0 <= j < valid_patterns(ps).len() implies regex_valid(
                (#[trigger] valid_patterns(ps)[j])@,
            ) by {
                if j < rest.len() {
                    assert(valid_patterns(ps)[j] == rest[j]);
                } else {
                    assert(valid_patterns(ps)[j] == ps.last());
                }
            }
        }
    }
}

proof fn lemma_valid_patterns_take_step(ps: Seq<String>, i: int)
    requires
        0 <= i < ps.len(),
    ensures
        valid_patterns(ps.take(i + 1)) == if regex_valid(ps[i]@) {
            valid_patterns(ps.take(i)).push(ps[i])
        } else {
            valid_patterns(ps.take(i))
        },
{
    assert(ps.take(i + 1).drop_last() =~= ps.take(i));
    assert(ps.take(i + 1).last() == ps[i]);
}

/// Keeps the patterns that compile, in order.
fn compile_patterns(ps: &[String]) -> (r: Vec<String>)
    ensures
        r@ == valid_patterns(ps@),
{
    let n = ps.len();
    let mut r: Vec<String> = Vec::new();
    let mut i: usize = 0;
    while i < n
        invariant
            i <= n,
            n == ps@.len(),
            r@ == valid_patterns(ps@.take(i as int)),
        decreases n - i,
    {
        if regex_is_valid(ps[i].as_str()) {
            r.push(ps[i].clone());
        }
        proof {
            lemma_valid_patterns_take_step(ps@, i as int);
        }
        i += 1;
    }
    proof {
        assert(ps@.take(n as int) =~= ps@);
    }
    r
}

/// A severity threshold with include and exclude patterns.
pub struct LogFilter {
    pub level: Option<LogLevel>,
    pub include_patterns: Vec<String>,
    pub exclude_patterns: Vec<String>,
}

/// The text a record is matched against: message, URI, SQL and error text,
/// space-separated, absent fields reading as empty.
pub open spec fn searchable_spec(e: &ApiLogEntry) -> Seq<char> {
    e.msg@ + " "@ + opt_text(e.uri) + " "@ + opt_text(e.sql) + " "@ + opt_text(e.err)
}

/// The characters of an optional string, empty when absent.
pub open spec fn opt_text(o: Option<String>) -> Seq<char> {
    match o {
        Some(s) => s@,
        None => Seq::empty(),
    }
}

/// Builds the text a record is matched against.
fn searchable_text(e: &ApiLogEntry) -> (r: String)
    ensures
        r@ == searchable_spec(e),
{
    let mut t = e.msg.clone();
    t.append(" ");
    match &e.uri {
        Some(u) => t.append(u.as_str()),
        None => {},
    }
    t.append(" ");
    match &e.sql {
        Some(u) => t.append(u.as_str()),
        None => {},
    }
    t.append(" ");
    match &e.err {
        Some(u) => t.append(u.as_str()),
        None => {},
    }
    proof {
        assert(t@ =~= searchable_spec(e));
    }
    t
}

impl LogFilter {
    /// Every kept pattern compiles.
    pub open spec fn wf(&self) -> bool {
        &&& forall|j: int|
            0 <= j < self.include_patterns@.len() ==> regex_valid(
                (#[trigger] self.include_patterns@[j])@,
            )
        &&& forall|j: int|
            0 <= j < self.exclude_patterns@.len() ==> regex_valid(
                (#[trigger] self.exclude_patterns@[j])@,
            )
    }

    /// Builds a filter from a severity name and pattern lists; patterns that
    /// do not compile are dropped.
    pub fn new(level: &str, includes: &[String], excludes: &[String]) -> (r: LogFilter)
        ensures
            r.wf(),
            r.level == level_threshold_spec(level@),
            r.include_patterns@ == valid_patterns(includes@),
            r.exclude_patterns@ == valid_patterns(excludes@),
    {
        let v = chars_of(level);
        let u = crate::text::to_upper_chars(v.as_slice());
        let lvl: Option<LogLevel> = if crate::text::chars_eq(
            u.as_slice(),
            chars_of("DEBUG").as_slice(),
        ) {
            Some(LogLevel::Debug)
        } else if crate::text::chars_eq(u.as_slice(), chars_of("INFO").as_slice()) {
            Some(LogLevel::Info)
        } else if crate::text::chars_eq(u.as_slice(), chars_of("WARN").as_slice()) {
            Some(LogLevel::Warn)
        } else if crate::text::chars_eq(u.as_slice(), chars_of("ERROR").as_slice()) {
            Some(LogLevel::Error)
        } else {
            None
        };
        let include_patterns = compile_patterns(includes);
        let exclude_patterns = compile_patterns(excludes);
        proof {
            lemma_valid_patterns_valid(includes@);
            lemma_valid_patterns_valid(excludes@);
        }
        LogFilter { level: lvl, include_patterns, exclude_patterns }
    }

    /// Whether a text passes the pattern rules: any exclude match rejects
    /// it; with include patterns present, some include pattern must match.
    pub open spec fn patterns_pass_spec(&self, text: Seq<char>) -> bool {
        if exists|i: int|
            0 <= i < self.exclude_patterns@.len() && regex_match(
                (#[trigger] self.exclude_patterns@[i])@,
                text,
            ) {
            false
        } else if self.include_patterns@.len() > 0 {
            exists|i: int|
                0 <= i < self.include_patterns@.len() && regex_match(
                    (#[trigger] self.include_patterns@[i])@,
                    text,
                )
        } else {
            true
        }
    }

    /// Whether a record is shown: its severity must reach the threshold and
    /// its searchable text must pass the pattern rules.
    pub open spec fn include_api_spec(&self, e: &ApiLogEntry) -> bool {
        if (match self.level {
            Some(min) => LogLevel::from_chars(e.level@).rank_spec() < min.rank_spec(),
            None => false,
        }) {
            false
        } else {
            self.patterns_pass_spec(searchable_spec(e))
        }
    }

    /// Checks the pattern rules on a text.
    fn patterns_pass(&self, text: &str) -> (r: bool)
        requires
            self.wf(),
        ensures
            r == self.patterns_pass_spec(text@),
    {
        let ne = self.exclude_patterns.len();
        let mut i: usize = 0;
        while i < ne
            invariant
                i <= ne,
                ne == self.exclude_patterns@.len(),
                self.wf(),
                forall|j: int|
                    0 <= j < i ==> !regex_match((#[trigger] self.exclude_patterns@[j])@, text@),
            decreases ne - i,
        {
            if regex_is_match(self.exclude_patterns[i].as_str(), text) {
                proof {
                    assert(regex_match((self.exclude_patterns@[i as int])@, text@));
                }
                return false;
            }
            i += 1;
        }
        let ni = self.include_patterns.len();
        if ni == 0 {
            return true;
        }
        let mut k: usize = 0;
        while k < ni
            invariant
                k <= ni,
                ni == self.include_patterns@.len(),
                self.wf(),
                forall|j: int|
                    0 <= j < self.exclude_patterns@.len() ==> !regex_match(
                        (#[trigger] self.exclude_patterns@[j])@,
                        text@,
                    ),
                forall|j: int|
                    0 <= j < k ==> !regex_match((#[trigger] self.include_patterns@[j])@, text@),
            decreases ni - k,
        {
            if regex_is_match(self.include_patterns[k].as_str(), text) {
                proof {
                    assert(regex_match((self.include_patterns@[k as int])@, text@));
                }
                return true;
            }
            k += 1;
        }
        false
    }

    /// Decides whether a record is shown.
    pub fn should_include_api(&self, entry: &ApiLogEntry) -> (r: bool)
        requires
            self.wf(),
        ensures
            r == self.include_api_spec(entry),
    {
        match self.level {
            Some(min) => {
                if entry.log_level().rank() < min.rank() {
                    return false;
                }
            },
            None => {},
        }
        let text = searchable_text(entry);
        self.patterns_pass(text.as_str())
    }

    /// Whether a raw line passes the pattern rules (no severity applies).
    pub open spec fn include_line_spec(&self, line: Seq<char>) -> bool {
        self.patterns_pass_spec(line)
    }

    /// Decides whether a raw line is shown.
    pub fn should_include_line(&self, line: &str) -> (r: bool)
        requires
            self.wf(),
        ensures
            r == self.include_line_spec(line@),
    {
        self.patterns_pass(line)
    }
}

} // verus!
