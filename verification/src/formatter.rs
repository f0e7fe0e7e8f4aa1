//! Rendering of classified lines with colors and prefixes.
//!
//! Which prefix and style a line gets is decided here, with exact contracts;
//! the coloring itself is the colored crate's and depends on the terminal
//! and environment, so nothing is stated of the painted text.

use colored::Colorize;
use vstd::prelude::*;
use vstd::string::StringExecFns;

use crate::config::DisplayConfig;
use crate::log_parser::{line_has, ApiLogEntry, LogLevel, LogType};
use crate::text::{has_sub, i64_to_string, str_eq, u64_to_string};

verus! {

/// Relies on colored's `Colorize::red` and `Display`: styles text for the
/// terminal; the outcome depends on the environment.
#[verifier::external_body]
fn paint_red(s: &str) -> String {
    s.red().to_string()
}

/// Relies on colored's `Colorize::red`, `bold` and `Display`.
#[verifier::external_body]
fn paint_red_bold(s: &str) -> String {
    s.red().bold().to_string()
}

/// Relies on colored's `Colorize::green` and `Display`.
#[verifier::external_body]
fn paint_green(s: &str) -> String {
    s.green().to_string()
}

/// Relies on colored's `Colorize::bright_white` and `Display`.
#[verifier::external_body]
fn paint_bright_white(s: &str) -> String {
    s.bright_white().to_string()
}

/// Relies on colored's `Colorize::bright_white`, `dimmed` and `Display`.
#[verifier::external_body]
fn paint_bright_white_dimmed(s: &str) -> String {
    s.bright_white().dimmed().to_string()
}

/// Relies on colored's `Colorize::bright_black` and `Display`.
#[verifier::external_body]
fn paint_bright_black(s: &str) -> String {
    s.bright_black().to_string()
}

/// Relies on colored's `Colorize::bright_blue` and `Display`.
#[verifier::external_body]
fn paint_bright_blue(s: &str) -> String {
    s.bright_blue().to_string()
}

/// Relies on colored's `Colorize::bright_yellow` and `Display`.
#[verifier::external_body]
fn paint_bright_yellow(s: &str) -> String {
    s.bright_yellow().to_string()
}

/// Relies on colored's `Colorize::bright_yellow`, `bold` and `Display`.
#[verifier::external_body]
fn paint_bright_yellow_bold(s: &str) -> String {
    s.bright_yellow().bold().to_string()
}

/// Relies on colored's `Colorize::bright_green`, `bold` and `Display`.
#[verifier::external_body]
fn paint_bright_green_bold(s: &str) -> String {
    s.bright_green().bold().to_string()
}

/// Relies on colored's `Colorize::bright_cyan` and `Display`.
#[verifier::external_body]
fn paint_bright_cyan(s: &str) -> String {
    s.bright_cyan().to_string()
}

/// Relies on `str::replace`: every occurrence of `from` becomes `to`.
#[verifier::external_body]
fn replace_all(hay: &str, from: &str, to: &str) -> String {
    hay.replace(from, to)
}

/// Renders classified lines for the terminal.
pub struct LogFormatter {
    pub config: DisplayConfig,
    pub show_timestamps: bool,
}

impl LogFormatter {
    /// A formatter for the given display settings.
    pub fn new(config: DisplayConfig) -> (r: LogFormatter)
        ensures
            r.show_timestamps == config.show_timestamps,
            r.config == config,
    {
        let show_timestamps = config.show_timestamps;
        LogFormatter { show_timestamps, config }
    }

    /// The prefix a service-log record is shown with: the error prefix for
    /// errors, the SQL prefix for queries, a document marker for body dumps,
    /// else the error or success prefix by severity.
    pub open spec fn api_prefix_spec(&self, t: LogType, e: &ApiLogEntry) -> Seq<char> {
        match t {
            LogType::ApiError => self.config.error_prefix@,
            LogType::ApiSql => self.config.sql_prefix@,
            LogType::ApiBodyDump => "\u{1f4c4}"@,
            _ => if LogLevel::from_chars(e.level@) == LogLevel::Error {
                self.config.error_prefix@
            } else {
                self.config.success_prefix@
            },
        }
    }

    fn get_api_prefix(&self, t: &LogType, e: &ApiLogEntry) -> (r: String)
        ensures
            r@ == self.api_prefix_spec(*t, e),
    {
        match t {
            LogType::ApiError => self.config.error_prefix.clone(),
            LogType::ApiSql => self.config.sql_prefix.clone(),
            LogType::ApiBodyDump => "\u{1f4c4}".to_owned(),
            _ => {
                if e.log_level().rank() == 3 {
                    proof {
                        assert(LogLevel::from_chars(e.level@) == LogLevel::Error);
                    }
                    self.config.error_prefix.clone()
                } else {
                    self.config.success_prefix.clone()
                }
            },
        }
    }

    /// The prefix a runner line is shown with: the error prefix for failures
    /// and failing summaries, the success prefix for passing summaries, a
    /// diamond marker otherwise.
    pub open spec fn karate_prefix_spec(&self, t: LogType, line: Seq<char>) -> Seq<char> {
        match t {
            LogType::KarateFailure => self.config.error_prefix@,
            LogType::KarateSummary => if has_sub(line, "failed:"@) && !has_sub(line, "failed: 0"@)
                && !has_sub(line, "failed:  0"@) {
                self.config.error_prefix@
            } else {
                self.config.success_prefix@
            },
            _ => "\u{1f536}"@,
        }
    }

    fn get_karate_prefix(&self, t: &LogType, line: &str) -> (r: String)
        ensures
            r@ == self.karate_prefix_spec(*t, line@),
    {
        match t {
            LogType::KarateFailure => self.config.error_prefix.clone(),
            LogType::KarateSummary => {
                if line_has(line, "failed:") && !line_has(line, "failed: 0") && !line_has(
                    line,
                    "failed:  0",
                ) {
                    self.config.error_prefix.clone()
                } else {
                    self.config.success_prefix.clone()
                }
            },
            _ => "\u{1f536}".to_owned(),
        }
    }

    fn format_error_log(&self, json: &str) -> String {
        paint_red(json)
    }

    fn format_sql_log(&self, json: &str, entry: &ApiLogEntry) -> String {
        if entry.err.is_some() || str_eq(entry.level.as_str(), "ERROR") {
            return paint_red(json);
        }
        let mut result = paint_bright_blue(json);
        match &entry.sql {
            Some(sql) => {
                let highlighted = paint_bright_yellow(sql.as_str());
                result = replace_all(result.as_str(), sql.as_str(), highlighted.as_str());
            },
            None => {},
        }
        match entry.rows_affected {
            Some(rows) => {
                let mut token = "\"rows_affected\":".to_owned();
                token.append(i64_to_string(rows).as_str());
                let highlighted = paint_bright_green_bold(token.as_str());
                result = replace_all(result.as_str(), token.as_str(), highlighted.as_str());
            },
            None => {},
        }
        result
    }

    fn format_body_dump(&self, json: &str) -> String {
        paint_green(json)
    }

    fn format_request_log(&self, json: &str, entry: &ApiLogEntry) -> String {
        let mut result = paint_bright_white_dimmed(json);
        match entry.status {
            Some(status) => {
                let mut token = "\"status\":".to_owned();
                token.append(u64_to_string(status as u64).as_str());
                let highlighted = if status >= 400 {
                    paint_red_bold(token.as_str())
                } else {
                    paint_green(token.as_str())
                };
                result = replace_all(result.as_str(), token.as_str(), highlighted.as_str());
            },
            None => {},
        }
        result
    }

    fn format_general_log(&self, json: &str) -> String {
        paint_bright_white_dimmed(json)
    }

    /// Renders a service-log record: its prefix, the service marker, and the
    /// raw line styled by its category. The output begins with the prefix
    /// its category selects, then the service marker and a space; the styled
    /// remainder depends on the terminal.
    pub fn format_api_log(&self, entry: &ApiLogEntry, raw_json: &str) -> (r: String)
        ensures
            ({
                let head = self.api_prefix_spec(entry.log_type_spec(), entry)
                    + self.config.api_prefix@ + " "@;
                r@.len() >= head.len() && r@.take(head.len() as int) == head
            }),
    {
        let log_type = entry.log_type();
        let prefix = self.get_api_prefix(&log_type, entry);
        let formatted = match log_type {
            LogType::ApiError => self.format_error_log(raw_json),
            LogType::ApiSql => self.format_sql_log(raw_json, entry),
            LogType::ApiBodyDump => self.format_body_dump(raw_json),
            LogType::ApiRequest => self.format_request_log(raw_json, entry),
            _ => self.format_general_log(raw_json),
        };
        let mut out = prefix;
        out.append(self.config.api_prefix.as_str());
        out.append(" ");
        out.append(formatted.as_str());
        proof {
            let head = self.api_prefix_spec(entry.log_type_spec(), entry)
                + self.config.api_prefix@ + " "@;
            assert(out@.take(head.len() as int) =~= head);
        }
        out
    }

    /// Renders a runner line: its prefix, the runner marker, and the line
    /// styled by its category. The output begins with the prefix its
    /// category selects, then the runner marker and a space; the styled
    /// remainder depends on the terminal.
    pub fn format_karate_log(&self, line: &str, log_type: &LogType) -> (r: String)
        ensures
            ({
                let head = self.karate_prefix_spec(*log_type, line@)
                    + self.config.karate_prefix@ + " "@;
                r@.len() >= head.len() && r@.take(head.len() as int) == head
            }),
    {
        let prefix = self.get_karate_prefix(log_type, line);
        let formatted = match log_type {
            LogType::KarateFailure => paint_red(line),
            LogType::KarateSummary => {
                if line_has(line, "failed:") && !line_has(line, "failed: 0") && !line_has(
                    line,
                    "failed:  0",
                ) {
                    paint_red_bold(line)
                } else if line_has(line, "passed:") {
                    paint_green(line)
                } else {
                    paint_bright_white(line)
                }
            },
            _ => paint_bright_white(line),
        };
        let mut out = prefix;
        out.append(self.config.karate_prefix.as_str());
        out.append(" ");
        out.append(formatted.as_str());
        proof {
            let head = self.karate_prefix_spec(*log_type, line@) + self.config.karate_prefix@
                + " "@;
            assert(out@.take(head.len() as int) =~= head);
        }
        out
    }

    /// A horizontal separator line.
    pub fn format_separator(&self) -> String {
        let mut bar: Vec<char> = Vec::new();
        let mut i: usize = 0;
        while i < 60
            invariant
                i <= 60,
            decreases 60 - i,
        {
            bar.push('\u{2500}');
            i += 1;
        }
        paint_bright_black(crate::text::string_of(bar.as_slice()).as_str())
    }

    /// A banner naming a failed feature.
    pub fn format_failure_header(&self, feature: &str) -> String {
        let mut title = "FAILED: ".to_owned();
        title.append(feature);
        let mut out = "\n".to_owned();
        out.append(paint_red("\u{2554}").as_str());
        out.append(" ");
        out.append(paint_red_bold(title.as_str()).as_str());
        out.append(" ");
        out.append(paint_red("\u{2557}").as_str());
        out.append("\n");
        out.append(paint_red("\u{255a}").as_str());
        out
    }

    /// The header above correlated service-log records.
    pub fn format_correlated_header(&self, request_id: &str) -> String {
        self.format_custom_header("Related API Logs", request_id)
    }

    /// The footer under correlated service-log records.
    pub fn format_correlated_footer(&self) -> String {
        let mut bar: Vec<char> = Vec::new();
        bar.push('\u{2514}');
        let mut i: usize = 0;
        while i < 39
            invariant
                i <= 39,
            decreases 39 - i,
        {
            bar.push('\u{2500}');
            i += 1;
        }
        bar.push('\u{2518}');
        let mut out = paint_bright_yellow(crate::text::string_of(bar.as_slice()).as_str());
        out.append("\n");
        out
    }

    /// A header with a custom title and identifier.
    pub fn format_custom_header(&self, title: &str, id: &str) -> String {
        let mut out = "\n".to_owned();
        out.append(paint_bright_yellow("\u{250c}\u{2500}").as_str());
        out.append(" ");
        out.append(paint_bright_yellow_bold(title).as_str());
        out.append(": ");
        out.append(paint_bright_cyan(id).as_str());
        out.append(" ");
        out.append(paint_bright_yellow("\u{2500}\u{2510}").as_str());
        out.append("\n");
        out
    }
}

} // verus!
