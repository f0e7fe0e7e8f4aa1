//! Aggregation of SQL query statistics and test summaries.
//!
//! Elapsed times are held as whole microseconds (thousandths of a
//! millisecond), so `"1.235ms"` reads as 1235; fractional digits beyond the
//! third are dropped.

use vstd::prelude::*;
use vstd::slice::slice_subrange;

use crate::log_parser::{line_has, parse_karate_summary, summary_value, ApiLogEntry};
use crate::text::{
    all_digits, chars_of, digit_run_end, digit_run_end_spec, digit_val, digits_val, find_char,
    find_sub, first_char_idx, first_sub_idx, is_digit, last_char_idx, lemma_digit_run_bounds,
    lemma_digits_val_take_monotonic, lemma_digits_val_take_step, nonspace_end,
    nonspace_end_spec, parse_u32_range, parsed_u32, rfind_char, skip_spaces, skip_spaces_spec,
    has_sub, str_eq, string_of, to_upper_chars, trim_spec, trimmed, upper_seq,
};

verus! {

/// The characters left when every trailing repetition of `suf` is removed.
pub open spec fn strip_suffix_reps(s: Seq<char>, suf: Seq<char>) -> Seq<char>
    decreases s.len() when suf.len() > 0
{
    if s.len() >= suf.len() && s.subrange(s.len() - suf.len(), s.len() as int) == suf {
        strip_suffix_reps(s.take(s.len() - suf.len()), suf)
    } else {
        s
    }
}

/// Microseconds denoted by up to the first three fractional digits.
pub open spec fn frac_micros(f: Seq<char>) -> nat {
    if f.len() >= 3 {
        digits_val(f.take(3))
    } else if f.len() == 2 {
        digits_val(f) * 10
    } else if f.len() == 1 {
        digits_val(f) * 100
    } else {
        0
    }
}

/// Microseconds denoted by a plain decimal numeral: digits with at most one
/// point and at least one digit. Other shapes do not parse.
pub open spec fn decimal_micros(s: Seq<char>) -> Option<nat> {
    match first_char_idx(s, '.', 0) {
        None => if s.len() > 0 && all_digits(s) {
            Some(digits_val(s) * 1000)
        } else {
            None
        },
        Some(i) => {
            let ip = s.take(i);
            let fp = s.skip(i + 1);
            if all_digits(ip) && all_digits(fp) && ip.len() + fp.len() > 0 {
                Some(digits_val(ip) * 1000 + frac_micros(fp))
            } else {
                None
            }
        },
    }
}

/// A parse failure, or a value too large to hold, reads as zero.
pub open spec fn micros_or_zero(v: Option<nat>) -> nat {
    match v {
        Some(x) => if x <= u64::MAX {
            x
        } else {
            0
        },
        None => 0,
    }
}

/// An elapsed-time string with its unit suffix removed: every trailing
/// `ms` repetition is stripped, then every trailing `s`.
pub open spec fn strip_elapsed_suffix(s: Seq<char>) -> Seq<char> {
    strip_suffix_reps(strip_suffix_reps(s, "ms"@), "s"@)
}

/// Microseconds an elapsed-time string denotes; anything unparseable is zero.
pub open spec fn elapsed_str_micros(s: Seq<char>) -> nat {
    micros_or_zero(decimal_micros(strip_elapsed_suffix(s)))
}

/// Parses a suffix-stripped decimal numeral into microseconds.
fn parse_decimal_micros(s: &[char]) -> (r: u64)
    ensures
        r as nat == micros_or_zero(decimal_micros(s@)),
{
    let n = s.len();
    match find_char(s, '.') {
        None => {
            if n == 0 {
                return 0;
            }
            let e = digit_run_end(s, 0);
            if e < n {
                proof {
                    lemma_digit_run_bounds(s@, 0);
                    assert(!all_digits(s@));
                }
                return 0;
            }
            proof {
                lemma_digit_run_bounds(s@, 0);
            }
            match parse_digits_u64(s, 0, n) {
                Some(v) => {
                    if v > 0xffff_ffff_ffff_ffffu64 / 1000 {
                        proof {
                            assert(digits_val(s@.subrange(0, n as int)) * 1000 > u64::MAX);
                            assert(s@.subrange(0, n as int) =~= s@);
                        }
                        return 0;
                    }
                    proof {
                        assert(s@.subrange(0, n as int) =~= s@);
                    }
                    v * 1000
                },
                None => {
                    proof {
                        assert(s@.subrange(0, n as int) =~= s@);
                        assert(digits_val(s@) * 1000 > u64::MAX);
                    }
                    0
                },
            }
        },
        Some(i) => {
            let ghost ip = s@.take(i as int);
            let ghost fp = s@.skip(i + 1);
            let e0 = digit_run_end(s, 0);
            if e0 < i {
                proof {
                    lemma_digit_run_bounds(s@, 0);
                    assert(ip[e0 as int] == s@[e0 as int]);
                    assert(!all_digits(ip));
                }
                return 0;
            }
            let e1 = digit_run_end(s, i + 1);
            if e1 < n {
                proof {
                    lemma_digit_run_bounds(s@, i + 1);
                    assert(fp[e1 - (i + 1)] == s@[e1 as int]);
                    assert(!all_digits(fp));
                }
                return 0;
            }
            if i == 0 && i + 1 == n {
                proof {
                    assert(ip.len() + fp.len() == 0);
                }
                return 0;
            }
            proof {
                lemma_digit_run_bounds(s@, 0);
                lemma_digit_run_bounds(s@, i + 1);
                assert(forall|j: int| 0 <= j < ip.len() ==> ip[j] == s@[j] && is_digit(s@[j]));
                assert(forall|j: int|
                    0 <= j < fp.len() ==> fp[j] == s@[j + i + 1] && is_digit(s@[j + i + 1]));
                assert(all_digits(ip));
                assert(all_digits(fp));
            }
            let whole: u64 = match parse_digits_u64(s, 0, i) {
                Some(v) => {
                    if v > 0xffff_ffff_ffff_ffffu64 / 1000 {
                        proof {
                            assert(s@.subrange(0, i as int) =~= ip);
                            assert(digits_val(ip) * 1000 + frac_micros(fp) > u64::MAX);
                        }
                        return 0;
                    }
                    v
                },
                None => {
                    proof {
                        assert(s@.subrange(0, i as int) =~= ip);
                        assert(digits_val(ip) * 1000 + frac_micros(fp) > u64::MAX);
                    }
                    return 0;
                },
            };
            proof {
                assert(s@.subrange(0, i as int) =~= ip);
            }
            let fl = n - (i + 1);
            let frac: u64 = if fl >= 3 {
                proof {
                    assert(s@.subrange(i + 1, i + 4) =~= fp.take(3));
                }
                match parse_u32_range(s, i + 1, i + 4) {
                    Some(q) => q as u64,
                    None => 0,
                }
            } else if fl == 2 {
                proof {
                    assert(s@.subrange(i + 1, n as int) =~= fp);
                }
                match parse_u32_range(s, i + 1, n) {
                    Some(q) => (q as u64) * 10,
                    None => 0,
                }
            } else if fl == 1 {
                proof {
                    assert(s@.subrange(i + 1, n as int) =~= fp);
                }
                match parse_u32_range(s, i + 1, n) {
                    Some(q) => (q as u64) * 100,
                    None => 0,
                }
            } else {
                0
            };
            proof {
                lemma_digits_small(fp);
                assert(frac as nat == frac_micros(fp));
            }
            if whole > (0xffff_ffff_ffff_ffffu64 - frac) / 1000 {
                proof {
                    assert(digits_val(ip) * 1000 + frac_micros(fp) > u64::MAX);
                }
                return 0;
            }
            whole * 1000 + frac
        },
    }
}

/// A digit run of up to three digits stays under 1000.
proof fn lemma_digits_small(f: Seq<char>)
    requires
        all_digits(f),
    ensures
        f.len() >= 3 ==> digits_val(f.take(3)) < 1000,
        f.len() == 2 ==> digits_val(f) < 100,
        f.len() == 1 ==> digits_val(f) < 10,
{
    if f.len() >= 1 {
        lemma_digits_val_bound(f.take(1));
    }
    if f.len() >= 2 {
        lemma_digits_val_bound(f.take(2));
        assert(f.take(2) =~= f.take(2));
    }
    if f.len() >= 3 {
        lemma_digits_val_bound(f.take(3));
    }
    if f.len() == 2 {
        assert(f.take(2) =~= f);
    }
    if f.len() == 1 {
        assert(f.take(1) =~= f);
    }
}

/// A digit string's value is under ten to its length.
proof fn lemma_digits_val_bound(d: Seq<char>)
    requires
        all_digits(d),
        d.len() <= 3,
    ensures
        d.len() == 1 ==> digits_val(d) < 10,
        d.len() == 2 ==> digits_val(d) < 100,
        d.len() == 3 ==> digits_val(d) < 1000,
    decreases d.len(),
{
    if d.len() > 0 {
        assert(all_digits(d.drop_last())) by {
            assert(forall|j: int| 0 <= j < d.len() - 1 ==> d.drop_last()[j] == d[j]);
        }
        lemma_digits_val_bound(d.drop_last());
        assert(is_digit(d[d.len() - 1]));
        assert(d.last() == d[d.len() - 1]);
        assert(digit_val(d.last()) < 10);
        assert(digits_val(d) == digits_val(d.drop_last()) * 10 + digit_val(d.last()));
        if d.len() == 1 {
            assert(d.drop_last().len() == 0);
            assert(digits_val(d.drop_last()) == 0);
        }
    }
}

/// Parses `hay[from..to]`, known to be all digits, as a decimal `u64`;
/// a value over `u64::MAX` is a failure.
fn parse_digits_u64(hay: &[char], from: usize, to: usize) -> (r: Option<u64>)
    requires
        from <= to <= hay@.len(),
        forall|j: int| from <= j < to ==> is_digit(hay@[j]),
    ensures
        ({
            let d = hay@.subrange(from as int, to as int);
            match r {
                Some(v) => v == digits_val(d) && digits_val(d) <= u64::MAX,
                None => digits_val(d) > u64::MAX,
            }
        }),
{
    let ghost d = hay@.subrange(from as int, to as int);
    let mut acc: u128 = 0;
    let mut k = from;
    while k < to
        invariant
            from <= k <= to <= hay@.len(),
            d == hay@.subrange(from as int, to as int),
            forall|j: int| from <= j < to ==> is_digit(hay@[j]),
            acc == digits_val(d.take(k - from)),
            acc <= u64::MAX,
        decreases to - k,
    {
        let c = hay[k];
        let dig: u128 = (c as u8 - 48) as u128;
        proof {
            assert(is_digit(hay@[k as int]));
            assert(dig == digit_val(d[k - from]));
        }
        let next: u128 = acc * 10 + dig;
        proof {
            lemma_digits_val_take_step(d, k - from);
        }
        if next > 0xffff_ffff_ffff_ffffu128 {
            proof {
                lemma_digits_val_take_monotonic(d, k - from + 1);
            }
            return None;
        }
        acc = next;
        k += 1;
    }
    proof {
        assert(d.take(to - from) =~= d);
    }
    Some(acc as u64)
}

/// Parses an elapsed-time string such as `"1.235ms"` into microseconds.
/// The `ms` and `s` unit suffixes are stripped; absence or a parse failure
/// reads as zero, which aggregation uses as-is.
pub fn parse_elapsed_micros(elapsed: &Option<String>) -> (r: u64)
    ensures
        r as nat == match elapsed {
            Some(s) => elapsed_str_micros(s@),
            None => 0nat,
        },
{
    let s = match elapsed {
        Some(s) => s,
        None => {
            return 0;
        },
    };
    proof {
        reveal_strlit("ms");
        reveal_strlit("s");
    }
    let v = chars_of(s.as_str());
    let n0 = v.len();
    let mut len = n0;
    proof {
        assert(s@.take(n0 as int) =~= s@);
    }
    // strip trailing "ms" repetitions
    while len >= 2 && v[len - 2] == 'm' && v[len - 1] == 's'
        invariant
            len <= n0,
            n0 == s@.len(),
            v@ == s@,
            "ms"@.len() == 2,
            "ms"@[0] == 'm',
            "ms"@[1] == 's',
            strip_suffix_reps(s@, "ms"@) == strip_suffix_reps(s@.take(len as int), "ms"@),
        decreases len,
    {
        proof {
            let t = s@.take(len as int);
            assert(t.subrange(len - 2, len as int) =~= "ms"@);
            assert(t.take(len - 2) =~= s@.take(len - 2));
        }
        len -= 2;
    }
    proof {
        let t = s@.take(len as int);
        if t.len() >= 2 && t.subrange(len - 2, len as int) == "ms"@ {
            assert(t.subrange(len - 2, len as int)[0] == s@[len - 2]);
            assert(t.subrange(len - 2, len as int)[1] == s@[len - 1]);
            assert(false);
        }
    }
    let ghost after_ms = strip_suffix_reps(s@, "ms"@);
    let mid = len;
    // strip trailing "s" repetitions
    while len >= 1 && v[len - 1] == 's'
        invariant
            len <= mid <= n0,
            n0 == s@.len(),
            v@ == s@,
            "s"@.len() == 1,
            "s"@[0] == 's',
            after_ms == s@.take(mid as int),
            strip_suffix_reps(after_ms, "s"@) == strip_suffix_reps(s@.take(len as int), "s"@),
        decreases len,
    {
        proof {
            let t = s@.take(len as int);
            assert(t.subrange(len - 1, len as int) =~= "s"@);
            assert(t.take(len - 1) =~= s@.take(len - 1));
        }
        len -= 1;
    }
    proof {
        let t = s@.take(len as int);
        if t.len() >= 1 && t.subrange(len - 1, len as int) == "s"@ {
            assert(t.subrange(len - 1, len as int)[0] == s@[len - 1]);
            assert(false);
        }
        assert(strip_elapsed_suffix(s@) == s@.take(len as int));
    }
    let stripped = slice_subrange(v.as_slice(), 0, len);
    proof {
        assert(stripped@ =~= s@.take(len as int));
    }
    parse_decimal_micros(stripped)
}

/// The digit run following `label` in `line`: after the first occurrence of
/// the label, spaces are skipped and the maximal digit run is taken (possibly
/// empty). Nothing when the label does not occur.
pub open spec fn number_after_spec(line: Seq<char>, label: Seq<char>) -> Option<Seq<char>> {
    match first_sub_idx(line, label, 0) {
        None => None,
        Some(p) => {
            let q = skip_spaces_spec(line, p + label.len());
            let e = digit_run_end_spec(line, q);
            Some(line.subrange(q, e))
        },
    }
}

/// The number following `label` in `line`, when its digit run parses.
pub open spec fn number_after_value(line: Seq<char>, label: Seq<char>) -> Option<u32> {
    match number_after_spec(line, label) {
        None => None,
        Some(d) => parsed_u32(d),
    }
}

/// Extracts the integer following a label in a line, such as the count after
/// `features:`.
pub fn extract_number_after(label: &str, line: &str) -> (r: Option<u32>)
    ensures
        r == number_after_value(line@, label@),
{
    let lv = chars_of(label);
    let v = chars_of(line);
    let s = v.as_slice();
    match find_sub(s, lv.as_slice()) {
        None => None,
        Some(p) => {
            let q = skip_spaces(s, p + lv.len());
            let e = digit_run_end(s, q);
            proof {
                lemma_digit_run_bounds(s@, q as int);
            }
            parse_u32_range(s, q, e)
        },
    }
}

/// The per-statement verb of an SQL text: its first whitespace-delimited
/// token, ASCII-uppercased, or `UNKNOWN` when the text is all whitespace.
pub open spec fn sql_verb_spec(sql: Seq<char>) -> Seq<char> {
    let t = trim_spec(sql);
    if t.len() == 0 {
        "UNKNOWN"@
    } else {
        upper_seq(t.take(nonspace_end_spec(t, 0)))
    }
}

/// The statement verb of an SQL text.
pub fn sql_verb(sql: &str) -> (r: String)
    ensures
        r@ == sql_verb_spec(sql@),
{
    let v = chars_of(sql);
    let t = trimmed(v.as_slice());
    if t.len() == 0 {
        "UNKNOWN".to_owned()
    } else {
        let e = nonspace_end(t, 0);
        let tok = slice_subrange(t, 0, e);
        string_of(to_upper_chars(tok).as_slice())
    }
}

/// Adds one, stopping at the numeric limit instead of overflowing.
pub open spec fn sat_inc_u32(x: u32) -> u32 {
    if x < u32::MAX {
        (x + 1) as u32
    } else {
        x
    }
}

/// Saturating unsigned addition.
pub open spec fn sat_add_u64(x: u64, y: u64) -> u64 {
    if x + y <= u64::MAX {
        (x + y) as u64
    } else {
        u64::MAX
    }
}

/// Saturating signed addition.
pub open spec fn sat_add_i64(x: i64, y: i64) -> i64 {
    if x + y > i64::MAX {
        i64::MAX
    } else if x + y < i64::MIN {
        i64::MIN
    } else {
        (x + y) as i64
    }
}

fn inc_u32(x: u32) -> (r: u32)
    ensures
        r == sat_inc_u32(x),
{
    if x < 0xffff_ffff {
        x + 1
    } else {
        x
    }
}

fn add_u64(x: u64, y: u64) -> (r: u64)
    ensures
        r == sat_add_u64(x, y),
{
    if x > 0xffff_ffff_ffff_ffffu64 - y {
        0xffff_ffff_ffff_ffffu64
    } else {
        x + y
    }
}

fn add_i64(x: i64, y: i64) -> (r: i64)
    ensures
        r == sat_add_i64(x, y),
{
    let s: i128 = x as i128 + y as i128;
    if s > i64::MAX as i128 {
        i64::MAX
    } else if s < i64::MIN as i128 {
        i64::MIN
    } else {
        s as i64
    }
}

/// One retained slowest-query snapshot.
#[derive(Debug, Clone)]
pub struct SqlQuery {
    pub sql: String,
    pub elapsed_micros: u64,
    pub rows_affected: i64,
    pub uri: Option<String>,
}

/// Running SQL statistics over the tracked service-log records.
pub struct SqlStats {
    pub total_queries: u32,
    pub queries_by_type: Vec<(String, u32)>,
    pub total_rows_affected: i64,
    pub error_count: u32,
    pub total_elapsed_micros: u64,
    pub slowest_queries: Vec<SqlQuery>,
    /// Every snapshot ever tracked, retained only for specification.
    pub history: Ghost<Seq<SqlQuery>>,
}

/// Position of the first entry whose key reads `k`, at or after `i`.
pub open spec fn first_key_idx(m: Seq<(String, u32)>, k: Seq<char>, i: int) -> Option<int>
    decreases m.len() - i when 0 <= i <= m.len()
{
    if i >= m.len() {
        None
    } else if m[i].0@ == k {
        Some(i)
    } else {
        first_key_idx(m, k, i + 1)
    }
}

/// How one verb's counter advances: an existing entry is bumped in place
/// (saturating), a new key is appended with count one.
pub open spec fn bumped(old_m: Seq<(String, u32)>, new_m: Seq<(String, u32)>, k: Seq<char>) -> bool {
    match first_key_idx(old_m, k, 0) {
        Some(i) => new_m == old_m.update(i, (old_m[i].0, sat_inc_u32(old_m[i].1))),
        None => {
            &&& new_m.len() == old_m.len() + 1
            &&& new_m.take(old_m.len() as int) == old_m
            &&& new_m.last().0@ == k
            &&& new_m.last().1 == 1
        },
    }
}

fn bump_verb(m: &mut Vec<(String, u32)>, verb: String)
    ensures
        bumped(old(m)@, final(m)@, verb@),
{
    let n = m.len();
    let mut i: usize = 0;
    while i < n
        invariant
            i <= n,
            n == m@.len(),
            m@ == old(m)@,
            first_key_idx(m@, verb@, 0) == first_key_idx(m@, verb@, i as int),
        decreases n - i,
    {
        if str_eq(m[i].0.as_str(), verb.as_str()) {
            let pair = m.remove(i);
            let c2 = inc_u32(pair.1);
            m.insert(i, (pair.0, c2));
            proof {
                assert(m@ =~= old(m)@.update(
                    i as int,
                    (old(m)@[i as int].0, sat_inc_u32(old(m)@[i as int].1)),
                ));
            }
            return ;
        }
        i += 1;
    }
    m.push((verb, 1));
    proof {
        assert(m@.take(old(m)@.len() as int) =~= old(m)@);
    }
}

/// Position where a snapshot with elapsed time `e` is inserted to keep the
/// list sorted descending with ties kept in arrival order: just after the
/// last entry at least as slow.
pub open spec fn insert_pos_spec(s: Seq<SqlQuery>, e: u64, i: int) -> int
    decreases s.len() - i when 0 <= i <= s.len()
{
    if i >= s.len() {
        s.len() as int
    } else if s[i].elapsed_micros < e {
        i
    } else {
        insert_pos_spec(s, e, i + 1)
    }
}

/// The slowest-query list after one insertion: the snapshot enters at its
/// sorted position and the list is cut back to five entries.
pub open spec fn insert_slowest_spec(s: Seq<SqlQuery>, q: SqlQuery) -> Seq<SqlQuery> {
    let i = insert_pos_spec(s, q.elapsed_micros, 0);
    let grown = s.insert(i, q);
    if grown.len() <= 5 {
        grown
    } else {
        grown.take(5)
    }
}

/// Sorted descending by elapsed time.
pub open spec fn slowest_sorted(s: Seq<SqlQuery>) -> bool {
    forall|i: int, j: int|
        0 <= i < j < s.len() ==> s[i].elapsed_micros >= s[j].elapsed_micros
}

fn insert_slowest(v: &mut Vec<SqlQuery>, q: SqlQuery)
    requires
        slowest_sorted(old(v)@),
        old(v)@.len() <= 5,
    ensures
        final(v)@ == insert_slowest_spec(old(v)@, q),
        slowest_sorted(final(v)@),
        final(v)@.len() <= 5,
        forall|i: int|
            0 <= i < final(v)@.len() ==> final(v)@[i] == q || old(v)@.contains(
                #[trigger] final(v)@[i],
            ),
{
    let ghost q0 = q;
    let e = q.elapsed_micros;
    let n = v.len();
    let mut i: usize = 0;
    while i < n && v[i].elapsed_micros >= e
        invariant
            i <= n,
            n == v@.len(),
            v@ == old(v)@,
            e == q0.elapsed_micros,
            insert_pos_spec(v@, e, 0) == insert_pos_spec(v@, e, i as int),
            forall|j: int| 0 <= j < i ==> v@[j].elapsed_micros >= e,
        decreases n - i,
    {
        i += 1;
    }
    let ghost pos = i as int;
    proof {
        assert(insert_pos_spec(old(v)@, e, 0) == pos);
    }
    v.insert(i, q);
    proof {
        let grown = old(v)@.insert(pos, q0);
        assert(v@ == grown);
        assert forall|a: int, b: int| 0 <= a < b < grown.len() implies grown[a].elapsed_micros
            >= grown[b].elapsed_micros by {
            if b < pos {
            } else if a > pos {
            } else if a == pos && b > pos {
                assert(grown[b] == old(v)@[b - 1]);
                assert(old(v)@[b - 1].elapsed_micros < e);
            } else if b == pos {
                assert(grown[a] == old(v)@[a]);
            } else {
                assert(grown[a] == old(v)@[a]);
                assert(grown[b] == old(v)@[b - 1]);
                if a < pos && b > pos {
                    assert(old(v)@[b - 1].elapsed_micros < e);
                    assert(old(v)@[a].elapsed_micros >= e);
                }
            }
        }
        assert(slowest_sorted(grown));
    }
    if v.len() > 5 {
        v.truncate(5);
        proof {
            assert(v@ == old(v)@.insert(pos, q0).take(5));
        }
    }
    proof {
        let grown = old(v)@.insert(pos, q0);
        assert forall|k: int| 0 <= k < v@.len() implies v@[k] == q0 || old(v)@.contains(
            #[trigger] v@[k],
        ) by {
            assert(v@[k] == grown[k]);
            if k < pos {
                assert(grown[k] == old(v)@[k]);
            } else if k == pos {
                assert(grown[k] == q0);
            } else {
                assert(grown[k] == old(v)@[k - 1]);
            }
        }
    }
}

proof fn lemma_push_keeps_contains(s: Seq<SqlQuery>, x: SqlQuery, y: SqlQuery)
    requires
        s.contains(y),
    ensures
        s.push(x).contains(y),
{
    let k = choose|k: int| 0 <= k < s.len() && s[k] == y;
    assert(s.push(x)[k] == y);
}

/// Microseconds of elapsed time a record reports, zero when absent or
/// unparseable.
pub open spec fn entry_elapsed_spec(entry: &ApiLogEntry) -> nat {
    match entry.elapsed {
        Some(e) => elapsed_str_micros(e@),
        None => 0,
    }
}

/// The slowest-query snapshot taken of a record.
pub open spec fn snapshot_spec(entry: &ApiLogEntry) -> SqlQuery
    recommends
        entry.sql is Some,
{
    SqlQuery {
        sql: entry.sql->0,
        elapsed_micros: entry_elapsed_spec(entry) as u64,
        rows_affected: match entry.rows_affected {
            Some(r) => r,
            None => 0,
        },
        uri: entry.uri,
    }
}

impl SqlStats {
    /// The slowest-query list never exceeds five entries, is sorted
    /// descending by elapsed time, and holds only snapshots that were
    /// actually tracked.
    pub open spec fn wf(&self) -> bool {
        &&& self.slowest_queries@.len() <= 5
        &&& slowest_sorted(self.slowest_queries@)
        &&& forall|i: int|
            0 <= i < self.slowest_queries@.len() ==> self.history@.contains(
                #[trigger] self.slowest_queries@[i],
            )
    }

    /// Fresh statistics with every counter zero.
    pub fn new() -> (r: SqlStats)
        ensures
            r.total_queries == 0,
            r.queries_by_type@.len() == 0,
            r.total_rows_affected == 0,
            r.error_count == 0,
            r.total_elapsed_micros == 0,
            r.slowest_queries@.len() == 0,
            r.history@.len() == 0,
            r.wf(),
    {
        SqlStats {
            total_queries: 0,
            queries_by_type: Vec::new(),
            total_rows_affected: 0,
            error_count: 0,
            total_elapsed_micros: 0,
            slowest_queries: Vec::new(),
            history: Ghost(Seq::empty()),
        }
    }

    /// Tracks one record: a no-op without an SQL text; otherwise the query
    /// count rises, the statement verb's counter is bumped, reported rows
    /// and elapsed time are added (saturating), an error-level record bumps
    /// the error count, and the snapshot enters the slowest-query list.
    pub fn track_query(&mut self, entry: &ApiLogEntry)
        requires
            old(self).wf(),
        ensures
            final(self).wf(),
            entry.sql is None ==> *final(self) == *old(self),
            entry.sql is Some ==> {
                let snap = snapshot_spec(entry);
                &&& final(self).total_queries == sat_inc_u32(old(self).total_queries)
                &&& bumped(
                    old(self).queries_by_type@,
                    final(self).queries_by_type@,
                    sql_verb_spec(entry.sql->0@),
                )
                &&& final(self).total_rows_affected == match entry.rows_affected {
                    Some(r) => sat_add_i64(old(self).total_rows_affected, r),
                    None => old(self).total_rows_affected,
                }
                &&& final(self).error_count == if entry.err is Some || entry.level@ == "ERROR"@ {
                    sat_inc_u32(old(self).error_count)
                } else {
                    old(self).error_count
                }
                &&& final(self).total_elapsed_micros == sat_add_u64(
                    old(self).total_elapsed_micros,
                    entry_elapsed_spec(entry) as u64,
                )
                &&& final(self).slowest_queries@ == insert_slowest_spec(
                    old(self).slowest_queries@,
                    snap,
                )
                &&& final(self).history@ == old(self).history@.push(snap)
            },
    {
        let sql = match &entry.sql {
            Some(s) => s,
            None => {
                return ;
            },
        };
        self.total_queries = inc_u32(self.total_queries);
        let verb = sql_verb(sql.as_str());
        bump_verb(&mut self.queries_by_type, verb);
        if let Some(r) = entry.rows_affected {
            self.total_rows_affected = add_i64(self.total_rows_affected, r);
        }
        if entry.err.is_some() || str_eq(entry.level.as_str(), "ERROR") {
            self.error_count = inc_u32(self.error_count);
        }
        let el = parse_elapsed_micros(&entry.elapsed);
        self.total_elapsed_micros = add_u64(self.total_elapsed_micros, el);
        let rows = match entry.rows_affected {
            Some(r) => r,
            None => 0,
        };
        let snap = SqlQuery {
            sql: sql.clone(),
            elapsed_micros: el,
            rows_affected: rows,
            uri: crate::log_parser::clone_opt_string(&entry.uri),
        };
        let ghost snapg = snap;
        proof {
            assert(snapg == snapshot_spec(entry));
        }
        let ghost old_slowest = self.slowest_queries@;
        insert_slowest(&mut self.slowest_queries, snap);
        self.history = Ghost(self.history@.push(snapg));
        proof {
            assert(self.history@.last() == snapg);
            assert(self.history@.contains(snapg)) by {
                assert(self.history@[self.history@.len() - 1] == snapg);
            }
            assert forall|i: int|
                0 <= i < self.slowest_queries@.len() implies self.history@.contains(
                #[trigger] self.slowest_queries@[i],
            ) by {
                let x = self.slowest_queries@[i];
                if x == snapg {
                } else {
                    assert(old_slowest.contains(x));
                    let k = choose|k: int| 0 <= k < old_slowest.len() && old_slowest[k] == x;
                    assert(old(self).history@.contains(old_slowest[k]));
                    lemma_push_keeps_contains(old(self).history@, snapg, x);
                }
            }
        }
    }
}

/// One recorded test failure.
#[derive(Debug, Clone)]
pub struct FailedFeature {
    pub feature_file: String,
    pub line_number: Option<u32>,
    pub error_message: String,
    pub url: Option<String>,
}

/// Running test summary over the runner's output.
pub struct TestSummary {
    pub total_features: u32,
    pub total_scenarios: u32,
    pub passed: u32,
    pub failed: u32,
    pub skipped: u32,
    pub failed_features: Vec<FailedFeature>,
}

/// The file part of a `file:line` token: everything before the last colon,
/// or the whole token without one.
pub open spec fn feature_file_of(f: Seq<char>) -> Seq<char> {
    match last_char_idx(f, ':', f.len() as int) {
        Some(i) => f.take(i),
        None => f,
    }
}

/// The line-number part of a `file:line` token: the digits after the last
/// colon, when they are non-empty, all digits, and in range; otherwise
/// absent.
pub open spec fn feature_line_of(f: Seq<char>) -> Option<u32> {
    match last_char_idx(f, ':', f.len() as int) {
        Some(i) => parsed_u32(f.skip(i + 1)),
        None => None,
    }
}

impl TestSummary {
    /// Fresh summary with every counter zero and no failures.
    pub fn new() -> (r: TestSummary)
        ensures
            r.total_features == 0,
            r.total_scenarios == 0,
            r.passed == 0,
            r.failed == 0,
            r.skipped == 0,
            r.failed_features@.len() == 0,
    {
        TestSummary {
            total_features: 0,
            total_scenarios: 0,
            passed: 0,
            failed: 0,
            skipped: 0,
            failed_features: Vec::new(),
        }
    }

    /// Updates the summary from one runner line: a summary pattern
    /// overwrites the three scenario counters (last summary wins), and a
    /// line with a `features:` label updates the feature and skipped counts
    /// independently.
    pub fn update_from_line(&mut self, line: &str)
        ensures
            final(self).failed_features == old(self).failed_features,
            (match summary_value(line@) {
                Some(t) => final(self).total_scenarios == t.0 && final(self).passed == t.1
                    && final(self).failed == t.2,
                None => final(self).total_scenarios == old(self).total_scenarios
                    && final(self).passed == old(self).passed
                    && final(self).failed == old(self).failed,
            }),
            (if has_sub(line@, "features:"@) {
                (match number_after_value(line@, "features:"@) {
                    Some(c) => final(self).total_features == c,
                    None => final(self).total_features == old(self).total_features,
                }) && (match number_after_value(line@, "skipped:"@) {
                    Some(c) => final(self).skipped == c,
                    None => final(self).skipped == old(self).skipped,
                })
            } else {
                final(self).total_features == old(self).total_features && final(self).skipped
                    == old(self).skipped
            }),
    {
        if let Some(res) = parse_karate_summary(line) {
            self.total_scenarios = res.total_scenarios;
            self.passed = res.passed;
            self.failed = res.failed;
        }
        if line_has(line, "features:") {
            if let Some(c) = extract_number_after("features:", line) {
                self.total_features = c;
            }
            if let Some(c) = extract_number_after("skipped:", line) {
                self.skipped = c;
            }
        }
    }

    /// Appends one failure record; the `file:line` token is split on its
    /// last colon, and a suffix that is not a line number means no line
    /// number rather than an error.
    pub fn track_failure(&mut self, feature: &str, error: &str, url: Option<String>)
        ensures
            final(self).total_features == old(self).total_features,
            final(self).total_scenarios == old(self).total_scenarios,
            final(self).passed == old(self).passed,
            final(self).failed == old(self).failed,
            final(self).skipped == old(self).skipped,
            final(self).failed_features@.len() == old(self).failed_features@.len() + 1,
            final(self).failed_features@.take(old(self).failed_features@.len() as int) == old(
                self,
            ).failed_features@,
            ({
                let ff = final(self).failed_features@.last();
                &&& ff.feature_file@ == feature_file_of(feature@)
                &&& ff.line_number == feature_line_of(feature@)
                &&& ff.error_message@ == error@
                &&& ff.url == url
            }),
    {
        let v = chars_of(feature);
        let s = v.as_slice();
        let n = s.len();
        let (file, line_num): (String, Option<u32>) = match rfind_char(s, ':') {
            Some(i) => {
                let start = i + 1;
                let e = digit_run_end(s, start);
                let ln: Option<u32> = if start < n && e == n {
                    proof {
                        lemma_digit_run_bounds(s@, start as int);
                        assert(s@.subrange(start as int, n as int) =~= s@.skip(start as int));
                    }
                    parse_u32_range(s, start, n)
                } else {
                    proof {
                        let suffix = s@.skip(start as int);
                        if start >= n {
                            assert(suffix.len() == 0);
                        } else {
                            lemma_digit_run_bounds(s@, start as int);
                            assert(suffix[e - start] == s@[e as int]);
                            assert(!all_digits(suffix));
                        }
                    }
                    None
                };
                (string_of(slice_subrange(s, 0, i)), ln)
            },
            None => (string_of(s), None),
        };
        self.failed_features.push(
            FailedFeature {
                feature_file: file,
                line_number: line_num,
                error_message: error.to_owned(),
                url,
            },
        );
        proof {
            assert(self.failed_features@.take(old(self).failed_features@.len() as int)
                =~= old(self).failed_features@);
        }
    }
}

/// The slowest-query set, whatever sequence of records was tracked, never
/// exceeds five entries, is sorted descending by elapsed time, and holds
/// only snapshots that were actually tracked.
pub proof fn lemma_slowest_queries_bounded(s: &SqlStats)
    requires
        s.wf(),
    ensures
        s.slowest_queries@.len() <= 5,
        slowest_sorted(s.slowest_queries@),
        forall|i: int|
            0 <= i < s.slowest_queries@.len() ==> s.history@.contains(
                #[trigger] s.slowest_queries@[i],
            ),
{
}

} // verus!
