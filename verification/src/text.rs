//! Character-level text scanning: substring search, trimming, digit runs and
//! bounded integer parsing. Everything here is stated over `Seq<char>` views.

use vstd::prelude::*;
use vstd::slice::slice_subrange;

verus! {

/// ASCII whitespace: what lines are trimmed by and tokens are split by.
pub open spec fn is_space(c: char) -> bool {
    c == ' ' || c == '\t' || c == '\n' || c == '\r' || c == '\u{b}' || c == '\u{c}'
}

/// Decimal digit.
pub open spec fn is_digit(c: char) -> bool {
    '0' <= c && c <= '9'
}

/// Value of one decimal digit.
pub open spec fn digit_val(c: char) -> nat
    recommends
        is_digit(c),
{
    (c as nat - 48) as nat
}

/// `needle` occurs in `hay` starting at position `i`.
pub open spec fn contains_at(hay: Seq<char>, needle: Seq<char>, i: int) -> bool {
    &&& 0 <= i
    &&& i + needle.len() <= hay.len()
    &&& hay.subrange(i, i + needle.len() as int) == needle
}

/// `needle` occurs somewhere in `hay`.
pub open spec fn has_sub(hay: Seq<char>, needle: Seq<char>) -> bool {
    exists|i: int| contains_at(hay, needle, i)
}

/// `needle` occurs at `i` and nowhere earlier.
pub open spec fn first_sub_at(hay: Seq<char>, needle: Seq<char>, i: int) -> bool {
    &&& contains_at(hay, needle, i)
    &&& forall|j: int| 0 <= j < i ==> !contains_at(hay, needle, j)
}

/// `hay` begins with `prefix`.
pub open spec fn starts_with(hay: Seq<char>, prefix: Seq<char>) -> bool {
    contains_at(hay, prefix, 0)
}

/// Position of the first occurrence of `needle` at or after `i`, if any.
pub open spec fn first_sub_idx(s: Seq<char>, needle: Seq<char>, i: int) -> Option<int>
    decreases s.len() - i when 0 <= i <= s.len()
{
    if i + needle.len() > s.len() {
        None
    } else if needle.len() == 0 || contains_at(s, needle, i) {
        Some(i)
    } else {
        first_sub_idx(s, needle, i + 1)
    }
}

/// Position of the first occurrence of `c` at or after `i`, if any.
pub open spec fn first_char_idx(s: Seq<char>, c: char, i: int) -> Option<int>
    decreases s.len() - i when 0 <= i <= s.len()
{
    if i >= s.len() {
        None
    } else if s[i] == c {
        Some(i)
    } else {
        first_char_idx(s, c, i + 1)
    }
}

/// Position of the last occurrence of `c` strictly before `j`, if any.
pub open spec fn last_char_idx(s: Seq<char>, c: char, j: int) -> Option<int>
    decreases j when 0 <= j <= s.len()
{
    if j <= 0 {
        None
    } else if s[j - 1] == c {
        Some(j - 1)
    } else {
        last_char_idx(s, c, j - 1)
    }
}

/// Copies the characters of a string into a vector, so that scanning can use
/// plain indexing.
pub fn chars_of(s: &str) -> (v: Vec<char>)
    ensures
        v@ == s@,
{
    let n = s.unicode_len();
    let mut v: Vec<char> = Vec::new();
    let mut i: usize = 0;
    while i < n
        invariant
            i <= n,
            n == s@.len(),
            v@ == s@.subrange(0, i as int),
        decreases n - i,
    {
        v.push(s.get_char(i));
        i += 1;
        proof {
            assert(v@ =~= s@.subrange(0, i as int));
        }
    }
    proof {
        assert(v@ =~= s@);
    }
    v
}

/// Two strings hold the same characters.
pub fn str_eq(a: &str, b: &str) -> (r: bool)
    ensures
        r == (a@ == b@),
{
    let na = a.unicode_len();
    let nb = b.unicode_len();
    if na != nb {
        proof {
            assert(a@ != b@);
        }
        return false;
    }
    let mut i: usize = 0;
    while i < na
        invariant
            i <= na,
            na == a@.len(),
            na == b@.len(),
            forall|j: int| 0 <= j < i ==> a@[j] == b@[j],
        decreases na - i,
    {
        if a.get_char(i) != b.get_char(i) {
            proof {
                assert(a@ != b@);
            }
            return false;
        }
        i += 1;
    }
    proof {
        assert(a@ =~= b@);
    }
    true
}

/// Two character slices hold the same characters.
pub fn chars_eq(a: &[char], b: &[char]) -> (r: bool)
    ensures
        r == (a@ == b@),
{
    let na = a.len();
    if na != b.len() {
        proof {
            assert(a@ != b@);
        }
        return false;
    }
    let mut i: usize = 0;
    while i < na
        invariant
            i <= na,
            na == a@.len(),
            na == b@.len(),
            forall|j: int| 0 <= j < i ==> a@[j] == b@[j],
        decreases na - i,
    {
        if a[i] != b[i] {
            proof {
                assert(a@ != b@);
            }
            return false;
        }
        i += 1;
    }
    proof {
        assert(a@ =~= b@);
    }
    true
}

/// `needle` matches `hay` at position `i`.
pub fn match_at(hay: &[char], needle: &[char], i: usize) -> (r: bool)
    requires
        i + needle@.len() <= hay@.len(),
    ensures
        r == contains_at(hay@, needle@, i as int),
{
    let n = hay.len();
    let m = needle.len();
    let mut k: usize = 0;
    while k < m
        invariant
            k <= m,
            m == needle@.len(),
            n == hay@.len(),
            i + m <= n,
            forall|j: int| 0 <= j < k ==> hay@[i + j] == needle@[j],
        decreases m - k,
    {
        if hay[i + k] != needle[k] {
            proof {
                assert(hay@.subrange(i as int, i + needle@.len() as int)[k as int] == hay@[i + k]);
                assert(hay@.subrange(i as int, i + needle@.len()) != needle@);
            }
            return false;
        }
        k += 1;
    }
    proof {
        assert(hay@.subrange(i as int, i + needle@.len()) =~= needle@);
    }
    true
}

/// Position of the first occurrence of `needle` in `hay`, if any.
pub fn find_sub(hay: &[char], needle: &[char]) -> (r: Option<usize>)
    ensures
        match r {
            Some(i) => first_sub_at(hay@, needle@, i as int) && first_sub_idx(
                hay@,
                needle@,
                0,
            ) == Some(i as int),
            None => !has_sub(hay@, needle@) && first_sub_idx(hay@, needle@, 0) is None,
        },
{
    let n = hay.len();
    let m = needle.len();
    if m > n {
        proof {
            assert(forall|i: int| !contains_at(hay@, needle@, i));
        }
        return None;
    }
    if m == 0 {
        proof {
            assert(hay@.subrange(0, 0) =~= needle@);
        }
        return Some(0);
    }
    let last = n - m;
    let mut i: usize = 0;
    while i <= last
        invariant
            m == needle@.len(),
            n == hay@.len(),
            1 <= m <= n,
            last == n - m,
            i <= last + 1,
            forall|j: int| 0 <= j < i ==> !contains_at(hay@, needle@, j),
            first_sub_idx(hay@, needle@, 0) == first_sub_idx(hay@, needle@, i as int),
        decreases last - i + 1,
    {
        if match_at(hay, needle, i) {
            return Some(i);
        }
        i += 1;
    }
    proof {
        assert(forall|j: int| 0 <= j ==> !contains_at(hay@, needle@, j));
    }
    None
}

/// Whether `needle` occurs in `hay`.
pub fn contains_sub(hay: &[char], needle: &[char]) -> (r: bool)
    ensures
        r == has_sub(hay@, needle@),
{
    match find_sub(hay, needle) {
        Some(_) => true,
        None => false,
    }
}

/// Whether `hay` begins with `prefix`.
pub fn begins_with(hay: &[char], prefix: &[char]) -> (r: bool)
    ensures
        r == starts_with(hay@, prefix@),
{
    if prefix.len() > hay.len() {
        return false;
    }
    match_at(hay, prefix, 0)
}

/// First position at or after `i` holding a non-space character, or the end.
pub open spec fn skip_spaces_spec(s: Seq<char>, i: int) -> int
    decreases s.len() - i when 0 <= i <= s.len()
{
    if i >= s.len() {
        s.len() as int
    } else if is_space(s[i]) {
        skip_spaces_spec(s, i + 1)
    } else {
        i
    }
}

pub proof fn lemma_skip_spaces_bounds(s: Seq<char>, i: int)
    requires
        0 <= i <= s.len(),
    ensures
        i <= skip_spaces_spec(s, i) <= s.len(),
        skip_spaces_spec(s, i) < s.len() ==> !is_space(s[skip_spaces_spec(s, i)]),
    decreases s.len() - i,
{
    if i < s.len() && is_space(s[i]) {
        lemma_skip_spaces_bounds(s, i + 1);
    }
}

/// First position at or after `i` holding a non-digit character, or the end.
pub open spec fn digit_run_end_spec(s: Seq<char>, i: int) -> int
    decreases s.len() - i when 0 <= i <= s.len()
{
    if i >= s.len() {
        s.len() as int
    } else if is_digit(s[i]) {
        digit_run_end_spec(s, i + 1)
    } else {
        i
    }
}

pub proof fn lemma_digit_run_bounds(s: Seq<char>, i: int)
    requires
        0 <= i <= s.len(),
    ensures
        i <= digit_run_end_spec(s, i) <= s.len(),
        forall|j: int| i <= j < digit_run_end_spec(s, i) ==> is_digit(s[j]),
        digit_run_end_spec(s, i) < s.len() ==> !is_digit(s[digit_run_end_spec(s, i)]),
    decreases s.len() - i,
{
    if i < s.len() && is_digit(s[i]) {
        lemma_digit_run_bounds(s, i + 1);
    }
}

/// Position of the first non-space character at or after `from`.
pub fn skip_spaces(hay: &[char], from: usize) -> (r: usize)
    requires
        from <= hay@.len(),
    ensures
        r == skip_spaces_spec(hay@, from as int),
        from <= r <= hay@.len(),
{
    let n = hay.len();
    let mut j = from;
    while j < n && (hay[j] == ' ' || hay[j] == '\t' || hay[j] == '\n' || hay[j] == '\r'
        || hay[j] == '\u{b}' || hay[j] == '\u{c}')
        invariant
            from <= j <= n,
            n == hay@.len(),
            skip_spaces_spec(hay@, from as int) == skip_spaces_spec(hay@, j as int),
        decreases n - j,
    {
        j += 1;
    }
    j
}

/// Position of the first non-digit character at or after `from`.
pub fn digit_run_end(hay: &[char], from: usize) -> (r: usize)
    requires
        from <= hay@.len(),
    ensures
        r == digit_run_end_spec(hay@, from as int),
        from <= r <= hay@.len(),
{
    let n = hay.len();
    let mut j = from;
    while j < n && hay[j] >= '0' && hay[j] <= '9'
        invariant
            from <= j <= n,
            n == hay@.len(),
            digit_run_end_spec(hay@, from as int) == digit_run_end_spec(hay@, j as int),
        decreases n - j,
    {
        j += 1;
    }
    j
}

/// First position at or after `i` holding a space, or the end: where a
/// whitespace-delimited token stops.
pub open spec fn nonspace_end_spec(s: Seq<char>, i: int) -> int
    decreases s.len() - i when 0 <= i <= s.len()
{
    if i >= s.len() {
        s.len() as int
    } else if is_space(s[i]) {
        i
    } else {
        nonspace_end_spec(s, i + 1)
    }
}

/// Position of the first space at or after `from`.
pub fn nonspace_end(hay: &[char], from: usize) -> (r: usize)
    requires
        from <= hay@.len(),
    ensures
        r == nonspace_end_spec(hay@, from as int),
        from <= r <= hay@.len(),
{
    let n = hay.len();
    let mut j = from;
    while j < n && !(hay[j] == ' ' || hay[j] == '\t' || hay[j] == '\n' || hay[j] == '\r'
        || hay[j] == '\u{b}' || hay[j] == '\u{c}')
        invariant
            from <= j <= n,
            n == hay@.len(),
            nonspace_end_spec(hay@, from as int) == nonspace_end_spec(hay@, j as int),
        decreases n - j,
    {
        j += 1;
    }
    j
}

/// First position at or after `i` holding a space or a comma, or the end:
/// where a URL token extracted from a failure line stops.
pub open spec fn token_end_spec(s: Seq<char>, i: int) -> int
    decreases s.len() - i when 0 <= i <= s.len()
{
    if i >= s.len() {
        s.len() as int
    } else if is_space(s[i]) || s[i] == ',' {
        i
    } else {
        token_end_spec(s, i + 1)
    }
}

/// Position of the first space or comma at or after `from`.
pub fn token_end(hay: &[char], from: usize) -> (r: usize)
    requires
        from <= hay@.len(),
    ensures
        r == token_end_spec(hay@, from as int),
        from <= r <= hay@.len(),
{
    let n = hay.len();
    let mut j = from;
    while j < n && !(hay[j] == ' ' || hay[j] == '\t' || hay[j] == '\n' || hay[j] == '\r'
        || hay[j] == '\u{b}' || hay[j] == '\u{c}' || hay[j] == ',')
        invariant
            from <= j <= n,
            n == hay@.len(),
            token_end_spec(hay@, from as int) == token_end_spec(hay@, j as int),
        decreases n - j,
    {
        j += 1;
    }
    j
}

/// End of the trimmed region scanning back from `j`: the position just past
/// the last non-space character strictly before `j`.
pub open spec fn trim_end_idx(s: Seq<char>, j: int) -> int
    decreases j when 0 <= j <= s.len()
{
    if j <= 0 {
        0
    } else if is_space(s[j - 1]) {
        trim_end_idx(s, j - 1)
    } else {
        j
    }
}

pub proof fn lemma_trim_end_bounds(s: Seq<char>, j: int)
    requires
        0 <= j <= s.len(),
    ensures
        0 <= trim_end_idx(s, j) <= j,
    decreases j,
{
    if j > 0 && is_space(s[j - 1]) {
        lemma_trim_end_bounds(s, j - 1);
    }
}

/// The characters left when ASCII whitespace is removed from both ends.
pub open spec fn trim_spec(s: Seq<char>) -> Seq<char> {
    let a = skip_spaces_spec(s, 0);
    let b = trim_end_idx(s, s.len() as int);
    if a < b {
        s.subrange(a, b)
    } else {
        Seq::empty()
    }
}

/// The slice with ASCII whitespace removed from both ends.
pub fn trimmed<'a>(hay: &'a [char]) -> (r: &'a [char])
    ensures
        r@ == trim_spec(hay@),
{
    let n = hay.len();
    let a = skip_spaces(hay, 0);
    let mut b = n;
    while b > 0 && (hay[b - 1] == ' ' || hay[b - 1] == '\t' || hay[b - 1] == '\n'
        || hay[b - 1] == '\r' || hay[b - 1] == '\u{b}' || hay[b - 1] == '\u{c}')
        invariant
            0 <= b <= n,
            n == hay@.len(),
            trim_end_idx(hay@, n as int) == trim_end_idx(hay@, b as int),
        decreases b,
    {
        b -= 1;
    }
    proof {
        lemma_skip_spaces_bounds(hay@, 0);
        lemma_trim_end_bounds(hay@, b as int);
    }
    if a < b {
        slice_subrange(hay, a, b)
    } else {
        proof {
            assert(slice_subrange_empty(hay));
        }
        slice_subrange(hay, 0, 0)
    }
}

// Helper used only to name the trivial fact that an empty subrange is empty.
spec fn slice_subrange_empty(hay: &[char]) -> bool {
    hay@.subrange(0, 0) =~= Seq::<char>::empty()
}

/// Value of a digit string read in base 10.
pub open spec fn digits_val(s: Seq<char>) -> nat
    decreases s.len(),
{
    if s.len() == 0 {
        0
    } else {
        digits_val(s.drop_last()) * 10 + digit_val(s.last())
    }
}

pub proof fn lemma_digits_val_take_step(s: Seq<char>, i: int)
    requires
        0 <= i < s.len(),
    ensures
        digits_val(s.take(i + 1)) == digits_val(s.take(i)) * 10 + digit_val(s[i]),
{
    assert(s.take(i + 1).drop_last() =~= s.take(i));
    assert(s.take(i + 1).last() == s[i]);
}

pub proof fn lemma_digits_val_take_monotonic(s: Seq<char>, i: int)
    requires
        0 <= i <= s.len(),
    ensures
        digits_val(s.take(i)) <= digits_val(s),
    decreases s.len() - i,
{
    if i == s.len() {
        assert(s.take(i) =~= s);
    } else {
        lemma_digits_val_take_step(s, i);
        lemma_digits_val_take_monotonic(s, i + 1);
    }
}

/// Parses `hay[from..to]` as a decimal `u32`. The range must hold digits
/// only; an empty range or a value over `u32::MAX` is a failure, as when a
/// captured digit group fails `str::parse`.
pub fn parse_u32_range(hay: &[char], from: usize, to: usize) -> (r: Option<u32>)
    requires
        from <= to <= hay@.len(),
        forall|j: int| from <= j < to ==> is_digit(hay@[j]),
    ensures
        ({
            let d = hay@.subrange(from as int, to as int);
            match r {
                Some(v) => from < to && v == digits_val(d) && digits_val(d) <= u32::MAX,
                None => from == to || digits_val(d) > u32::MAX,
            }
        }),
        r == parsed_u32(hay@.subrange(from as int, to as int)),
{
    let ghost d = hay@.subrange(from as int, to as int);
    if from == to {
        return None;
    }
    let mut acc: u64 = 0;
    let mut k = from;
    while k < to
        invariant
            from <= k <= to <= hay@.len(),
            d == hay@.subrange(from as int, to as int),
            forall|j: int| from <= j < to ==> is_digit(hay@[j]),
            acc == digits_val(d.take(k - from)),
            acc <= u32::MAX,
        decreases to - k,
    {
        let c = hay[k];
        let dig: u64 = (c as u8 - 48) as u64;
        proof {
            assert(is_digit(hay@[k as int]));
            assert(dig == digit_val(d[k - from]));
        }
        let next: u64 = acc * 10 + dig;
        proof {
            lemma_digits_val_take_step(d, k - from);
        }
        if next > 0xffff_ffff {
            proof {
                lemma_digits_val_take_monotonic(d, k - from + 1);
            }
            return None;
        }
        acc = next;
        k += 1;
    }
    proof {
        assert(d.take(to - from) =~= d);
    }
    Some(acc as u32)
}

/// Every character is a decimal digit.
pub open spec fn all_digits(s: Seq<char>) -> bool {
    forall|j: int| 0 <= j < s.len() ==> is_digit(s[j])
}

/// The `u32` a digit string denotes, when it is non-empty, all digits, and
/// in range: the successful outcomes of `str::parse` on such a string.
pub open spec fn parsed_u32(d: Seq<char>) -> Option<u32> {
    if d.len() > 0 && all_digits(d) && digits_val(d) <= u32::MAX {
        Some(digits_val(d) as u32)
    } else {
        None
    }
}

/// Some character of `s` equals `c`.
pub open spec fn has_char(s: Seq<char>, c: char) -> bool {
    exists|i: int| 0 <= i < s.len() && s[i] == c
}

/// Position of the first occurrence of `c`, if any.
pub fn find_char(hay: &[char], c: char) -> (r: Option<usize>)
    ensures
        match r {
            Some(i) => i < hay@.len() && hay@[i as int] == c && first_char_idx(hay@, c, 0)
                == Some(i as int) && forall|j: int| 0 <= j < i ==> hay@[j] != c,
            None => !has_char(hay@, c) && first_char_idx(hay@, c, 0) is None,
        },
{
    let n = hay.len();
    let mut i: usize = 0;
    while i < n
        invariant
            i <= n,
            n == hay@.len(),
            forall|j: int| 0 <= j < i ==> hay@[j] != c,
            first_char_idx(hay@, c, 0) == first_char_idx(hay@, c, i as int),
        decreases n - i,
    {
        if hay[i] == c {
            return Some(i);
        }
        i += 1;
    }
    None
}

/// Position of the last occurrence of `c`, if any.
pub fn rfind_char(hay: &[char], c: char) -> (r: Option<usize>)
    ensures
        match r {
            Some(i) => i < hay@.len() && hay@[i as int] == c && last_char_idx(
                hay@,
                c,
                hay@.len() as int,
            ) == Some(i as int) && forall|j: int| i < j < hay@.len() ==> hay@[j] != c,
            None => !has_char(hay@, c) && last_char_idx(hay@, c, hay@.len() as int) is None,
        },
{
    let n = hay.len();
    let mut i = n;
    while i > 0
        invariant
            i <= n,
            n == hay@.len(),
            forall|j: int| i <= j < n ==> hay@[j] != c,
            last_char_idx(hay@, c, n as int) == last_char_idx(hay@, c, i as int),
        decreases i,
    {
        i -= 1;
        if hay[i] == c {
            return Some(i);
        }
    }
    None
}

/// ASCII uppercase mapping of one character.
pub open spec fn upper_char(c: char) -> char {
    if 'a' <= c && c <= 'z' {
        ((c as u8) - 32) as char
    } else {
        c
    }
}

/// ASCII lowercase mapping of one character.
pub open spec fn lower_char(c: char) -> char {
    if 'A' <= c && c <= 'Z' {
        ((c as u8) + 32) as char
    } else {
        c
    }
}

/// ASCII uppercase mapping of a character sequence.
pub open spec fn upper_seq(s: Seq<char>) -> Seq<char> {
    Seq::new(s.len(), |i: int| upper_char(s[i]))
}

/// ASCII lowercase mapping of a character sequence.
pub open spec fn lower_seq(s: Seq<char>) -> Seq<char> {
    Seq::new(s.len(), |i: int| lower_char(s[i]))
}

/// ASCII-uppercases every character.
pub fn to_upper_chars(hay: &[char]) -> (v: Vec<char>)
    ensures
        v@ == upper_seq(hay@),
{
    let n = hay.len();
    let mut v: Vec<char> = Vec::new();
    let mut i: usize = 0;
    while i < n
        invariant
            i <= n,
            n == hay@.len(),
            v@.len() == i,
            forall|j: int| 0 <= j < i ==> v@[j] == upper_char(hay@[j]),
        decreases n - i,
    {
        let c = hay[i];
        if c >= 'a' && c <= 'z' {
            v.push(((c as u8) - 32) as char);
        } else {
            v.push(c);
        }
        i += 1;
    }
    proof {
        assert(v@ =~= upper_seq(hay@));
    }
    v
}

/// ASCII-lowercases every character.
pub fn to_lower_chars(hay: &[char]) -> (v: Vec<char>)
    ensures
        v@ == lower_seq(hay@),
{
    let n = hay.len();
    let mut v: Vec<char> = Vec::new();
    let mut i: usize = 0;
    while i < n
        invariant
            i <= n,
            n == hay@.len(),
            v@.len() == i,
            forall|j: int| 0 <= j < i ==> v@[j] == lower_char(hay@[j]),
        decreases n - i,
    {
        let c = hay[i];
        if c >= 'A' && c <= 'Z' {
            v.push(((c as u8) + 32) as char);
        } else {
            v.push(c);
        }
        i += 1;
    }
    proof {
        assert(v@ =~= lower_seq(hay@));
    }
    v
}

/// Relies on `String::push`: appends exactly the given character at the end.
#[verifier::external_body]
pub fn push_char(s: &mut String, c: char)
    ensures
        final(s)@ == old(s)@.push(c),
{
    s.push(c);
}

/// Builds a `String` holding exactly the given characters.
pub fn string_of(chars: &[char]) -> (r: String)
    ensures
        r@ == chars@,
{
    let n = chars.len();
    let mut r = String::new();
    let mut i: usize = 0;
    while i < n
        invariant
            i <= n,
            n == chars@.len(),
            r@ == chars@.take(i as int),
        decreases n - i,
    {
        push_char(&mut r, chars[i]);
        i += 1;
        proof {
            assert(r@ =~= chars@.take(i as int));
        }
    }
    proof {
        assert(chars@.take(n as int) =~= chars@);
    }
    r
}

/// Decimal digits of `n`, most significant first.
pub open spec fn dec_digits(n: nat) -> Seq<char>
    decreases n,
{
    if n < 10 {
        seq![((48 + n) as u8) as char]
    } else {
        dec_digits(n / 10).push(((48 + n % 10) as u8) as char)
    }
}

/// Decimal form of an integer, with a leading minus sign when negative.
pub open spec fn dec_int(x: int) -> Seq<char> {
    if x >= 0 {
        dec_digits(x as nat)
    } else {
        seq!['-'] + dec_digits((-x) as nat)
    }
}

/// Appends the decimal digits of `n`.
fn push_dec(n: u64, out: &mut Vec<char>)
    ensures
        final(out)@ == old(out)@ + dec_digits(n as nat),
    decreases n,
{
    if n < 10 {
        out.push(((48 + n) as u8) as char);
        proof {
            assert(out@ =~= old(out)@ + dec_digits(n as nat));
        }
    } else {
        push_dec(n / 10, out);
        out.push(((48 + n % 10) as u8) as char);
        proof {
            assert(out@ =~= old(out)@ + dec_digits(n as nat));
        }
    }
}

/// The decimal form of an unsigned number.
pub fn u64_to_string(n: u64) -> (r: String)
    ensures
        r@ == dec_digits(n as nat),
{
    let mut v: Vec<char> = Vec::new();
    push_dec(n, &mut v);
    proof {
        assert(v@ =~= dec_digits(n as nat));
    }
    string_of(v.as_slice())
}

/// The decimal form of a signed number.
pub fn i64_to_string(x: i64) -> (r: String)
    ensures
        r@ == dec_int(x as int),
{
    if x >= 0 {
        u64_to_string(x as u64)
    } else {
        let mag: u64 = (-(x as i128)) as u64;
        let mut v: Vec<char> = Vec::new();
        v.push('-');
        push_dec(mag, &mut v);
        proof {
            assert(v@ =~= dec_int(x as int));
        }
        string_of(v.as_slice())
    }
}

} // verus!
