//! Reading options given as text: header lines and time spans.

use crate::bindings::{bind, distinct_keys, Bindings, Entry};
use crate::decimal::{parse_unsigned, unsigned_of};
use crate::span::TimeSpan;
use crate::text::{chars_of, find_char, index_of, lemma_index_of, push_str_chars, text_of,
    text_of_range};
use vstd::prelude::*;

verus! {

/// Whether `c` is white space: a character with the Unicode property
/// `White_Space`.
pub open spec fn is_space(c: char) -> bool {
    let n = c as u32;
    (0x09 <= n && n <= 0x0d) || n == 0x20 || n == 0x85 || n == 0xa0 || n == 0x1680 || (0x2000 <= n
        && n <= 0x200a) || n == 0x2028 || n == 0x2029 || n == 0x202f || n == 0x205f || n == 0x3000
}

/// The number of white-space characters that `s` starts with.
pub open spec fn leading_spaces(s: Seq<char>) -> nat
    decreases s.len(),
{
    if s.len() > 0 && is_space(s[0]) {
        1 + leading_spaces(s.skip(1))
    } else {
        0
    }
}

/// The number of white-space characters that `s` ends with.
pub open spec fn trailing_spaces(s: Seq<char>) -> nat
    decreases s.len(),
{
    if s.len() > 0 && is_space(s.last()) {
        1 + trailing_spaces(s.drop_last())
    } else {
        0
    }
}

/// `s` without the white space at its two ends.
pub open spec fn trimmed(s: Seq<char>) -> Seq<char> {
    let from = leading_spaces(s) as int;
    let to = s.len() - trailing_spaces(s);
    if from < to {
        s.subrange(from, to)
    } else {
        Seq::empty()
    }
}

/// Why a header line or a time span cannot be read.
#[derive(Debug)]
pub enum OptionError {
    /// The header line holds no `:`.
    InvalidHeader(String),
    /// The time span is a unit without a number.
    InvalidTimeout(String),
    /// The number of the time span is no number that fits in 64 bits.
    InvalidNumber(String),
}

/// What an `OptionError` holds.
pub enum OptionErrorModel {
    InvalidHeader(Seq<char>),
    InvalidTimeout(Seq<char>),
    InvalidNumber(Seq<char>),
}

impl View for OptionError {
    type V = OptionErrorModel;

    open spec fn view(&self) -> OptionErrorModel {
        match self {
            OptionError::InvalidHeader(s) => OptionErrorModel::InvalidHeader(s@),
            OptionError::InvalidTimeout(s) => OptionErrorModel::InvalidTimeout(s@),
            OptionError::InvalidNumber(s) => OptionErrorModel::InvalidNumber(s@),
        }
    }
}

impl OptionErrorModel {
    /// The message of the error.
    pub open spec fn message(self) -> Seq<char> {
        match self {
            OptionErrorModel::InvalidHeader(s) => "Invalid header format: "@ + s,
            OptionErrorModel::InvalidTimeout(s) => "Invalid timeout format: "@ + s,
            OptionErrorModel::InvalidNumber(s) => "Invalid number: "@ + s,
        }
    }
}

impl OptionError {
    /// The message of the error.
    pub fn message(&self) -> (r: String)
        ensures
            r@ == self@.message(),
    {
        let mut out: Vec<char> = Vec::new();
        match self {
            OptionError::InvalidHeader(s) => {
                push_str_chars(&mut out, "Invalid header format: ");
                push_str_chars(&mut out, s.as_str());
            },
            OptionError::InvalidTimeout(s) => {
                push_str_chars(&mut out, "Invalid timeout format: ");
                push_str_chars(&mut out, s.as_str());
            },
            OptionError::InvalidNumber(s) => {
                push_str_chars(&mut out, "Invalid number: ");
                push_str_chars(&mut out, s.as_str());
            },
        }
        proof {
            assert(out@ =~= self@.message());
        }
        text_of(&out)
    }
}

/// The name and the value of a header line: what stands before the first
/// `:` and what stands after it, both trimmed.
pub open spec fn header_of(line: Seq<char>) -> Result<Entry, OptionErrorModel> {
    let colon = index_of(line, ':');
    if 0 <= colon < line.len() {
        Ok((trimmed(line.take(colon)), trimmed(line.skip(colon + 1))))
    } else {
        Err(OptionErrorModel::InvalidHeader(line))
    }
}

/// The table of the header lines, where a later line overrides an earlier
/// one of the same name; or the error of the first line that cannot be
/// read.
pub open spec fn headers_of(lines: Seq<Seq<char>>) -> Result<Seq<Entry>, OptionErrorModel>
    decreases lines.len(),
{
    if lines.len() == 0 {
        Ok(Seq::empty())
    } else {
        match headers_of(lines.drop_last()) {
            Err(e) => Err(e),
            Ok(table) => match header_of(lines.last()) {
                Err(e) => Err(e),
                Ok(entry) => Ok(bind(table, entry.0, entry.1)),
            },
        }
    }
}

/// The texts of a sequence of strings.
pub open spec fn texts_of(lines: Seq<String>) -> Seq<Seq<char>> {
    Seq::new(lines.len(), |i: int| lines[i]@)
}

/// The length of a time span given as text, in nanoseconds: a number of
/// milliseconds before `ms`, a number of seconds before `s`, or a number of
/// seconds alone.
pub open spec fn timeout_of(text: Seq<char>) -> Result<nat, OptionErrorModel> {
    let n = text.len() as int;
    if n >= 2 && text[n - 2] == 'm' && text[n - 1] == 's' {
        let number = text.take(n - 2);
        if number.len() == 0 {
            Err(OptionErrorModel::InvalidTimeout(text))
        } else {
            match unsigned_of(number, 0xffff_ffff_ffff_ffff) {
                Some(millis) => Ok(millis * 1_000_000),
                None => Err(OptionErrorModel::InvalidNumber(number)),
            }
        }
    } else if n >= 1 && text[n - 1] == 's' {
        let number = text.take(n - 1);
        if number.len() == 0 {
            Err(OptionErrorModel::InvalidTimeout(text))
        } else {
            match unsigned_of(number, 0xffff_ffff_ffff_ffff) {
                Some(secs) => Ok(secs * 1_000_000_000),
                None => Err(OptionErrorModel::InvalidNumber(number)),
            }
        }
    } else {
        match unsigned_of(text, 0xffff_ffff_ffff_ffff) {
            Some(secs) => Ok(secs * 1_000_000_000),
            None => Err(OptionErrorModel::InvalidNumber(text)),
        }
    }
}

/// Tests whether `c` is white space.
fn is_whitespace(c: char) -> (r: bool)
    ensures
        r == is_space(c),
{
    let n: u32 = c as u32;
    (0x09 <= n && n <= 0x0d) || n == 0x20 || n == 0x85 || n == 0xa0 || n == 0x1680 || (0x2000 <= n
        && n <= 0x200a) || n == 0x2028 || n == 0x2029 || n == 0x202f || n == 0x205f || n == 0x3000
}

/// `v[from..to]` without the white space at its two ends.
pub fn trim_range(v: &Vec<char>, from: usize, to: usize) -> (r: String)
    requires
        from <= to <= v.len(),
    ensures
        r@ == trimmed(v@.subrange(from as int, to as int)),
{
    let ghost s = v@.subrange(from as int, to as int);
    let mut a: usize = from;
    proof {
        assert(s.skip(0) =~= s);
    }
    while a < to && is_whitespace(v[a])
        invariant
            from <= a <= to <= v.len(),
            s == v@.subrange(from as int, to as int),
            leading_spaces(s) == (a - from) + leading_spaces(s.skip(a - from)),
        decreases to - a,
    {
        proof {
            assert(s.skip(a - from)[0] == v@[a as int]);
            assert(s.skip(a - from).skip(1) =~= s.skip(a - from + 1));
        }
        a += 1;
    }
    proof {
        if a < to {
            assert(s.skip(a - from)[0] == v@[a as int]);
        }
        assert(s.take(s.len() as int) =~= s);
    }
    let mut b: usize = to;
    while b > from && is_whitespace(v[b - 1])
        invariant
            from <= b <= to <= v.len(),
            s == v@.subrange(from as int, to as int),
            trailing_spaces(s) == (to - b) + trailing_spaces(s.take(b - from)),
        decreases b,
    {
        proof {
            assert(s.take(b - from).last() == v@[b - 1]);
            assert(s.take(b - from).drop_last() =~= s.take(b - from - 1));
        }
        b -= 1;
    }
    proof {
        if b > from {
            assert(s.take(b - from).last() == v@[b - 1]);
        }
    }
    if a < b {
        proof {
            assert(s.subrange(a - from, b - from) =~= v@.subrange(a as int, b as int));
        }
        text_of_range(v, a, b)
    } else {
        String::new()
    }
}

/// Reads header lines of the form `Name: value` into a table.
pub fn parse_headers(headers: &[String]) -> (r: Result<Bindings, OptionError>)
    ensures
        match r {
            Ok(table) => headers_of(texts_of(headers@)) == Ok::<Seq<Entry>, OptionErrorModel>(
                table@,
            ) && distinct_keys(table@),
            Err(e) => headers_of(texts_of(headers@)) == Err::<Seq<Entry>, OptionErrorModel>(e@),
        },
{
    let ghost lines = texts_of(headers@);
    let mut parsed = Bindings::new();
    let mut i: usize = 0;
    proof {
        assert(lines.take(0) =~= Seq::<Seq<char>>::empty());
    }
    while i < headers.len()
        invariant
            i <= headers.len(),
            lines == texts_of(headers@),
            distinct_keys(parsed@),
            headers_of(lines.take(i as int)) == Ok::<Seq<Entry>, OptionErrorModel>(parsed@),
        decreases headers.len() - i,
    {
        let line = chars_of(headers[i].as_str());
        let colon = find_char(&line, 0, line.len(), ':');
        proof {
            assert(line@.subrange(0, line@.len() as int) =~= line@);
            assert(lines.take(i + 1).drop_last() =~= lines.take(i as int));
            assert(lines.take(i + 1).last() == line@);
            lemma_index_of(line@, ':');
        }
        if colon == line.len() {
            proof {
                lemma_error_stays(lines, i as int + 1);
            }
            return Err(OptionError::InvalidHeader(headers[i].clone()));
        }
        proof {
            assert(line@.take(colon as int) =~= line@.subrange(0, colon as int));
            assert(line@.skip(colon + 1) =~= line@.subrange(colon + 1, line@.len() as int));
        }
        let key = trim_range(&line, 0, colon);
        let value = trim_range(&line, colon + 1, line.len());
        parsed.insert(key, value);
        i += 1;
    }
    proof {
        assert(lines.take(lines.len() as int) =~= lines);
    }
    Ok(parsed)
}

/// An error among the first `k` lines is the error of all lines.
pub proof fn lemma_error_stays(lines: Seq<Seq<char>>, k: int)
    requires
        0 <= k <= lines.len(),
        headers_of(lines.take(k)) is Err,
    ensures
        headers_of(lines) == headers_of(lines.take(k)),
    decreases lines.len(),
{
    if k == lines.len() {
        assert(lines.take(k) =~= lines);
    } else {
        assert(lines.drop_last().take(k) =~= lines.take(k));
        lemma_error_stays(lines.drop_last(), k);
    }
}

/// Reads a time span: `500ms`, `30s`, or `30` for thirty seconds.
pub fn parse_timeout(timeout_str: &str) -> (r: Result<TimeSpan, OptionError>)
    ensures
        match r {
            Ok(span) => timeout_of(timeout_str@) == Ok::<nat, OptionErrorModel>(span@),
            Err(e) => timeout_of(timeout_str@) == Err::<nat, OptionErrorModel>(e@),
        },
{
    let v = chars_of(timeout_str);
    let n: usize = v.len();
    let (end, in_millis): (usize, bool) = if n >= 2 && v[n - 2] == 'm' && v[n - 1] == 's' {
        (n - 2, true)
    } else if n >= 1 && v[n - 1] == 's' {
        (n - 1, false)
    } else {
        (n, false)
    };
    proof {
        assert(v@.take(end as int) =~= v@.subrange(0, end as int));
        assert(v@.take(n as int) =~= v@);
    }
    if end < n && end == 0 {
        return Err(OptionError::InvalidTimeout(timeout_str.to_owned()));
    }
    match parse_unsigned(&v, 0, end, 0xffff_ffff_ffff_ffff) {
        Some(number) => {
            if in_millis {
                Ok(TimeSpan::from_millis(number))
            } else {
                Ok(TimeSpan::from_secs(number))
            }
        },
        None => Err(OptionError::InvalidNumber(text_of_range(&v, 0, end))),
    }
}

} // verus!
