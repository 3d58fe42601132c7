//! Characters and small string utilities shared by the rest of the crate.
//! Contracts speak of a string through its view, a `Seq<char>`.

use vstd::prelude::*;
use vstd::string::*;

verus! {

/// `String::push` appends one character to the end of the string. Believed
/// without proof, on the word of its documentation.
pub assume_specification[ std::string::String::push ](s: &mut std::string::String, ch: char)
    ensures
        final(s)@ == old(s)@.push(ch),
;

/// The upper-case form of a text, as `str::to_uppercase` gives it.
pub uninterp spec fn uppercase_of(s: Seq<char>) -> Seq<char>;

/// The lower-case form of a text, as `str::to_lowercase` gives it.
pub uninterp spec fn lowercase_of(s: Seq<char>) -> Seq<char>;

/// `str::to_uppercase` returns the upper-case form of the text. Believed
/// without proof: the same text gives the same form.
pub assume_specification[ str::to_uppercase ](s: &str) -> (r: std::string::String)
    ensures
        r@ == uppercase_of(s@),
;

/// `str::to_lowercase` returns the lower-case form of the text. Believed
/// without proof: the same text gives the same form.
pub assume_specification[ str::to_lowercase ](s: &str) -> (r: std::string::String)
    ensures
        r@ == lowercase_of(s@),
;

/// The characters of `s`, in order.
pub fn chars_of(s: &str) -> (v: Vec<char>)
    ensures
        v@ == s@,
{
    let mut v: Vec<char> = Vec::new();
    for c in it: s.chars()
        invariant
            it.seq() == s@,
            v@ == s@.take(it.index() as int),
    {
        v.push(c);
    }
    v
}

/// The string made of the characters `v[from..to]`.
pub fn text_of_range(v: &Vec<char>, from: usize, to: usize) -> (s: String)
    requires
        from <= to <= v.len(),
    ensures
        s@ == v@.subrange(from as int, to as int),
{
    let mut s = String::new();
    let mut i: usize = from;
    while i < to
        invariant
            from <= i <= to <= v.len(),
            s@ == v@.subrange(from as int, i as int),
        decreases to - i,
    {
        s.push(v[i]);
        proof {
            assert(v@.subrange(from as int, i as int).push(v@[i as int]) =~= v@.subrange(
                from as int,
                i as int + 1,
            ));
        }
        i += 1;
    }
    s
}

/// The string made of the characters of `v`.
pub fn text_of(v: &Vec<char>) -> (s: String)
    ensures
        s@ == v@,
{
    let s = text_of_range(v, 0, v.len());
    proof {
        assert(v@.subrange(0, v.len() as int) =~= v@);
    }
    s
}

/// Appends the characters of `src` to `dst`.
pub fn push_chars(dst: &mut Vec<char>, src: &Vec<char>)
    ensures
        final(dst)@ == old(dst)@ + src@,
{
    let mut i: usize = 0;
    while i < src.len()
        invariant
            i <= src.len(),
            dst@ == old(dst)@ + src@.take(i as int),
        decreases src.len() - i,
    {
        dst.push(src[i]);
        proof {
            assert(src@.take(i as int).push(src@[i as int]) =~= src@.take(i as int + 1));
            assert((old(dst)@ + src@.take(i as int)).push(src@[i as int]) =~= old(dst)@
                + src@.take(i as int + 1));
        }
        i += 1;
    }
    proof {
        assert(src@.take(src.len() as int) =~= src@);
    }
}

/// Appends the characters of the string `src` to `dst`.
pub fn push_str_chars(dst: &mut Vec<char>, src: &str)
    ensures
        final(dst)@ == old(dst)@ + src@,
{
    let chars = chars_of(src);
    push_chars(dst, &chars);
}

/// The characters `v[from..to]` as a vector of their own.
pub fn slice_chars(v: &Vec<char>, from: usize, to: usize) -> (r: Vec<char>)
    requires
        from <= to <= v.len(),
    ensures
        r@ == v@.subrange(from as int, to as int),
{
    let mut r: Vec<char> = Vec::new();
    let mut i: usize = from;
    while i < to
        invariant
            from <= i <= to <= v.len(),
            r@ == v@.subrange(from as int, i as int),
        decreases to - i,
    {
        r.push(v[i]);
        proof {
            assert(v@.subrange(from as int, i as int).push(v@[i as int]) =~= v@.subrange(
                from as int,
                i as int + 1,
            ));
        }
        i += 1;
    }
    r
}

/// Whether two strings hold the same characters.
pub fn same_text(a: &str, b: &str) -> (r: bool)
    ensures
        r == (a@ == b@),
{
    let x = a.to_owned();
    let y = b.to_owned();
    x == y
}

/// Whether `pattern` occurs in `s` at position `at`.
pub open spec fn occurs_at(s: Seq<char>, pattern: Seq<char>, at: int) -> bool {
    0 <= at && at + pattern.len() <= s.len() && s.subrange(at, at + pattern.len()) == pattern
}

/// Whether `pattern` occurs somewhere in `s`. The empty pattern occurs in
/// every string.
pub open spec fn contains_text(s: Seq<char>, pattern: Seq<char>) -> bool {
    exists|at: int| occurs_at(s, pattern, at)
}

/// Tests whether `pattern` occurs in `s` at position `at`.
pub fn matches_at(s: &Vec<char>, pattern: &Vec<char>, at: usize) -> (r: bool)
    ensures
        r == occurs_at(s@, pattern@, at as int),
{
    if pattern.len() > s.len() || at > s.len() - pattern.len() {
        return false;
    }
    let mut j: usize = 0;
    while j < pattern.len()
        invariant
            j <= pattern.len(),
            at + pattern.len() <= s.len(),
            s@.subrange(at as int, at + j) == pattern@.take(j as int),
        decreases pattern.len() - j,
    {
        if s[at + j] != pattern[j] {
            proof {
                let sub = s@.subrange(at as int, at + pattern.len());
                assert(sub[j as int] == s@[at + j]);
            }
            return false;
        }
        proof {
            assert(s@.subrange(at as int, at + j).push(s@[at + j]) =~= s@.subrange(
                at as int,
                at + j + 1,
            ));
            assert(pattern@.take(j as int).push(pattern@[j as int]) =~= pattern@.take(j + 1));
        }
        j += 1;
    }
    proof {
        assert(pattern@.take(pattern.len() as int) =~= pattern@);
    }
    true
}

/// Case-sensitive substring test.
pub fn contains(s: &str, pattern: &str) -> (r: bool)
    ensures
        r == contains_text(s@, pattern@),
{
    let sv = chars_of(s);
    let pv = chars_of(pattern);
    if pv.len() > sv.len() {
        proof {
            assert forall|at: int| !occurs_at(sv@, pv@, at) by {}
        }
        return false;
    }
    let last: usize = sv.len() - pv.len();
    let mut at: usize = 0;
    while at < last
        invariant
            sv@ == s@,
            pv@ == pattern@,
            last == sv.len() - pv.len(),
            at <= last,
            forall|k: int| 0 <= k < at ==> !occurs_at(sv@, pv@, k),
        decreases last - at,
    {
        if matches_at(&sv, &pv, at) {
            return true;
        }
        at += 1;
    }
    let r = matches_at(&sv, &pv, last);
    proof {
        if !r {
            assert forall|k: int| !occurs_at(sv@, pv@, k) by {
                if 0 <= k && k + pv@.len() <= sv@.len() {
                    assert(k <= last);
                }
            }
        }
    }
    r
}

/// The position of the first `c` in `s`, or the length of `s` where there
/// is none.
pub open spec fn index_of(s: Seq<char>, c: char) -> int
    decreases s.len(),
{
    if s.len() == 0 {
        0
    } else if s[0] == c {
        0
    } else {
        1 + index_of(s.drop_first(), c)
    }
}

/// `index_of` is a position of `c`, or the length, and no earlier position
/// holds `c`.
pub proof fn lemma_index_of(s: Seq<char>, c: char)
    ensures
        0 <= index_of(s, c) <= s.len(),
        index_of(s, c) < s.len() ==> s[index_of(s, c)] == c,
        forall|i: int| 0 <= i < index_of(s, c) ==> s[i] != c,
    decreases s.len(),
{
    if s.len() > 0 && s[0] != c {
        let rest = s.drop_first();
        lemma_index_of(rest, c);
        assert forall|i: int| 0 <= i < index_of(s, c) implies s[i] != c by {
            if i > 0 {
                assert(rest[i - 1] == s[i]);
            }
        }
    }
}

/// A position that holds `c`, with no `c` before it, is `index_of`.
pub proof fn lemma_index_found(s: Seq<char>, c: char, at: int)
    requires
        0 <= at <= s.len(),
        at < s.len() ==> s[at] == c,
        forall|i: int| 0 <= i < at ==> s[i] != c,
    ensures
        index_of(s, c) == at,
    decreases s.len(),
{
    if s.len() > 0 && at > 0 {
        let rest = s.drop_first();
        assert(s[0] != c);
        assert forall|i: int| 0 <= i < at - 1 implies rest[i] != c by {
            assert(rest[i] == s[i + 1]);
        }
        lemma_index_found(rest, c, at - 1);
    }
}

/// The position of the first `c` in `v[from..to]`, counted from `from`.
pub fn find_char(v: &Vec<char>, from: usize, to: usize, c: char) -> (at: usize)
    requires
        from <= to <= v.len(),
    ensures
        at == index_of(v@.subrange(from as int, to as int), c),
        at <= to - from,
{
    let ghost s = v@.subrange(from as int, to as int);
    let mut i: usize = from;
    while i < to
        invariant
            from <= i <= to <= v.len(),
            s == v@.subrange(from as int, to as int),
            forall|k: int| 0 <= k < i - from ==> s[k] != c,
        decreases to - i,
    {
        if v[i] == c {
            proof {
                assert(s[i - from] == c);
                lemma_index_found(s, c, i - from);
            }
            return i - from;
        }
        proof {
            assert(s[i - from] == v@[i as int]);
        }
        i += 1;
    }
    proof {
        lemma_index_found(s, c, to - from);
    }
    to - from
}

} // verus!
