//! Decimal numbers as text: reading an integer from its digits and writing
//! one out.

use vstd::prelude::*;

verus! {

/// Whether `c` is one of the ten ASCII digits.
pub open spec fn is_digit(c: char) -> bool {
    '0' <= c && c <= '9'
}

/// The number that the digit `c` stands for.
pub open spec fn digit_value(c: char) -> nat
    recommends
        is_digit(c),
{
    (c as u32 - '0' as u32) as nat
}

/// Whether every character of `s` is a digit.
pub open spec fn all_digits(s: Seq<char>) -> bool {
    forall|i: int| 0 <= i < s.len() ==> is_digit(#[trigger] s[i])
}

/// The number that the digit string `s` denotes; the empty string denotes 0.
pub open spec fn decimal_value(s: Seq<char>) -> nat
    decreases s.len(),
{
    if s.len() == 0 {
        0
    } else {
        decimal_value(s.drop_last()) * 10 + digit_value(s.last())
    }
}

/// What reading `s` as an unsigned number no larger than `max` gives: an
/// optional `+`, then one or more digits and nothing else.
pub open spec fn unsigned_of(s: Seq<char>, max: nat) -> Option<nat> {
    let digits = if s.len() > 0 && s[0] == '+' {
        s.skip(1)
    } else {
        s
    };
    if digits.len() > 0 && all_digits(digits) && decimal_value(digits) <= max {
        Some(decimal_value(digits))
    } else {
        None
    }
}

/// What reading `s` as a signed 64-bit number gives: an optional `+` or
/// `-`, then one or more digits and nothing else.
pub open spec fn signed_of(s: Seq<char>) -> Option<int> {
    if s.len() > 0 && s[0] == '-' {
        let digits = s.skip(1);
        if digits.len() > 0 && all_digits(digits) && decimal_value(digits)
            <= 0x8000_0000_0000_0000 {
            Some(-(decimal_value(digits) as int))
        } else {
            None
        }
    } else {
        match unsigned_of(s, 0x7fff_ffff_ffff_ffff) {
            Some(n) => Some(n as int),
            None => None,
        }
    }
}

/// What reading `s` as a truth value gives.
pub open spec fn bool_of(s: Seq<char>) -> Option<bool> {
    if s == "true"@ {
        Some(true)
    } else if s == "false"@ {
        Some(false)
    } else {
        None
    }
}

/// A longer digit string denotes at least what each of its prefixes does.
pub proof fn lemma_prefix_value(s: Seq<char>, k: int)
    requires
        0 <= k <= s.len(),
    ensures
        decimal_value(s.take(k)) <= decimal_value(s),
    decreases s.len(),
{
    if k == s.len() {
        assert(s.take(k) =~= s);
    } else {
        lemma_prefix_value(s.drop_last(), k);
        assert(s.drop_last().take(k) =~= s.take(k));
    }
}

/// Reads the digits `v[from..to]` as a number no larger than `max`.
fn read_digits(v: &Vec<char>, from: usize, to: usize, max: u64) -> (r: Option<u64>)
    requires
        from <= to <= v.len(),
    ensures
        r matches Some(n) ==> from < to && all_digits(v@.subrange(from as int, to as int)) && n
            == decimal_value(v@.subrange(from as int, to as int)) && n <= max,
        r is None ==> !(from < to && all_digits(v@.subrange(from as int, to as int))
            && decimal_value(v@.subrange(from as int, to as int)) <= max),
{
    let ghost digits = v@.subrange(from as int, to as int);
    if from == to {
        return None;
    }
    let mut acc: u64 = 0;
    let mut i: usize = from;
    while i < to
        invariant
            from <= i <= to <= v.len(),
            digits == v@.subrange(from as int, to as int),
            all_digits(digits.take(i - from)),
            acc == decimal_value(digits.take(i - from)),
            acc <= max,
        decreases to - i,
    {
        let c = v[i];
        proof {
            assert(digits[i - from] == c);
            assert(digits.take(i - from + 1).drop_last() =~= digits.take(i - from));
            assert(digits.take(i - from + 1).last() == c);
            lemma_prefix_value(digits, i - from + 1);
        }
        if c < '0' || c > '9' {
            return None;
        }
        let d: u64 = (c as u32 - '0' as u32) as u64;
        if d > max {
            return None;
        }
        if acc > (max - d) / 10 {
            proof {
                assert(acc * 10 + d > max) by (nonlinear_arith)
                    requires
                        acc > (max - d) / 10,
                        d <= max,
                ;
            }
            return None;
        }
        proof {
            assert(acc * 10 + d <= max) by (nonlinear_arith)
                requires
                    acc <= (max - d) / 10,
                    d <= max,
            ;
        }
        acc = acc * 10 + d;
        proof {
            assert forall|j: int| 0 <= j < i - from + 1 implies is_digit(
                #[trigger] digits.take(i - from + 1)[j],
            ) by {
                if j < i - from {
                    assert(digits.take(i - from)[j] == digits[j]);
                }
            }
        }
        i += 1;
    }
    proof {
        assert(digits.take(to - from) =~= digits);
    }
    Some(acc)
}

/// Reads `v[from..to]` as an unsigned number no larger than `max`.
pub fn parse_unsigned(v: &Vec<char>, from: usize, to: usize, max: u64) -> (r: Option<u64>)
    requires
        from <= to <= v.len(),
    ensures
        r matches Some(n) ==> unsigned_of(v@.subrange(from as int, to as int), max as nat) == Some(
            n as nat,
        ),
        r is None ==> unsigned_of(v@.subrange(from as int, to as int), max as nat) is None,
{
    let ghost s = v@.subrange(from as int, to as int);
    if from < to && v[from] == '+' {
        proof {
            assert(s[0] == '+');
            assert(s.skip(1) =~= v@.subrange(from + 1, to as int));
        }
        read_digits(v, from + 1, to, max)
    } else {
        proof {
            if from < to {
                assert(s[0] == v@[from as int]);
            }
        }
        read_digits(v, from, to, max)
    }
}

/// Reads `v[from..to]` as a signed 64-bit number.
pub fn parse_signed(v: &Vec<char>, from: usize, to: usize) -> (r: Option<i64>)
    requires
        from <= to <= v.len(),
    ensures
        r matches Some(n) ==> signed_of(v@.subrange(from as int, to as int)) == Some(n as int),
        r is None ==> signed_of(v@.subrange(from as int, to as int)) is None,
{
    let ghost s = v@.subrange(from as int, to as int);
    if from < to && v[from] == '-' {
        proof {
            assert(s[0] == '-');
            assert(s.skip(1) =~= v@.subrange(from + 1, to as int));
        }
        match read_digits(v, from + 1, to, 0x8000_0000_0000_0000) {
            Some(n) => {
                if n == 0x8000_0000_0000_0000 {
                    Some(i64::MIN)
                } else {
                    Some(-(n as i64))
                }
            },
            None => None,
        }
    } else {
        proof {
            if from < to {
                assert(s[0] == v@[from as int]);
            }
        }
        match parse_unsigned(v, from, to, 0x7fff_ffff_ffff_ffff) {
            Some(n) => Some(n as i64),
            None => None,
        }
    }
}

/// Reads `v` as a truth value: `true` or `false`, nothing else.
pub fn parse_bool(v: &Vec<char>) -> (r: Option<bool>)
    ensures
        r == bool_of(v@),
{
    proof {
        reveal_strlit("true");
        reveal_strlit("false");
    }
    if v.len() == 4 && v[0] == 't' && v[1] == 'r' && v[2] == 'u' && v[3] == 'e' {
        proof {
            assert(v@ =~= "true"@);
        }
        Some(true)
    } else if v.len() == 5 && v[0] == 'f' && v[1] == 'a' && v[2] == 'l' && v[3] == 's' && v[4]
        == 'e' {
        proof {
            assert(v@ =~= "false"@);
        }
        Some(false)
    } else {
        proof {
            if v@ == "true"@ {
                assert(v@[0] == 't' && v@[1] == 'r' && v@[2] == 'u' && v@[3] == 'e');
            }
            if v@ == "false"@ {
                assert(v@[0] == 'f' && v@[1] == 'a' && v@[2] == 'l' && v@[3] == 's' && v@[4]
                    == 'e');
            }
        }
        None
    }
}

/// The character that writes the digit `d`.
pub open spec fn digit_char(d: nat) -> char
    recommends
        d < 10,
{
    if d == 0 {
        '0'
    } else if d == 1 {
        '1'
    } else if d == 2 {
        '2'
    } else if d == 3 {
        '3'
    } else if d == 4 {
        '4'
    } else if d == 5 {
        '5'
    } else if d == 6 {
        '6'
    } else if d == 7 {
        '7'
    } else if d == 8 {
        '8'
    } else {
        '9'
    }
}

/// The decimal digits of `n`, most significant first, without leading
/// zeros.
pub open spec fn decimal_text(n: nat) -> Seq<char>
    decreases n,
{
    if n < 10 {
        seq![digit_char(n)]
    } else {
        decimal_text(n / 10).push(digit_char(n % 10))
    }
}

/// Written out and read again, a number is what it was.
pub proof fn lemma_decimal_round_trip(n: nat, max: nat)
    ensures
        decimal_text(n).len() > 0,
        all_digits(decimal_text(n)),
        decimal_value(decimal_text(n)) == n,
        n <= max ==> unsigned_of(decimal_text(n), max) == Some(n),
    decreases n,
{
    let text = decimal_text(n);
    if n < 10 {
        assert(text =~= seq![digit_char(n)]);
        assert(text.drop_last() =~= Seq::<char>::empty());
        assert(decimal_value(text.drop_last()) == 0);
        assert(is_digit(text[0]));
        assert(digit_value(text[0]) == n);
    } else {
        let head = decimal_text(n / 10);
        lemma_decimal_round_trip(n / 10, max);
        assert(text.drop_last() =~= head);
        assert(text.last() == digit_char(n % 10));
        assert(is_digit(digit_char(n % 10)));
        assert(digit_value(digit_char(n % 10)) == n % 10);
        assert forall|i: int| 0 <= i < text.len() implies is_digit(#[trigger] text[i]) by {
            if i < head.len() {
                assert(text[i] == head[i]);
            }
        }
        assert((n / 10) * 10 + n % 10 == n);
    }
    assert(text[0] != '+');
}

fn digit_of(d: u8) -> (c: char)
    requires
        d < 10,
    ensures
        c == digit_char(d as nat),
{
    if d == 0 {
        '0'
    } else if d == 1 {
        '1'
    } else if d == 2 {
        '2'
    } else if d == 3 {
        '3'
    } else if d == 4 {
        '4'
    } else if d == 5 {
        '5'
    } else if d == 6 {
        '6'
    } else if d == 7 {
        '7'
    } else if d == 8 {
        '8'
    } else {
        '9'
    }
}

/// Appends the decimal digits of `n` to `out`.
pub fn push_decimal(out: &mut Vec<char>, n: u128)
    ensures
        final(out)@ == old(out)@ + decimal_text(n as nat),
    decreases n,
{
    if n < 10 {
        out.push(digit_of(n as u8));
        proof {
            assert(old(out)@.push(digit_char(n as nat)) =~= old(out)@ + decimal_text(n as nat));
        }
    } else {
        push_decimal(out, n / 10);
        out.push(digit_of((n % 10) as u8));
        proof {
            assert((old(out)@ + decimal_text((n / 10) as nat)).push(digit_char((n % 10) as nat))
                =~= old(out)@ + decimal_text(n as nat));
        }
    }
}

/// `amount / unit` in tenths, rounded to the nearest tenth, a half going to
/// the even tenth.
pub open spec fn tenths_of(amount: nat, unit: nat) -> nat
    recommends
        unit > 0,
{
    let whole = (amount * 10) / unit;
    let rest = (amount * 10) % unit;
    if rest * 2 > unit || (rest * 2 == unit && whole % 2 == 1) {
        whole + 1
    } else {
        whole
    }
}

/// A number of tenths with one decimal.
pub open spec fn one_decimal(tenths: nat) -> Seq<char> {
    decimal_text(tenths / 10) + seq!['.'] + decimal_text(tenths % 10)
}

/// Appends `amount / unit` with one decimal.
pub fn push_one_decimal(out: &mut Vec<char>, amount: u128, unit: u128)
    requires
        unit > 0,
        unit % 2 == 0,
        amount <= u64::MAX,
        unit <= u64::MAX,
    ensures
        final(out)@ == old(out)@ + one_decimal(tenths_of(amount as nat, unit as nat)),
{
    let scaled: u128 = amount * 10;
    let whole: u128 = scaled / unit;
    let rest: u128 = scaled % unit;
    let tenths: u128 = if rest * 2 > unit || (rest * 2 == unit && whole % 2 == 1) {
        whole + 1
    } else {
        whole
    };
    push_decimal(out, tenths / 10);
    out.push('.');
    push_decimal(out, tenths % 10);
    proof {
        assert(out@ =~= old(out)@ + one_decimal(tenths_of(amount as nat, unit as nat)));
    }
}

} // verus!
