//! Decimal notation of unsigned 128-bit integers.
//!
//! Identifiers and quantities travel as full 128-bit values; this module
//! writes them as decimal digits and reads them back without any narrower
//! intermediate.

use vstd::prelude::*;
use vstd::string::StringExecFns;
use vstd::string::StrSliceExecFns;

verus! {

/// The character of a single decimal digit.
pub open spec fn digit_char(d: nat) -> char {
    if d == 0 {
        '0'
    } else if d == 1 {
        '1'
    } else if d == 2 {
        '2'
    } else if d == 3 {
        '3'
    } else if d == 4 {
        '4'
    } else if d == 5 {
        '5'
    } else if d == 6 {
        '6'
    } else if d == 7 {
        '7'
    } else if d == 8 {
        '8'
    } else {
        '9'
    }
}

/// Whether a character is one of `0` to `9`.
pub open spec fn is_digit(c: char) -> bool {
    '0' <= c && c <= '9'
}

/// The value of a digit character.
pub open spec fn digit_value(c: char) -> nat {
    (c as int - '0' as int) as nat
}

/// The decimal notation of `n`: no sign, no leading zero, `0` for zero.
pub open spec fn decimal(n: nat) -> Seq<char>
    decreases n,
{
    if n < 10 {
        seq![digit_char(n)]
    } else {
        decimal(n / 10).push(digit_char(n % 10))
    }
}

/// The number that a sequence of digits denotes, leading zeros allowed.
pub open spec fn digits_value(s: Seq<char>) -> nat
    decreases s.len(),
{
    if s.len() == 0 {
        0
    } else {
        digits_value(s.drop_last()) * 10 + digit_value(s.last())
    }
}

/// Whether every character of `s` is a digit.
pub open spec fn all_digits(s: Seq<char>) -> bool {
    forall|i: int| 0 <= i < s.len() ==> is_digit(#[trigger] s[i])
}

/// Whether `s` is the decimal notation of some number: digits only, at least
/// one, and no leading zero unless the notation is `0` itself.
pub open spec fn is_canonical(s: Seq<char>) -> bool {
    &&& s.len() >= 1
    &&& all_digits(s)
    &&& (s.len() > 1 ==> s[0] != '0')
}

/// A digit character denotes the digit it was made from.
pub proof fn lemma_digit_char(d: nat)
    requires
        d < 10,
    ensures
        is_digit(digit_char(d)),
        digit_value(digit_char(d)) == d,
{
}

/// Decimal notation is canonical and denotes the number it was made from.
pub proof fn lemma_decimal_canonical(n: nat)
    ensures
        is_canonical(decimal(n)),
        digits_value(decimal(n)) == n,
        n >= 1 ==> decimal(n)[0] != '0',
    decreases n,
{
    if n < 10 {
        let s = decimal(n);
        lemma_digit_char(n);
        assert(s.drop_last() =~= Seq::<char>::empty());
        assert(digits_value(s.drop_last()) == 0);
    } else {
        let p = decimal(n / 10);
        let s = decimal(n);
        lemma_decimal_canonical(n / 10);
        lemma_digit_char(n % 10);
        assert(s.drop_last() =~= p);
        assert(s.last() == digit_char(n % 10));
        assert(s[0] == p[0]);
        assert forall|i: int| 0 <= i < s.len() implies is_digit(#[trigger] s[i]) by {
            if i < p.len() {
                assert(s[i] == p[i]);
            }
        }
    }
}

/// A canonical sequence of digits is the decimal notation of its value.
pub proof fn lemma_canonical_is_decimal(s: Seq<char>)
    requires
        is_canonical(s),
    ensures
        decimal(digits_value(s)) == s,
        s[0] != '0' ==> digits_value(s) >= 1,
    decreases s.len(),
{
    let v = digits_value(s);
    let d = digit_value(s.last());
    assert(is_digit(s.last()));
    assert(d < 10);
    assert(digit_char(d) == s.last());
    if s.len() == 1 {
        assert(s.drop_last() =~= Seq::<char>::empty());
        assert(digits_value(s.drop_last()) == 0);
        assert(v == d);
        assert(decimal(v) =~= s);
    } else {
        let p = s.drop_last();
        assert(forall|i: int| 0 <= i < p.len() ==> p[i] == s[i]);
        assert(is_canonical(p)) by {
            if p.len() > 1 {
                assert(p[0] == s[0]);
            }
        }
        lemma_canonical_is_decimal(p);
        assert(p[0] == s[0]);
        let pv = digits_value(p);
        assert(pv >= 1);
        assert(v == pv * 10 + d);
        assert(v >= 10);
        assert(v / 10 == pv);
        assert(v % 10 == d);
        assert(decimal(v) == decimal(pv).push(digit_char(d)));
        assert(decimal(v) =~= s);
    }
}

/// Two numbers with the same decimal notation are the same number.
pub proof fn lemma_decimal_injective(a: nat, b: nat)
    requires
        decimal(a) == decimal(b),
    ensures
        a == b,
{
    lemma_decimal_canonical(a);
    lemma_decimal_canonical(b);
}

/// No character of a decimal notation is `c`, unless `c` is a digit.
pub proof fn lemma_decimal_avoids(n: nat, c: char)
    requires
        !is_digit(c),
    ensures
        !decimal(n).contains(c),
{
    lemma_decimal_canonical(n);
    let s = decimal(n);
    if s.contains(c) {
        let i = choose|i: int| 0 <= i < s.len() && s[i] == c;
        assert(is_digit(s[i]));
    }
}

/// The one-character text of a digit.
fn digit_text(d: u8) -> (s: &'static str)
    requires
        d < 10,
    ensures
        s@ == seq![digit_char(d as nat)],
{
    proof {
        reveal_strlit("0");
        reveal_strlit("1");
        reveal_strlit("2");
        reveal_strlit("3");
        reveal_strlit("4");
        reveal_strlit("5");
        reveal_strlit("6");
        reveal_strlit("7");
        reveal_strlit("8");
        reveal_strlit("9");
    }
    let s = if d == 0 {
        "0"
    } else if d == 1 {
        "1"
    } else if d == 2 {
        "2"
    } else if d == 3 {
        "3"
    } else if d == 4 {
        "4"
    } else if d == 5 {
        "5"
    } else if d == 6 {
        "6"
    } else if d == 7 {
        "7"
    } else if d == 8 {
        "8"
    } else {
        "9"
    };
    assert(s@ =~= seq![digit_char(d as nat)]);
    s
}

/// Appends the decimal notation of `n` to `out`.
pub fn push_decimal(out: &mut String, n: u128)
    ensures
        final(out)@ == old(out)@ + decimal(n as nat),
    decreases n,
{
    if n >= 10 {
        push_decimal(out, n / 10);
    }
    let d: u8 = (n % 10) as u8;
    out.append(digit_text(d));
    proof {
        if n >= 10 {
            assert(final(out)@ =~= old(out)@ + decimal(n as nat));
        } else {
            assert(final(out)@ =~= old(out)@ + decimal(n as nat));
        }
    }
}

/// The decimal notation of `n` as an owned string.
pub fn decimal_string(n: u128) -> (s: String)
    ensures
        s@ == decimal(n as nat),
{
    let mut s = String::new();
    push_decimal(&mut s, n);
    assert(s@ =~= decimal(n as nat));
    s
}

/// The number that `t` is the decimal notation of, if it is one and the
/// number fits in 128 bits.
pub open spec fn unsigned_of(t: Seq<char>) -> Option<u128> {
    if is_canonical(t) && digits_value(t) <= u128::MAX {
        Some(digits_value(t) as u128)
    } else {
        None
    }
}

/// `unsigned_of` reads back exactly what `decimal` writes.
pub proof fn lemma_unsigned_of(t: Seq<char>, n: u128)
    ensures
        unsigned_of(t) == Some(n) <==> t == decimal(n as nat),
{
    lemma_decimal_canonical(n as nat);
    if is_canonical(t) {
        lemma_canonical_is_decimal(t);
    }
}

/// Reads a number from its decimal notation.
///
/// Succeeds exactly on the canonical notation of a number that fits in 128
/// bits: a sign, a leading zero, a fraction or an exponent is refused.
pub fn parse_decimal(text: &str) -> (r: Option<u128>)
    ensures
        r == unsigned_of(text@),
        match r {
            Some(n) => text@ == decimal(n as nat),
            None => forall|n: u128| text@ != decimal(n as nat),
        },
{
    proof {
        assert forall|n: u128| unsigned_of(text@) == Some(n) <==> text@ == decimal(n as nat) by {
            lemma_unsigned_of(text@, n);
        }
    }
    let len: usize = text.unicode_len();
    if len == 0 {
        return None;
    }
    if len > 39 {
        proof {
            if is_canonical(text@) && digits_value(text@) <= u128::MAX {
                lemma_canonical_is_decimal(text@);
                lemma_decimal_length(digits_value(text@));
            }
        }
        return None;
    }
    let mut value: u128 = 0;
    let mut i: usize = 0;
    while i < len
        invariant
            0 <= i <= len,
            len == text@.len(),
            1 <= len <= 39,
            all_digits(text@.subrange(0, i as int)),
            i > 1 ==> text@[0] != '0',
            value == digits_value(text@.subrange(0, i as int)),
            forall|n: u128| unsigned_of(text@) == Some(n) <==> text@ == decimal(n as nat),
        decreases len - i,
    {
        let c: char = text.get_char(i);
        let ghost prefix = text@.subrange(0, i as int);
        let ghost next = text@.subrange(0, i as int + 1);
        proof {
            assert(next.drop_last() =~= prefix);
            assert(next.last() == c);
        }
        if !(c >= '0' && c <= '9') {
            assert(!is_digit(text@[i as int]));
            return None;
        }
        if i == 1 && text.get_char(0) == '0' {
            return None;
        }
        let d: u128 = (c as u32 - '0' as u32) as u128;
        assert(d == digit_value(c));
        if value > (u128::MAX - d) / 10 {
            proof {
                assert(value * 10 + d > u128::MAX);
                lemma_value_of_prefix(text@, i as int + 1);
            }
            return None;
        }
        value = value * 10 + d;
        i = i + 1;
        proof {
            assert forall|k: int| 0 <= k < next.len() implies is_digit(#[trigger] next[k]) by {
                if k < prefix.len() {
                    assert(next[k] == prefix[k]);
                }
            }
        }
    }
    proof {
        assert(text@.subrange(0, len as int) =~= text@);
    }
    Some(value)
}

/// The decimal notation of a signed number: a minus sign before the digits of
/// a negative one.
pub open spec fn signed_decimal(n: int) -> Seq<char> {
    if n < 0 {
        seq!['-'] + decimal((-n) as nat)
    } else {
        decimal(n as nat)
    }
}

/// The 16-bit number that `t` is the signed decimal notation of, if it is
/// one. Zero has no sign.
pub open spec fn short_of(t: Seq<char>) -> Option<i16> {
    if t.len() >= 1 && t[0] == '-' {
        let digits = t.subrange(1, t.len() as int);
        if is_canonical(digits) && 1 <= digits_value(digits) <= 32768 {
            Some((-(digits_value(digits) as int)) as i16)
        } else {
            None
        }
    } else if is_canonical(t) && digits_value(t) <= 32767 {
        Some(digits_value(t) as i16)
    } else {
        None
    }
}

/// `short_of` reads back exactly what `signed_decimal` writes.
pub proof fn lemma_short_of(t: Seq<char>, n: i16)
    ensures
        short_of(t) == Some(n) <==> t == signed_decimal(n as int),
{
    if n < 0 {
        let m = (-(n as int)) as nat;
        lemma_decimal_canonical(m);
        if t == signed_decimal(n as int) {
            assert(t.subrange(1, t.len() as int) =~= decimal(m));
        }
        if short_of(t) == Some(n) {
            let digits = t.subrange(1, t.len() as int);
            if t.len() >= 1 && t[0] == '-' {
                lemma_canonical_is_decimal(digits);
                assert(t =~= seq!['-'] + digits);
            } else {
                assert(false);
            }
        }
    } else {
        lemma_decimal_canonical(n as nat);
        if is_canonical(t) {
            lemma_canonical_is_decimal(t);
        }
        if t.len() >= 1 && t[0] == '-' {
            assert(!is_digit(t[0]));
        }
    }
}

/// Reads a 16-bit number from its signed decimal notation.
pub fn parse_short(text: &str) -> (r: Option<i16>)
    ensures
        r == short_of(text@),
        match r {
            Some(n) => text@ == signed_decimal(n as int),
            None => forall|n: i16| text@ != signed_decimal(n as int),
        },
{
    proof {
        assert forall|n: i16| short_of(text@) == Some(n) <==> text@ == signed_decimal(
            n as int,
        ) by {
            lemma_short_of(text@, n);
        }
    }
    let len: usize = text.unicode_len();
    if len >= 1 && text.get_char(0) == '-' {
        let digits = text.substring_char(1, len);
        match parse_decimal(digits) {
            Some(v) => {
                if 1 <= v && v <= 32768 {
                    let n: i32 = -(v as i32);
                    Some(n as i16)
                } else {
                    None
                }
            },
            None => None,
        }
    } else {
        match parse_decimal(text) {
            Some(v) => {
                if v <= 32767 {
                    Some(v as i16)
                } else {
                    None
                }
            },
            None => None,
        }
    }
}

/// Appends the signed decimal notation of `n` to `out`.
pub fn push_signed(out: &mut String, n: i64)
    ensures
        final(out)@ == old(out)@ + signed_decimal(n as int),
{
    if n < 0 {
        proof {
            reveal_strlit("-");
        }
        out.append("-");
        assert("-"@ =~= seq!['-']);
        let m: i128 = -(n as i128);
        push_decimal(out, m as u128);
        assert(final(out)@ =~= old(out)@ + signed_decimal(n as int));
    } else {
        push_decimal(out, n as u128);
    }
}

/// The decimal notation of a 128-bit number has at most 39 digits.
pub proof fn lemma_decimal_length(n: nat)
    requires
        n <= u128::MAX,
    ensures
        1 <= decimal(n).len() <= 39,
{
    assert(pow10(39) > u128::MAX) by {
        reveal_with_fuel(pow10, 40);
    }
    lemma_decimal_bound(n, 39);
}

/// Ten to the power `k`.
pub open spec fn pow10(k: nat) -> nat
    decreases k,
{
    if k == 0 {
        1
    } else {
        10 * pow10((k - 1) as nat)
    }
}

/// A number below ten to the `k` has at most `k` digits.
proof fn lemma_decimal_bound(n: nat, k: nat)
    requires
        k >= 1,
        n < pow10(k),
    ensures
        1 <= decimal(n).len() <= k,
    decreases k,
{
    reveal_with_fuel(pow10, 2);
    if n >= 10 {
        assert(k >= 2) by {
            if k == 1 {
                assert(pow10(1) == 10);
            }
        }
        assert(n / 10 < pow10((k - 1) as nat));
        lemma_decimal_bound(n / 10, (k - 1) as nat);
    }
}

/// The digits of a prefix denote no more than the digits of the whole.
proof fn lemma_value_of_prefix(s: Seq<char>, k: int)
    requires
        0 <= k <= s.len(),
    ensures
        digits_value(s.subrange(0, k)) <= digits_value(s),
    decreases s.len() - k,
{
    if k == s.len() {
        assert(s.subrange(0, k) =~= s);
    } else {
        lemma_value_of_prefix(s, k + 1);
        let next = s.subrange(0, k + 1);
        assert(next.drop_last() =~= s.subrange(0, k));
    }
}

} // verus!
