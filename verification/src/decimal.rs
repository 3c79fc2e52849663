//! Decimal literals: what number a text writes, and the text that writes a number.
//!
//! A natural literal is one or more of the digits `0` to `9`, which may follow a single
//! `+`. An integer literal is a natural literal, or a `-` and then one or more digits.
//! Nothing else is a literal: no spaces, no underscores, no other digits of Unicode.
//! Leading zeros are allowed and do not change the number.

use vstd::prelude::*;

verus! {

/// Whether `c` is one of the digits `0` to `9`.
pub open spec fn is_digit(c: char) -> bool {
    '0' <= c && c <= '9'
}

/// The number that the digit `c` stands for.
pub open spec fn digit_value(c: char) -> nat {
    (c as int - '0' as int) as nat
}

/// The digit that stands for `d`, for `d` below ten.
pub open spec fn digit_char(d: nat) -> char {
    ('0' as int + d) as char
}

/// Whether `s` holds digits only.
pub open spec fn all_digits(s: Seq<char>) -> bool {
    forall|i: int| 0 <= i < s.len() ==> is_digit(#[trigger] s[i])
}

/// The number written by a string of digits, the most significant digit first.
pub open spec fn digits_value(s: Seq<char>) -> nat
    decreases s.len(),
{
    if s.len() == 0 {
        0
    } else {
        digits_value(s.drop_last()) * 10 + digit_value(s.last())
    }
}

/// The number written by a string of one or more digits; `None` for any other text.
pub open spec fn digits(s: Seq<char>) -> Option<nat> {
    if s.len() > 0 && all_digits(s) {
        Some(digits_value(s))
    } else {
        None
    }
}

/// The number written by a natural literal; `None` if `s` is not one.
pub open spec fn natural(s: Seq<char>) -> Option<nat> {
    if s.len() > 0 && s[0] == '+' {
        digits(s.drop_first())
    } else {
        digits(s)
    }
}

/// The number written by an integer literal; `None` if `s` is not one.
pub open spec fn integer(s: Seq<char>) -> Option<int> {
    if s.len() > 0 && s[0] == '-' {
        match digits(s.drop_first()) {
            Some(n) => Some(-(n as int)),
            None => None,
        }
    } else {
        match natural(s) {
            Some(n) => Some(n as int),
            None => None,
        }
    }
}

/// The number written by a natural literal, if it is `max` at most.
pub open spec fn natural_up_to(s: Seq<char>, max: nat) -> Option<nat> {
    match natural(s) {
        Some(n) if n <= max => Some(n),
        _ => None,
    }
}

/// The byte written by `s`: a natural literal of a number up to 255.
pub open spec fn text_u8(s: Seq<char>) -> Option<u8> {
    match natural_up_to(s, u8::MAX as nat) {
        Some(n) => Some(n as u8),
        None => None,
    }
}

/// The 16-bit number written by `s`: a natural literal of a number up to 65535.
pub open spec fn text_u16(s: Seq<char>) -> Option<u16> {
    match natural_up_to(s, u16::MAX as nat) {
        Some(n) => Some(n as u16),
        None => None,
    }
}

/// The 64-bit signed number written by `s`: an integer literal of a number from
/// `i64::MIN` to `i64::MAX`.
pub open spec fn text_i64(s: Seq<char>) -> Option<i64> {
    match integer(s) {
        Some(n) if i64::MIN <= n <= i64::MAX => Some(n as i64),
        _ => None,
    }
}

/// The shortest string of digits that writes `n`.
pub open spec fn numeral(n: nat) -> Seq<char>
    decreases n,
{
    if n < 10 {
        seq![digit_char(n)]
    } else {
        numeral(n / 10).push(digit_char(n % 10))
    }
}

/// The canonical literal of `i`: its numeral, after a `-` if `i` is negative.
pub open spec fn signed_numeral(i: int) -> Seq<char> {
    if i < 0 {
        seq!['-'] + numeral((-i) as nat)
    } else {
        numeral(i as nat)
    }
}

/// A number is at least what any beginning of its digits writes.
pub proof fn lemma_digits_value_prefix(s: Seq<char>, k: int)
    requires
        0 <= k <= s.len(),
    ensures
        digits_value(s.take(k)) <= digits_value(s),
    decreases s.len() - k,
{
    if k == s.len() {
        assert(s.take(k) =~= s);
    } else {
        lemma_digits_value_prefix(s.drop_last(), k);
        assert(s.drop_last().take(k) =~= s.take(k));
    }
}

/// A numeral is a non-empty string of digits that writes its number.
pub proof fn lemma_numeral_digits(n: nat)
    ensures
        numeral(n).len() >= 1,
        all_digits(numeral(n)),
        digits(numeral(n)) == Some(n),
    decreases n,
{
    if n >= 10 {
        lemma_numeral_digits(n / 10);
        let init = numeral(n / 10);
        let s = init.push(digit_char(n % 10));
        assert(s.drop_last() =~= init);
        assert(is_digit(digit_char(n % 10)));
        assert(digit_value(digit_char(n % 10)) == n % 10);
        assert forall|i: int| 0 <= i < s.len() implies is_digit(#[trigger] s[i]) by {
            if i < init.len() {
                assert(s[i] == init[i]);
            }
        }
    } else {
        let s = seq![digit_char(n)];
        assert(s.drop_last() =~= Seq::<char>::empty());
        assert(digits_value(s.drop_last()) == 0);
        assert(digit_value(digit_char(n)) == n);
    }
}

/// Reading a numeral as a natural literal gives its number back.
pub proof fn lemma_natural_numeral(n: nat)
    ensures
        natural(numeral(n)) == Some(n),
{
    lemma_numeral_digits(n);
    assert(is_digit(numeral(n)[0]));
}

/// Reading a canonical literal as an integer literal gives its number back.
pub proof fn lemma_integer_numeral(i: int)
    ensures
        integer(signed_numeral(i)) == Some(i),
{
    if i < 0 {
        let n = (-i) as nat;
        lemma_numeral_digits(n);
        assert(signed_numeral(i).drop_first() =~= numeral(n));
    } else {
        lemma_natural_numeral(i as nat);
        assert(is_digit(numeral(i as nat)[0])) by {
            lemma_numeral_digits(i as nat);
        }
    }
}

/// Whether `c` can stand in a literal: a digit or a sign.
pub open spec fn is_literal_char(c: char) -> bool {
    is_digit(c) || c == '+' || c == '-'
}

/// A literal holds nothing but digits and signs.
pub proof fn lemma_literal_chars(s: Seq<char>)
    requires
        integer(s) is Some || natural(s) is Some,
    ensures
        forall|i: int| 0 <= i < s.len() ==> is_literal_char(#[trigger] s[i]),
{
    assert forall|i: int| 0 <= i < s.len() implies is_literal_char(#[trigger] s[i]) by {
        if s[0] == '+' || s[0] == '-' {
            if i > 0 {
                assert(s.drop_first()[i - 1] == s[i]);
            }
        }
    }
}

/// The number written by the digits of `chars` from `from` up to `to`, if there is at
/// least one, all are digits and the number is `max` at most.
pub fn read_digits(chars: &Vec<char>, from: usize, to: usize, max: u64) -> (r: Option<u64>)
    requires
        from <= to <= chars.len(),
    ensures
        r == match digits(chars@.subrange(from as int, to as int)) {
            Some(n) if n <= max => Some(n as u64),
            _ => None,
        },
{
    let ghost s = chars@.subrange(from as int, to as int);
    if from == to {
        return None;
    }
    let mut acc: u64 = 0;
    let mut i: usize = from;
    while i < to
        invariant
            from <= i <= to <= chars.len(),
            s == chars@.subrange(from as int, to as int),
            all_digits(s.take(i - from)),
            acc == digits_value(s.take(i - from)),
            acc <= max,
        decreases to - i,
    {
        let c: char = chars[i];
        let ghost seen = s.take(i - from);
        let ghost next = s.take(i - from + 1);
        proof {
            assert(next.drop_last() =~= seen);
            assert(next.last() == c);
            assert(s[i - from] == c);
        }
        if c < '0' || c > '9' {
            return None;
        }
        let d: u64 = (c as u32 - '0' as u32) as u64;
        proof {
            lemma_digits_value_prefix(s, i - from + 1);
        }
        if acc > (u64::MAX - d) / 10 {
            return None;
        }
        let grown: u64 = acc * 10 + d;
        if grown > max {
            return None;
        }
        acc = grown;
        proof {
            assert forall|k: int| 0 <= k < next.len() implies is_digit(#[trigger] next[k]) by {
                if k < seen.len() {
                    assert(next[k] == seen[k]);
                }
            }
        }
        i += 1;
    }
    proof {
        assert(s.take(to - from) =~= s);
    }
    Some(acc)
}

/// The number written by the natural literal in `chars` from `from` up to `to`, if it is
/// `max` at most.
pub fn read_natural(chars: &Vec<char>, from: usize, to: usize, max: u64) -> (r: Option<u64>)
    requires
        from <= to <= chars.len(),
    ensures
        r == match natural_up_to(chars@.subrange(from as int, to as int), max as nat) {
            Some(n) => Some(n as u64),
            None => None,
        },
{
    let ghost s = chars@.subrange(from as int, to as int);
    if from < to && chars[from] == '+' {
        proof {
            assert(s[0] == '+');
            assert(s.drop_first() =~= chars@.subrange(from + 1, to as int));
        }
        read_digits(chars, from + 1, to, max)
    } else {
        proof {
            if from < to {
                assert(s[0] == chars@[from as int]);
            }
        }
        read_digits(chars, from, to, max)
    }
}

/// The byte written in `chars` from `from` up to `to`.
pub fn read_u8(chars: &Vec<char>, from: usize, to: usize) -> (r: Option<u8>)
    requires
        from <= to <= chars.len(),
    ensures
        r == text_u8(chars@.subrange(from as int, to as int)),
{
    match read_natural(chars, from, to, 255) {
        Some(n) => Some(n as u8),
        None => None,
    }
}

/// The 16-bit number written in `chars` from `from` up to `to`.
pub fn read_u16(chars: &Vec<char>, from: usize, to: usize) -> (r: Option<u16>)
    requires
        from <= to <= chars.len(),
    ensures
        r == text_u16(chars@.subrange(from as int, to as int)),
{
    match read_natural(chars, from, to, 65535) {
        Some(n) => Some(n as u16),
        None => None,
    }
}

/// The 64-bit signed number written in `chars` from `from` up to `to`.
pub fn read_i64(chars: &Vec<char>, from: usize, to: usize) -> (r: Option<i64>)
    requires
        from <= to <= chars.len(),
    ensures
        r == text_i64(chars@.subrange(from as int, to as int)),
{
    let ghost s = chars@.subrange(from as int, to as int);
    if from < to && chars[from] == '-' {
        proof {
            assert(s[0] == '-');
            assert(s.drop_first() =~= chars@.subrange(from + 1, to as int));
        }
        match read_digits(chars, from + 1, to, 0x8000_0000_0000_0000) {
            Some(n) => if n == 0x8000_0000_0000_0000 {
                Some(i64::MIN)
            } else {
                Some(-(n as i64))
            },
            None => None,
        }
    } else {
        proof {
            if from < to {
                assert(s[0] == chars@[from as int]);
            }
        }
        match read_natural(chars, from, to, 0x7fff_ffff_ffff_ffff) {
            Some(n) => Some(n as i64),
            None => None,
        }
    }
}

/// The text of a single digit.
fn digit_text(d: u64) -> (text: &'static str)
    requires
        d < 10,
    ensures
        text@ == seq![digit_char(d as nat)],
{
    proof {
        reveal_strlit("0");
        reveal_strlit("1");
        reveal_strlit("2");
        reveal_strlit("3");
        reveal_strlit("4");
        reveal_strlit("5");
        reveal_strlit("6");
        reveal_strlit("7");
        reveal_strlit("8");
        reveal_strlit("9");
    }
    let text = if d == 0 {
        "0"
    } else if d == 1 {
        "1"
    } else if d == 2 {
        "2"
    } else if d == 3 {
        "3"
    } else if d == 4 {
        "4"
    } else if d == 5 {
        "5"
    } else if d == 6 {
        "6"
    } else if d == 7 {
        "7"
    } else if d == 8 {
        "8"
    } else {
        "9"
    };
    assert(text@ =~= seq![digit_char(d as nat)]);
    text
}

/// Appends the numeral of `n` to `out`.
pub fn write_natural(out: &mut String, n: u64)
    ensures
        final(out)@ == old(out)@ + numeral(n as nat),
    decreases n,
{
    if n >= 10 {
        write_natural(out, n / 10);
    }
    out.append(digit_text(n % 10));
    assert(out@ =~= old(out)@ + numeral(n as nat));
}

/// Appends the canonical literal of `i` to `out`.
pub fn write_integer(out: &mut String, i: i64)
    ensures
        final(out)@ == old(out)@ + signed_numeral(i as int),
{
    if i < 0 {
        proof {
            reveal_strlit("-");
        }
        out.append("-");
        let magnitude: u64 = (-(i + 1)) as u64 + 1;
        write_natural(out, magnitude);
        proof {
            assert("-"@ =~= seq!['-']);
            assert(out@ =~= old(out)@ + signed_numeral(i as int));
        }
    } else {
        write_natural(out, i as u64);
    }
}

} // verus!
