//! Reading decimal numbers from text.

use vstd::prelude::*;

verus! {

broadcast use vstd::string::group_string_axioms;

/// Whether the character is an ASCII decimal digit.
pub open spec fn is_digit(c: char) -> bool {
    '0' <= c <= '9'
}

/// The value of a decimal digit; zero for any other character.
pub open spec fn digit_value(c: char) -> nat {
    if is_digit(c) {
        (c as u32 - 0x30) as nat
    } else {
        0
    }
}

/// The number that a run of decimal digits denotes.
pub open spec fn digits_value(s: Seq<char>) -> nat
    decreases s.len(),
{
    if s.len() == 0 {
        0
    } else {
        digits_value(s.drop_last()) * 10 + digit_value(s.last())
    }
}

/// Whether every character is a decimal digit.
pub open spec fn all_digits(s: Seq<char>) -> bool {
    forall|i: int| 0 <= i < s.len() ==> is_digit(#[trigger] s[i])
}

/// The number that a text denotes when it is one or more decimal digits and
/// nothing else.
pub open spec fn unsigned_decimal(s: Seq<char>) -> Option<nat> {
    if s.len() > 0 && all_digits(s) {
        Some(digits_value(s))
    } else {
        None
    }
}

/// How many characters of sign stand in front: one for a leading `+`, one
/// for a leading `-` where a minus is accepted, else none.
pub open spec fn sign_len(s: Seq<char>, allow_minus: bool) -> int {
    if s.len() > 0 && (s[0] == '+' || (allow_minus && s[0] == '-')) {
        1
    } else {
        0
    }
}

/// Whether the text starts with an accepted minus sign.
pub open spec fn has_minus(s: Seq<char>, allow_minus: bool) -> bool {
    allow_minus && s.len() > 0 && s[0] == '-'
}

/// The integer that a text denotes: an optional sign, then decimal digits.
pub open spec fn signed_decimal(s: Seq<char>, allow_minus: bool) -> Option<int> {
    match unsigned_decimal(s.skip(sign_len(s, allow_minus))) {
        Some(v) => Some(
            if has_minus(s, allow_minus) {
                -(v as int)
            } else {
                v as int
            },
        ),
        None => None,
    }
}

/// The `i16` that a text denotes, if it denotes one: an optional `+` or `-`,
/// then decimal digits, the value within the range of `i16`.
pub open spec fn i16_of_text(s: Seq<char>) -> Option<i16> {
    match signed_decimal(s, true) {
        Some(v) => if i16::MIN <= v <= i16::MAX {
            Some(v as i16)
        } else {
            None
        },
        None => None,
    }
}

/// The `u64` that a text denotes, if it denotes one: an optional `+`, then
/// decimal digits, the value within the range of `u64`.
pub open spec fn u64_of_text(s: Seq<char>) -> Option<u64> {
    match signed_decimal(s, false) {
        Some(v) => if v <= u64::MAX {
            Some(v as u64)
        } else {
            None
        },
        None => None,
    }
}

/// A longer run of digits never denotes a smaller number than its start.
pub proof fn lemma_digits_value_grows(s: Seq<char>, k: int)
    requires
        0 <= k <= s.len(),
    ensures
        digits_value(s.take(k)) <= digits_value(s),
    decreases s.len(),
{
    if k == s.len() {
        assert(s.take(k) =~= s);
    } else {
        lemma_digits_value_grows(s.drop_last(), k);
        assert(s.drop_last().take(k) =~= s.take(k));
    }
}

/// Reads an optional sign and a run of digits. The result is the sign (true
/// for minus) and the magnitude, where the text has that form and the
/// magnitude fits in a `u64`.
pub fn parse_magnitude(s: &str, allow_minus: bool) -> (r: Option<(bool, u64)>)
    ensures
        r == match signed_decimal(s@, allow_minus) {
            Some(v) => if -(u64::MAX as int) <= v <= u64::MAX {
                Some((has_minus(s@, allow_minus), (if v < 0 { -v } else { v }) as u64))
            } else {
                None
            },
            None => None,
        },
{
    let ghost start = sign_len(s@, allow_minus);
    let ghost body = s@.skip(start);
    let mut value: u64 = 0;
    let mut at_start = true;
    let mut digits_seen = false;
    let mut negative = false;
    assert(s@.subrange(start, start) =~= Seq::<char>::empty());
    for c in iter: s.chars()
        invariant
            iter.seq() == s@,
            start == sign_len(s@, allow_minus),
            body == s@.skip(start),
            at_start <==> iter.index() == 0,
            negative ==> has_minus(s@, allow_minus),
            iter.index() >= start ==> negative == has_minus(s@, allow_minus),
            digits_seen <==> iter.index() > start,
            iter.index() >= start ==> all_digits(s@.subrange(start, iter.index() as int)),
            iter.index() >= start ==> value == digits_value(
                s@.subrange(start, iter.index() as int),
            ),
            iter.index() < start ==> value == 0 && !negative,
    {
        let ghost i = iter.index() as int;
        if at_start && (c == '+' || (allow_minus && c == '-')) {
            negative = c == '-';
            assert(s@.subrange(start, i + 1) =~= Seq::<char>::empty());
        } else if c >= '0' && c <= '9' {
            let d: u64 = (c as u32 - 0x30) as u64;
            let ghost seen = s@.subrange(start, i);
            let ghost next = s@.subrange(start, i + 1);
            assert(next.drop_last() =~= seen);
            assert(next.last() == c);
            assert(next =~= body.take(i + 1 - start));
            if value > (u64::MAX - d) / 10 {
                proof {
                    if all_digits(body) {
                        lemma_digits_value_grows(body, i + 1 - start);
                    }
                }
                return None;
            }
            value = value * 10 + d;
            digits_seen = true;
        } else {
            assert(body[i - start] == c);
            assert(!all_digits(body));
            return None;
        }
        at_start = false;
    }
    assert(s@.subrange(start, s@.len() as int) =~= body);
    if digits_seen {
        Some((negative, value))
    } else {
        None
    }
}

/// Reads an `i16` written in decimal with an optional sign.
pub fn parse_i16(s: &str) -> (r: Option<i16>)
    ensures
        r == i16_of_text(s@),
{
    match parse_magnitude(s, true) {
        Some((negative, magnitude)) => {
            if negative {
                if magnitude <= 32768 {
                    Some((0 - (magnitude as i32)) as i16)
                } else {
                    None
                }
            } else if magnitude <= 32767 {
                Some(magnitude as i16)
            } else {
                None
            }
        },
        None => None,
    }
}

/// Reads a `u64` written in decimal, with an optional `+` in front.
pub fn parse_u64(s: &str) -> (r: Option<u64>)
    ensures
        r == u64_of_text(s@),
{
    match parse_magnitude(s, false) {
        Some((_, magnitude)) => Some(magnitude),
        None => None,
    }
}

} // verus!
