//! Small string helpers shared by the other modules: appending characters,
//! comparing string slices, and writing numbers in decimal.

use vstd::prelude::*;

verus! {

broadcast use vstd::string::group_string_axioms;

/// `String::push` of the standard library: the character is appended to the
/// end of the string and nothing else changes.
#[verifier::external_body]
pub(crate) fn push_char(s: &mut String, c: char)
    ensures
        final(s)@ == old(s)@.push(c),
{
    s.push(c)
}

/// `str::eq` of the standard library: two string slices are equal exactly
/// when they hold the same characters in the same order.
pub assume_specification[ <str as PartialEq>::eq ](a: &str, b: &str) -> (r: bool)
    ensures
        r == (a@ == b@),
;

/// Every character takes at least one byte in UTF-8.
pub proof fn lemma_chars_fit_in_bytes(chars: Seq<char>)
    ensures
        chars.len() <= vstd::utf8::encode_utf8(chars).len(),
    decreases chars.len(),
{
    if chars.len() > 0 {
        lemma_chars_fit_in_bytes(chars.drop_first());
    }
}

/// A string slice never holds more characters than a `usize` can count.
pub(crate) fn note_char_count_bounded(s: &str)
    ensures
        s@.len() <= usize::MAX,
{
    let bytes = s.as_bytes();
    let _n: usize = bytes.len();
    proof {
        lemma_chars_fit_in_bytes(s@);
    }
}

/// The character that stands for the decimal digit `d`.
pub open spec fn digit_char(d: nat) -> char
    recommends
        d < 10,
{
    (0x30 + d) as char
}

/// `n` written in decimal without leading zeros.
pub open spec fn decimal(n: nat) -> Seq<char>
    decreases n,
{
    if n < 10 {
        seq![digit_char(n)]
    } else {
        decimal(n / 10).push(digit_char(n % 10))
    }
}

/// `count` zeros.
pub open spec fn zeros(count: nat) -> Seq<char> {
    Seq::new(count, |i: int| '0')
}

/// `n` written in decimal, with zeros in front until it is `width` wide.
/// A number that needs more than `width` digits is written in full.
pub open spec fn zero_padded(n: nat, width: nat) -> Seq<char> {
    if decimal(n).len() >= width {
        decimal(n)
    } else {
        zeros((width - decimal(n).len()) as nat) + decimal(n)
    }
}

/// The digit character of a value below ten.
pub fn digit_of(d: u8) -> (c: char)
    requires
        d < 10,
    ensures
        c == digit_char(d as nat),
{
    (0x30u8 + d) as char
}

/// Appends `n` in decimal to `out`.
pub fn push_decimal(out: &mut String, n: u64)
    ensures
        final(out)@ == old(out)@ + decimal(n as nat),
    decreases n,
{
    if n >= 10 {
        push_decimal(out, n / 10);
    }
    push_char(out, digit_of((n % 10) as u8));
    assert(final(out)@ =~= old(out)@ + decimal(n as nat));
}

/// The number of digits that `n` takes in decimal.
pub fn decimal_width(n: u64) -> (w: usize)
    ensures
        w == decimal(n as nat).len(),
        1 <= w <= 20,
{
    proof {
        lemma_pow10_20();
        lemma_decimal_fits(n as nat, 20);
    }
    let mut w: usize = 1;
    let mut m: u64 = n;
    while m >= 10
        invariant
            1 <= w,
            decimal(n as nat).len() == decimal(m as nat).len() + w - 1,
            decimal(n as nat).len() <= 20,
            decimal(m as nat).len() >= 1,
        decreases m,
    {
        m = m / 10;
        w = w + 1;
    }
    w
}

/// Ten to the power `e`.
pub open spec fn pow10(e: nat) -> nat
    decreases e,
{
    if e == 0 {
        1
    } else {
        10 * pow10((e - 1) as nat)
    }
}

proof fn lemma_pow10_20()
    ensures
        pow10(20) > u64::MAX,
{
    reveal_with_fuel(pow10, 21);
}

/// Every character of a number written in decimal is a digit.
pub proof fn lemma_decimal_is_digits(n: nat)
    ensures
        forall|i: int| 0 <= i < decimal(n).len() ==> '0' <= #[trigger] decimal(n)[i] <= '9',
    decreases n,
{
    if n >= 10 {
        lemma_decimal_is_digits(n / 10);
    }
    assert forall|i: int| 0 <= i < decimal(n).len() implies '0' <= #[trigger] decimal(n)[i]
        <= '9' by {
        if n < 10 {
            assert(decimal(n)[i] == digit_char(n));
        } else if i < decimal(n / 10).len() {
            assert(decimal(n)[i] == decimal(n / 10)[i]);
        } else {
            assert(decimal(n)[i] == digit_char(n % 10));
        }
    }
}

/// A number below ten to the power `width` takes at most `width` digits.
pub proof fn lemma_decimal_fits(n: nat, width: nat)
    requires
        width >= 1,
        n < pow10(width),
    ensures
        decimal(n).len() <= width,
    decreases width,
{
    if n >= 10 {
        assert(pow10(1) == 10) by {
            reveal_with_fuel(pow10, 2);
        }
        assert(width >= 2);
        lemma_decimal_fits(n / 10, (width - 1) as nat);
    }
}

/// A number below ten to the power `width`, zero-padded to `width`, is
/// exactly `width` digits.
pub proof fn lemma_zero_padded_shape(n: nat, width: nat)
    requires
        width >= 1,
        n < pow10(width),
    ensures
        zero_padded(n, width).len() == width,
        forall|i: int| 0 <= i < width ==> '0' <= #[trigger] zero_padded(n, width)[i] <= '9',
{
    lemma_decimal_fits(n, width);
    lemma_decimal_is_digits(n);
}

/// Appends `n` in decimal to `out`, zero-padded to `width` digits.
pub fn push_zero_padded(out: &mut String, n: u64, width: usize)
    ensures
        final(out)@ == old(out)@ + zero_padded(n as nat, width as nat),
{
    let w = decimal_width(n);
    let mut i: usize = w;
    assert(out@ =~= old(out)@ + zeros(0));
    while i < width
        invariant
            w <= i,
            i <= width || i == w,
            w == decimal(n as nat).len(),
            out@ == old(out)@ + zeros((i - w) as nat),
        decreases width - i,
    {
        push_char(out, '0');
        i = i + 1;
        assert(out@ =~= old(out)@ + zeros((i - w) as nat));
    }
    let ghost padding = zeros((i - w) as nat);
    push_decimal(out, n);
    assert(out@ =~= old(out)@ + (padding + decimal(n as nat)));
    assert(padding + decimal(n as nat) =~= zero_padded(n as nat, width as nat));
}

/// A whole number written in decimal, with `-` in front where it is
/// negative.
pub open spec fn integer_text(n: int) -> Seq<char> {
    if n < 0 {
        seq!['-'] + decimal((-n) as nat)
    } else {
        decimal(n as nat)
    }
}

/// Appends a whole number in decimal to `out`.
pub fn push_integer(out: &mut String, n: i64)
    ensures
        final(out)@ == old(out)@ + integer_text(n as int),
{
    if n < 0 {
        push_char(out, '-');
        let magnitude: u64 = (0 - (n as i128)) as u64;
        push_decimal(out, magnitude);
        assert(out@ =~= old(out)@ + integer_text(n as int));
    } else {
        push_decimal(out, n as u64);
    }
}

/// The characters of a text, in order.
pub fn chars_of(s: &str) -> (chars: Vec<char>)
    ensures
        chars@ == s@,
{
    let mut chars: Vec<char> = Vec::new();
    for c in iter: s.chars()
        invariant
            iter.seq() == s@,
            chars@ == s@.take(iter.index() as int),
    {
        chars.push(c);
        assert(chars@ =~= s@.take(iter.index() + 1));
    }
    assert(s@.take(s@.len() as int) =~= s@);
    chars
}

} // verus!
