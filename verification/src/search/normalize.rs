//! Normal form of a search input, and the kana forms that are tried.

use vstd::prelude::*;
use vstd::string::StringExecFns;

use crate::text::push_char;
use crate::whitespace::{strip_whitespace, without_whitespace};

verus! {

broadcast use vstd::string::group_string_axioms;

/// The text in Unicode Normalization Form KC, as `unicode_normalization`
/// computes it.
pub uninterp spec fn nfkc_text(s: Seq<char>) -> Seq<char>;

/// `unicode_normalization::UnicodeNormalization::nfkc` on a string slice,
/// collected: the result depends on the text alone.
#[verifier::external_body]
fn nfkc(s: &str) -> (normal: String)
    ensures
        normal@ == nfkc_text(s@),
{
    unicode_normalization::UnicodeNormalization::nfkc(s).collect()
}

/// `char::from_u32` of the standard library: the character with the given
/// code point, where the number is a Unicode scalar value.
#[verifier::external_body]
fn char_from_u32(value: u32) -> (c: Option<char>)
    ensures
        c == (if vstd::utf8::is_scalar(value) {
            Some(value as char)
        } else {
            None::<char>
        }),
{
    char::from_u32(value)
}

/// The normal form of a search input: Form KC, without any whitespace.
pub open spec fn normalized(q: Seq<char>) -> Seq<char> {
    without_whitespace(nfkc_text(q))
}

/// Normalizes a search input.
pub fn normalize(q: &str) -> (normal: String)
    ensures
        normal@ == normalized(q@),
{
    strip_whitespace(nfkc(q).as_str())
}

/// The katakana with the same sound as a hiragana; any other character
/// itself.
pub open spec fn katakana_of(c: char) -> char {
    if 0x3041 <= c as u32 <= 0x3096 {
        ((c as u32) + 0x60) as char
    } else {
        c
    }
}

/// The hiragana with the same sound as a katakana; any other character
/// itself.
pub open spec fn hiragana_of(c: char) -> char {
    if 0x30A1 <= c as u32 <= 0x30F6 {
        ((c as u32) - 0x60) as char
    } else {
        c
    }
}

/// The text with every hiragana turned into katakana.
pub open spec fn in_katakana(s: Seq<char>) -> Seq<char> {
    Seq::new(s.len(), |i: int| katakana_of(s[i]))
}

/// The text with every katakana turned into hiragana.
pub open spec fn in_hiragana(s: Seq<char>) -> Seq<char> {
    Seq::new(s.len(), |i: int| hiragana_of(s[i]))
}

fn char_to_katakana(c: char) -> (k: char)
    ensures
        k == katakana_of(c),
{
    let v: u32 = c as u32;
    if 0x3041 <= v && v <= 0x3096 {
        match char_from_u32(v + 0x60) {
            Some(k) => k,
            None => c,
        }
    } else {
        c
    }
}

fn char_to_hiragana(c: char) -> (h: char)
    ensures
        h == hiragana_of(c),
{
    let v: u32 = c as u32;
    if 0x30A1 <= v && v <= 0x30F6 {
        match char_from_u32(v - 0x60) {
            Some(h) => h,
            None => c,
        }
    } else {
        c
    }
}

/// Turns every hiragana of the text into katakana.
pub fn hiragana_to_katakana(s: &str) -> (folded: String)
    ensures
        folded@ == in_katakana(s@),
{
    let mut folded = String::new();
    for c in iter: s.chars()
        invariant
            iter.seq() == s@,
            folded@ == in_katakana(s@.take(iter.index() as int)),
    {
        push_char(&mut folded, char_to_katakana(c));
        assert(folded@ =~= in_katakana(s@.take(iter.index() + 1)));
    }
    assert(s@.take(s@.len() as int) =~= s@);
    folded
}

/// Turns every katakana of the text into hiragana.
pub fn katakana_to_hiragana(s: &str) -> (folded: String)
    ensures
        folded@ == in_hiragana(s@),
{
    let mut folded = String::new();
    for c in iter: s.chars()
        invariant
            iter.seq() == s@,
            folded@ == in_hiragana(s@.take(iter.index() as int)),
    {
        push_char(&mut folded, char_to_hiragana(c));
        assert(folded@ =~= in_hiragana(s@.take(iter.index() + 1)));
    }
    assert(s@.take(s@.len() as int) =~= s@);
    folded
}

/// The forms of a normalized input that are searched for, in order: the
/// input itself, its katakana form, its hiragana form, each only where it
/// differs from those before it. An empty input has none.
pub open spec fn candidates_of(normal: Seq<char>) -> Seq<Seq<char>> {
    if normal.len() == 0 {
        Seq::empty()
    } else {
        let katakana = in_katakana(normal);
        let hiragana = in_hiragana(normal);
        let first = seq![normal];
        let second = if katakana != normal {
            first.push(katakana)
        } else {
            first
        };
        if hiragana != normal && hiragana != katakana {
            second.push(hiragana)
        } else {
            second
        }
    }
}

/// The texts of a list of strings.
pub open spec fn texts_view(texts: Seq<String>) -> Seq<Seq<char>> {
    Seq::new(texts.len(), |i: int| texts[i]@)
}

/// The candidates of a non-empty input start with the input, are at most
/// three, differ from one another, and are as long as the input; an empty
/// input has none.
pub proof fn lemma_candidates_shape(normal: Seq<char>)
    ensures
        normal.len() == 0 <==> candidates_of(normal).len() == 0,
        candidates_of(normal).len() <= 3,
        normal.len() > 0 ==> candidates_of(normal)[0] == normal,
        forall|i: int, j: int|
            0 <= i < j < candidates_of(normal).len() ==> candidates_of(normal)[i]
                != candidates_of(normal)[j],
        forall|i: int|
            0 <= i < candidates_of(normal).len() ==> (#[trigger] candidates_of(normal)[i]).len()
                == normal.len(),
{
}

/// The candidates of an input that is normalized already.
pub fn candidates_from_normalized(normal: &str) -> (forms: Vec<String>)
    ensures
        texts_view(forms@) == candidates_of(normal@),
{
    let mut forms: Vec<String> = Vec::new();
    if normal.is_empty() {
        assert(texts_view(forms@) =~= candidates_of(normal@));
        return forms;
    }
    let katakana = hiragana_to_katakana(normal);
    let hiragana = katakana_to_hiragana(normal);
    forms.push(String::from_str(normal));
    if !katakana.as_str().eq(normal) {
        if !hiragana.as_str().eq(normal) && !hiragana.as_str().eq(katakana.as_str()) {
            forms.push(katakana);
            forms.push(hiragana);
        } else {
            forms.push(katakana);
        }
    } else if !hiragana.as_str().eq(normal) {
        forms.push(hiragana);
    }
    assert(texts_view(forms@) =~= candidates_of(normal@));
    forms
}

/// The candidates of a raw search input.
pub fn candidates(q: &str) -> (forms: Vec<String>)
    ensures
        texts_view(forms@) == candidates_of(normalized(q@)),
{
    candidates_from_normalized(normalize(q).as_str())
}

} // verus!
