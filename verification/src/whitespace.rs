//! Whitespace and letter case: stripping, trimming and ASCII lower case.

use vstd::prelude::*;
use vstd::string::StringExecFns;

use crate::text::push_char;

verus! {

broadcast use vstd::string::group_string_axioms;

/// Whether a character has the Unicode property `White_Space`.
pub open spec fn is_whitespace(c: char) -> bool {
    let v = c as u32;
    (0x09 <= v <= 0x0D) || v == 0x20 || v == 0x85 || v == 0xA0 || v == 0x1680 || (0x2000 <= v
        <= 0x200A) || v == 0x2028 || v == 0x2029 || v == 0x202F || v == 0x205F || v == 0x3000
}

/// Whether every character is whitespace.
pub open spec fn all_whitespace(s: Seq<char>) -> bool {
    forall|i: int| 0 <= i < s.len() ==> is_whitespace(#[trigger] s[i])
}

/// The text without any of its whitespace, the other characters in order.
pub open spec fn without_whitespace(s: Seq<char>) -> Seq<char>
    decreases s.len(),
{
    if s.len() == 0 {
        Seq::empty()
    } else if is_whitespace(s.last()) {
        without_whitespace(s.drop_last())
    } else {
        without_whitespace(s.drop_last()).push(s.last())
    }
}

/// The text without the whitespace it starts with.
pub open spec fn trimmed_start(s: Seq<char>) -> Seq<char>
    decreases s.len(),
{
    if s.len() > 0 && is_whitespace(s[0]) {
        trimmed_start(s.drop_first())
    } else {
        s
    }
}

/// The text without the whitespace it ends with.
pub open spec fn trimmed_end(s: Seq<char>) -> Seq<char>
    decreases s.len(),
{
    if s.len() > 0 && is_whitespace(s.last()) {
        trimmed_end(s.drop_last())
    } else {
        s
    }
}

/// The text without the whitespace at its start and at its end.
pub open spec fn trimmed(s: Seq<char>) -> Seq<char> {
    trimmed_end(trimmed_start(s))
}

/// The lower-case form of an ASCII capital; any other character itself.
pub open spec fn ascii_lower_char(c: char) -> char {
    if 'A' <= c <= 'Z' {
        ((c as u32) + 32) as char
    } else {
        c
    }
}

/// The text with every ASCII capital in lower case.
pub open spec fn ascii_lower(s: Seq<char>) -> Seq<char> {
    Seq::new(s.len(), |i: int| ascii_lower_char(s[i]))
}

/// What trimming the start makes of a text with one more character.
proof fn lemma_trimmed_start_push(s: Seq<char>, c: char)
    ensures
        trimmed_start(s.push(c)) == if all_whitespace(s) {
            if is_whitespace(c) {
                Seq::<char>::empty()
            } else {
                seq![c]
            }
        } else {
            trimmed_start(s).push(c)
        },
        all_whitespace(s) ==> trimmed_start(s) == Seq::<char>::empty(),
    decreases s.len(),
{
    if s.len() == 0 {
        assert(s.push(c).drop_first() =~= Seq::<char>::empty());
        assert(s.push(c) =~= seq![c]);
        assert(trimmed_start(s) =~= Seq::<char>::empty());
    } else if is_whitespace(s[0]) {
        lemma_trimmed_start_push(s.drop_first(), c);
        assert(s.push(c).drop_first() =~= s.drop_first().push(c));
        assert(s.push(c)[0] == s[0]);
        if all_whitespace(s.drop_first()) {
            assert forall|i: int| 0 <= i < s.len() implies is_whitespace(#[trigger] s[i]) by {
                if i > 0 {
                    assert(s[i] == s.drop_first()[i - 1]);
                }
            }
        } else {
            let j = choose|j: int|
                0 <= j < s.drop_first().len() && !is_whitespace(#[trigger] s.drop_first()[j]);
            assert(!is_whitespace(s[j + 1]));
        }
    } else {
        assert(s.push(c)[0] == s[0]);
        assert(!is_whitespace(s[0]));
    }
}

/// Whitespace at the end does not change what trimming the end gives.
proof fn lemma_trimmed_end_ignores_tail(s: Seq<char>, tail: Seq<char>)
    requires
        all_whitespace(tail),
    ensures
        trimmed_end(s + tail) == trimmed_end(s),
    decreases tail.len(),
{
    if tail.len() == 0 {
        assert(s + tail =~= s);
    } else {
        assert((s + tail).last() == tail.last());
        assert((s + tail).drop_last() =~= s + tail.drop_last());
        lemma_trimmed_end_ignores_tail(s, tail.drop_last());
    }
}

/// Whether the character is whitespace.
pub fn char_is_whitespace(c: char) -> (ws: bool)
    ensures
        ws == is_whitespace(c),
{
    let v: u32 = c as u32;
    (0x09 <= v && v <= 0x0D) || v == 0x20 || v == 0x85 || v == 0xA0 || v == 0x1680 || (0x2000 <= v
        && v <= 0x200A) || v == 0x2028 || v == 0x2029 || v == 0x202F || v == 0x205F || v
        == 0x3000
}

/// Removes all whitespace from the text.
pub fn strip_whitespace(s: &str) -> (stripped: String)
    ensures
        stripped@ == without_whitespace(s@),
{
    let mut stripped = String::new();
    assert(s@.take(0) =~= Seq::<char>::empty());
    for c in iter: s.chars()
        invariant
            iter.seq() == s@,
            stripped@ == without_whitespace(s@.take(iter.index() as int)),
    {
        proof {
            let i = iter.index() as int;
            assert(s@.take(i + 1).drop_last() =~= s@.take(i));
            assert(s@.take(i + 1).last() == c);
        }
        if !char_is_whitespace(c) {
            push_char(&mut stripped, c);
        }
    }
    assert(s@.take(s@.len() as int) =~= s@);
    stripped
}

/// Removes the whitespace at the start and at the end of the text.
pub fn trim(s: &str) -> (kept: String)
    ensures
        kept@ == trimmed(s@),
{
    let mut kept = String::new();
    let mut pending = String::new();
    let mut started = false;
    assert(s@.take(0) =~= Seq::<char>::empty());
    assert(kept@ + pending@ =~= trimmed_start(s@.take(0)));
    for c in iter: s.chars()
        invariant
            iter.seq() == s@,
            started == (kept@.len() > 0),
            all_whitespace(pending@),
            kept@.len() == 0 ==> pending@.len() == 0 && all_whitespace(
                s@.take(iter.index() as int),
            ),
            kept@.len() > 0 ==> !is_whitespace(kept@.last()) && !all_whitespace(
                s@.take(iter.index() as int),
            ),
            kept@ + pending@ == trimmed_start(s@.take(iter.index() as int)),
    {
        let ghost i = iter.index() as int;
        let ghost seen = s@.take(i);
        let ghost old_kept = kept@;
        let ghost old_pending = pending@;
        proof {
            lemma_trimmed_start_push(seen, c);
            assert(seen.push(c) =~= s@.take(i + 1));
            if !all_whitespace(seen) {
                let j = choose|j: int| 0 <= j < seen.len() && !is_whitespace(#[trigger] seen[j]);
                assert(!is_whitespace(s@.take(i + 1)[j]));
            }
        }
        if char_is_whitespace(c) {
            if started {
                push_char(&mut pending, c);
                assert(kept@ + pending@ =~= (old_kept + old_pending).push(c));
            } else {
                assert(kept@ + pending@ =~= Seq::<char>::empty());
                assert forall|k: int| 0 <= k < i + 1 implies is_whitespace(
                    #[trigger] s@.take(i + 1)[k],
                ) by {
                    if k < i {
                        assert(s@.take(i + 1)[k] == seen[k]);
                    }
                }
            }
        } else {
            assert(!is_whitespace(s@.take(i + 1)[i]));
            kept.append(pending.as_str());
            push_char(&mut kept, c);
            pending = String::new();
            started = true;
            assert(kept@ + pending@ =~= (old_kept + old_pending).push(c));
        }
    }
    proof {
        assert(s@.take(s@.len() as int) =~= s@);
        lemma_trimmed_end_ignores_tail(kept@, pending@);
    }
    kept
}

/// The lower-case form of an ASCII capital; any other character itself.
pub fn char_to_ascii_lower(c: char) -> (lower: char)
    ensures
        lower == ascii_lower_char(c),
{
    if c >= 'A' && c <= 'Z' {
        ((c as u8) + 32) as char
    } else {
        c
    }
}

/// Puts every ASCII capital of the text in lower case.
pub fn to_ascii_lower(s: &str) -> (lowered: String)
    ensures
        lowered@ == ascii_lower(s@),
{
    let mut lowered = String::new();
    for c in iter: s.chars()
        invariant
            iter.seq() == s@,
            lowered@ == ascii_lower(s@.take(iter.index() as int)),
    {
        push_char(&mut lowered, char_to_ascii_lower(c));
        assert(lowered@ =~= ascii_lower(s@.take(iter.index() + 1)));
    }
    assert(s@.take(s@.len() as int) =~= s@);
    lowered
}

} // verus!
