//! Folding of full-width punctuation and digits to ASCII, and removal of
//! parenthesised remarks for callers that want a town without them.

use std::collections::HashMap;
use vstd::prelude::*;

use crate::text::push_char;

verus! {

broadcast use {vstd::std_specs::hash::group_hash_axioms, vstd::string::group_string_axioms};

/// The fixed replacement table, keyed by code point: full-width parentheses,
/// the long-vowel mark, the ideographic comma and the full-width digits, each
/// with the ASCII character that replaces it.
pub open spec fn replace_table() -> Map<u32, char> {
    Map::<u32, char>::empty().insert('（' as u32, '(').insert('）' as u32, ')').insert(
        'ー' as u32,
        '-',
    ).insert('、' as u32, ',').insert('０' as u32, '0').insert('１' as u32, '1').insert(
        '２' as u32,
        '2',
    ).insert('３' as u32, '3').insert('４' as u32, '4').insert('５' as u32, '5').insert(
        '６' as u32,
        '6',
    ).insert('７' as u32, '7').insert('８' as u32, '8').insert('９' as u32, '9')
}

/// What a table makes of one character: its replacement where the table
/// holds one, the character itself where it does not.
pub open spec fn fold_char(table: Map<u32, char>, c: char) -> char {
    if table.contains_key(c as u32) {
        table[c as u32]
    } else {
        c
    }
}

/// What a table makes of a text: every character folded, in place.
pub open spec fn fold_text(table: Map<u32, char>, s: Seq<char>) -> Seq<char> {
    Seq::new(s.len(), |i: int| fold_char(table, s[i]))
}

/// Builds the fixed replacement table.
pub fn build_replace_cache() -> (cache: HashMap<u32, char>)
    ensures
        cache@ == replace_table(),
{
    let mut cache: HashMap<u32, char> = HashMap::new();
    cache.insert('（' as u32, '(');
    cache.insert('）' as u32, ')');
    cache.insert('ー' as u32, '-');
    cache.insert('、' as u32, ',');
    cache.insert('０' as u32, '0');
    cache.insert('１' as u32, '1');
    cache.insert('２' as u32, '2');
    cache.insert('３' as u32, '3');
    cache.insert('４' as u32, '4');
    cache.insert('５' as u32, '5');
    cache.insert('６' as u32, '6');
    cache.insert('７' as u32, '7');
    cache.insert('８' as u32, '8');
    cache.insert('９' as u32, '9');
    cache
}

/// Folds a text with the given table: a character that the table holds is
/// replaced, every other character is kept.
pub fn replace_japanese_to_alphanumeric_with_cache(s: &str, cache: &HashMap<u32, char>) -> (folded:
    String)
    ensures
        folded@ == fold_text(cache@, s@),
{
    let mut folded = String::new();
    for c in iter: s.chars()
        invariant
            iter.seq() == s@,
            folded@ == fold_text(cache@, s@.take(iter.index() as int)),
    {
        let replacement = match cache.get(&(c as u32)) {
            Some(r) => *r,
            None => c,
        };
        push_char(&mut folded, replacement);
        assert(folded@ =~= fold_text(cache@, s@.take(iter.index() + 1)));
    }
    assert(s@.take(s@.len() as int) =~= s@);
    folded
}

/// The characters of `s` that stand outside every pair of parentheses, when
/// `depth` parentheses are already open. A closing parenthesis with nothing
/// open is dropped and opens nothing.
pub open spec fn outside_parentheses(s: Seq<char>, depth: nat) -> Seq<char>
    decreases s.len(),
{
    if s.len() == 0 {
        Seq::empty()
    } else if s[0] == '(' {
        outside_parentheses(s.drop_first(), depth + 1)
    } else if s[0] == ')' {
        outside_parentheses(s.drop_first(), if depth > 0 { (depth - 1) as nat } else { 0 })
    } else if depth == 0 {
        seq![s[0]] + outside_parentheses(s.drop_first(), 0)
    } else {
        outside_parentheses(s.drop_first(), depth)
    }
}

/// Removes every parenthesised remark, parentheses included. Canonical
/// records keep their remarks; this is for showing a town without them.
pub fn remove_parentheses(s: &str) -> (kept: String)
    ensures
        kept@ == outside_parentheses(s@, 0),
{
    crate::text::note_char_count_bounded(s);
    let mut kept = String::new();
    let mut depth: usize = 0;
    assert(s@.skip(0) =~= s@);
    assert(kept@ + outside_parentheses(s@, 0) =~= outside_parentheses(s@, 0));
    for c in iter: s.chars()
        invariant
            iter.seq() == s@,
            s@.len() <= usize::MAX,
            depth <= iter.index(),
            kept@ + outside_parentheses(s@.skip(iter.index() as int), depth as nat)
                == outside_parentheses(s@, 0),
    {
        let ghost rest = s@.skip(iter.index() as int);
        assert(rest.drop_first() =~= s@.skip(iter.index() + 1));
        assert(rest[0] == c);
        if c == '(' {
            depth = depth + 1;
        } else if c == ')' {
            if depth > 0 {
                depth = depth - 1;
            }
        } else if depth == 0 {
            let ghost before = kept@;
            push_char(&mut kept, c);
            assert(kept@ + outside_parentheses(rest.drop_first(), 0) =~= before
                + outside_parentheses(rest, 0));
        }
    }
    assert(s@.skip(s@.len() as int) =~= Seq::<char>::empty());
    assert(kept@ + Seq::<char>::empty() =~= kept@);
    kept
}

} // verus!
