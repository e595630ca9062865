//! The prefecture table: from a prefecture's label to its id.

use vstd::prelude::*;

use crate::numbers::{i16_of_text, parse_i16};

verus! {

/// One entry of the prefecture resource as it was read: the label where the
/// entry has a text under `label`, and the written form of what it has under
/// `id`, where it has anything.
pub struct PrefectureEntry {
    pub label: Option<String>,
    pub id: Option<String>,
}

/// The mathematical value of an entry.
pub struct PrefectureEntryView {
    pub label: Option<Seq<char>>,
    pub id: Option<Seq<char>>,
}

impl View for PrefectureEntry {
    type V = PrefectureEntryView;

    open spec fn view(&self) -> PrefectureEntryView {
        PrefectureEntryView {
            label: match self.label {
                Some(l) => Some(l@),
                None => None,
            },
            id: match self.id {
                Some(i) => Some(i@),
                None => None,
            },
        }
    }
}

/// The views of a list of entries, in order.
pub open spec fn entries_view(entries: Seq<PrefectureEntry>) -> Seq<PrefectureEntryView> {
    Seq::new(entries.len(), |i: int| entries[i]@)
}

/// The table that a list of entries gives: each entry with both a label and
/// an id maps its label to its id, a later entry replacing an earlier one
/// with the same label. Entries that lack either are passed over.
pub open spec fn prefecture_map(entries: Seq<PrefectureEntryView>) -> Map<Seq<char>, Seq<char>>
    decreases entries.len(),
{
    if entries.len() == 0 {
        Map::empty()
    } else {
        let earlier = prefecture_map(entries.drop_last());
        match (entries.last().label, entries.last().id) {
            (Some(label), Some(id)) => earlier.insert(label, id),
            _ => earlier,
        }
    }
}

/// The id that a table gives for a label: the number written under the
/// label, and 0 where the label is absent or what is written under it is
/// no 16-bit number.
pub open spec fn prefecture_id_of(table: Map<Seq<char>, Seq<char>>, label: Seq<char>) -> i16 {
    if table.contains_key(label) {
        match i16_of_text(table[label]) {
            Some(id) => id,
            None => 0,
        }
    } else {
        0
    }
}

/// The map that a list of label and id pairs stands for, a later pair
/// replacing an earlier one with the same label.
pub open spec fn pairs_map(pairs: Seq<(Seq<char>, Seq<char>)>) -> Map<Seq<char>, Seq<char>>
    decreases pairs.len(),
{
    if pairs.len() == 0 {
        Map::empty()
    } else {
        pairs_map(pairs.drop_last()).insert(pairs.last().0, pairs.last().1)
    }
}

/// The views of a list of pairs, in order.
pub open spec fn pairs_view(pairs: Seq<(String, String)>) -> Seq<(Seq<char>, Seq<char>)> {
    Seq::new(pairs.len(), |i: int| (pairs[i].0@, pairs[i].1@))
}

/// A label that no pair from `from` on holds is looked up in the pairs before
/// `from` alone; a label that the pair at `at` holds, and none after it, has
/// that pair's id.
proof fn lemma_pairs_map_lookup(pairs: Seq<(Seq<char>, Seq<char>)>, label: Seq<char>, from: int)
    requires
        0 <= from <= pairs.len(),
        forall|j: int| from <= j < pairs.len() ==> (#[trigger] pairs[j]).0 != label,
    ensures
        pairs_map(pairs).contains_key(label) == pairs_map(pairs.take(from)).contains_key(label),
        pairs_map(pairs).contains_key(label) ==> pairs_map(pairs)[label] == pairs_map(
            pairs.take(from),
        )[label],
    decreases pairs.len(),
{
    if from == pairs.len() {
        assert(pairs.take(from) =~= pairs);
    } else {
        assert(pairs.last().0 != label);
        lemma_pairs_map_lookup(pairs.drop_last(), label, from);
        assert(pairs.drop_last().take(from) =~= pairs.take(from));
    }
}

/// The prefecture table, built once and then only read.
pub struct PrefectureTable {
    pairs: Vec<(String, String)>,
}

impl View for PrefectureTable {
    type V = Map<Seq<char>, Seq<char>>;

    closed spec fn view(&self) -> Map<Seq<char>, Seq<char>> {
        pairs_map(pairs_view(self.pairs@))
    }
}

impl PrefectureTable {
    /// What is written under a label, if the table holds the label.
    pub fn get(&self, label: &str) -> (id: Option<&String>)
        ensures
            id is Some == self@.contains_key(label@),
            id matches Some(text) ==> text@ == self@[label@],
    {
        let ghost pairs = pairs_view(self.pairs@);
        let mut i: usize = self.pairs.len();
        while i > 0
            invariant
                i <= self.pairs.len(),
                pairs == pairs_view(self.pairs@),
                forall|j: int| i <= j < pairs.len() ==> (#[trigger] pairs[j]).0 != label@,
            decreases i,
        {
            i = i - 1;
            if self.pairs[i].0.as_str().eq(label) {
                proof {
                    lemma_pairs_map_lookup(pairs, label@, i + 1);
                    assert(pairs.take(i + 1).drop_last() =~= pairs.take(i as int));
                    assert(pairs.take(i + 1).last() == pairs[i as int]);
                }
                return Some(&self.pairs[i].1);
            }
        }
        proof {
            lemma_pairs_map_lookup(pairs, label@, 0);
            assert(pairs.take(0) =~= Seq::<(Seq<char>, Seq<char>)>::empty());
        }
        None
    }

    /// The id of the prefecture with the given label; 0 where the table does
    /// not know the label.
    pub fn prefecture_id(&self, label: &str) -> (id: i16)
        ensures
            id == prefecture_id_of(self@, label@),
    {
        match self.get(label) {
            Some(text) => match parse_i16(text.as_str()) {
                Some(id) => id,
                None => 0,
            },
            None => 0,
        }
    }
}

/// Builds the prefecture table from the entries of the prefecture resource.
pub fn build_prefecture_cache(entries: &Vec<PrefectureEntry>) -> (table: PrefectureTable)
    ensures
        table@ == prefecture_map(entries_view(entries@)),
{
    let mut pairs: Vec<(String, String)> = Vec::new();
    let ghost all = entries_view(entries@);
    assert(all.take(0) =~= Seq::<PrefectureEntryView>::empty());
    assert(pairs_view(pairs@) =~= Seq::<(Seq<char>, Seq<char>)>::empty());
    let mut i: usize = 0;
    while i < entries.len()
        invariant
            i <= entries.len(),
            all == entries_view(entries@),
            pairs_map(pairs_view(pairs@)) == prefecture_map(all.take(i as int)),
        decreases entries.len() - i,
    {
        let ghost before = pairs_view(pairs@);
        proof {
            assert(all.take(i + 1).drop_last() =~= all.take(i as int));
            assert(all.take(i + 1).last() == entries[i as int]@);
        }
        let entry = &entries[i];
        match (&entry.label, &entry.id) {
            (Some(label), Some(id)) => {
                pairs.push((label.clone(), id.clone()));
                proof {
                    let after = pairs_view(pairs@);
                    assert(after.drop_last() =~= before);
                    assert(after.last() == (label@, id@));
                }
            },
            _ => {},
        }
        i = i + 1;
    }
    assert(all.take(entries.len() as int) =~= all);
    PrefectureTable { pairs }
}

} // verus!
