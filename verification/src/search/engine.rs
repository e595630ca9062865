//! The address search: which queries are made, in which order, and how
//! their answers are gathered.

use vstd::prelude::*;
use vstd::string::StringExecFns;

use crate::feed::merge::records_view;
use crate::models::{PostalCode, PostalCodeView};
use crate::search::normalize::{candidates_from_normalized, candidates_of, texts_view};

verus! {

/// The limit of a search that names none.
pub const DEFAULT_LIMIT: usize = 50;

/// The smallest limit of a search.
pub const MIN_LIMIT: usize = 1;

/// The largest limit of a search.
pub const MAX_LIMIT: usize = 200;

/// How a term is matched against the columns.
#[derive(Debug, Clone, Copy, PartialEq, Eq, Structural)]
pub enum SearchMode {
    /// The column equals the candidate.
    Exact,
    /// The column starts with the candidate.
    Prefix,
    /// The column holds the candidate somewhere.
    Partial,
}

impl SearchMode {
    /// The name of the mode in requests and cache keys.
    pub open spec fn name(self) -> Seq<char> {
        match self {
            SearchMode::Exact => "exact"@,
            SearchMode::Prefix => "prefix"@,
            SearchMode::Partial => "partial"@,
        }
    }

    /// The name of the mode in requests and cache keys.
    pub fn as_str(&self) -> (name: &'static str)
        ensures
            name@ == self.name(),
    {
        match self {
            SearchMode::Exact => "exact",
            SearchMode::Prefix => "prefix",
            SearchMode::Partial => "partial",
        }
    }

    /// Whether the term is compared for equality rather than as a pattern.
    pub fn is_equality(&self) -> (equality: bool)
        ensures
            equality == (*self == SearchMode::Exact),
    {
        match self {
            SearchMode::Exact => true,
            _ => false,
        }
    }
}

/// The mode that a request selects: the one it names, and the partial mode
/// where it names none or one that does not exist.
pub open spec fn search_mode_of(name: Option<Seq<char>>) -> SearchMode {
    match name {
        Some(n) => if n == "exact"@ {
            SearchMode::Exact
        } else if n == "prefix"@ {
            SearchMode::Prefix
        } else {
            SearchMode::Partial
        },
        None => SearchMode::Partial,
    }
}

/// Reads the mode of a request.
pub fn parse_search_mode(name: Option<&str>) -> (mode: SearchMode)
    ensures
        mode == search_mode_of(
            match name {
                Some(n) => Some(n@),
                None => None,
            },
        ),
{
    match name {
        Some(n) => if n.eq("exact") {
            SearchMode::Exact
        } else if n.eq("prefix") {
            SearchMode::Prefix
        } else {
            SearchMode::Partial
        },
        None => SearchMode::Partial,
    }
}

/// The term that a candidate is searched with: the candidate itself for an
/// exact match, with `%` behind it for a prefix match, and with `%` on both
/// sides for a partial match.
pub open spec fn search_term_of(mode: SearchMode, candidate: Seq<char>) -> Seq<char> {
    match mode {
        SearchMode::Exact => candidate,
        SearchMode::Prefix => candidate + seq!['%'],
        SearchMode::Partial => seq!['%'] + candidate + seq!['%'],
    }
}

/// Builds the term that a candidate is searched with.
pub fn build_search_term(mode: SearchMode, candidate: &str) -> (term: String)
    ensures
        term@ == search_term_of(mode, candidate@),
{
    proof {
        reveal_strlit("%");
        assert("%"@ =~= seq!['%']);
    }
    match mode {
        SearchMode::Exact => String::from_str(candidate),
        SearchMode::Prefix => {
            let mut term = String::from_str(candidate);
            term.append("%");
            term
        },
        SearchMode::Partial => {
            let mut term = String::from_str("%");
            term.append(candidate);
            term.append("%");
            term
        },
    }
}

/// The limit of a search: 50 where the request names none, else what it
/// names, raised to 1 or lowered to 200 where it lies outside.
pub open spec fn limit_of(requested: Option<int>) -> nat {
    match requested {
        None => DEFAULT_LIMIT as nat,
        Some(n) => if n < MIN_LIMIT {
            MIN_LIMIT as nat
        } else if n > MAX_LIMIT {
            MAX_LIMIT as nat
        } else {
            n as nat
        },
    }
}

/// The limit of a search.
pub fn clamp_limit(requested: Option<i64>) -> (limit: usize)
    ensures
        limit == limit_of(
            match requested {
                Some(n) => Some(n as int),
                None => None,
            },
        ),
        MIN_LIMIT <= limit <= MAX_LIMIT,
{
    match requested {
        None => DEFAULT_LIMIT,
        Some(n) => if n < 1 {
            MIN_LIMIT
        } else if n > 200 {
            MAX_LIMIT
        } else {
            n as usize
        },
    }
}

/// Whether a record is among the gathered ones, equal in all six fields.
pub open spec fn holds_record(gathered: Seq<PostalCodeView>, record: PostalCodeView) -> bool {
    exists|j: int| 0 <= j < gathered.len() && #[trigger] gathered[j] == record
}

/// The gathered records after the rows of one answer are taken in, in
/// order: a row that is gathered already is skipped, and nothing is added
/// once the limit is reached.
pub open spec fn gathered_with(
    gathered: Seq<PostalCodeView>,
    rows: Seq<PostalCodeView>,
    limit: nat,
) -> Seq<PostalCodeView>
    decreases rows.len(),
{
    if rows.len() == 0 {
        gathered
    } else {
        let earlier = gathered_with(gathered, rows.drop_last(), limit);
        if earlier.len() >= limit || holds_record(earlier, rows.last()) {
            earlier
        } else {
            earlier.push(rows.last())
        }
    }
}

/// Whether no record occurs twice.
pub open spec fn records_distinct(records: Seq<PostalCodeView>) -> bool {
    forall|i: int, j: int| 0 <= i < j < records.len() ==> records[i] != records[j]
}

/// Taking in an answer keeps what was gathered in front, never exceeds the
/// limit that held before, and keeps the gathered records distinct.
pub proof fn lemma_gathered_with(
    gathered: Seq<PostalCodeView>,
    rows: Seq<PostalCodeView>,
    limit: nat,
)
    ensures
        gathered.len() <= gathered_with(gathered, rows, limit).len() <= gathered.len()
            + rows.len(),
        gathered_with(gathered, rows, limit).take(gathered.len() as int) == gathered,
        gathered.len() <= limit ==> gathered_with(gathered, rows, limit).len() <= limit,
        records_distinct(gathered) ==> records_distinct(gathered_with(gathered, rows, limit)),
    decreases rows.len(),
{
    if rows.len() == 0 {
        assert(gathered.take(gathered.len() as int) =~= gathered);
    } else {
        lemma_gathered_with(gathered, rows.drop_last(), limit);
        let earlier = gathered_with(gathered, rows.drop_last(), limit);
        let result = gathered_with(gathered, rows, limit);
        assert(result.take(gathered.len() as int) =~= earlier.take(gathered.len() as int));
        if records_distinct(gathered) && !(earlier.len() >= limit || holds_record(
            earlier,
            rows.last(),
        )) {
            assert forall|i: int, j: int| 0 <= i < j < result.len() implies result[i]
                != result[j] by {
                if j == earlier.len() {
                    assert(earlier[i] == result[i]);
                } else {
                    assert(earlier[i] == result[i] && earlier[j] == result[j]);
                }
            }
        }
    }
}

/// Whatever an answer adds to the gathered records is a row of the answer.
pub proof fn lemma_gathered_from_rows(
    gathered: Seq<PostalCodeView>,
    rows: Seq<PostalCodeView>,
    limit: nat,
)
    ensures
        forall|k: int|
            gathered.len() <= k < gathered_with(gathered, rows, limit).len() ==> holds_record(
                rows,
                #[trigger] gathered_with(gathered, rows, limit)[k],
            ),
    decreases rows.len(),
{
    if rows.len() > 0 {
        lemma_gathered_from_rows(gathered, rows.drop_last(), limit);
        lemma_gathered_with(gathered, rows.drop_last(), limit);
        let earlier = gathered_with(gathered, rows.drop_last(), limit);
        let result = gathered_with(gathered, rows, limit);
        assert forall|k: int| gathered.len() <= k < result.len() implies holds_record(
            rows,
            #[trigger] result[k],
        ) by {
            if k < earlier.len() {
                assert(result[k] == earlier[k]);
                assert(holds_record(rows.drop_last(), earlier[k]));
                let j = choose|j: int|
                    0 <= j < rows.drop_last().len() && #[trigger] rows.drop_last()[j] == earlier[k];
                assert(rows[j] == result[k]);
            } else {
                assert(rows[rows.len() - 1] == result[k]);
            }
        }
    }
}

/// One query to the store.
#[derive(Debug)]
pub struct SearchQuery {
    /// The term that the columns prefecture, city and town are matched
    /// against, any one of them sufficing.
    pub term: String,
    /// Whether the term is compared for equality rather than as a pattern.
    pub equality: bool,
    /// The number of rows that the store is asked for at most.
    pub limit: usize,
}

/// A search in progress.
#[derive(Debug)]
pub struct SearchPlan {
    /// The candidates, in the order in which they are tried.
    pub candidates: Vec<String>,
    /// How the candidates are matched.
    pub mode: SearchMode,
    /// The number of records that the search returns at most.
    pub limit: usize,
    /// The number of candidates tried so far.
    pub tried: usize,
    /// The records gathered so far.
    pub results: Vec<PostalCode>,
}

impl SearchPlan {
    /// The plan is within its bounds and has gathered no record twice.
    pub open spec fn wf(&self) -> bool {
        &&& self.tried <= self.candidates@.len()
        &&& self.results@.len() <= self.limit
        &&& MIN_LIMIT <= self.limit <= MAX_LIMIT
        &&& records_distinct(records_view(self.results@))
    }

    /// Whether nothing is left to ask: every candidate was tried, or the
    /// limit is reached.
    pub open spec fn finished(&self) -> bool {
        self.tried >= self.candidates@.len() || self.results@.len() >= self.limit
    }

    /// The plan of a search for an input that is normalized already.
    pub fn new(normalized_address: &str, limit: Option<i64>, mode: Option<&str>) -> (plan:
        SearchPlan)
        ensures
            plan.wf(),
            texts_view(plan.candidates@) == candidates_of(normalized_address@),
            plan.mode == search_mode_of(
                match mode {
                    Some(n) => Some(n@),
                    None => None,
                },
            ),
            plan.limit == limit_of(
                match limit {
                    Some(n) => Some(n as int),
                    None => None,
                },
            ),
            plan.tried == 0,
            plan.results@.len() == 0,
    {
        SearchPlan {
            candidates: candidates_from_normalized(normalized_address),
            mode: parse_search_mode(mode),
            limit: clamp_limit(limit),
            tried: 0,
            results: Vec::new(),
        }
    }

    /// The query to make next, if the search is not finished: the term of
    /// the next candidate, with the number of records still wanted as its
    /// limit.
    pub fn next_query(&self) -> (query: Option<SearchQuery>)
        requires
            self.wf(),
        ensures
            query is None <==> self.finished(),
            query matches Some(q) ==> q.term@ == search_term_of(
                self.mode,
                self.candidates@[self.tried as int]@,
            ) && q.equality == (self.mode == SearchMode::Exact) && q.limit == self.limit
                - self.results@.len() && q.limit >= 1,
    {
        if self.tried >= self.candidates.len() || self.results.len() >= self.limit {
            None
        } else {
            Some(
                SearchQuery {
                    term: build_search_term(self.mode, self.candidates[self.tried].as_str()),
                    equality: self.mode.is_equality(),
                    limit: self.limit - self.results.len(),
                },
            )
        }
    }

    /// Takes in the answer to the query that `next_query` gave: its rows are
    /// appended in order, without those gathered already and without
    /// exceeding the limit, and the candidate counts as tried.
    pub fn absorb(&mut self, rows: Vec<PostalCode>)
        requires
            old(self).wf(),
            !old(self).finished(),
        ensures
            final(self).wf(),
            final(self).tried == old(self).tried + 1,
            final(self).candidates == old(self).candidates,
            final(self).mode == old(self).mode,
            final(self).limit == old(self).limit,
            records_view(final(self).results@) == gathered_with(
                records_view(old(self).results@),
                records_view(rows@),
                old(self).limit as nat,
            ),
    {
        let ghost start = records_view(self.results@);
        let ghost all = records_view(rows@);
        let limit = self.limit;
        let mut i: usize = 0;
        assert(all.take(0) =~= Seq::<PostalCodeView>::empty());
        while i < rows.len()
            invariant
                i <= rows.len(),
                all == records_view(rows@),
                self.limit == limit,
                self.candidates == old(self).candidates,
                self.mode == old(self).mode,
                self.tried == old(self).tried,
                self.tried < self.candidates@.len(),
                records_view(self.results@) == gathered_with(start, all.take(i as int), limit as nat),
            decreases rows.len() - i,
        {
            let ghost before = records_view(self.results@);
            proof {
                assert(all.take(i + 1).drop_last() =~= all.take(i as int));
                assert(all.take(i + 1).last() == rows[i as int]@);
            }
            if self.results.len() < limit && !contains_record(&self.results, &rows[i]) {
                self.results.push(rows[i].clone());
                assert(records_view(self.results@) =~= before.push(rows[i as int]@));
            }
            i = i + 1;
        }
        proof {
            assert(all.take(rows.len() as int) =~= all);
            lemma_gathered_with(start, all, limit as nat);
        }
        let candidate_count = self.candidates.len();
        assert(self.tried < candidate_count);
        self.tried = self.tried + 1;
    }

    /// The records that the search gathered.
    pub fn into_results(self) -> (results: Vec<PostalCode>)
        ensures
            results == self.results,
    {
        self.results
    }
}

/// Whether a record is among the gathered ones.
fn contains_record(gathered: &Vec<PostalCode>, record: &PostalCode) -> (found: bool)
    ensures
        found == holds_record(records_view(gathered@), record@),
{
    let ghost views = records_view(gathered@);
    let mut j: usize = 0;
    while j < gathered.len()
        invariant
            j <= gathered.len(),
            views == records_view(gathered@),
            forall|k: int| 0 <= k < j ==> #[trigger] views[k] != record@,
        decreases gathered.len() - j,
    {
        if gathered[j] == *record {
            assert(views[j as int] == record@);
            return true;
        }
        j = j + 1;
    }
    false
}

} // verus!
