use vstd::prelude::*;
use vstd::seq_lib::group_to_multiset_ensures;
use vstd::set_lib::{lemma_int_range, lemma_len_subset, set_int_range};

use crate::item::Item;
use crate::text::string_of;
use fuzzy_matcher::skim::SkimMatcherV2;
use fuzzy_matcher::FuzzyMatcher;
use rayon::iter::{IndexedParallelIterator, IntoParallelRefIterator, ParallelIterator};

verus! {

/// Above this many items the matching is spread over a worker pool.
pub const PARALLEL_THRESHOLD: usize = 10000;

/// The least number of consecutive items that one worker matches in a row.
pub const MATCH_CHUNK: usize = 50;

#[verifier::external_type_specification]
#[verifier::external_body]
pub struct ExSkimMatcherV2(SkimMatcherV2);

#[verifier::external_type_specification]
#[verifier::external_body]
pub struct ExThreadPool(rayon::ThreadPool);

#[verifier::external_type_specification]
#[verifier::external_body]
pub struct ExThreadPoolBuildError(rayon::ThreadPoolBuildError);

/// The score and the matched character offsets that the skim matcher, with
/// its default configuration, gives for a label and a pattern.
pub uninterp spec fn skim_match(choice: Seq<char>, pattern: Seq<char>) -> Option<(i64, Seq<usize>)>;

/// The outcome of one match, with its offsets as a sequence.
pub open spec fn outcome_view(o: Option<(i64, Vec<usize>)>) -> Option<(i64, Seq<usize>)> {
    match o {
        Some((s, v)) => Some((s, v@)),
        None => None,
    }
}

/// Relies on `SkimMatcherV2::default`: a matcher with the default scoring,
/// no element limit and smart-case matching. Matchers are built nowhere else
/// in this library, and only the private matcher of a `Ranker` is handed to
/// `skim_indices`, so what the matcher returns depends on the label and the
/// pattern alone.
#[verifier::external_body]
fn default_matcher() -> (r: SkimMatcherV2) {
    SkimMatcherV2::default()
}

/// Relies on `FuzzyMatcher::fuzzy_indices` of `SkimMatcherV2`, for a matcher
/// built by `default_matcher` (the only kind that reaches here): the score and
/// the matched character offsets of `choice` against `pattern`, or `None`
/// when the pattern is no subsequence of it. An empty pattern gives score 0
/// and no offsets.
#[verifier::external_body]
fn skim_indices(m: &SkimMatcherV2, choice: &str, pattern: &str) -> (r: Option<(i64, Vec<usize>)>)
    ensures
        outcome_view(r) == skim_match(choice@, pattern@),
        pattern@.len() == 0 ==> outcome_view(r) == Some((0i64, Seq::<usize>::empty())),
{
    m.fuzzy_indices(choice, pattern)
}

/// Relies on `num_cpus::get`: the number of logical CPUs, at least 1.
#[verifier::external_body]
fn cpu_count() -> (r: usize)
    ensures
        r >= 1,
{
    num_cpus::get()
}

/// Relies on `rayon::ThreadPoolBuilder::build` with `num_threads(n)`: a pool
/// of `n` workers, or the error met while starting them.
#[verifier::external_body]
fn build_pool(n: usize) -> (r: Result<rayon::ThreadPool, rayon::ThreadPoolBuildError>) {
    rayon::ThreadPoolBuilder::new().num_threads(n).build()
}

/// Relies on `ThreadPool::install` and rayon's indexed `map` and `collect`,
/// which keep the order of the input: one outcome per item, in item order,
/// each one worked out by `match_item`.
#[verifier::external_body]
fn par_match_items<T: Sync>(
    pool: &rayon::ThreadPool,
    m: &SkimMatcherV2,
    items: &Vec<Item<T>>,
    pattern: &str,
) -> (r: Vec<Option<(i64, Vec<usize>)>>)
    ensures
        r@.len() == items@.len(),
        forall|i: int|
            0 <= i < items@.len() ==> outcome_view(#[trigger] r@[i]) == skim_match(
                items@[i].alias_view(),
                pattern@,
            ),
{
    pool.install(
        || items.par_iter().with_min_len(MATCH_CHUNK).map(|it| match_item(m, it, pattern)).collect(),
    )
}

/// Relies on `slice::sort_by_key`, a stable sort, here keyed by descending
/// score: equal scores keep the ascending order of the second field.
#[verifier::external_body]
fn sort_by_score_desc(v: &mut Vec<(i64, usize)>)
    requires
        forall|a: int, b: int| 0 <= a < b < old(v)@.len() ==> old(v)@[a].1 < old(v)@[b].1,
    ensures
        final(v)@.to_multiset() == old(v)@.to_multiset(),
        forall|a: int, b: int|
            0 <= a < b < final(v)@.len() ==> final(v)@[a].0 > final(v)@[b].0 || (final(v)@[a].0
                == final(v)@[b].0 && final(v)@[a].1 < final(v)@[b].1),
{
    v.sort_by_key(|p| std::cmp::Reverse(p.0))
}

/// One match outcome: the score and the matched character offsets, or
/// nothing when the label did not match.
pub type Outcome = Option<(i64, Seq<usize>)>;

/// The score an item keeps after ranking: the outcome's score when it is
/// positive.
pub open spec fn kept_score(o: Outcome) -> Option<i64> {
    match o {
        Some((s, _)) => if s > 0 {
            Some(s)
        } else {
            None
        },
        None => None,
    }
}

/// The matched offsets an item keeps after ranking.
pub open spec fn kept_positions(o: Outcome) -> Option<Seq<usize>> {
    match o {
        Some((s, p)) => if s > 0 {
            Some(p)
        } else {
            None
        },
        None => None,
    }
}

/// Whether an outcome keeps its item in the ranking.
pub open spec fn is_kept(o: Outcome) -> bool {
    kept_score(o) is Some
}

/// The score of a kept outcome (0 for one that is left out).
pub open spec fn kept_value(o: Outcome) -> int {
    match kept_score(o) {
        Some(s) => s as int,
        None => 0,
    }
}

/// Item `i` comes before item `j`: a higher score, or an equal score and a
/// smaller index.
pub open spec fn ranks_before(outs: Seq<Outcome>, i: int, j: int) -> bool {
    kept_value(outs[i]) > kept_value(outs[j]) || (kept_value(outs[i]) == kept_value(outs[j]) && i
        < j)
}

/// `r` lists exactly the indices of the kept outcomes, by descending score
/// and, among equal scores, by ascending index.
pub open spec fn is_ranking(outs: Seq<Outcome>, r: Seq<usize>) -> bool {
    &&& forall|k: int| 0 <= k < r.len() ==> #[trigger] r[k] < outs.len() && is_kept(outs[r[k] as int])
    &&& forall|i: int| 0 <= i < outs.len() && is_kept(#[trigger] outs[i]) ==> r.contains(i as usize)
    &&& forall|a: int, b: int|
        0 <= a < b < r.len() ==> ranks_before(outs, #[trigger] r[a] as int, #[trigger] r[b] as int)
}

/// The labels of a list of items.
pub open spec fn aliases_of<T>(items: Seq<Item<T>>) -> Seq<Seq<char>> {
    items.map_values(|it: Item<T>| it.alias_view())
}

/// The outcome of matching each label against the query.
pub open spec fn outcomes_of(aliases: Seq<Seq<char>>, query: Seq<char>) -> Seq<Outcome> {
    aliases.map_values(|a: Seq<char>| skim_match(a, query))
}

/// What ranking leaves in an item given its outcome: its label and value,
/// and the score and offsets of the outcome when it is kept.
pub open spec fn ranked_item<T>(before: Item<T>, after: Item<T>, o: Outcome) -> bool {
    &&& after.alias_view() == before.alias_view()
    &&& after.value_view() == before.value_view()
    &&& after.score_view() == kept_score(o)
    &&& after.positions_view() == kept_positions(o)
}

/// What ranking `before` by the outcomes `outs` leaves: the items in `after`,
/// each with its own outcome, and the ranking `r`.
pub open spec fn ranked_by<T>(
    before: Seq<Item<T>>,
    after: Seq<Item<T>>,
    outs: Seq<Outcome>,
    r: Seq<usize>,
) -> bool {
    &&& after.len() == before.len()
    &&& outs.len() == before.len()
    &&& forall|k: int| 0 <= k < before.len() ==> ranked_item(before[k], #[trigger] after[k], outs[k])
    &&& is_ranking(outs, r)
}

/// What ranking `before` against `query` leaves.
pub open spec fn rank_outcome<T>(
    before: Seq<Item<T>>,
    after: Seq<Item<T>>,
    query: Seq<char>,
    r: Seq<usize>,
) -> bool {
    ranked_by(before, after, outcomes_of(aliases_of(before), query), r)
}

/// Every item of a ranking has a positive score, and the scores never rise
/// along it.
pub proof fn lemma_ranking_scores(outs: Seq<Outcome>, r: Seq<usize>)
    requires
        is_ranking(outs, r),
    ensures
        forall|k: int| 0 <= k < r.len() ==> kept_value(outs[#[trigger] r[k] as int]) > 0,
        forall|a: int, b: int|
            0 <= a < b < r.len() ==> kept_value(outs[#[trigger] r[a] as int]) >= kept_value(
                outs[#[trigger] r[b] as int],
            ),
{
    assert forall|k: int| 0 <= k < r.len() implies kept_value(outs[#[trigger] r[k] as int]) > 0 by {
        assert(r[k] < outs.len() && is_kept(outs[r[k] as int]));
    }
    assert forall|a: int, b: int| 0 <= a < b < r.len() implies kept_value(
        outs[#[trigger] r[a] as int],
    ) >= kept_value(outs[#[trigger] r[b] as int]) by {
        assert(ranks_before(outs, r[a] as int, r[b] as int));
    }
}

/// Two sequences ordered by `ranks_before` that hold the same indices are
/// equal.
proof fn lemma_ordered_same_indices(outs: Seq<Outcome>, r1: Seq<usize>, r2: Seq<usize>)
    requires
        forall|a: int, b: int|
            0 <= a < b < r1.len() ==> ranks_before(outs, #[trigger] r1[a] as int, #[trigger] r1[b] as int),
        forall|a: int, b: int|
            0 <= a < b < r2.len() ==> ranks_before(outs, #[trigger] r2[a] as int, #[trigger] r2[b] as int),
        forall|x: usize| r1.contains(x) <==> r2.contains(x),
    ensures
        r1 == r2,
    decreases r1.len(),
{
    if r1.len() == 0 {
        if r2.len() > 0 {
            assert(r2.contains(r2[0]));
        }
        assert(r1 =~= r2);
    } else {
        assert(r1.contains(r1[0]));
        assert(r2.len() > 0);
        assert(r2.contains(r2[0]));
        let j = choose|j: int| 0 <= j < r2.len() && r2[j] == r1[0];
        let i = choose|i: int| 0 <= i < r1.len() && r1[i] == r2[0];
        if j > 0 {
            assert(ranks_before(outs, r2[0] as int, r2[j] as int));
            if i > 0 {
                assert(ranks_before(outs, r1[0] as int, r1[i] as int));
            }
        }
        assert(r1[0] == r2[0]);
        let t1 = r1.drop_first();
        let t2 = r2.drop_first();
        assert forall|x: usize| t1.contains(x) <==> t2.contains(x) by {
            if t1.contains(x) {
                let a = choose|a: int| 0 <= a < t1.len() && t1[a] == x;
                assert(r1[a + 1] == x);
                assert(r1.contains(x));
                assert(x != r1[0]);
                let b = choose|b: int| 0 <= b < r2.len() && r2[b] == x;
                assert(b != 0);
                assert(t2[b - 1] == x);
            }
            if t2.contains(x) {
                let a = choose|a: int| 0 <= a < t2.len() && t2[a] == x;
                assert(r2[a + 1] == x);
                assert(r2.contains(x));
                assert(x != r2[0]);
                let b = choose|b: int| 0 <= b < r1.len() && r1[b] == x;
                assert(b != 0);
                assert(t1[b - 1] == x);
            }
        }
        assert forall|a: int, b: int| 0 <= a < b < t1.len() implies ranks_before(
            outs,
            #[trigger] t1[a] as int,
            #[trigger] t1[b] as int,
        ) by {
            assert(t1[a] == r1[a + 1] && t1[b] == r1[b + 1]);
        }
        assert forall|a: int, b: int| 0 <= a < b < t2.len() implies ranks_before(
            outs,
            #[trigger] t2[a] as int,
            #[trigger] t2[b] as int,
        ) by {
            assert(t2[a] == r2[a + 1] && t2[b] == r2[b + 1]);
        }
        lemma_ordered_same_indices(outs, t1, t2);
        assert(r1 =~= seq![r1[0]] + t1);
        assert(r2 =~= seq![r2[0]] + t2);
    }
}

/// A sequence of distinct indices below `n` holds at most `n` of them.
pub proof fn lemma_distinct_below(r: Seq<usize>, n: int)
    requires
        0 <= n,
        forall|k: int| 0 <= k < r.len() ==> #[trigger] r[k] < n,
        forall|a: int, b: int| 0 <= a < b < r.len() ==> #[trigger] r[a] != #[trigger] r[b],
    ensures
        r.len() <= n,
{
    let s = r.map_values(|x: usize| x as int);
    assert(s.no_duplicates()) by {
        assert forall|a: int, b: int| 0 <= a < s.len() && 0 <= b < s.len() && a != b implies s[a]
            != s[b] by {
            if a < b {
                assert(r[a] != r[b]);
            } else {
                assert(r[b] != r[a]);
            }
        }
    }
    s.unique_seq_to_set();
    lemma_int_range(0, n);
    assert(s.to_set().subset_of(set_int_range(0, n))) by {
        assert forall|x: int| s.to_set().contains(x) implies set_int_range(0, n).contains(x) by {
            assert(s.contains(x));
            let k = choose|k: int| 0 <= k < s.len() && s[k] == x;
            assert(r[k] < n);
        }
    }
    lemma_len_subset(s.to_set(), set_int_range(0, n));
}

/// A ranking holds no more indices than there are outcomes.
pub proof fn lemma_ranking_len(outs: Seq<Outcome>, r: Seq<usize>)
    requires
        is_ranking(outs, r),
    ensures
        r.len() <= outs.len(),
{
    assert forall|a: int, b: int| 0 <= a < b < r.len() implies #[trigger] r[a] != #[trigger] r[b] by {
        assert(ranks_before(outs, r[a] as int, r[b] as int));
    }
    assert forall|k: int| 0 <= k < r.len() implies #[trigger] r[k] < outs.len() by {
        assert(r[k] < outs.len() && is_kept(outs[r[k] as int]));
    }
    lemma_distinct_below(r, outs.len() as int);
}

/// A ranking is fixed by the outcomes: two rankings of the same outcomes are
/// equal.
pub proof fn lemma_ranking_unique(outs: Seq<Outcome>, r1: Seq<usize>, r2: Seq<usize>)
    requires
        is_ranking(outs, r1),
        is_ranking(outs, r2),
    ensures
        r1 == r2,
{
    assert forall|x: usize| r1.contains(x) <==> r2.contains(x) by {
        if r1.contains(x) {
            let k = choose|k: int| 0 <= k < r1.len() && r1[k] == x;
            assert(x < outs.len() && is_kept(outs[x as int]));
        }
        if r2.contains(x) {
            let k = choose|k: int| 0 <= k < r2.len() && r2[k] == x;
            assert(x < outs.len() && is_kept(outs[x as int]));
        }
    }
    lemma_ordered_same_indices(outs, r1, r2);
}

/// Ranking twice against the same query, with nothing changed in between,
/// gives the same ranking, and leaves every item with the same score and
/// matched offsets.
pub proof fn lemma_rank_twice<T>(
    before: Seq<Item<T>>,
    mid: Seq<Item<T>>,
    after: Seq<Item<T>>,
    query: Seq<char>,
    r1: Seq<usize>,
    r2: Seq<usize>,
)
    requires
        rank_outcome(before, mid, query, r1),
        rank_outcome(mid, after, query, r2),
    ensures
        r1 == r2,
        forall|k: int|
            0 <= k < mid.len() ==> (#[trigger] after[k]).score_view() == mid[k].score_view()
                && after[k].positions_view() == mid[k].positions_view(),
{
    let o1 = outcomes_of(aliases_of(before), query);
    let o2 = outcomes_of(aliases_of(mid), query);
    assert(o1 =~= o2) by {
        assert forall|k: int| 0 <= k < before.len() implies #[trigger] o1[k] == o2[k] by {
            assert(ranked_item(before[k], mid[k], o1[k]));
        }
    }
    lemma_ranking_unique(o1, r1, r2);
    assert forall|k: int| 0 <= k < mid.len() implies (#[trigger] after[k]).score_view()
        == mid[k].score_view() && after[k].positions_view() == mid[k].positions_view() by {
        assert(ranked_item(before[k], mid[k], o1[k]));
        assert(ranked_item(mid[k], after[k], o2[k]));
    }
}

/// Ranks items by given match outcomes, one per item: each item gets the
/// score and the offsets of its outcome when the score is positive (none
/// otherwise), and the result lists those items by descending score, equal
/// scores by ascending index.
pub fn rank_items<T>(items: &mut Vec<Item<T>>, outcomes: Vec<Option<(i64, Vec<usize>)>>) -> (r: Vec<usize>)
    requires
        outcomes@.len() == old(items)@.len(),
    ensures
        ranked_by(old(items)@, final(items)@, outcomes@.map_values(|o| outcome_view(o)), r@),
{
    broadcast use group_to_multiset_ensures;

    let ghost outs = outcomes@.map_values(|o| outcome_view(o));
    let mut outcomes = outcomes;
    let ghost before = items@;
    let mut pairs: Vec<(i64, usize)> = Vec::new();
    let mut i: usize = 0;
    while i < items.len()
        invariant
            i <= items@.len(),
            items@.len() == before.len(),
            outcomes@.len() == before.len(),
            outs.len() == before.len(),
            forall|k: int| i <= k < before.len() ==> outcome_view(#[trigger] outcomes@[k]) == outs[k],
            forall|k: int| i <= k < before.len() ==> #[trigger] items@[k] == before[k],
            forall|k: int| 0 <= k < i ==> ranked_item(before[k], #[trigger] items@[k], outs[k]),
            forall|a: int, b: int| 0 <= a < b < pairs@.len() ==> pairs@[a].1 < pairs@[b].1,
            forall|p: int|
                0 <= p < pairs@.len() ==> {
                    let e = #[trigger] pairs@[p];
                    &&& e.1 < i
                    &&& is_kept(outs[e.1 as int])
                    &&& e.0 == kept_value(outs[e.1 as int])
                },
            forall|j: int|
                0 <= j < i && is_kept(#[trigger] outs[j]) ==> exists|p: int|
                    0 <= p < pairs@.len() && #[trigger] pairs@[p].1 == j,
        decreases before.len() - i,
    {
        let ghost prev = pairs@;
        let mut o: Option<(i64, Vec<usize>)> = None;
        std::mem::swap(&mut o, &mut outcomes[i]);
        match o {
            Some((s, p)) => {
                if s > 0 {
                    items[i].set_match(Some(s), Some(p));
                    pairs.push((s, i));
                } else {
                    items[i].set_match(None, None);
                }
            },
            None => {
                items[i].set_match(None, None);
            },
        }
        proof {
            assert forall|j: int| 0 <= j < i + 1 && is_kept(#[trigger] outs[j]) implies exists|p: int|
                0 <= p < pairs@.len() && #[trigger] pairs@[p].1 == j by {
                if j == i {
                    assert(pairs@[pairs@.len() - 1].1 == j);
                } else {
                    let p = choose|p: int| 0 <= p < prev.len() && #[trigger] prev[p].1 == j;
                    assert(pairs@[p] == prev[p]);
                }
            }
        }
        i += 1;
    }
    let ghost unsorted = pairs@;
    sort_by_score_desc(&mut pairs);
    let mut r: Vec<usize> = Vec::new();
    let mut k: usize = 0;
    while k < pairs.len()
        invariant
            k <= pairs@.len(),
            r@.len() == k,
            forall|t: int| 0 <= t < k ==> #[trigger] r@[t] == pairs@[t].1,
        decreases pairs@.len() - k,
    {
        r.push(pairs[k].1);
        k += 1;
    }
    proof {
        assert forall|t: int| 0 <= t < r@.len() implies #[trigger] r@[t] < outs.len() && is_kept(
            outs[r@[t] as int],
        ) && pairs@[t].0 == kept_value(outs[r@[t] as int]) by {
            assert(pairs@.contains(pairs@[t]));
            assert(unsorted.to_multiset().count(pairs@[t]) > 0);
            let p = choose|p: int| 0 <= p < unsorted.len() && unsorted[p] == pairs@[t];
            assert(unsorted[p] == pairs@[t]);
        }
        assert forall|j: int| 0 <= j < outs.len() && is_kept(#[trigger] outs[j]) implies r@.contains(
            j as usize,
        ) by {
            let p = choose|p: int| 0 <= p < unsorted.len() && #[trigger] unsorted[p].1 == j;
            assert(unsorted.contains(unsorted[p]));
            assert(pairs@.to_multiset().count(unsorted[p]) > 0);
            let t = choose|t: int| 0 <= t < pairs@.len() && pairs@[t] == unsorted[p];
            assert(r@[t] == j);
        }
        assert forall|a: int, b: int| 0 <= a < b < r@.len() implies ranks_before(
            outs,
            #[trigger] r@[a] as int,
            #[trigger] r@[b] as int,
        ) by {
            assert(pairs@[a].0 == kept_value(outs[r@[a] as int]));
            assert(pairs@[b].0 == kept_value(outs[r@[b] as int]));
        }
    }
    r
}

/// Matches one item's label against the pattern, with the matcher of a
/// `Ranker`.
fn match_item<T>(m: &SkimMatcherV2, it: &Item<T>, pattern: &str) -> (r: Option<(i64, Vec<usize>)>)
    ensures
        outcome_view(r) == skim_match(it.alias_view(), pattern@),
{
    skim_indices(m, it.alias(), pattern)
}

/// The fuzzy ranking engine: a matcher, and a worker pool made on first need.
pub struct Ranker {
    matcher: SkimMatcherV2,
    pool: Option<rayon::ThreadPool>,
}

impl Ranker {
    pub fn new() -> (r: Ranker) {
        Ranker { matcher: default_matcher(), pool: None }
    }

    /// The match outcome of every item, in item order; spread over the pool
    /// when there are many items and a pool could be started.
    fn outcomes<T: Sync>(&mut self, items: &Vec<Item<T>>, pattern: &str) -> (r: Vec<
        Option<(i64, Vec<usize>)>,
    >)
        ensures
            r@.len() == items@.len(),
            forall|i: int|
                0 <= i < items@.len() ==> outcome_view(#[trigger] r@[i]) == skim_match(
                    items@[i].alias_view(),
                    pattern@,
                ),
    {
        if items.len() > PARALLEL_THRESHOLD {
            if self.pool.is_none() {
                match build_pool(cpu_count()) {
                    Ok(p) => {
                        self.pool = Some(p);
                    },
                    Err(_) => {},
                }
            }
            match &self.pool {
                Some(p) => {
                    return par_match_items(p, &self.matcher, items, pattern);
                },
                None => {},
            }
        }
        let mut r: Vec<Option<(i64, Vec<usize>)>> = Vec::new();
        let mut i: usize = 0;
        while i < items.len()
            invariant
                i <= items@.len(),
                r@.len() == i,
                forall|k: int|
                    0 <= k < i ==> outcome_view(#[trigger] r@[k]) == skim_match(
                        items@[k].alias_view(),
                        pattern@,
                    ),
            decreases items@.len() - i,
        {
            r.push(match_item(&self.matcher, &items[i], pattern));
            i += 1;
        }
        r
    }

    /// Ranks the items against the query: each item gets the score and the
    /// offsets of its match (none where it is left out), and the result lists
    /// the kept items by descending score, equal scores by ascending index.
    pub fn rank<T: Sync>(&mut self, items: &mut Vec<Item<T>>, query: &Vec<char>) -> (r: Vec<usize>)
        ensures
            rank_outcome(old(items)@, final(items)@, query@, r@),
    {
        let pattern = string_of(query);
        let outs = self.outcomes(items, pattern.as_str());
        let ghost before = items@;
        let r = rank_items(items, outs);
        proof {
            assert(outs@.map_values(|o| outcome_view(o)) =~= outcomes_of(aliases_of(before), query@));
        }
        r
    }
}

} // verus!
