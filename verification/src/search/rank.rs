//! Ranking: pinned results first, the ones used more often before the others;
//! then by score, and equals in the order in which they were found.

use vstd::prelude::*;

use super::app_index::{app_finding, law_system_apps_rank_last, AppSource, AppView};
use super::fuzzy::MAX_QUERY_CHARS;
use super::{key_of, result_views, target_key, ResultView, SearchResult};
use crate::history::{law_pinned_keys_have_entries, History, HistoryView};

verus! {

/// How many results are kept, so that the user can scroll.
pub const RESULT_RETENTION_CAP: usize = 50;

/// A result with the boost of its launch target.
pub open spec fn boosted(history: HistoryView, r: ResultView) -> ResultView {
    match history.boost(key_of(r.action)) {
        Some(boost) => ResultView { score: r.score.wrapping_add(boost), ..r },
        None => r,
    }
}

pub open spec fn all_boosted(history: HistoryView, found: Seq<ResultView>) -> Seq<ResultView> {
    found.map_values(|r: ResultView| boosted(history, r))
}

/// What decides the place of a result.
#[derive(Clone, Copy, PartialEq, Eq, Structural, Debug)]
pub struct Rank {
    /// How often a pinned result was used; `None` for one that is not pinned.
    pub uses: Option<u32>,
    /// How well the query matches, without any boost.
    pub score: i32,
}

/// A rank comes before another one: pinned before not pinned, then used more
/// often, then the higher score.
pub open spec fn is_above(a: Rank, b: Rank) -> bool {
    match (a.uses, b.uses) {
        (Some(x), Some(y)) => x > y || x == y && a.score > b.score,
        (Some(_), None) => true,
        (None, Some(_)) => false,
        (None, None) => a.score > b.score,
    }
}

/// What a result launches is pinned.
pub open spec fn is_pinned(history: HistoryView, r: ResultView) -> bool {
    history.is_pinned(key_of(r.action))
}

/// How often what a pinned result launches was used.
pub open spec fn uses(history: HistoryView, r: ResultView) -> u32 {
    history.use_count(key_of(r.action))
}

/// The rank of a result, as it was found.
pub open spec fn rank_of(history: HistoryView, r: ResultView) -> Rank {
    Rank {
        uses: if is_pinned(history, r) {
            Some(uses(history, r))
        } else {
            None
        },
        score: r.score,
    }
}

/// How many leading results come before a rank.
pub open spec fn place_of(history: HistoryView, results: Seq<ResultView>, rank: Rank) -> int
    decreases results.len(),
{
    if results.len() == 0 || !is_above(rank_of(history, results[0]), rank) {
        0
    } else {
        1 + place_of(history, results.drop_first(), rank)
    }
}

/// A result put in front of the first one that does not come before it.
pub open spec fn placed(history: HistoryView, results: Seq<ResultView>, r: ResultView) -> Seq<
    ResultView,
> {
    results.insert(place_of(history, results, rank_of(history, r)), r)
}

/// The results by rank, equals in their old order.
pub open spec fn ranked(history: HistoryView, found: Seq<ResultView>) -> Seq<ResultView>
    decreases found.len(),
{
    if found.len() == 0 {
        Seq::empty()
    } else {
        placed(history, ranked(history, found.drop_first()), found[0])
    }
}

/// At most this many of the first results.
pub open spec fn capped(results: Seq<ResultView>, cap: int) -> Seq<ResultView> {
    if results.len() > cap {
        results.take(cap)
    } else {
        results
    }
}

/// What a search shows for all the findings of its providers: the first ones by
/// rank, with their boosts.
pub open spec fn ranking(history: HistoryView, found: Seq<ResultView>) -> Seq<ResultView> {
    all_boosted(history, capped(ranked(history, found), RESULT_RETENTION_CAP as int))
}

/// No result comes before one that is placed in front of it.
pub open spec fn is_ordered(history: HistoryView, results: Seq<ResultView>) -> bool {
    forall|i: int, j: int|
        0 <= i < j < results.len() ==> !is_above(
            rank_of(history, #[trigger] results[j]),
            rank_of(history, #[trigger] results[i]),
        )
}

proof fn lemma_place_of(history: HistoryView, results: Seq<ResultView>, rank: Rank)
    ensures
        0 <= place_of(history, results, rank) <= results.len(),
        forall|i: int|
            0 <= i < place_of(history, results, rank) ==> is_above(
                rank_of(history, #[trigger] results[i]),
                rank,
            ),
        place_of(history, results, rank) < results.len() ==> !is_above(
            rank_of(history, results[place_of(history, results, rank)]),
            rank,
        ),
    decreases results.len(),
{
    if results.len() > 0 && is_above(rank_of(history, results[0]), rank) {
        lemma_place_of(history, results.drop_first(), rank);
        assert forall|i: int| 0 <= i < place_of(history, results, rank) implies is_above(
            rank_of(history, #[trigger] results[i]),
            rank,
        ) by {
            if i > 0 {
                assert(results[i] == results.drop_first()[i - 1]);
            }
        }
    }
}

proof fn lemma_place_is(history: HistoryView, results: Seq<ResultView>, rank: Rank, k: int)
    requires
        0 <= k <= results.len(),
        forall|i: int|
            0 <= i < k ==> is_above(rank_of(history, #[trigger] results[i]), rank),
        k < results.len() ==> !is_above(rank_of(history, results[k]), rank),
    ensures
        place_of(history, results, rank) == k,
{
    lemma_place_of(history, results, rank);
    let p = place_of(history, results, rank);
    if p < k {
        assert(is_above(rank_of(history, results[p]), rank));
    } else if k < p {
        assert(is_above(rank_of(history, results[k]), rank));
    }
}

/// Capping before a result is placed changes nothing that the cap keeps.
proof fn lemma_capped_placed(
    history: HistoryView,
    results: Seq<ResultView>,
    r: ResultView,
    cap: int,
)
    requires
        0 <= cap,
    ensures
        capped(placed(history, capped(results, cap), r), cap) == capped(
            placed(history, results, r),
            cap,
        ),
{
    let rank = rank_of(history, r);
    lemma_place_of(history, results, rank);
    let k = place_of(history, results, rank);
    if results.len() > cap {
        let short = results.take(cap);
        if k <= cap {
            lemma_place_is(history, short, rank, k);
        } else {
            lemma_place_is(history, short, rank, cap);
        }
        assert(capped(placed(history, short, r), cap) =~= capped(placed(history, results, r), cap));
    }
}

/// Whether a rank comes before another one.
fn comes_before(a: Rank, b: Rank) -> (r: bool)
    ensures
        r == is_above(a, b),
{
    match (a.uses, b.uses) {
        (Some(x), Some(y)) => x > y || x == y && a.score > b.score,
        (Some(_), None) => true,
        (None, Some(_)) => false,
        (None, None) => a.score > b.score,
    }
}

/// The rank of a result.
fn rank_result(history: &History, r: &SearchResult) -> (rank: Rank)
    ensures
        rank == rank_of(history@, r@),
{
    let key = target_key(&r.action);
    Rank { uses: history.use_count_of(key.as_str()), score: r.score }
}

/// Adds the boost to a result.
fn boost_result(history: &History, r: SearchResult) -> (b: SearchResult)
    ensures
        b@ == boosted(history@, r@),
{
    let key = target_key(&r.action);
    match history.boost_for(key.as_str()) {
        Some(boost) => SearchResult {
            title: r.title,
            subtitle: r.subtitle,
            score: r.score.wrapping_add(boost),
            action: r.action,
        },
        None => r,
    }
}

/// Adds the boosts to all results.
fn boost_results(history: &History, results: Vec<SearchResult>) -> (r: Vec<SearchResult>)
    ensures
        result_views(r@) == all_boosted(history@, result_views(results@)),
{
    let ghost all = result_views(results@);
    let mut rest = results;
    let mut r: Vec<SearchResult> = Vec::new();
    assert(result_views(r@) =~= all_boosted(history@, all.skip(all.len() as int)));
    while rest.len() > 0
        invariant
            rest@.len() <= results@.len(),
            rest@ == results@.take(rest@.len() as int),
            all == result_views(results@),
            result_views(r@) == all_boosted(history@, all.skip(rest@.len() as int)),
        decreases rest@.len(),
    {
        let ghost n = rest@.len() as int;
        match rest.pop() {
            None => {},
            Some(last) => {
                assert(last@ == all[n - 1]);
                assert(rest@ == results@.take(n - 1));
                let one = boost_result(history, last);
                let ghost before = r@;
                r.insert(0, one);
                assert(result_views(r@) =~= result_views(before).insert(0, one@));
                assert(result_views(r@) =~= all_boosted(history@, all.skip(n - 1)));
            },
        }
    }
    assert(all.skip(0) =~= all);
    r
}

/// Ranks, caps and boosts what the providers found.
pub fn rank_results(history: &History, found: Vec<SearchResult>) -> (r: Vec<SearchResult>)
    ensures
        result_views(r@) == ranking(history@, result_views(found@)),
{
    let ghost all = result_views(found@);
    let ghost h = history@;
    let mut rest = found;
    let mut r: Vec<SearchResult> = Vec::new();
    let mut ranks: Vec<Rank> = Vec::new();
    let ghost cap = RESULT_RETENTION_CAP as int;
    assert(all.skip(all.len() as int) == Seq::<ResultView>::empty());
    assert(result_views(r@) == Seq::<ResultView>::empty());
    assert(rest@ == found@.take(rest@.len() as int));
    while rest.len() > 0
        invariant
            h == history@,
            rest@.len() <= found@.len(),
            rest@ == found@.take(rest@.len() as int),
            all == result_views(found@),
            cap == RESULT_RETENTION_CAP,
            r@.len() <= RESULT_RETENTION_CAP,
            ranks@.len() == r@.len(),
            forall|i: int|
                0 <= i < r@.len() ==> #[trigger] ranks@[i] == rank_of(h, result_views(r@)[i]),
            result_views(r@) == capped(ranked(h, all.skip(rest@.len() as int)), cap),
        decreases rest@.len(),
    {
        let ghost n = rest@.len() as int;
        match rest.pop() {
            None => {},
            Some(one) => {
                let ghost tail = all.skip(n);
                let ghost full = all.skip(n - 1);
                assert(one@ == all[n - 1]);
                assert(rest@ == found@.take(n - 1));
                assert(full.drop_first() == tail);
                assert(full[0] == one@);
                let rank = rank_result(history, &one);
                let mut k: usize = 0;
                while k < r.len() && comes_before(ranks[k], rank)
                    invariant
                        k <= r@.len() == ranks@.len(),
                        forall|i: int|
                            0 <= i < r@.len() ==> #[trigger] ranks@[i] == rank_of(
                                h,
                                result_views(r@)[i],
                            ),
                        forall|i: int| 0 <= i < k ==> is_above(#[trigger] ranks@[i], rank),
                    decreases r@.len() - k,
                {
                    k += 1;
                }
                let ghost before = result_views(r@);
                let ghost before_ranks = ranks@;
                proof {
                    assert forall|i: int| 0 <= i < k implies is_above(
                        rank_of(h, #[trigger] before[i]),
                        rank,
                    ) by {
                        assert(is_above(ranks@[i], rank));
                    }
                    if k < r@.len() {
                        assert(ranks@[k as int] == rank_of(h, before[k as int]));
                    }
                    lemma_place_is(h, before, rank, k as int);
                    lemma_capped_placed(h, ranked(h, tail), one@, cap);
                }
                r.insert(k, one);
                ranks.insert(k, rank);
                let ghost longer = result_views(r@);
                assert(longer == placed(h, before, one@));
                assert forall|i: int| 0 <= i < longer.len() implies #[trigger] ranks@[i] == rank_of(
                    h,
                    longer[i],
                ) by {
                    if i < k {
                        assert(before_ranks[i] == rank_of(h, before[i]));
                    } else if i > k {
                        assert(before_ranks[i - 1] == rank_of(h, before[i - 1]));
                    }
                }
                let ghost longer_ranks = ranks@;
                r.truncate(RESULT_RETENTION_CAP);
                ranks.truncate(RESULT_RETENTION_CAP);
                assert(result_views(r@) == capped(longer, cap));
                assert forall|i: int| 0 <= i < r@.len() implies #[trigger] ranks@[i] == rank_of(
                    h,
                    result_views(r@)[i],
                ) by {
                    assert(longer_ranks[i] == rank_of(h, longer[i]));
                }
            },
        }
    }
    assert(all.skip(0) == all);
    boost_results(history, r)
}

proof fn lemma_placed_ordered(history: HistoryView, results: Seq<ResultView>, r: ResultView)
    requires
        is_ordered(history, results),
    ensures
        is_ordered(history, placed(history, results, r)),
        placed(history, results, r).to_multiset() == results.to_multiset().insert(r),
{
    let rank = rank_of(history, r);
    lemma_place_of(history, results, rank);
    let k = place_of(history, results, rank);
    let after = placed(history, results, r);
    assert forall|i: int, j: int| 0 <= i < j < after.len() implies !is_above(
        rank_of(history, #[trigger] after[j]),
        rank_of(history, #[trigger] after[i]),
    ) by {
        if i < k && j == k {
            assert(is_above(rank_of(history, results[i]), rank));
        } else if i == k {
            assert(!is_above(rank_of(history, results[k]), rank));
            if j > k + 1 {
                assert(!is_above(rank_of(history, results[j - 1]), rank_of(history, results[k])));
            }
        } else {
            let a = if i < k {
                i
            } else {
                i - 1
            };
            let b = if j < k {
                j
            } else {
                j - 1
            };
            assert(after[i] == results[a] && after[j] == results[b]);
        }
    }
    assert(after.remove(k) == results);
    after.to_multiset_ensures();
    assert(after[k] == r);
    assert(after.contains(r));
    assert(results.to_multiset().insert(r) =~= after.to_multiset());
}

proof fn lemma_ranked(history: HistoryView, found: Seq<ResultView>)
    ensures
        is_ordered(history, ranked(history, found)),
        ranked(history, found).to_multiset() == found.to_multiset(),
        ranked(history, found).len() == found.len(),
    decreases found.len(),
{
    if found.len() == 0 {
        assert(found == Seq::<ResultView>::empty());
    } else {
        let rest = found.drop_first();
        lemma_ranked(history, rest);
        lemma_placed_ordered(history, ranked(history, rest), found[0]);
        lemma_place_of(history, ranked(history, rest), rank_of(history, found[0]));
        assert(found.remove(0) == rest);
        found.to_multiset_ensures();
        assert(found.contains(found[0]));
        assert(rest.to_multiset().insert(found[0]) =~= found.to_multiset());
    }
}

/// What is shown comes by rank: each result is the boosted one of its place in the
/// ranked order, in which none comes before one that is placed in front of it.
pub proof fn law_ranking_is_ordered(history: HistoryView, found: Seq<ResultView>)
    ensures
        is_ordered(history, ranked(history, found)),
        forall|i: int|
            0 <= i < ranking(history, found).len() ==> #[trigger] ranking(history, found)[i]
                == boosted(history, ranked(history, found)[i]),
{
    lemma_ranked(history, found);
}

/// Ranking only reorders: nothing is added, lost or changed before the cap, and
/// the cap drops the last ones.
pub proof fn law_ranking_permutes(history: HistoryView, found: Seq<ResultView>)
    ensures
        ranked(history, found).to_multiset() == found.to_multiset(),
        ranking(history, found).len() == if found.len() > RESULT_RETENTION_CAP {
            RESULT_RETENTION_CAP as nat
        } else {
            found.len()
        },
{
    lemma_ranked(history, found);
}

pub open spec fn ranks_as(history: HistoryView, rank: Rank) -> spec_fn(ResultView) -> bool {
    |r: ResultView| rank_of(history, r) == rank
}

proof fn lemma_filter_none(s: Seq<ResultView>, p: spec_fn(ResultView) -> bool)
    requires
        forall|i: int| 0 <= i < s.len() ==> !p(#[trigger] s[i]),
    ensures
        s.filter(p) == Seq::<ResultView>::empty(),
    decreases s.len(),
{
    reveal(Seq::filter);
    if s.len() > 0 {
        assert forall|i: int| 0 <= i < s.drop_last().len() implies !p(
            #[trigger] s.drop_last()[i],
        ) by {
            assert(s.drop_last()[i] == s[i]);
        }
        lemma_filter_none(s.drop_last(), p);
    }
}

proof fn lemma_filter_one(r: ResultView, p: spec_fn(ResultView) -> bool)
    ensures
        seq![r].filter(p) == if p(r) {
            seq![r]
        } else {
            Seq::<ResultView>::empty()
        },
{
    reveal_with_fuel(Seq::filter, 2);
    assert(seq![r].drop_last() == Seq::<ResultView>::empty());
    assert(Seq::<ResultView>::empty().push(r) == seq![r]);
}

proof fn lemma_placed_filter(
    history: HistoryView,
    results: Seq<ResultView>,
    r: ResultView,
    rank: Rank,
)
    ensures
        placed(history, results, r).filter(ranks_as(history, rank)) == (seq![r] + results).filter(
            ranks_as(history, rank),
        ),
{
    let p = ranks_as(history, rank);
    let own = rank_of(history, r);
    lemma_place_of(history, results, own);
    let k = place_of(history, results, own);
    let (a, b) = (results.take(k), results.skip(k));
    assert(placed(history, results, r) == a + seq![r] + b);
    assert(results == a + b);
    Seq::filter_distributes_over_add(a + seq![r], b, p);
    Seq::filter_distributes_over_add(a, seq![r], p);
    Seq::filter_distributes_over_add(seq![r], results, p);
    Seq::filter_distributes_over_add(a, b, p);
    lemma_filter_one(r, p);
    if own == rank {
        assert forall|i: int| 0 <= i < a.len() implies !p(#[trigger] a[i]) by {
            assert(a[i] == results[i]);
        }
        lemma_filter_none(a, p);
    }
    assert(a.filter(p) + seq![r].filter(p) + b.filter(p) == seq![r].filter(p) + (a.filter(p)
        + b.filter(p)));
}

/// Results with equal ranks keep the order in which they were found.
pub proof fn law_ranking_is_stable(history: HistoryView, found: Seq<ResultView>, rank: Rank)
    ensures
        ranked(history, found).filter(ranks_as(history, rank)) == found.filter(
            ranks_as(history, rank),
        ),
    decreases found.len(),
{
    if found.len() > 0 {
        let rest = found.drop_first();
        let p = ranks_as(history, rank);
        law_ranking_is_stable(history, rest, rank);
        lemma_placed_filter(history, ranked(history, rest), found[0], rank);
        Seq::filter_distributes_over_add(seq![found[0]], ranked(history, rest), p);
        Seq::filter_distributes_over_add(seq![found[0]], rest, p);
        assert(seq![found[0]] + rest == found);
    }
}

/// Every result that is shown was found: what the query no longer matches is
/// never brought back.
pub proof fn law_nothing_is_forced(history: HistoryView, found: Seq<ResultView>, i: int)
    requires
        0 <= i < ranking(history, found).len(),
    ensures
        exists|j: int|
            0 <= j < found.len() && ranking(history, found)[i] == boosted(
                history,
                #[trigger] found[j],
            ),
{
    lemma_ranked(history, found);
    let order = ranked(history, found);
    let r = order[i];
    order.to_multiset_ensures();
    found.to_multiset_ensures();
    assert(order.contains(r));
    assert(found.to_multiset().count(r) > 0);
    assert(found.contains(r));
    let j = choose|j: int| 0 <= j < found.len() && found[j] == r;
    assert(ranking(history, found)[i] == boosted(history, found[j]));
}

/// Pinned results come before all others.
pub proof fn law_pinned_first(history: HistoryView, found: Seq<ResultView>, i: int, j: int)
    requires
        0 <= i < j < ranking(history, found).len(),
        is_pinned(history, ranking(history, found)[j]),
    ensures
        is_pinned(history, ranking(history, found)[i]),
{
    law_ranking_is_ordered(history, found);
    let order = ranked(history, found);
    assert(ranking(history, found)[i] == boosted(history, order[i]));
    assert(ranking(history, found)[j] == boosted(history, order[j]));
    assert(!is_above(rank_of(history, order[j]), rank_of(history, order[i])));
}

/// Among pinned results, the use count decides: the one that was used more often
/// comes first.
pub proof fn law_pinned_by_use(history: HistoryView, found: Seq<ResultView>, i: int, j: int)
    requires
        0 <= i < j < ranking(history, found).len(),
        is_pinned(history, ranking(history, found)[i]),
        is_pinned(history, ranking(history, found)[j]),
    ensures
        uses(history, ranking(history, found)[i]) >= uses(history, ranking(history, found)[j]),
{
    law_ranking_is_ordered(history, found);
    let order = ranked(history, found);
    assert(ranking(history, found)[i] == boosted(history, order[i]));
    assert(ranking(history, found)[j] == boosted(history, order[j]));
    assert(!is_above(rank_of(history, order[j]), rank_of(history, order[i])));
}

/// Results that are not pinned come by descending score.
pub proof fn law_others_by_score(history: HistoryView, found: Seq<ResultView>, i: int, j: int)
    requires
        0 <= i < j < ranking(history, found).len(),
        !is_pinned(history, ranking(history, found)[i]),
    ensures
        !is_pinned(history, ranking(history, found)[j]),
        ranking(history, found)[i].score >= ranking(history, found)[j].score,
{
    law_ranking_is_ordered(history, found);
    let order = ranked(history, found);
    assert(ranking(history, found)[i] == boosted(history, order[i]));
    assert(ranking(history, found)[j] == boosted(history, order[j]));
    assert(!is_above(rank_of(history, order[j]), rank_of(history, order[i])));
}

/// An app of the system folder or the search path is listed behind every app from
/// another source, where neither is pinned.
pub proof fn law_system_apps_are_listed_last(
    history: HistoryView,
    found: Seq<ResultView>,
    query: Seq<char>,
    system: AppView,
    other: AppView,
    i: int,
    j: int,
)
    requires
        query.len() <= MAX_QUERY_CHARS,
        system.source == AppSource::SystemOrPath,
        other.source != AppSource::SystemOrPath,
        0 <= i < ranking(history, found).len(),
        0 <= j < ranking(history, found).len(),
        app_finding(system, query) == Some(ranking(history, found)[i]),
        app_finding(other, query) == Some(ranking(history, found)[j]),
        !is_pinned(history, ranking(history, found)[i]),
        !is_pinned(history, ranking(history, found)[j]),
    ensures
        j < i,
{
    law_system_apps_rank_last(system, other, query);
    if i < j {
        law_others_by_score(history, found, i, j);
    }
}

/// Where anything pinned is found, the first result is pinned.
pub proof fn law_pinned_leads(history: HistoryView, found: Seq<ResultView>, p: int)
    requires
        0 <= p < found.len(),
        is_pinned(history, found[p]),
    ensures
        ranking(history, found).len() > 0,
        is_pinned(history, ranking(history, found)[0]),
{
    let order = ranked(history, found);
    lemma_ranked(history, found);
    found.to_multiset_ensures();
    order.to_multiset_ensures();
    assert(found.contains(found[p]));
    assert(order.to_multiset().count(found[p]) > 0);
    assert(order.contains(found[p]));
    let m = choose|m: int| 0 <= m < order.len() && order[m] == found[p];
    if m > 0 {
        assert(!is_above(rank_of(history, order[m]), rank_of(history, order[0])));
    }
    law_ranking_is_ordered(history, found);
    assert(ranking(history, found)[0] == boosted(history, order[0]));
}

/// Among pinned results that were used equally often, the better match comes first.
/// Ranking keeps what the results say and do, and raises the score of a pinned one
/// alone.
pub proof fn law_equally_used_by_match(history: HistoryView, found: Seq<ResultView>, i: int, j: int)
    requires
        0 <= i < j < ranking(history, found).len(),
        is_pinned(history, ranking(history, found)[i]),
        is_pinned(history, ranking(history, found)[j]),
        uses(history, ranking(history, found)[i]) == uses(history, ranking(history, found)[j]),
    ensures
        ranked(history, found)[i].score >= ranked(history, found)[j].score,
        ranking(history, found)[i].title == ranked(history, found)[i].title,
        ranking(history, found)[i].action == ranked(history, found)[i].action,
{
    law_ranking_is_ordered(history, found);
    let order = ranked(history, found);
    assert(ranking(history, found)[i] == boosted(history, order[i]));
    assert(ranking(history, found)[j] == boosted(history, order[j]));
    assert(!is_above(rank_of(history, order[j]), rank_of(history, order[i])));
}

/// A pinned result is raised by a million and its use count, as far as 32 bits hold
/// them; another one keeps its score. Nothing else of a result changes.
pub proof fn law_boost_raises_pinned_scores(history: HistoryView, r: ResultView)
    ensures
        boosted(history, r).title == r.title,
        boosted(history, r).subtitle == r.subtitle,
        boosted(history, r).action == r.action,
        !history.is_pinned(key_of(r.action)) ==> boosted(history, r).score == r.score,
        history.is_pinned(key_of(r.action)) && r.score + 1_000_000 + history.use_count(
            key_of(r.action),
        ) <= i32::MAX ==> boosted(history, r).score
            == r.score + 1_000_000 + history.use_count(key_of(r.action)),
{
}

/// At most fifty results are kept. Each of the findings is among them, with its title,
/// its second line and its action, unless fifty are kept of which none comes behind it.
pub proof fn law_findings_are_kept(history: HistoryView, found: Seq<ResultView>, p: int)
    requires
        0 <= p < found.len(),
    ensures
        ranking(history, found).len() == if found.len() <= 50 {
            found.len()
        } else {
            50
        },
        (exists|k: int|
            0 <= k < ranking(history, found).len() && #[trigger] ranking(history, found)[k]
                == boosted(history, found[p])) || (ranking(history, found).len() == 50 && forall|
            k: int,
        |
            0 <= k < 50 ==> !is_above(
                rank_of(history, found[p]),
                rank_of(history, #[trigger] ranked(history, found)[k]),
            )),
{
    let order = ranked(history, found);
    lemma_ranked(history, found);
    found.to_multiset_ensures();
    order.to_multiset_ensures();
    assert(found.contains(found[p]));
    assert(order.to_multiset().count(found[p]) > 0);
    assert(order.contains(found[p]));
    let m = choose|m: int| 0 <= m < order.len() && order[m] == found[p];
    law_ranking_is_ordered(history, found);
    if m < ranking(history, found).len() {
        assert(ranking(history, found)[m] == boosted(history, found[p]));
    } else {
        assert forall|k: int| 0 <= k < 50 implies !is_above(
            rank_of(history, found[p]),
            rank_of(history, #[trigger] order[k]),
        ) by {
            assert(!is_above(rank_of(history, order[m]), rank_of(history, order[k])));
        }
    }
}

/// Whether a result is pinned, and how often it was used, is what the history says of what
/// the result launches.
pub proof fn law_history_decides_what_is_pinned(history: HistoryView, r: ResultView)
    ensures
        is_pinned(history, r) <==> exists|i: int|
            0 <= i < history.entries.len() && (#[trigger] history.entries[i]).key == key_of(
                r.action,
            ),
        is_pinned(history, r) ==> uses(history, r) == history.use_count(key_of(r.action)),
        rank_of(history, r).score == r.score,
        rank_of(history, r).uses == if is_pinned(history, r) {
            Some(history.use_count(key_of(r.action)))
        } else {
            None
        },
{
    law_pinned_keys_have_entries(history, key_of(r.action));
}

} // verus!
