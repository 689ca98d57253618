//! Command aliases.

use vstd::prelude::*;

use super::fuzzy::{fuzzy_i32, fuzzy_match, is_subsequence, law_score_is_handed_out};
use super::{result_views, with_finding, Action, ActionView, ResultView, SearchProvider, SearchResult};
use crate::config::{alias_views, AliasEntry, AliasView};

verus! {

/// Finds aliases by their names.
pub struct AliasProvider<'a> {
    pub aliases: &'a Vec<AliasEntry>,
}

/// What an alias is found as.
pub open spec fn alias_finding(alias: AliasView, query: Seq<char>) -> Option<ResultView> {
    match fuzzy_i32(query, alias.name) {
        Some(score) => Some(
            ResultView {
                title: alias.name,
                subtitle: alias.target,
                action: ActionView::Launch { path: alias.target, args: alias.args },
                score,
            },
        ),
        None => None,
    }
}

/// What is found among aliases, in their order.
pub open spec fn alias_findings(aliases: Seq<AliasView>, query: Seq<char>) -> Seq<ResultView>
    decreases aliases.len(),
{
    if aliases.len() == 0 {
        Seq::empty()
    } else {
        with_finding(
            alias_findings(aliases.drop_last(), query),
            alias_finding(aliases.last(), query),
        )
    }
}

impl<'a> AliasProvider<'a> {
    pub fn new(aliases: &'a Vec<AliasEntry>) -> (p: Self)
        ensures
            p.aliases@ == aliases@,
    {
        AliasProvider { aliases }
    }
}

impl SearchProvider for AliasProvider<'_> {
    open spec fn accepts(&self, query: Seq<char>) -> bool {
        true
    }

    open spec fn findings(&self, query: Seq<char>) -> Seq<ResultView> {
        if query.len() == 0 {
            Seq::empty()
        } else {
            alias_findings(alias_views(self.aliases@), query)
        }
    }

    fn search(&self, query: &str) -> (r: Vec<SearchResult>) {
        let mut found: Vec<SearchResult> = Vec::new();
        if query.is_empty() {
            assert(result_views(found@) == Seq::<ResultView>::empty());
            return found;
        }
        let ghost views = alias_views(self.aliases@);
        let mut i: usize = 0;
        assert(views.take(0) == Seq::<AliasView>::empty());
        assert(result_views(found@) == Seq::<ResultView>::empty());
        while i < self.aliases.len()
            invariant
                i <= self.aliases@.len(),
                views == alias_views(self.aliases@),
                result_views(found@) == alias_findings(views.take(i as int), query@),
            decreases self.aliases@.len() - i,
        {
            let alias = &self.aliases[i];
            assert(views.take(i + 1).drop_last() == views.take(i as int));
            assert(views.take(i + 1).last() == alias@);
            if let Some(score) = fuzzy_match(query, alias.name.as_str()) {
                let result = SearchResult {
                    title: alias.name.clone(),
                    subtitle: alias.target.clone(),
                    action: Action::Launch {
                        path: alias.target.clone(),
                        args: alias.args.clone(),
                    },
                    score,
                };
                let ghost before = found@;
                found.push(result);
                assert(result_views(found@) == result_views(before).push(result@));
            }
            i += 1;
        }
        assert(views.take(i as int) == views);
        found
    }
}

/// An alias whose name the query matches is found, and launches its target.
pub proof fn law_alias_is_found(aliases: Seq<AliasView>, i: int, query: Seq<char>)
    requires
        0 <= i < aliases.len(),
        fuzzy_i32(query, aliases[i].name) is Some,
    ensures
        alias_findings(aliases, query).contains(alias_finding(aliases[i], query)->0),
    decreases aliases.len(),
{
    let one = alias_finding(aliases[i], query)->0;
    let all = alias_findings(aliases, query);
    if i == aliases.len() - 1 {
        assert(all.last() == one);
    } else {
        let before = alias_findings(aliases.drop_last(), query);
        law_alias_is_found(aliases.drop_last(), i, query);
        let k = choose|k: int| 0 <= k < before.len() && before[k] == one;
        assert(all[k] == one);
    }
}

/// A query that is not empty finds exactly the aliases of whose names it is a
/// subsequence, each once and in their order. An alias is listed under its name, with
/// its target below, and launches its target with its own arguments.
pub proof fn law_aliases_are_found_by_name(aliases: Seq<AliasView>, query: Seq<char>)
    ensures
        alias_findings(aliases, query) == aliases.filter(
            |a: AliasView| is_subsequence(query, a.name),
        ).map_values(
            |a: AliasView|
                ResultView {
                    title: a.name,
                    subtitle: a.target,
                    action: ActionView::Launch { path: a.target, args: a.args },
                    score: fuzzy_i32(query, a.name)->0,
                },
        ),
    decreases aliases.len(),
{
    reveal(Seq::filter);
    let p = |a: AliasView| is_subsequence(query, a.name);
    let f = |a: AliasView|
        ResultView {
            title: a.name,
            subtitle: a.target,
            action: ActionView::Launch { path: a.target, args: a.args },
            score: fuzzy_i32(query, a.name)->0,
        };
    if aliases.len() == 0 {
        assert(aliases.filter(p).map_values(f) =~= Seq::<ResultView>::empty());
    } else {
        let last = aliases.last();
        law_aliases_are_found_by_name(aliases.drop_last(), query);
        law_score_is_handed_out(query, last.name);
        let before = aliases.drop_last().filter(p);
        assert(before.push(last).map_values(f) =~= before.map_values(f).push(f(last)));
    }
}

} // verus!
