//! Results of plugins.

use vstd::prelude::*;

use super::app_index::{extension_of, file_extension};
use super::fuzzy::MAX_QUERY_CHARS;
use super::{result_views, Action, ActionView, ResultView, SearchProvider, SearchResult};
use crate::plugin_api::{RAction, RSearchResult};
use crate::text::{chars_of, same_text};

verus! {

/// The most that fuzzy matching awards for one character. Plugin scores are
/// held to it, so that no plugin can camp on top of the list.
pub const FUZZY_MAX_SCORE_PER_CHAR: i32 = 14;

/// The largest score that a plugin can claim for a query.
pub open spec fn max_plugin_score(query: Seq<char>) -> int {
    FUZZY_MAX_SCORE_PER_CHAR * (if query.len() > 0 {
        query.len() as int
    } else {
        1
    })
}

/// A plugin's score, held to the range of fuzzy matching.
pub open spec fn clamped(query: Seq<char>, score: i32) -> i32 {
    let max = max_plugin_score(query);
    if score > max {
        max as i32
    } else if score < -max {
        (-max) as i32
    } else {
        score
    }
}

/// Holds a plugin's score to the range of fuzzy matching.
pub fn clamp_plugin_score(query: &str, score: i32) -> (r: i32)
    requires
        query@.len() <= MAX_QUERY_CHARS,
    ensures
        r == clamped(query@, score),
        -max_plugin_score(query@) <= r <= max_plugin_score(query@),
{
    let count: usize = chars_of(query).len();
    let n: i32 = if count > 0 {
        count as i32
    } else {
        1
    };
    let max: i32 = FUZZY_MAX_SCORE_PER_CHAR * n;
    if score > max {
        max
    } else if score < -max {
        -max
    } else {
        score
    }
}

pub open spec fn plugin_action(action: RAction) -> ActionView {
    match action {
        RAction::Launch { path, args } => ActionView::Launch { path: path@, args: args@ },
        RAction::LaunchUwp { aumid } => ActionView::LaunchUwp { aumid: aumid@ },
        RAction::OpenUri(uri) => ActionView::OpenUri(uri@),
        RAction::CopyToClipboard(text) => ActionView::CopyToClipboard(text@),
    }
}

/// What a plugin's result is found as.
pub open spec fn plugin_finding(query: Seq<char>, result: RSearchResult) -> ResultView {
    ResultView {
        title: result.title@,
        subtitle: result.subtitle@,
        action: plugin_action(result.action),
        score: clamped(query, result.score),
    }
}

pub open spec fn plugin_findings(query: Seq<char>, results: Seq<RSearchResult>) -> Seq<ResultView> {
    results.map_values(|r: RSearchResult| plugin_finding(query, r))
}

/// Whether a file of the plugin folder is a plugin: its extension is `dll`, in
/// small letters.
pub fn is_plugin_file(name: &str) -> (r: bool)
    ensures
        r == (extension_of(name@) == Some("dll"@)),
{
    match file_extension(name) {
        Some(ext) => same_text(ext.as_str(), "dll"),
        None => false,
    }
}

/// The results that the plugins returned for the query, in the plugins' order.
#[derive(Debug)]
pub struct PluginProvider {
    pub returned: Vec<RSearchResult>,
}

impl PluginProvider {
    /// Turns a plugin's result into one of the launcher's.
    pub fn convert(query: &str, result: &RSearchResult) -> (r: SearchResult)
        requires
            query@.len() <= MAX_QUERY_CHARS,
        ensures
            r@ == plugin_finding(query@, *result),
    {
        SearchResult {
            title: result.title.clone(),
            subtitle: result.subtitle.clone(),
            action: match &result.action {
                RAction::Launch { path, args } => Action::Launch {
                    path: path.clone(),
                    args: args.clone(),
                },
                RAction::LaunchUwp { aumid } => Action::LaunchUwp { aumid: aumid.clone() },
                RAction::OpenUri(uri) => Action::OpenUri(uri.clone()),
                RAction::CopyToClipboard(text) => Action::CopyToClipboard(text.clone()),
            },
            score: clamp_plugin_score(query, result.score),
        }
    }
}

impl SearchProvider for PluginProvider {
    open spec fn accepts(&self, query: Seq<char>) -> bool {
        self.returned@.len() > 0 ==> query.len() <= MAX_QUERY_CHARS
    }

    open spec fn findings(&self, query: Seq<char>) -> Seq<ResultView> {
        plugin_findings(query, self.returned@)
    }

    fn search(&self, query: &str) -> (r: Vec<SearchResult>) {
        let mut found: Vec<SearchResult> = Vec::new();
        let ghost all = self.returned@;
        let mut i: usize = 0;
        assert(result_views(found@) =~= plugin_findings(query@, all.take(0)));
        while i < self.returned.len()
            invariant
                i <= self.returned@.len(),
                self.accepts(query@),
                all == self.returned@,
                result_views(found@) == plugin_findings(query@, all.take(i as int)),
            decreases self.returned@.len() - i,
        {
            let result = Self::convert(query, &self.returned[i]);
            let ghost before = found@;
            found.push(result);
            assert(result_views(found@) =~= result_views(before).push(result@));
            assert(plugin_findings(query@, all.take(i + 1)) =~= plugin_findings(
                query@,
                all.take(i as int),
            ).push(result@));
            i += 1;
        }
        assert(all.take(i as int) =~= all);
        found
    }
}

/// No claim of a plugin scores more than fuzzy matching could award, so that
/// none passes for a pinned result.
pub proof fn law_plugin_scores_are_held(query: Seq<char>, result: RSearchResult)
    requires
        query.len() <= MAX_QUERY_CHARS,
    ensures
        -max_plugin_score(query) <= plugin_finding(query, result).score <= max_plugin_score(query),
{
}

/// What a plugin returned is listed as it is: each result once and in the plugins'
/// order, with its title, its second line and its action. A score within fourteen for
/// each character of the query stays, and any other is held to the nearer end.
pub proof fn law_plugin_results_are_listed(query: Seq<char>, results: Seq<RSearchResult>, i: int)
    requires
        query.len() <= MAX_QUERY_CHARS,
        0 <= i < results.len(),
    ensures
        plugin_findings(query, results).len() == results.len(),
        ({
            let r = plugin_findings(query, results)[i];
            let given = results[i];
            let most = if query.len() == 0 {
                14int
            } else {
                14 * (query.len() as int)
            };
            &&& r.title == given.title@
            &&& r.subtitle == given.subtitle@
            &&& given.action matches RAction::Launch { path, args } ==> r.action
                == (ActionView::Launch { path: path@, args: args@ })
            &&& given.action matches RAction::LaunchUwp { aumid } ==> r.action
                == (ActionView::LaunchUwp { aumid: aumid@ })
            &&& given.action matches RAction::OpenUri(uri) ==> r.action == ActionView::OpenUri(uri@)
            &&& given.action matches RAction::CopyToClipboard(text) ==> r.action
                == ActionView::CopyToClipboard(text@)
            &&& -most <= given.score <= most ==> r.score == given.score
            &&& given.score > most ==> r.score == most
            &&& given.score < -most ==> r.score == -most
        }),
{
}

} // verus!
