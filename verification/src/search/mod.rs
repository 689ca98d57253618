//! Search: what a query finds, and how the findings are ranked.

pub mod alias;
pub mod app_index;
pub mod everything;
pub mod fuzzy;
pub mod plugin;
pub mod rank;
pub mod uwp;
pub mod windows_settings;

use vstd::prelude::*;

verus! {

/// What running a result does.
#[derive(Debug)]
pub enum Action {
    /// `args` is empty for everything but a command alias.
    Launch { path: String, args: String },
    LaunchUwp { aumid: String },
    OpenUri(String),
    /// Copies text to the clipboard instead of launching anything.
    CopyToClipboard(String),
}

pub enum ActionView {
    Launch { path: Seq<char>, args: Seq<char> },
    LaunchUwp { aumid: Seq<char> },
    OpenUri(Seq<char>),
    CopyToClipboard(Seq<char>),
}

impl View for Action {
    type V = ActionView;

    open spec fn view(&self) -> ActionView {
        match self {
            Action::Launch { path, args } => ActionView::Launch { path: path@, args: args@ },
            Action::LaunchUwp { aumid } => ActionView::LaunchUwp { aumid: aumid@ },
            Action::OpenUri(uri) => ActionView::OpenUri(uri@),
            Action::CopyToClipboard(text) => ActionView::CopyToClipboard(text@),
        }
    }
}

/// One finding.
#[derive(Debug)]
pub struct SearchResult {
    pub title: String,
    pub subtitle: String,
    pub action: Action,
    /// Higher scores rank first, across providers.
    pub score: i32,
}

pub struct ResultView {
    pub title: Seq<char>,
    pub subtitle: Seq<char>,
    pub action: ActionView,
    pub score: i32,
}

impl View for SearchResult {
    type V = ResultView;

    open spec fn view(&self) -> ResultView {
        ResultView {
            title: self.title@,
            subtitle: self.subtitle@,
            action: self.action@,
            score: self.score,
        }
    }
}

pub open spec fn result_views(results: Seq<SearchResult>) -> Seq<ResultView> {
    results.map_values(|r: SearchResult| r@)
}

/// A source of findings.
pub trait SearchProvider {
    /// What the provider finds for a query, in its own order.
    spec fn findings(&self, query: Seq<char>) -> Seq<ResultView>;

    /// The provider can take the query.
    spec fn accepts(&self, query: Seq<char>) -> bool;

    fn search(&self, query: &str) -> (r: Vec<SearchResult>)
        requires
            self.accepts(query@),
        ensures
            result_views(r@) == self.findings(query@),
    ;
}

/// What identifies a launch target: two results with the same key count as the
/// same thing, whatever an alias's arguments are.
pub open spec fn key_of(action: ActionView) -> Seq<char> {
    match action {
        ActionView::Launch { path, .. } => path,
        ActionView::OpenUri(uri) => uri,
        ActionView::LaunchUwp { aumid } => aumid,
        ActionView::CopyToClipboard(text) => text,
    }
}

/// The key of a launch target.
pub fn target_key(action: &Action) -> (key: String)
    ensures
        key@ == key_of(action@),
{
    match action {
        Action::Launch { path, .. } => path.clone(),
        Action::OpenUri(uri) => uri.clone(),
        Action::LaunchUwp { aumid } => aumid.clone(),
        Action::CopyToClipboard(text) => text.clone(),
    }
}

/// Findings that end with one more, if there is one.
pub open spec fn with_finding(found: Seq<ResultView>, one: Option<ResultView>) -> Seq<ResultView> {
    match one {
        Some(r) => found.push(r),
        None => found,
    }
}

/// A launch target's key leaves its arguments out.
pub proof fn law_key_ignores_args(path: Seq<char>, a: Seq<char>, b: Seq<char>)
    ensures
        key_of(ActionView::Launch { path, args: a }) == key_of(ActionView::Launch { path, args: b }),
{
}

/// The key of a launch target is what it launches: the path, the address, the app's
/// identifier, or the text that is copied.
pub proof fn law_key_names_the_target(text: Seq<char>, args: Seq<char>)
    ensures
        key_of(ActionView::Launch { path: text, args }) == text,
        key_of(ActionView::OpenUri(text)) == text,
        key_of(ActionView::LaunchUwp { aumid: text }) == text,
        key_of(ActionView::CopyToClipboard(text)) == text,
{
}

/// What a result says and does is what its fields hold.
pub proof fn law_result_is_its_fields(r: SearchResult)
    ensures
        r@.title == r.title@,
        r@.subtitle == r.subtitle@,
        r@.score == r.score,
        r.action matches Action::Launch { path, args } ==> r@.action == (ActionView::Launch {
            path: path@,
            args: args@,
        }),
        r.action matches Action::LaunchUwp { aumid } ==> r@.action == (ActionView::LaunchUwp {
            aumid: aumid@,
        }),
        r.action matches Action::OpenUri(uri) ==> r@.action == ActionView::OpenUri(uri@),
        r.action matches Action::CopyToClipboard(text) ==> r@.action == ActionView::CopyToClipboard(
            text@,
        ),
{
}

} // verus!
