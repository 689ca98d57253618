//! File search through a running Everything.

use vstd::prelude::*;

use super::fuzzy::{fuzzy_i32, fuzzy_match, is_subsequence, law_score_is_handed_out};
use super::{result_views, with_finding, Action, ActionView, ResultView, SearchProvider, SearchResult};
use crate::wide::{to_wide, utf16};

verus! {

/// How many results are asked for, so that a short query stays cheap.
pub const QUERY_MAX_RESULTS: u32 = 200;

/// The size of the buffer that receives a path, in UTF-16 units.
pub const PATH_BUFFER_LEN: usize = 4096;

/// What to do next in a query.
#[derive(Debug)]
pub enum EverythingStep {
    /// Ask for the version, and then for the last error: a cheap way to see
    /// whether Everything answers at all.
    Probe,
    /// Send the query.
    Query { search: Vec<u16>, match_path: bool, max: u32 },
    /// Read the paths of this many results.
    Fetch(u32),
    /// There is nothing to ask for.
    Done,
}

/// The first step: nothing is asked for an empty query or without the library.
pub fn start_query(query: &str, loaded: bool) -> (step: EverythingStep)
    ensures
        step == if query@.len() > 0 && loaded {
            EverythingStep::Probe
        } else {
            EverythingStep::Done
        },
{
    if query.is_empty() || !loaded {
        EverythingStep::Done
    } else {
        EverythingStep::Probe
    }
}

/// After the probe: the query goes out only where Everything answered.
pub fn after_probe(query: &str, last_error: u32) -> (step: EverythingStep)
    ensures
        match step {
            EverythingStep::Query { search, match_path, max } => last_error == 0 && search@ == utf16(
                query@,
            ).push(0) && !match_path && max == QUERY_MAX_RESULTS,
            EverythingStep::Done => last_error != 0,
            _ => false,
        },
{
    if is_running(last_error) {
        EverythingStep::Query {
            search: to_wide(query),
            match_path: false,
            max: QUERY_MAX_RESULTS,
        }
    } else {
        EverythingStep::Done
    }
}

/// After the query: results are read only where it succeeded.
pub fn after_query(succeeded: bool, num_results: u32) -> (step: EverythingStep)
    ensures
        step == if succeeded {
            EverythingStep::Fetch(num_results)
        } else {
            EverythingStep::Done
        },
{
    if succeeded {
        EverythingStep::Fetch(num_results)
    } else {
        EverythingStep::Done
    }
}

/// Whether a probe that left this error reached Everything.
pub fn is_running(last_error: u32) -> (r: bool)
    ensures
        r == (last_error == 0),
{
    last_error == 0
}

/// Whether the integration can be used: the library is there, and a probe
/// reached Everything. `probe_error` is `None` where there was no library to
/// probe with.
pub fn is_available(probe_error: Option<u32>) -> (r: bool)
    ensures
        r == (probe_error == Some(0u32)),
{
    match probe_error {
        Some(error) => is_running(error),
        None => false,
    }
}

/// What separates the components of a path, on any system.
pub open spec fn is_separator(c: char) -> bool {
    c == '/' || c == '\\'
}

/// Nothing follows the last component of a path but separators and dots.
pub open spec fn is_path_end(s: Seq<char>) -> bool {
    &&& s.len() > 0 ==> is_separator(s[0])
    &&& forall|i: int| 0 <= i < s.len() ==> is_separator(#[trigger] s[i]) || s[i] == '.'
}

/// A component starts behind a separator or a drive, or starts the path.
pub open spec fn is_path_start(s: Seq<char>) -> bool {
    s.len() > 0 ==> is_separator(s.last()) || s.last() == ':'
}

/// A name stands in a path as its last component, from index `i` on.
pub open spec fn is_component_at(path: Seq<char>, name: Seq<char>, i: int) -> bool {
    &&& 0 <= i && i + name.len() <= path.len()
    &&& path.subrange(i, i + name.len()) == name
    &&& is_path_start(path.take(i))
    &&& is_path_end(path.skip(i + name.len()))
}

/// A name is the last component of a path.
pub open spec fn is_last_component(path: Seq<char>, name: Seq<char>) -> bool {
    &&& name.len() > 0
    &&& name != "."@
    &&& name != ".."@
    &&& exists|i: int| #[trigger] is_component_at(path, name, i)
    &&& !path.contains('\\') ==> !name.contains('/')
}

/// A path ends in an ordinary name, on any system: it ends neither in a separator nor
/// in a dot nor in a drive, and does not start with two separators, behind which the
/// name of a server or of a device may stand.
pub open spec fn ends_in_a_name(path: Seq<char>) -> bool {
    &&& path.len() > 0
    &&& !is_separator(path.last()) && path.last() != '.' && path.last() != ':'
    &&& !(path.len() >= 2 && is_separator(path[0]) && is_separator(path[1]))
}

/// What stands behind the last slash of a path.
pub open spec fn behind_last_slash(path: Seq<char>) -> Seq<char>
    decreases path.len(),
{
    if path.len() == 0 || path.last() == '/' {
        Seq::empty()
    } else {
        behind_last_slash(path.drop_last()).push(path.last())
    }
}

/// Calls `Path::file_name`. Its result is an `OsStr`, which `OsStr::to_str` turns into
/// text: always, since the path is text. Trusted: a path that ends in an ordinary name
/// has a file name, and a file name is the last component of the path, behind which
/// only separators and `.` components are left out. The systems differ in whether a
/// backslash separates components and a drive starts a path: so which component of a
/// path with `\` or `:` is the last one is left unsaid, and whether there is a name in a
/// path that ends or starts otherwise.
#[verifier::external_body]
fn path_file_name(path: &str) -> (r: Option<String>)
    ensures
        ends_in_a_name(path@) ==> r is Some,
        r matches Some(name) ==> is_last_component(path@, name@),
{
    let name = std::path::Path::new(path).file_name();
    name.and_then(|n| n.to_str()).map(|n| n.to_owned())
}

/// A file that Everything found.
#[derive(Debug)]
pub struct EverythingHit {
    pub full_path: String,
    /// The last component of the path, where there is one.
    pub file_name: Option<String>,
}

impl EverythingHit {
    /// The file at a path.
    pub fn new(full_path: String) -> (hit: Self)
        ensures
            hit@.full_path == full_path@,
            ends_in_a_name(full_path@) ==> hit@.file_name is Some,
            hit@.wf(),
    {
        let file_name = path_file_name(full_path.as_str());
        EverythingHit { full_path, file_name }
    }
}

pub struct HitView {
    pub full_path: Seq<char>,
    pub file_name: Option<Seq<char>>,
}

impl View for EverythingHit {
    type V = HitView;

    open spec fn view(&self) -> HitView {
        HitView {
            full_path: self.full_path@,
            file_name: match self.file_name {
                Some(n) => Some(n@),
                None => None,
            },
        }
    }
}

impl HitView {
    /// A path that ends in an ordinary name has a name, and a name is the last
    /// component of the path.
    pub open spec fn wf(self) -> bool {
        &&& ends_in_a_name(self.full_path) ==> self.file_name is Some
        &&& self.file_name matches Some(name) ==> is_last_component(self.full_path, name)
    }
}

pub open spec fn hit_views(hits: Seq<EverythingHit>) -> Seq<HitView> {
    hits.map_values(|h: EverythingHit| h@)
}

/// The title of a file: its name, or its whole path.
pub open spec fn hit_title(hit: HitView) -> Seq<char> {
    match hit.file_name {
        Some(name) => name,
        None => hit.full_path,
    }
}

/// What a file is found as.
pub open spec fn hit_finding(hit: HitView, query: Seq<char>) -> Option<ResultView> {
    if hit.full_path.len() == 0 {
        None
    } else {
        match fuzzy_i32(query, hit_title(hit)) {
            Some(score) => Some(
                ResultView {
                    title: hit_title(hit),
                    subtitle: hit.full_path,
                    action: ActionView::Launch { path: hit.full_path, args: Seq::empty() },
                    score,
                },
            ),
            None => None,
        }
    }
}

proof fn lemma_behind_last_slash(head: Seq<char>, name: Seq<char>)
    requires
        head.len() > 0 ==> head.last() == '/',
        !name.contains('/'),
    ensures
        behind_last_slash(head + name) == name,
    decreases name.len(),
{
    if name.len() == 0 {
        assert(head + name =~= head);
    } else {
        assert((head + name).drop_last() =~= head + name.drop_last());
        assert(name[name.len() - 1] == (head + name).last());
        assert forall|i: int| 0 <= i < name.len() - 1 implies name.drop_last()[i] != '/' by {
            assert(name.drop_last()[i] == name[i]);
        }
        lemma_behind_last_slash(head, name.drop_last());
        assert(name.drop_last().push(name.last()) =~= name);
    }
}

/// Where the path of a file ends in an ordinary name, and neither backslashes nor a
/// drive stand in it, the name is what stands behind the last slash.
pub proof fn law_name_is_behind_the_last_slash(hit: HitView)
    requires
        hit.wf(),
        ends_in_a_name(hit.full_path),
        !hit.full_path.contains('\\'),
        !hit.full_path.contains(':'),
    ensures
        hit.file_name == Some(behind_last_slash(hit.full_path)),
{
    let path = hit.full_path;
    let name = hit.file_name->0;
    let i = choose|i: int| #[trigger] is_component_at(path, name, i);
    let rest = path.skip(i + name.len());
    if rest.len() > 0 {
        assert(rest[rest.len() - 1] == path.last());
    }
    let head = path.take(i);
    if head.len() > 0 {
        assert(path.contains(path[i - 1]));
    }
    assert(head + name =~= path);
    lemma_behind_last_slash(head, name);
}

/// A file is launched by its whole path. It is listed under its name, which is the
/// last component of the path, where the path ends in an ordinary name; otherwise
/// under the last component or under the whole path.
pub proof fn law_file_is_listed_by_its_path(hit: HitView, query: Seq<char>)
    requires
        hit.wf(),
        hit_finding(hit, query) is Some,
    ensures
        ({
            let r = hit_finding(hit, query)->0;
            &&& r.subtitle == hit.full_path
            &&& r.action == (ActionView::Launch { path: hit.full_path, args: Seq::empty() })
            &&& ends_in_a_name(hit.full_path) ==> is_last_component(hit.full_path, r.title)
            &&& r.title == hit.full_path || is_last_component(hit.full_path, r.title)
        }),
{
}

/// What is found among files, in their order.
pub open spec fn hit_findings(hits: Seq<HitView>, query: Seq<char>) -> Seq<ResultView>
    decreases hits.len(),
{
    if hits.len() == 0 {
        Seq::empty()
    } else {
        with_finding(hit_findings(hits.drop_last(), query), hit_finding(hits.last(), query))
    }
}

/// Finds files among those that Everything returned for the query.
#[derive(Debug)]
pub struct EverythingProvider {
    pub hits: Vec<EverythingHit>,
}

impl SearchProvider for EverythingProvider {
    open spec fn accepts(&self, query: Seq<char>) -> bool {
        true
    }

    open spec fn findings(&self, query: Seq<char>) -> Seq<ResultView> {
        if query.len() == 0 {
            Seq::empty()
        } else {
            hit_findings(hit_views(self.hits@), query)
        }
    }

    fn search(&self, query: &str) -> (r: Vec<SearchResult>) {
        let mut found: Vec<SearchResult> = Vec::new();
        if query.is_empty() {
            assert(result_views(found@) =~= Seq::<ResultView>::empty());
            return found;
        }
        let ghost all = hit_views(self.hits@);
        let mut i: usize = 0;
        assert(result_views(found@) =~= hit_findings(all.take(0), query@));
        while i < self.hits.len()
            invariant
                i <= self.hits@.len(),
                all == hit_views(self.hits@),
                result_views(found@) == hit_findings(all.take(i as int), query@),
            decreases self.hits@.len() - i,
        {
            let hit = &self.hits[i];
            assert(all.take(i + 1).drop_last() =~= all.take(i as int));
            assert(all.take(i + 1).last() == hit@);
            if !hit.full_path.as_str().is_empty() {
                let title = match &hit.file_name {
                    Some(name) => name.clone(),
                    None => hit.full_path.clone(),
                };
                if let Some(score) = fuzzy_match(query, title.as_str()) {
                    let result = SearchResult {
                        title,
                        subtitle: hit.full_path.clone(),
                        action: Action::Launch {
                            path: hit.full_path.clone(),
                            args: String::new(),
                        },
                        score,
                    };
                    let ghost before = found@;
                    found.push(result);
                    assert(result_views(found@) =~= result_views(before).push(result@));
                }
            }
            i += 1;
        }
        assert(all.take(i as int) =~= all);
        found
    }
}

/// A query finds exactly the files with a path under whose titles it is a subsequence,
/// each once and in their order. A file is listed under its name, or under its path
/// where it has no name; its path stands below and is launched without arguments.
pub proof fn law_files_are_found_by_title(hits: Seq<HitView>, query: Seq<char>)
    ensures
        hit_findings(hits, query) == hits.filter(
            |h: HitView|
                h.full_path.len() > 0 && is_subsequence(
                    query,
                    match h.file_name {
                        Some(name) => name,
                        None => h.full_path,
                    },
                ),
        ).map_values(
            |h: HitView|
                ResultView {
                    title: match h.file_name {
                        Some(name) => name,
                        None => h.full_path,
                    },
                    subtitle: h.full_path,
                    action: ActionView::Launch { path: h.full_path, args: Seq::empty() },
                    score: fuzzy_i32(query, hit_title(h))->0,
                },
        ),
    decreases hits.len(),
{
    reveal(Seq::filter);
    let p = |h: HitView|
        h.full_path.len() > 0 && is_subsequence(
            query,
            match h.file_name {
                Some(name) => name,
                None => h.full_path,
            },
        );
    let f = |h: HitView|
        ResultView {
            title: match h.file_name {
                Some(name) => name,
                None => h.full_path,
            },
            subtitle: h.full_path,
            action: ActionView::Launch { path: h.full_path, args: Seq::empty() },
            score: fuzzy_i32(query, hit_title(h))->0,
        };
    if hits.len() == 0 {
        assert(hits.filter(p).map_values(f) =~= Seq::<ResultView>::empty());
    } else {
        let last = hits.last();
        law_files_are_found_by_title(hits.drop_last(), query);
        law_score_is_handed_out(query, hit_title(last));
        let before = hits.drop_last().filter(p);
        assert(before.push(last).map_values(f) =~= before.map_values(f).push(f(last)));
    }
}

/// At most two hundred files are asked for, and a path has room for 4096 units.
pub proof fn law_limits_of_a_query()
    ensures
        QUERY_MAX_RESULTS == 200,
        PATH_BUFFER_LEN == 4096,
{
}

} // verus!
