//! A small plugin, to try the plugin boundary with.

use vstd::prelude::*;

use crate::plugin_api::{RAction, RGuiToolMode, RSearchResult};
use crate::text::chars_of;

verus! {

/// `str::to_lowercase`: a text with small letters, by Unicode's rules.
pub uninterp spec fn lowercase(s: Seq<char>) -> Seq<char>;

/// `str::to_lowercase` depends on the text alone.
pub assume_specification[ str::to_lowercase ](s: &str) -> (r: String)
    ensures
        r@ == lowercase(s@),
;

/// A text occurs in another one, at an index.
pub open spec fn occurs_at(text: Seq<char>, part: Seq<char>, i: int) -> bool {
    0 <= i && i + part.len() <= text.len() && text.subrange(i, i + part.len()) == part
}

/// A text occurs in another one.
pub open spec fn contains(text: Seq<char>, part: Seq<char>) -> bool {
    exists|i: int| occurs_at(text, part, i)
}

fn matches_at(text: &Vec<char>, part: &Vec<char>, i: usize) -> (r: bool)
    requires
        i + part@.len() <= text@.len(),
    ensures
        r == occurs_at(text@, part@, i as int),
{
    let n: usize = part.len();
    let total: usize = text.len();
    let ghost window = text@.subrange(i as int, i + n);
    let mut k: usize = 0;
    while k < n
        invariant
            k <= n == part@.len(),
            i + n <= total == text@.len(),
            window == text@.subrange(i as int, i + n),
            forall|j: int| 0 <= j < k ==> window[j] == part@[j],
        decreases n - k,
    {
        if text[i + k] != part[k] {
            assert(window[k as int] != part@[k as int]);
            return false;
        }
        k += 1;
    }
    assert(window =~= part@);
    true
}

/// Whether a text occurs in another one.
pub fn contains_text(text: &str, part: &str) -> (r: bool)
    ensures
        r == contains(text@, part@),
{
    let t = chars_of(text);
    let p = chars_of(part);
    if p.len() > t.len() {
        return false;
    }
    let last: usize = t.len() - p.len();
    let mut i: usize = 0;
    loop
        invariant
            i <= last,
            t@ == text@,
            p@ == part@,
            last == t@.len() - p@.len(),
            forall|j: int| 0 <= j < i ==> !occurs_at(t@, p@, j),
        decreases last - i,
    {
        if matches_at(&t, &p, i) {
            return true;
        }
        if i == last {
            assert(!contains(t@, p@)) by {
                assert forall|j: int| !occurs_at(t@, p@, j) by {}
            }
            return false;
        }
        i += 1;
    }
}

/// What the plugin answers.
#[derive(Clone, Copy, PartialEq, Eq, Structural, Debug)]
pub enum Answer {
    /// A failure on purpose, which the boundary turns into no result.
    Fail,
    Copy,
    Nothing,
    Open,
}

/// The answer to a query, given its small letters.
pub open spec fn answer_to(query: Seq<char>, query_lower: Seq<char>) -> Answer {
    if contains(query_lower, "panic"@) {
        Answer::Fail
    } else if contains(query_lower, "clipboard"@) {
        Answer::Copy
    } else if query.len() > 0 && !contains("example plugin"@, query_lower) {
        Answer::Nothing
    } else {
        Answer::Open
    }
}

/// Decides the answer to a query, given its small letters.
pub fn answer(query: &str, query_lower: &str) -> (r: Answer)
    ensures
        r == answer_to(query@, query_lower@),
{
    if contains_text(query_lower, "panic") {
        Answer::Fail
    } else if contains_text(query_lower, "clipboard") {
        Answer::Copy
    } else if !query.is_empty() && !contains_text("example plugin", query_lower) {
        Answer::Nothing
    } else {
        Answer::Open
    }
}

/// The result of an answer is this one.
pub open spec fn is_result(r: RSearchResult, answer: Answer) -> bool {
    match answer {
        Answer::Copy => r.title@ == "42"@ && r.subtitle@
            == "issen-plugin-example (copy to clipboard)"@ && r.score == 100 && (
        r.action matches RAction::CopyToClipboard(text) && text@ == "42"@),
        Answer::Open => r.title@ == "Example Plugin Result"@ && r.subtitle@
            == "issen-plugin-example"@ && r.score == 100 && (r.action matches RAction::OpenUri(
            uri,
        ) && uri@ == "https://example.com/issen-plugin-example"@),
        _ => false,
    }
}

/// The results of an answer: one, or none for a failure or no answer.
pub fn results_of(answer: Answer) -> (r: Vec<RSearchResult>)
    ensures
        answer == Answer::Fail || answer == Answer::Nothing ==> r@.len() == 0,
        answer == Answer::Copy || answer == Answer::Open ==> r@.len() == 1 && is_result(
            r@[0],
            answer,
        ),
{
    match answer {
        Answer::Fail | Answer::Nothing => Vec::new(),
        Answer::Copy => {
            let r = vec![
                RSearchResult {
                    title: "42".to_owned(),
                    subtitle: "issen-plugin-example (copy to clipboard)".to_owned(),
                    action: RAction::CopyToClipboard("42".to_owned()),
                    score: 100,
                },
            ];
            assert(is_result(r@[0], answer));
            r
        },
        Answer::Open => {
            let r = vec![
                RSearchResult {
                    title: "Example Plugin Result".to_owned(),
                    subtitle: "issen-plugin-example".to_owned(),
                    action: RAction::OpenUri(
                        "https://example.com/issen-plugin-example".to_owned(),
                    ),
                    score: 100,
                },
            ];
            assert(is_result(r@[0], answer));
            r
        },
    }
}

/// Searches. A failure never gets past here.
pub fn search(query: &str) -> (r: Vec<RSearchResult>)
    ensures
        ({
            let answer = answer_to(query@, lowercase(query@));
            if answer == Answer::Fail || answer == Answer::Nothing {
                r@.len() == 0
            } else {
                r@.len() == 1 && is_result(r@[0], answer)
            }
        }),
{
    let query_lower = query.to_lowercase();
    results_of(answer(query, query_lower.as_str()))
}

/// A tool of the plugin.
#[derive(Clone, Copy, Debug)]
pub struct ExampleTool {
    pub name: &'static str,
    pub mode: RGuiToolMode,
}

/// The tools of the plugin: one of each mode.
pub fn gui_tools() -> (r: Vec<ExampleTool>)
    ensures
        r@ == seq![
            ExampleTool { name: "Example Standalone Tool", mode: RGuiToolMode::Standalone },
            ExampleTool { name: "Example Embedded Tool", mode: RGuiToolMode::Embedded },
        ],
{
    vec![
        ExampleTool { name: "Example Standalone Tool", mode: RGuiToolMode::Standalone },
        ExampleTool { name: "Example Embedded Tool", mode: RGuiToolMode::Embedded },
    ]
}

/// The plugin answers in this order: it fails where the query names a panic, offers to copy
/// where it names the clipboard, opens its page where the query is empty or part of the
/// plugin's name, and otherwise finds nothing.
pub proof fn law_answers(query: Seq<char>, small: Seq<char>)
    ensures
        contains(small, "panic"@) <==> answer_to(query, small) == Answer::Fail,
        !contains(small, "panic"@) && contains(small, "clipboard"@) <==> answer_to(query, small)
            == Answer::Copy,
        answer_to(query, small) == Answer::Open <==> !contains(small, "panic"@) && !contains(
            small,
            "clipboard"@,
        ) && (query.len() == 0 || contains("example plugin"@, small)),
{
}

/// The results of the answers.
pub proof fn law_answers_have_their_result(r: RSearchResult)
    ensures
        is_result(r, Answer::Copy) ==> r.title@ == "42"@ && r.action is CopyToClipboard
            && r.action->CopyToClipboard_0@ == "42"@ && r.score == 100,
        is_result(r, Answer::Open) ==> r.title@ == "Example Plugin Result"@ && r.action is OpenUri
            && r.action->OpenUri_0@ == "https://example.com/issen-plugin-example"@ && r.score == 100,
        !is_result(r, Answer::Fail),
        !is_result(r, Answer::Nothing),
{
}

/// A text occurs in another one exactly where the other one is some text, the first one
/// and some text again.
pub proof fn law_occurrence(text: Seq<char>, part: Seq<char>, front: Seq<char>, back: Seq<char>)
    ensures
        contains(front + part + back, part),
        contains(text, part) ==> exists|a: Seq<char>, b: Seq<char>|
            text == #[trigger] (a + part + b),
{
    let whole = front + part + back;
    let i = front.len() as int;
    assert(whole.subrange(i, i + part.len()) =~= part);
    assert(occurs_at(whole, part, i));
    if contains(text, part) {
        let k = choose|k: int| occurs_at(text, part, k);
        let (a, b) = (text.take(k), text.skip(k + part.len()));
        assert(text =~= a + part + b);
    }
}

} // verus!
