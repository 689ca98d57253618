//! Packaged apps.

use vstd::prelude::*;

use crate::text::chars_of;

verus! {

/// An item of the apps folder, or a packaged app.
#[derive(Debug)]
pub struct UwpApp {
    pub title: String,
    pub aumid: String,
}

pub struct UwpView {
    pub title: Seq<char>,
    pub aumid: Seq<char>,
}

impl View for UwpApp {
    type V = UwpView;

    open spec fn view(&self) -> UwpView {
        UwpView { title: self.title@, aumid: self.aumid@ }
    }
}

pub open spec fn uwp_views(apps: Seq<UwpApp>) -> Seq<UwpView> {
    apps.map_values(|a: UwpApp| a@)
}

/// How often a character occurs.
pub open spec fn occurrences(s: Seq<char>, c: char) -> nat
    decreases s.len(),
{
    if s.len() == 0 {
        0
    } else {
        occurrences(s.drop_last(), c) + (if s.last() == c {
            1nat
        } else {
            0
        })
    }
}

/// An identifier of the form `PackageFamilyName!RelativeAppId`: exactly one `!`.
pub open spec fn is_packaged(aumid: Seq<char>) -> bool {
    occurrences(aumid, '!') == 1
}

/// Whether an identifier is that of a packaged app, and not one that a desktop
/// app registered for itself.
pub fn is_packaged_aumid(aumid: &str) -> (r: bool)
    ensures
        r == is_packaged(aumid@),
{
    let chars = chars_of(aumid);
    let mut n: usize = 0;
    let mut i: usize = 0;
    while i < chars.len()
        invariant
            n <= i <= chars@.len(),
            n == occurrences(chars@.take(i as int), '!'),
        decreases chars@.len() - i,
    {
        assert(chars@.take(i + 1).drop_last() == chars@.take(i as int));
        if chars[i] == '!' {
            n += 1;
        }
        i += 1;
    }
    assert(chars@.take(i as int) == chars@);
    n == 1
}

/// The items that are packaged apps with a title, in their order.
pub open spec fn packaged_apps(items: Seq<UwpView>) -> Seq<UwpView>
    decreases items.len(),
{
    if items.len() == 0 {
        Seq::empty()
    } else if is_packaged(items.last().aumid) && items.last().title.len() > 0 {
        packaged_apps(items.drop_last()).push(items.last())
    } else {
        packaged_apps(items.drop_last())
    }
}

/// Picks the packaged apps with a title out of the items of the apps folder.
pub fn scan(items: &Vec<UwpApp>) -> (apps: Vec<UwpApp>)
    ensures
        uwp_views(apps@) == packaged_apps(uwp_views(items@)),
{
    let ghost all = uwp_views(items@);
    let mut apps: Vec<UwpApp> = Vec::new();
    let mut i: usize = 0;
    assert(uwp_views(apps@) == packaged_apps(all.take(0)));
    while i < items.len()
        invariant
            i <= items@.len(),
            all == uwp_views(items@),
            uwp_views(apps@) == packaged_apps(all.take(i as int)),
        decreases items@.len() - i,
    {
        assert(all.take(i + 1).drop_last() == all.take(i as int));
        assert(all.take(i + 1).last() == items@[i as int]@);
        if is_packaged_aumid(items[i].aumid.as_str()) && !items[i].title.as_str().is_empty() {
            let app = UwpApp { title: items[i].title.clone(), aumid: items[i].aumid.clone() };
            let ghost before = apps@;
            apps.push(app);
            assert(uwp_views(apps@) == uwp_views(before).push(app@));
        }
        i += 1;
    }
    assert(all.take(i as int) == all);
    apps
}

/// Whether the thread's COM library could be initialized, and so has to be
/// released again.
pub struct ComGuard {
    pub initialized: bool,
}

impl ComGuard {
    /// The state after initialization returned a result: only a negative result
    /// is a failure.
    pub fn init(hresult: i32) -> (g: Self)
        ensures
            g.initialized == (hresult >= 0),
    {
        ComGuard { initialized: hresult >= 0 }
    }

    pub fn is_ok(&self) -> (r: bool)
        ensures
            r == self.initialized,
    {
        self.initialized
    }
}

proof fn lemma_occurrences_concat(a: Seq<char>, b: Seq<char>, c: char)
    ensures
        occurrences(a + b, c) == occurrences(a, c) + occurrences(b, c),
    decreases b.len(),
{
    if b.len() == 0 {
        assert(a + b =~= a);
    } else {
        assert((a + b).drop_last() =~= a + b.drop_last());
        lemma_occurrences_concat(a, b.drop_last(), c);
    }
}

proof fn lemma_no_occurrences(s: Seq<char>, c: char)
    ensures
        occurrences(s, c) == 0 <==> !s.contains(c),
    decreases s.len(),
{
    if s.len() > 0 {
        let front = s.drop_last();
        lemma_no_occurrences(front, c);
        if s.contains(c) {
            let i = choose|i: int| 0 <= i < s.len() && s[i] == c;
            if i < front.len() {
                assert(front[i] == c);
            }
        }
        if front.contains(c) {
            let i = choose|i: int| 0 <= i < front.len() && front[i] == c;
            assert(s[i] == c);
        }
        if s.last() == c {
            assert(s[s.len() - 1] == c);
        }
    }
}

/// The identifier of a packaged app is a family name and the name of an app in it, with
/// one exclamation mark between them. What has none, or more than one, is none.
pub proof fn law_packaged_identifiers(family: Seq<char>, app: Seq<char>)
    ensures
        !family.contains('!') ==> !is_packaged(family),
        !family.contains('!') && !app.contains('!') ==> is_packaged(
            family + seq!['!'] + app,
        ),
        family.contains('!') || app.contains('!') ==> !is_packaged(family + seq!['!'] + app),
{
    lemma_no_occurrences(family, '!');
    lemma_no_occurrences(app, '!');
    lemma_occurrences_concat(family + seq!['!'], app, '!');
    lemma_occurrences_concat(family, seq!['!'], '!');
    reveal_with_fuel(occurrences, 2);
    assert(seq!['!'].drop_last() =~= Seq::<char>::empty());
    assert(occurrences(seq!['!'], '!') == 1);
}

/// Exactly the items with such an identifier and a title are packaged apps, each once
/// and in their order.
pub proof fn law_packaged_apps_are_picked(items: Seq<UwpView>)
    ensures
        packaged_apps(items) == items.filter(
            |i: UwpView| is_packaged(i.aumid) && i.title.len() > 0,
        ),
    decreases items.len(),
{
    reveal(Seq::filter);
    if items.len() > 0 {
        law_packaged_apps_are_picked(items.drop_last());
    }
}

} // verus!
