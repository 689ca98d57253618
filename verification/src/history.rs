//! What was run and what was searched before: results that the user chose come
//! back on top, and past queries can be picked again.

use vstd::prelude::*;

use crate::search::fuzzy::wrap32;
use crate::text::{same_text, texts, trim, trimmed};

verus! {

/// Added to the score of a pinned result, before its use count.
pub const HISTORY_SCORE_BOOST: i32 = 1_000_000;

/// How many past queries are kept.
pub const QUERY_HISTORY_CAP: usize = 20;

/// A pinned result.
#[derive(Debug)]
pub struct HistoryEntry {
    /// What the result launches, as `crate::search::target_key` names it.
    pub key: String,
    pub use_count: u32,
}

impl Clone for HistoryEntry {
    fn clone(&self) -> (r: Self)
        ensures
            r == *self,
    {
        HistoryEntry { key: self.key.clone(), use_count: self.use_count }
    }
}

pub struct EntryView {
    pub key: Seq<char>,
    pub use_count: u32,
}

impl View for HistoryEntry {
    type V = EntryView;

    open spec fn view(&self) -> EntryView {
        EntryView { key: self.key@, use_count: self.use_count }
    }
}

/// Pinned results, and past queries with the newest first.
#[derive(Debug)]
pub struct History {
    pub entries: Vec<HistoryEntry>,
    pub queries: Vec<String>,
}

#[verifier::ext_equal]
pub struct HistoryView {
    pub entries: Seq<EntryView>,
    pub queries: Seq<Seq<char>>,
}

pub open spec fn entry_views(entries: Seq<HistoryEntry>) -> Seq<EntryView> {
    entries.map_values(|e: HistoryEntry| e@)
}

impl View for History {
    type V = HistoryView;

    open spec fn view(&self) -> HistoryView {
        HistoryView { entries: entry_views(self.entries@), queries: texts(self.queries@) }
    }
}

/// The index of the first entry with the key, or the number of entries.
pub open spec fn key_index(entries: Seq<EntryView>, key: Seq<char>) -> int
    decreases entries.len(),
{
    if entries.len() == 0 || entries[0].key == key {
        0
    } else {
        1 + key_index(entries.drop_first(), key)
    }
}

pub open spec fn key_differs(key: Seq<char>) -> spec_fn(EntryView) -> bool {
    |e: EntryView| e.key != key
}

pub open spec fn query_differs(query: Seq<char>) -> spec_fn(Seq<char>) -> bool {
    |q: Seq<char>| q != query
}

/// The entries with other keys.
pub open spec fn without_key(entries: Seq<EntryView>, key: Seq<char>) -> Seq<EntryView> {
    entries.filter(key_differs(key))
}

/// The other queries.
pub open spec fn without_query(queries: Seq<Seq<char>>, query: Seq<char>) -> Seq<Seq<char>> {
    queries.filter(query_differs(query))
}

impl HistoryView {
    pub open spec fn empty() -> HistoryView {
        HistoryView { entries: Seq::empty(), queries: Seq::empty() }
    }

    /// No key is pinned twice.
    pub open spec fn keys_distinct(self) -> bool {
        forall|i: int, j: int|
            0 <= i < j < self.entries.len() ==> self.entries[i].key != self.entries[j].key
    }

    /// The queries are distinct, trimmed, not blank, and no more than the cap.
    pub open spec fn queries_wf(self) -> bool {
        &&& self.queries.len() <= QUERY_HISTORY_CAP
        &&& forall|i: int, j: int|
            0 <= i < j < self.queries.len() ==> self.queries[i] != self.queries[j]
        &&& forall|i: int|
            0 <= i < self.queries.len() ==> (#[trigger] self.queries[i]).len() > 0 && trimmed(
                self.queries[i],
            ) == self.queries[i]
    }

    pub open spec fn is_pinned(self, key: Seq<char>) -> bool {
        key_index(self.entries, key) < self.entries.len()
    }

    pub open spec fn use_count(self, key: Seq<char>) -> u32 {
        self.entries[key_index(self.entries, key)].use_count
    }

    /// One more use of a key: its first entry counts it, or a new entry does.
    pub open spec fn used(self, key: Seq<char>) -> HistoryView {
        let i = key_index(self.entries, key);
        if i < self.entries.len() {
            HistoryView {
                entries: self.entries.update(
                    i,
                    EntryView {
                        key: self.entries[i].key,
                        use_count: self.entries[i].use_count.wrapping_add(1),
                    },
                ),
                ..self
            }
        } else {
            HistoryView { entries: self.entries.push(EntryView { key, use_count: 1 }), ..self }
        }
    }

    /// A key pinned without a use.
    pub open spec fn pinned(self, key: Seq<char>) -> HistoryView {
        if self.is_pinned(key) {
            self
        } else {
            HistoryView { entries: self.entries.push(EntryView { key, use_count: 0 }), ..self }
        }
    }

    pub open spec fn unpinned(self, key: Seq<char>) -> HistoryView {
        HistoryView { entries: without_key(self.entries, key), ..self }
    }

    /// What is added to the score of a result with the key.
    pub open spec fn boost(self, key: Seq<char>) -> Option<i32> {
        if self.is_pinned(key) {
            Some(wrap32(HISTORY_SCORE_BOOST + self.use_count(key)))
        } else {
            None
        }
    }

    /// A query put in front of the others, once, unless it is blank.
    pub open spec fn searched(self, query: Seq<char>) -> HistoryView {
        let q = trimmed(query);
        if q.len() == 0 {
            self
        } else {
            let all = seq![q] + without_query(self.queries, q);
            HistoryView {
                queries: if all.len() > QUERY_HISTORY_CAP {
                    all.take(QUERY_HISTORY_CAP as int)
                } else {
                    all
                },
                ..self
            }
        }
    }
}

/// What `key_index` finds: the first entry with the key.
pub proof fn law_key_index(entries: Seq<EntryView>, key: Seq<char>)
    ensures
        0 <= key_index(entries, key) <= entries.len(),
        key_index(entries, key) < entries.len() ==> entries[key_index(entries, key)].key == key,
        forall|i: int| 0 <= i < key_index(entries, key) ==> (#[trigger] entries[i]).key != key,
    decreases entries.len(),
{
    if entries.len() > 0 && entries[0].key != key {
        law_key_index(entries.drop_first(), key);
        assert forall|i: int| 0 <= i < key_index(entries, key) implies (
        #[trigger] entries[i]).key != key by {
            if i > 0 {
                assert(entries[i] == entries.drop_first()[i - 1]);
            }
        }
    }
}

proof fn lemma_key_index_is(entries: Seq<EntryView>, key: Seq<char>, i: int)
    requires
        0 <= i <= entries.len(),
        i < entries.len() ==> entries[i].key == key,
        forall|j: int| 0 <= j < i ==> (#[trigger] entries[j]).key != key,
    ensures
        key_index(entries, key) == i,
{
    law_key_index(entries, key);
    let k = key_index(entries, key);
    if k < i {
        assert(entries[k].key != key);
    } else if i < k {
        assert(entries[i].key != key);
    }
}

impl Default for History {
    fn default() -> (h: Self)
        ensures
            h@ == HistoryView::empty(),
    {
        let h = History { entries: Vec::new(), queries: Vec::new() };
        assert(h@ =~= HistoryView::empty());
        h
    }
}

impl History {
    /// The index of the first entry with the key, or the number of entries.
    fn find(&self, key: &str) -> (r: usize)
        ensures
            r == key_index(self@.entries, key@),
            r <= self.entries@.len(),
    {
        let mut i: usize = 0;
        while i < self.entries.len()
            invariant
                i <= self.entries@.len(),
                forall|j: int| 0 <= j < i ==> (#[trigger] self@.entries[j]).key != key@,
            decreases self.entries@.len() - i,
        {
            if same_text(self.entries[i].key.as_str(), key) {
                proof {
                    assert(self@.entries[i as int].key == key@);
                    lemma_key_index_is(self@.entries, key@, i as int);
                }
                return i;
            }
            i += 1;
        }
        proof {
            lemma_key_index_is(self@.entries, key@, i as int);
        }
        i
    }

    /// Counts a run of a result.
    pub fn record_use(&mut self, key: &str)
        ensures
            final(self)@ == old(self)@.used(key@),
    {
        let i: usize = self.find(key);
        if i < self.entries.len() {
            let count: u32 = self.entries[i].use_count;
            let entry = HistoryEntry {
                key: self.entries[i].key.clone(),
                use_count: count.wrapping_add(1),
            };
            self.entries.set(i, entry);
        } else {
            self.entries.push(HistoryEntry { key: key.to_owned(), use_count: 1 });
        }
        assert(self@ =~= old(self)@.used(key@));
    }

    /// How often a pinned key was used.
    pub fn use_count_of(&self, key: &str) -> (r: Option<u32>)
        ensures
            r == if self@.is_pinned(key@) {
                Some(self@.use_count(key@))
            } else {
                None
            },
    {
        let i: usize = self.find(key);
        if i < self.entries.len() {
            assert(self@.entries[i as int].use_count == self.entries@[i as int].use_count);
            Some(self.entries[i].use_count)
        } else {
            None
        }
    }

    /// What is added to the score of a pinned result.
    pub fn boost_for(&self, key: &str) -> (r: Option<i32>)
        ensures
            r == self@.boost(key@),
    {
        let i: usize = self.find(key);
        if i < self.entries.len() {
            let count: u32 = self.entries[i].use_count;
            assert(count as i32 == (if count <= 0x7FFF_FFFF {
                count as int
            } else {
                count - 0x1_0000_0000
            })) by (bit_vector);
            assert(self@.entries[i as int].use_count == count);
            Some(HISTORY_SCORE_BOOST.wrapping_add(count as i32))
        } else {
            None
        }
    }

    /// Unpins a key.
    pub fn remove(&mut self, key: &str)
        ensures
            final(self)@ == old(self)@.unpinned(key@),
    {
        let ghost before = self.entries@;
        let ghost p = key_differs(key@);
        let mut i: usize = 0;
        let ghost mut j: int = 0;
        assert(entry_views(before).take(0).filter(p) == Seq::<EntryView>::empty()) by {
            reveal(Seq::filter);
        }
        while i < self.entries.len()
            invariant
                i <= self.entries@.len(),
                0 <= j <= before.len(),
                before.len() - j == self.entries@.len() - i,
                p == key_differs(key@),
                entry_views(self.entries@).take(i as int) == entry_views(before).take(j).filter(p),
                self.entries@.skip(i as int) == before.skip(j),
                self.queries@ == old(self).queries@,
            decreases self.entries@.len() - i,
        {
            assert(self.entries@[i as int] == self.entries@.skip(i as int)[0]);
            assert(before[j] == before.skip(j)[0]);
            let ghost prefix = entry_views(before).take(j);
            assert(entry_views(before).take(j + 1) == prefix.push(before[j]@));
            proof {
                prefix.lemma_filter_push(before[j]@, p);
            }
            if same_text(self.entries[i].key.as_str(), key) {
                let ghost now = self.entries@;
                self.entries.remove(i);
                assert(self.entries@.skip(i as int) == now.skip(i as int).drop_first());
                assert(entry_views(self.entries@).take(i as int) == entry_views(now).take(i as int));
            } else {
                assert(entry_views(self.entries@).take(i + 1) == entry_views(self.entries@).take(
                    i as int,
                ).push(self.entries@[i as int]@));
                assert(self.entries@.skip(i + 1) == self.entries@.skip(i as int).drop_first());
                i += 1;
            }
            assert(before.skip(j + 1) == before.skip(j).drop_first());
            proof {
                j = j + 1;
            }
        }
        assert(entry_views(self.entries@).take(i as int) == entry_views(self.entries@));
        assert(entry_views(before).take(j) == entry_views(before));
        assert(self@ =~= old(self)@.unpinned(key@));
    }

    /// Pins a key; one that is pinned already keeps its use count.
    pub fn pin(&mut self, key: &str)
        ensures
            final(self)@ == old(self)@.pinned(key@),
    {
        let i: usize = self.find(key);
        if i < self.entries.len() {
            return;
        }
        self.entries.push(HistoryEntry { key: key.to_owned(), use_count: 0 });
        assert(self@ =~= old(self)@.pinned(key@));
    }

    /// Drops a query wherever it stands.
    fn forget_query(&mut self, query: &str)
        ensures
            final(self)@.entries == old(self)@.entries,
            final(self)@.queries == without_query(old(self)@.queries, query@),
    {
        let ghost before = self.queries@;
        let ghost p = query_differs(query@);
        let mut i: usize = 0;
        let ghost mut j: int = 0;
        assert(texts(before).take(0).filter(p) == Seq::<Seq<char>>::empty()) by {
            reveal(Seq::filter);
        }
        while i < self.queries.len()
            invariant
                i <= self.queries@.len(),
                0 <= j <= before.len(),
                before.len() - j == self.queries@.len() - i,
                p == query_differs(query@),
                texts(self.queries@).take(i as int) == texts(before).take(j).filter(p),
                self.queries@.skip(i as int) == before.skip(j),
                self.entries@ == old(self).entries@,
            decreases self.queries@.len() - i,
        {
            assert(self.queries@[i as int] == self.queries@.skip(i as int)[0]);
            assert(before[j] == before.skip(j)[0]);
            let ghost prefix = texts(before).take(j);
            assert(texts(before).take(j + 1) == prefix.push(before[j]@));
            proof {
                prefix.lemma_filter_push(before[j]@, p);
            }
            if same_text(self.queries[i].as_str(), query) {
                let ghost now = self.queries@;
                self.queries.remove(i);
                assert(self.queries@.skip(i as int) == now.skip(i as int).drop_first());
                assert(texts(self.queries@).take(i as int) == texts(now).take(i as int));
            } else {
                assert(texts(self.queries@).take(i + 1) == texts(self.queries@).take(
                    i as int,
                ).push(self.queries@[i as int]@));
                assert(self.queries@.skip(i + 1) == self.queries@.skip(i as int).drop_first());
                i += 1;
            }
            assert(before.skip(j + 1) == before.skip(j).drop_first());
            proof {
                j = j + 1;
            }
        }
        assert(texts(self.queries@).take(i as int) == texts(self.queries@));
        assert(texts(before).take(j) == texts(before));
    }

    /// Remembers a query as the newest one, unless it is blank.
    pub fn record_query(&mut self, query: &str)
        ensures
            final(self)@ == old(self)@.searched(query@),
    {
        let trimmed_query = trim(query);
        if trimmed_query.as_str().is_empty() {
            return;
        }
        self.forget_query(trimmed_query.as_str());
        let ghost rest = self.queries@;
        self.queries.insert(0, trimmed_query);
        assert(texts(self.queries@) == seq![trimmed_query@] + texts(rest));
        self.queries.truncate(QUERY_HISTORY_CAP);
        assert(self@ =~= old(self)@.searched(query@));
    }
}

/// What filtering keeps: no two equal values come closer or change order, and
/// every value that passes stays.
proof fn lemma_filter<A>(s: Seq<A>, p: spec_fn(A) -> bool)
    ensures
        s.filter(p).len() <= s.len(),
        forall|i: int| 0 <= i < s.filter(p).len() ==> p(#[trigger] s.filter(p)[i]) && s.contains(
            s.filter(p)[i],
        ),
        forall|i: int| 0 <= i < s.len() && p(#[trigger] s[i]) ==> s.filter(p).contains(s[i]),
    decreases s.len(),
{
    reveal(Seq::filter);
    if s.len() > 0 {
        let front = s.drop_last();
        lemma_filter(front, p);
        let kept = front.filter(p);
        assert forall|i: int| 0 <= i < s.filter(p).len() implies p(#[trigger] s.filter(p)[i])
            && s.contains(s.filter(p)[i]) by {
            if i < kept.len() {
                assert(s.filter(p)[i] == kept[i]);
                let k = choose|k: int| 0 <= k < front.len() && front[k] == kept[i];
                assert(s[k] == kept[i]);
            } else {
                assert(s[s.len() - 1] == s.filter(p)[i]);
            }
        }
        assert forall|i: int| 0 <= i < s.len() && p(#[trigger] s[i]) implies s.filter(p).contains(
            s[i],
        ) by {
            if i < s.len() - 1 {
                assert(front[i] == s[i]);
                let k = choose|k: int| 0 <= k < kept.len() && kept[k] == s[i];
                assert(s.filter(p)[k] == s[i]);
            } else {
                assert(s.filter(p)[kept.len() as int] == s[i]);
            }
        }
    }
}

/// The first entry with another key is found again once a key is gone, and
/// keys that were distinct stay so.
proof fn lemma_without_key(entries: Seq<EntryView>, key: Seq<char>, other: Seq<char>)
    requires
        other != key,
    ensures
        ({
            let rest = without_key(entries, key);
            let i = key_index(entries, other);
            let k = key_index(rest, other);
            &&& (k < rest.len() <==> i < entries.len())
            &&& (i < entries.len() ==> rest[k] == entries[i])
        }),
    decreases entries.len(),
{
    reveal(Seq::filter);
    let p = key_differs(key);
    let rest = without_key(entries, key);
    law_key_index(entries, other);
    law_key_index(rest, other);
    if entries.len() > 0 {
        let front = entries.drop_last();
        lemma_without_key(front, key, other);
        law_key_index(front, other);
        let kept = front.filter(p);
        law_key_index(kept, other);
        let i = key_index(entries, other);
        let n = front.len() as int;
        if key_index(front, other) < n {
            assert(front[key_index(front, other)].key == other);
            assert forall|j: int| 0 <= j < key_index(front, other) implies (
            #[trigger] entries[j]).key != other by {
                assert(entries[j] == front[j]);
            }
            lemma_key_index_is(entries, other, key_index(front, other));
            let k = key_index(kept, other);
            assert forall|j: int| 0 <= j < k implies (#[trigger] rest[j]).key != other by {
                assert(rest[j] == kept[j]);
            }
            assert(rest[k] == kept[k]);
            lemma_key_index_is(rest, other, k);
        } else {
            assert forall|j: int| 0 <= j < n implies (#[trigger] entries[j]).key != other by {
                assert(entries[j] == front[j]);
            }
            assert forall|j: int| 0 <= j < kept.len() implies (
            #[trigger] rest[j]).key != other by {
                assert(rest[j] == kept[j]);
            }
            if entries.last().key == other {
                lemma_key_index_is(entries, other, n);
                lemma_key_index_is(rest, other, kept.len() as int);
            } else {
                lemma_key_index_is(entries, other, n + 1);
                assert forall|j: int| 0 <= j < rest.len() implies (
                #[trigger] rest[j]).key != other by {
                    if j < kept.len() {
                        assert(rest[j] == kept[j]);
                    }
                }
                lemma_key_index_is(rest, other, rest.len() as int);
            }
        }
    }
}

/// Running a result counts one more use of its key, touches no other key, and
/// leaves the keys distinct.
pub proof fn law_record_use(h: HistoryView, key: Seq<char>, other: Seq<char>)
    ensures
        h.used(key).is_pinned(key),
        h.used(key).use_count(key) == if h.is_pinned(key) {
            h.use_count(key).wrapping_add(1)
        } else {
            1
        },
        other != key ==> h.used(key).boost(other) == h.boost(other),
        h.keys_distinct() ==> h.used(key).keys_distinct(),
        h.used(key).queries == h.queries,
{
    law_key_index(h.entries, key);
    law_key_index(h.entries, other);
    let i = key_index(h.entries, key);
    let after = h.used(key).entries;
    assert forall|j: int| 0 <= j < i implies (#[trigger] after[j]).key != key by {
        assert(after[j] == h.entries[j]);
    }
    lemma_key_index_is(after, key, i);
    if other != key {
        let k = key_index(h.entries, other);
        assert forall|j: int| 0 <= j < k implies (#[trigger] after[j]).key != other by {
            assert(after[j].key == h.entries[j].key);
        }
        if k < h.entries.len() {
            lemma_key_index_is(after, other, k);
        } else {
            lemma_key_index_is(after, other, after.len() as int);
        }
    }
}

/// Pinning makes a key pinned, keeps the use count of one that was, touches no
/// other key, and leaves the keys distinct.
pub proof fn law_pin(h: HistoryView, key: Seq<char>, other: Seq<char>)
    ensures
        h.pinned(key).is_pinned(key),
        h.pinned(key).use_count(key) == if h.is_pinned(key) {
            h.use_count(key)
        } else {
            0
        },
        other != key ==> h.pinned(key).boost(other) == h.boost(other),
        h.keys_distinct() ==> h.pinned(key).keys_distinct(),
        h.pinned(key).queries == h.queries,
{
    if !h.is_pinned(key) {
        law_key_index(h.entries, key);
        law_key_index(h.entries, other);
        let after = h.pinned(key).entries;
        assert forall|j: int| 0 <= j < h.entries.len() implies (
        #[trigger] after[j]).key != key by {
            assert(after[j] == h.entries[j]);
        }
        lemma_key_index_is(after, key, h.entries.len() as int);
        if other != key {
            let k = key_index(h.entries, other);
            assert forall|j: int| 0 <= j < k implies (#[trigger] after[j]).key != other by {
                assert(after[j] == h.entries[j]);
            }
            if k < h.entries.len() {
                lemma_key_index_is(after, other, k);
            } else {
                lemma_key_index_is(after, other, after.len() as int);
            }
        }
    }
}

/// Unpinning drops the key and touches no other key.
pub proof fn law_unpin(h: HistoryView, key: Seq<char>, other: Seq<char>)
    ensures
        !h.unpinned(key).is_pinned(key),
        other != key ==> h.unpinned(key).boost(other) == h.boost(other),
        h.unpinned(key).queries == h.queries,
{
    let rest = without_key(h.entries, key);
    lemma_filter(h.entries, key_differs(key));
    lemma_key_index_is(rest, key, rest.len() as int);
    if other != key {
        lemma_without_key(h.entries, key, other);
    }
}

/// Unpinning a key leaves the keys distinct.
pub proof fn law_unpin_keeps_distinct(h: HistoryView, key: Seq<char>)
    requires
        h.keys_distinct(),
    ensures
        h.unpinned(key).keys_distinct(),
    decreases h.entries.len(),
{
    reveal(Seq::filter);
    if h.entries.len() > 0 {
        let front = HistoryView { entries: h.entries.drop_last(), ..h };
        law_unpin_keeps_distinct(front, key);
        lemma_filter(front.entries, key_differs(key));
        let kept = without_key(front.entries, key);
        let rest = without_key(h.entries, key);
        assert forall|i: int, j: int| 0 <= i < j < rest.len() implies rest[i].key
            != rest[j].key by {
            if j < kept.len() {
                assert(rest[i] == kept[i] && rest[j] == kept[j]);
                assert(kept == front.unpinned(key).entries);
                assert(kept[i].key != kept[j].key);
            } else {
                assert(rest[i] == kept[i]);
                assert(front.entries.contains(kept[i]));
                let k = choose|k: int| 0 <= k < front.entries.len() && front.entries[k] == kept[i];
                assert(h.entries[k] == kept[i]);
                assert(rest[j] == h.entries[h.entries.len() - 1]);
                assert(h.entries[k].key != h.entries[h.entries.len() - 1].key);
            }
        }
    }
}

/// Pinning a key that was not pinned, and unpinning it, changes nothing.
pub proof fn law_pin_then_unpin(h: HistoryView, key: Seq<char>)
    requires
        !h.is_pinned(key),
    ensures
        h.pinned(key).unpinned(key) == h,
{
    let p = key_differs(key);
    law_key_index(h.entries, key);
    h.entries.lemma_filter_push(EntryView { key, use_count: 0 }, p);
    lemma_filter_all(h.entries, p);
}

proof fn lemma_filter_all<A>(s: Seq<A>, p: spec_fn(A) -> bool)
    requires
        forall|i: int| 0 <= i < s.len() ==> p(#[trigger] s[i]),
    ensures
        s.filter(p) == s,
    decreases s.len(),
{
    reveal(Seq::filter);
    if s.len() > 0 {
        assert forall|i: int| 0 <= i < s.drop_last().len() implies p(
            #[trigger] s.drop_last()[i],
        ) by {
            assert(s.drop_last()[i] == s[i]);
        }
        lemma_filter_all(s.drop_last(), p);
        assert(s.drop_last().push(s.last()) == s);
    }
}

/// Among pinned results, the one that was used more has the larger boost, and
/// every boost is at least the base.
pub proof fn law_boost_orders_by_use(h: HistoryView, a: Seq<char>, b: Seq<char>)
    requires
        h.is_pinned(a),
        h.is_pinned(b),
        h.use_count(a) < h.use_count(b),
        HISTORY_SCORE_BOOST + h.use_count(b) <= i32::MAX,
    ensures
        HISTORY_SCORE_BOOST <= h.boost(a)->0 < h.boost(b)->0,
{
}

proof fn lemma_filter_distinct<A>(s: Seq<A>, p: spec_fn(A) -> bool)
    requires
        forall|i: int, j: int| 0 <= i < j < s.len() ==> s[i] != s[j],
    ensures
        forall|i: int, j: int|
            0 <= i < j < s.filter(p).len() ==> s.filter(p)[i] != s.filter(p)[j],
    decreases s.len(),
{
    reveal(Seq::filter);
    if s.len() > 0 {
        let front = s.drop_last();
        lemma_filter_distinct(front, p);
        lemma_filter(front, p);
        let kept = front.filter(p);
        assert forall|i: int, j: int| 0 <= i < j < s.filter(p).len() implies s.filter(p)[i]
            != s.filter(p)[j] by {
            if j < kept.len() {
                assert(s.filter(p)[i] == kept[i] && s.filter(p)[j] == kept[j]);
            } else {
                assert(s.filter(p)[i] == kept[i]);
                let k = choose|k: int| 0 <= k < front.len() && front[k] == kept[i];
                assert(s[k] == kept[i]);
            }
        }
    }
}

/// The remembered queries stay distinct, trimmed, not blank and within the cap;
/// a query that is not blank comes first; pinned results are left alone.
pub proof fn law_record_query(h: HistoryView, query: Seq<char>)
    requires
        h.queries_wf(),
    ensures
        h.searched(query).queries_wf(),
        trimmed(query).len() > 0 ==> h.searched(query).queries[0] == trimmed(query),
        h.searched(query).entries == h.entries,
{
    let q = trimmed(query);
    if q.len() > 0 {
        let p = query_differs(q);
        let rest = without_query(h.queries, q);
        lemma_filter(h.queries, p);
        lemma_filter_distinct(h.queries, p);
        crate::text::law_trimmed(query);
        let all = seq![q] + rest;
        assert forall|i: int| 0 <= i < all.len() implies (#[trigger] all[i]).len() > 0 && trimmed(
            all[i],
        ) == all[i] by {
            if i > 0 {
                assert(all[i] == rest[i - 1]);
                let k = choose|k: int| 0 <= k < h.queries.len() && h.queries[k] == rest[i - 1];
                assert(h.queries[k].len() > 0);
            }
        }
        assert forall|i: int, j: int| 0 <= i < j < all.len() implies all[i] != all[j] by {
            assert(all[j] == rest[j - 1]);
            if i > 0 {
                assert(all[i] == rest[i - 1]);
            }
        }
    }
}

/// Searching the same query twice in a row remembers it once.
pub proof fn law_record_query_twice(h: HistoryView, query: Seq<char>)
    requires
        h.queries_wf(),
    ensures
        h.searched(query).searched(query) == h.searched(query),
{
    let q = trimmed(query);
    if q.len() > 0 {
        let once = h.searched(query);
        law_record_query(h, query);
        let p = query_differs(q);
        let rest = once.queries.drop_first();
        assert(once.queries == seq![q] + rest);
        Seq::filter_distributes_over_add(seq![q], rest, p);
        assert(seq![q].filter(p) == Seq::<Seq<char>>::empty()) by {
            reveal_with_fuel(Seq::filter, 2);
            assert(seq![q].drop_last() == Seq::<Seq<char>>::empty());
        }
        assert forall|i: int| 0 <= i < rest.len() implies p(#[trigger] rest[i]) by {
            assert(once.queries[0] != once.queries[i + 1]);
        }
        lemma_filter_all(rest, p);
        assert(without_query(once.queries, q) == rest);
        assert(once.searched(query).queries == once.queries);
    }
}

/// A key is pinned exactly where an entry has it, and its use count is that of the first
/// such entry.
pub proof fn law_pinned_keys_have_entries(h: HistoryView, key: Seq<char>)
    ensures
        h.is_pinned(key) <==> exists|i: int|
            0 <= i < h.entries.len() && (#[trigger] h.entries[i]).key == key,
        forall|i: int|
            0 <= i < h.entries.len() && (#[trigger] h.entries[i]).key == key && (forall|j: int|
                0 <= j < i ==> (#[trigger] h.entries[j]).key != key) ==> h.use_count(key)
                == h.entries[i].use_count,
{
    law_key_index(h.entries, key);
    assert forall|i: int|
        0 <= i < h.entries.len() && (#[trigger] h.entries[i]).key == key && (forall|j: int|
            0 <= j < i ==> (#[trigger] h.entries[j]).key != key) implies h.use_count(key)
        == h.entries[i].use_count by {
        lemma_key_index_is(h.entries, key, i);
    }
}

/// Remembering a query keeps the other ones in their order behind it, up to twenty in
/// all; a blank one changes nothing.
pub proof fn law_queries_move_back(h: HistoryView, query: Seq<char>)
    ensures
        trimmed(query).len() == 0 ==> h.searched(query) == h,
        trimmed(query).len() > 0 ==> ({
            let others = h.queries.filter(|q: Seq<char>| q != trimmed(query));
            let kept = h.searched(query).queries;
            &&& kept.len() == if others.len() < 20 {
                others.len() + 1
            } else {
                20
            }
            &&& kept[0] == trimmed(query)
            &&& forall|i: int| 1 <= i < kept.len() ==> #[trigger] kept[i] == others[i - 1]
        }),
{
    let p = |q: Seq<char>| q != trimmed(query);
    assert(p =~= query_differs(trimmed(query)));
}

/// Running, pinning or unpinning a result leaves every other one as it is: pinned or not,
/// and as often used.
pub proof fn law_other_keys_stay(h: HistoryView, key: Seq<char>, other: Seq<char>)
    requires
        other != key,
    ensures
        h.used(key).is_pinned(other) == h.is_pinned(other),
        h.pinned(key).is_pinned(other) == h.is_pinned(other),
        h.unpinned(key).is_pinned(other) == h.is_pinned(other),
        h.is_pinned(other) ==> {
            &&& h.used(key).use_count(other) == h.use_count(other)
            &&& h.pinned(key).use_count(other) == h.use_count(other)
            &&& h.unpinned(key).use_count(other) == h.use_count(other)
        },
{
    law_key_index(h.entries, key);
    law_key_index(h.entries, other);
    lemma_without_key(h.entries, key, other);
    let k = key_index(h.entries, other);
    let (used, pinned) = (h.used(key).entries, h.pinned(key).entries);
    assert forall|j: int| 0 <= j < k implies (#[trigger] used[j]).key != other by {
        assert(used[j].key == h.entries[j].key);
    }
    assert forall|j: int| 0 <= j < k implies (#[trigger] pinned[j]).key != other by {
        assert(pinned[j] == h.entries[j]);
    }
    if k < h.entries.len() {
        lemma_key_index_is(used, other, k);
        lemma_key_index_is(pinned, other, k);
    } else {
        lemma_key_index_is(used, other, used.len() as int);
        lemma_key_index_is(pinned, other, pinned.len() as int);
    }
}

/// At first, nothing is pinned, and there are no past queries.
pub proof fn law_new_history(key: Seq<char>)
    ensures
        !HistoryView::empty().is_pinned(key),
        HistoryView::empty().queries.len() == 0,
        HistoryView::empty().queries_wf(),
        HistoryView::empty().keys_distinct(),
{
}

/// What is kept of a history is its keys with their use counts, and its queries, in order.
pub proof fn law_history_is_its_entries(h: History, i: int)
    ensures
        h@.entries.len() == h.entries@.len(),
        0 <= i < h.entries@.len() ==> h@.entries[i].key == h.entries@[i].key@
            && h@.entries[i].use_count == h.entries@[i].use_count,
        h@.queries.len() == h.queries@.len(),
        0 <= i < h.queries@.len() ==> h@.queries[i] == h.queries@[i]@,
{
}

} // verus!
