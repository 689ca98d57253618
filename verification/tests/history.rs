use issen::history::{History, HISTORY_SCORE_BOOST, QUERY_HISTORY_CAP};

#[test]
fn record_use_adds_new_entry_at_count_one() {
    let mut history = History::default();
    history.record_use("a");
    assert_eq!(history.entries.len(), 1);
    assert_eq!(history.entries[0].use_count, 1);
}

#[test]
fn record_use_increments_existing_entry() {
    let mut history = History::default();
    history.record_use("a");
    history.record_use("a");
    history.record_use("a");
    assert_eq!(history.entries.len(), 1);
    assert_eq!(history.entries[0].use_count, 3);
}

#[test]
fn boost_for_is_none_when_not_pinned() {
    let history = History::default();
    assert_eq!(history.boost_for("a"), None);
}

#[test]
fn boost_for_adds_use_count_on_top_of_base_boost() {
    let mut history = History::default();
    history.record_use("a");
    history.record_use("a");
    assert_eq!(history.boost_for("a"), Some(HISTORY_SCORE_BOOST + 2));
}

#[test]
fn pin_adds_unrun_entry_at_count_zero() {
    let mut history = History::default();
    history.pin("a");
    assert_eq!(history.entries.len(), 1);
    assert_eq!(history.entries[0].use_count, 0);
    assert_eq!(history.boost_for("a"), Some(HISTORY_SCORE_BOOST));
}

#[test]
fn pin_does_not_reset_use_count_of_already_pinned_entry() {
    let mut history = History::default();
    history.record_use("a");
    history.record_use("a");
    history.pin("a");
    assert_eq!(history.entries.len(), 1);
    assert_eq!(history.entries[0].use_count, 2);
}

#[test]
fn remove_drops_matching_entry_only() {
    let mut history = History::default();
    history.record_use("a");
    history.record_use("b");
    history.remove("a");
    assert_eq!(history.entries.len(), 1);
    assert_eq!(history.entries[0].key, "b");
}

#[test]
fn remove_is_noop_when_key_absent() {
    let mut history = History::default();
    history.record_use("a");
    history.remove("does-not-exist");
    assert_eq!(history.entries.len(), 1);
}

#[test]
fn record_query_moves_existing_query_to_front_without_duplicating() {
    let mut history = History::default();
    history.record_query("foo");
    history.record_query("bar");
    history.record_query("foo");
    assert_eq!(history.queries, vec!["foo", "bar"]);
}

#[test]
fn record_query_ignores_blank_input() {
    let mut history = History::default();
    history.record_query("   ");
    assert!(history.queries.is_empty());
}

#[test]
fn record_query_trims_before_storing() {
    let mut history = History::default();
    history.record_query("  foo  ");
    assert_eq!(history.queries, vec!["foo"]);
}

#[test]
fn record_query_caps_at_query_history_cap() {
    let mut history = History::default();
    for i in 0..QUERY_HISTORY_CAP + 5 {
        history.record_query(&i.to_string());
    }
    assert_eq!(history.queries.len(), QUERY_HISTORY_CAP);
    // The most recent one stays at the front.
    assert_eq!(history.queries[0], (QUERY_HISTORY_CAP + 4).to_string());
}

#[test]
fn pinning_and_unpinning_leaves_the_other_keys() {
    let mut history = History::default();
    history.record_use("a");
    history.pin("b");
    history.remove("b");
    assert_eq!(history.entries.len(), 1);
    assert_eq!(history.boost_for("a"), Some(HISTORY_SCORE_BOOST + 1));
    assert_eq!(history.boost_for("b"), None);
}

#[test]
fn more_uses_mean_a_larger_boost() {
    let mut history = History::default();
    history.record_use("rare");
    history.record_use("often");
    history.record_use("often");
    assert!(history.boost_for("often") > history.boost_for("rare"));
}

#[test]
fn recording_a_query_twice_keeps_it_once() {
    let mut history = History::default();
    history.record_query("foo");
    history.record_query(" foo\t");
    assert_eq!(history.queries, vec!["foo"]);
}

#[test]
fn a_removed_key_goes_with_all_its_entries() {
    let mut history = History::default();
    history.record_use("a");
    history.record_use("b");
    let again = history.entries[0].clone();
    history.entries.push(again);
    history.remove("a");
    assert_eq!(history.entries.len(), 1);
    assert_eq!(history.entries[0].key, "b");
}
