use immersion_ledger::ledger::Ledger;

#[test]
fn totals_accumulate_across_appends() {
    let mut ledger = Ledger::new();
    let a = ledger.add_log_entry(1, "alice", 4000, 100, None);
    assert_eq!(a.total_characters, 4000);
    let b = ledger.add_log_entry(1, "alice", 2500, 200, None);
    assert_eq!(b.total_characters, 6500);
    assert_eq!(ledger.get_total_log_entries(1), 2);
}

#[test]
fn total_never_goes_negative() {
    let mut ledger = Ledger::new();
    ledger.add_log_entry(1, "alice", 300, 100, None);
    let after = ledger.add_log_entry(1, "alice", -500, 200, None);
    assert_eq!(after.total_characters, 0);
    let again = ledger.add_log_entry(1, "alice", -10, 300, None);
    assert_eq!(again.total_characters, 0);
}

#[test]
fn clamp_persists_the_clamped_delta() {
    let mut ledger = Ledger::new();
    ledger.add_log_entry(7, "bob", 100, 10, None);
    let after = ledger.add_log_entry(7, "bob", -150, 20, None);
    assert_eq!(after.total_characters, 0);
    let history = ledger.get_paginated_log_entries_by_time(7, 0);
    assert_eq!(history.len(), 2);
    // Newest first: the persisted correction is -100, not -150.
    assert_eq!(history[0].characters(), -100);
    assert_eq!(history[1].characters(), 100);
}

#[test]
fn noop_append_persists_no_entry() {
    let mut ledger = Ledger::new();
    let r = ledger.add_log_entry(3, "carol", 0, 100, None);
    assert_eq!(r.total_characters, 0);
    assert_eq!(ledger.get_total_log_entries(3), 0);
    let r2 = ledger.add_log_entry(3, "carol", 0, 200, Some("   \t  ".to_string()));
    assert_eq!(r2.total_characters, 0);
    assert_eq!(ledger.get_total_log_entries(3), 0);
    // A note with content is persisted even with a zero delta.
    ledger.add_log_entry(3, "carol", 0, 300, Some("read a book".to_string()));
    assert_eq!(ledger.get_total_log_entries(3), 1);
}

#[test]
fn rank_counts_strictly_greater_active_totals() {
    let mut ledger = Ledger::new();
    ledger.add_log_entry(1, "a", 900, 1, None);
    ledger.add_log_entry(2, "b", 700, 2, None);
    ledger.add_log_entry(3, "c", 800, 3, None);
    let me = ledger.add_log_entry(4, "d", 500, 4, None);
    let my_rank = ledger.get_rank(&me);
    assert_eq!(my_rank, 4);
    let top = ledger.get_or_initialize_statistics(1, "a");
    assert_eq!(ledger.get_rank(&top), 1);
}

#[test]
fn tied_totals_share_a_rank() {
    let mut ledger = Ledger::new();
    ledger.add_log_entry(10, "u10", 600, 1, None);
    ledger.add_log_entry(11, "u11", 700, 2, None);
    ledger.add_log_entry(12, "u12", 800, 3, None);
    let x = ledger.add_log_entry(20, "x", 500, 4, None);
    let y = ledger.add_log_entry(21, "y", 500, 5, None);
    // Three users exceed 500, so both tied users get rank 4.
    assert_eq!(ledger.get_rank(&x), 4);
    assert_eq!(ledger.get_rank(&y), 4);
}

#[test]
fn inactive_users_leave_the_leaderboard_but_keep_totals() {
    let mut ledger = Ledger::new();
    ledger.add_log_entry(1, "a", 900, 1, None);
    ledger.add_log_entry(2, "b", 800, 2, None);
    assert_eq!(ledger.get_total_active_users(), 2);
    ledger.set_active_status(1, false, None);
    assert_eq!(ledger.get_total_active_users(), 1);
    let row = ledger.get_or_initialize_statistics(1, "a");
    assert_eq!(row.total_characters, 900);
    // Marking an unknown user is a no-op and creates no row.
    ledger.set_active_status(99, false, Some("ghost"));
    assert!(!ledger.contains_user(99));
}

#[test]
fn leaderboard_orders_by_total_then_user_id() {
    let mut ledger = Ledger::new();
    ledger.add_log_entry(5, "e", 300, 1, None);
    ledger.add_log_entry(3, "c", 500, 2, None);
    ledger.add_log_entry(9, "i", 500, 3, None);
    ledger.add_log_entry(1, "a", 100, 4, None);
    ledger.set_active_status(1, false, None);
    let page = ledger.get_paginated_active_users_by_characters(0);
    let ids: Vec<u64> = page.iter().map(|u| u.get_user_id()).collect();
    assert_eq!(ids, vec![3, 9, 5]);
}

#[test]
fn leaderboard_pages_split_at_fifteen_rows() {
    let mut ledger = Ledger::new();
    for i in 0..20u64 {
        ledger.add_log_entry(i + 1, "user", 1000 + i as i32, i as i64, None);
    }
    let first = ledger.get_paginated_active_users_by_characters(0);
    let second = ledger.get_paginated_active_users_by_characters(1);
    assert_eq!(first.len(), 15);
    assert_eq!(second.len(), 5);
    assert_eq!(first[0].total_characters, 1019);
    assert_eq!(second[4].total_characters, 1000);
    assert!(ledger.get_paginated_active_users_by_characters(2).is_empty());
}

#[test]
fn users_by_id_scan_is_ordered_by_id() {
    let mut ledger = Ledger::new();
    ledger.add_log_entry(30, "c", 1, 1, None);
    ledger.add_log_entry(10, "a", 2, 2, None);
    ledger.add_log_entry(20, "b", 3, 3, None);
    ledger.set_active_status(20, false, None);
    let page = ledger.get_paginated_users_by_id(0);
    let ids: Vec<u64> = page.iter().map(|u| u.get_user_id()).collect();
    // Every stored row appears, active or not, ordered by user id.
    assert_eq!(ids, vec![10, 20, 30]);
}

#[test]
fn log_history_is_newest_first() {
    let mut ledger = Ledger::new();
    ledger.add_log_entry(1, "a", 100, 1000, None);
    ledger.add_log_entry(1, "a", 200, 3000, Some("later".to_string()));
    ledger.add_log_entry(1, "a", 300, 2000, None);
    ledger.add_log_entry(2, "b", 999, 5000, None);
    let history = ledger.get_paginated_log_entries_by_time(1, 0);
    assert_eq!(history.len(), 3);
    assert_eq!(history[0].time(), 3000);
    assert_eq!(history[1].time(), 2000);
    assert_eq!(history[2].time(), 1000);
    assert_eq!(history[0].notes().as_deref(), Some("later"));
}

#[test]
fn log_history_breaks_time_ties_by_recency() {
    let mut ledger = Ledger::new();
    ledger.add_log_entry(1, "a", 100, 1000, None);
    ledger.add_log_entry(1, "a", 200, 1000, None);
    let history = ledger.get_paginated_log_entries_by_time(1, 0);
    // Equal timestamps: the later append comes first.
    assert_eq!(history[0].characters(), 200);
    assert_eq!(history[1].characters(), 100);
}

#[test]
fn get_or_initialize_creates_a_zero_row_once() {
    let mut ledger = Ledger::new();
    assert!(!ledger.contains_user(42));
    let row = ledger.get_or_initialize_statistics(42, "dana");
    assert_eq!(row.total_characters, 0);
    assert!(row.is_active);
    assert!(ledger.contains_user(42));
    ledger.add_log_entry(42, "dana", 50, 1, None);
    let again = ledger.get_or_initialize_statistics(42, "other-name");
    assert_eq!(again.total_characters, 50);
    // The lookup itself never overwrites the stored name.
    assert_eq!(again.name, "dana");
}

#[test]
fn display_name_updates_on_every_append() {
    let mut ledger = Ledger::new();
    ledger.add_log_entry(1, "old-name", 10, 1, None);
    let r = ledger.add_log_entry(1, "new-name", 10, 2, None);
    assert_eq!(r.name, "new-name");
}

#[test]
fn log_history_pages_split_at_fifteen_entries() {
    let mut ledger = Ledger::new();
    for i in 0..18i64 {
        ledger.add_log_entry(1, "a", 10, i, None);
    }
    let first = ledger.get_paginated_log_entries_by_time(1, 0);
    let second = ledger.get_paginated_log_entries_by_time(1, 1);
    assert_eq!(first.len(), 15);
    assert_eq!(second.len(), 3);
    assert_eq!(first[0].time(), 17);
    assert_eq!(second[2].time(), 0);
    assert!(ledger.get_paginated_log_entries_by_time(1, 2).is_empty());
}

#[test]
fn positive_deltas_are_never_clamped() {
    let mut ledger = Ledger::new();
    let r = ledger.add_log_entry(1, "a", i32::MAX, 1, None);
    assert_eq!(r.total_characters, i32::MAX);
    let history = ledger.get_paginated_log_entries_by_time(1, 0);
    assert_eq!(history[0].characters(), i32::MAX);
}
