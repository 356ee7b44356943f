use mark::cleanup::{
    age_nanos, is_direct_child, is_expired, oldest_of, plan_entry, tree_visit, EntryKind,
    EntryPlan, TreeVisit, MAX_AGE_SECS, NANOS_PER_SEC,
};

#[test]
fn max_age_is_30_days() {
    assert_eq!(MAX_AGE_SECS, 30 * 24 * 60 * 60);
}

#[test]
fn entries_are_planned_by_kind_and_extension() {
    assert_eq!(plan_entry(EntryKind::Symlink, "/r/old.html"), EntryPlan::Skip);
    assert_eq!(plan_entry(EntryKind::Directory, "/r/run-1"), EntryPlan::RunDirectory);
    assert_eq!(plan_entry(EntryKind::File, "/r/page.html"), EntryPlan::LegacyHtml);
    assert_eq!(plan_entry(EntryKind::File, "/r/notes.txt"), EntryPlan::Skip);
    assert_eq!(plan_entry(EntryKind::File, "/r/html"), EntryPlan::Skip);
    assert_eq!(plan_entry(EntryKind::Other, "/r/x.html"), EntryPlan::Skip);
}

#[test]
fn only_direct_children_qualify() {
    assert!(is_direct_child("/r/run-1", "/r"));
    assert!(!is_direct_child("/r/a/run-1", "/r"));
    assert!(!is_direct_child("/elsewhere/run-1", "/r"));
    assert!(!is_direct_child("/", "/"));
}

#[test]
fn ages_saturate_at_zero() {
    assert_eq!(age_nanos(100, 40), 60);
    assert_eq!(age_nanos(40, 100), 0);
    assert_eq!(age_nanos(5, -5), 10);
    assert_eq!(age_nanos(i128::MAX, i128::MIN), u128::MAX);
}

#[test]
fn expiry_is_strictly_beyond_thirty_days() {
    let limit = MAX_AGE_SECS as u128 * NANOS_PER_SEC;
    assert!(!is_expired(limit));
    assert!(is_expired(limit + 1));
    assert!(!is_expired(0));
}

#[test]
fn oldest_of_takes_the_minimum() {
    assert_eq!(oldest_of(50, &vec![70, 20, 30]), 20);
    assert_eq!(oldest_of(10, &vec![70, 20]), 10);
    assert_eq!(oldest_of(10, &vec![]), 10);
}

#[test]
fn symlinks_in_trees() {
    assert_eq!(tree_visit(true, true), TreeVisit::Now);
    assert_eq!(tree_visit(false, true), TreeVisit::Skip);
    assert_eq!(tree_visit(true, false), TreeVisit::Inspect);
    assert_eq!(tree_visit(false, false), TreeVisit::Inspect);
}
