use contest_coordinator::model::Contestant;
use contest_coordinator::model::ContestedResource;
use contest_coordinator::projection::project;
use contest_coordinator::projection::SortColumn;
use contest_coordinator::projection::SortOrder;
use contest_coordinator::projection::SortState;

fn contest(name: &str, locked: Option<u64>, abstain: Option<u64>, end: Option<u64>, updated: Option<u64>) -> ContestedResource {
    ContestedResource {
        normalized_name: name.to_string(),
        locked_votes: locked,
        abstain_votes: abstain,
        end_time: end,
        last_updated: updated,
        contestants: Vec::new(),
    }
}

fn names(rows: &[ContestedResource]) -> Vec<String> {
    rows.iter().map(|c| c.normalized_name.clone()).collect()
}

#[test]
fn sorts_ascending_by_name() {
    let v = vec![
        contest("carol", None, None, None, None),
        contest("alice", None, None, None, None),
        contest("bob", None, None, None, None),
    ];
    let r = project(&v, SortColumn::ContestedName, SortOrder::Ascending);
    assert_eq!(names(&r), vec!["alice", "bob", "carol"]);
}

#[test]
fn sorts_descending_by_name() {
    let v = vec![
        contest("carol", None, None, None, None),
        contest("alice", None, None, None, None),
        contest("bob", None, None, None, None),
    ];
    let r = project(&v, SortColumn::ContestedName, SortOrder::Descending);
    assert_eq!(names(&r), vec!["carol", "bob", "alice"]);
}

#[test]
fn sorts_by_locked_votes_with_unknown_first() {
    let v = vec![
        contest("alice", Some(10), None, None, None),
        contest("bob", None, None, None, None),
        contest("carol", Some(3), None, None, None),
    ];
    let r = project(&v, SortColumn::LockedVotes, SortOrder::Ascending);
    assert_eq!(names(&r), vec!["bob", "carol", "alice"]);
}

#[test]
fn sorts_by_locked_votes_descending() {
    let v = vec![
        contest("alice", Some(10), None, None, None),
        contest("bob", None, None, None, None),
        contest("carol", Some(3), None, None, None),
    ];
    let r = project(&v, SortColumn::LockedVotes, SortOrder::Descending);
    assert_eq!(names(&r), vec!["alice", "carol", "bob"]);
}

#[test]
fn sorts_by_abstain_end_time_and_last_updated() {
    let v = vec![
        contest("alice", None, Some(7), Some(300), Some(30)),
        contest("bob", None, Some(2), Some(100), Some(20)),
        contest("carol", None, Some(5), Some(200), Some(10)),
    ];
    let by_abstain = project(&v, SortColumn::AbstainVotes, SortOrder::Ascending);
    assert_eq!(names(&by_abstain), vec!["bob", "carol", "alice"]);
    let by_end = project(&v, SortColumn::EndingTime, SortOrder::Ascending);
    assert_eq!(names(&by_end), vec!["bob", "carol", "alice"]);
    let by_updated = project(&v, SortColumn::LastUpdated, SortOrder::Ascending);
    assert_eq!(names(&by_updated), vec!["carol", "bob", "alice"]);
}

#[test]
fn projection_is_idempotent_on_identical_input() {
    let v = vec![
        contest("bob", Some(4), Some(1), Some(50), None),
        contest("alice", Some(4), Some(9), Some(60), None),
        contest("carol", Some(2), None, None, Some(5)),
    ];
    let first = project(&v, SortColumn::LockedVotes, SortOrder::Descending);
    let second = project(&v, SortColumn::LockedVotes, SortOrder::Descending);
    assert_eq!(first, second);
}

#[test]
fn equal_sort_keys_fall_back_to_smaller_name_first() {
    let forward = vec![
        contest("delta", Some(5), None, None, None),
        contest("bravo", Some(5), None, None, None),
        contest("alpha", Some(9), None, None, None),
    ];
    let backward = vec![
        contest("alpha", Some(9), None, None, None),
        contest("bravo", Some(5), None, None, None),
        contest("delta", Some(5), None, None, None),
    ];
    let fr = project(&forward, SortColumn::LockedVotes, SortOrder::Ascending);
    let br = project(&backward, SortColumn::LockedVotes, SortOrder::Ascending);
    assert_eq!(names(&fr), vec!["bravo", "delta", "alpha"]);
    assert_eq!(names(&fr), names(&br));
}

#[test]
fn ties_fall_back_to_smaller_name_even_descending() {
    let v = vec![
        contest("delta", Some(5), None, None, None),
        contest("bravo", Some(5), None, None, None),
        contest("alpha", Some(1), None, None, None),
    ];
    let r = project(&v, SortColumn::LockedVotes, SortOrder::Descending);
    assert_eq!(names(&r), vec!["bravo", "delta", "alpha"]);
}

#[test]
fn extreme_vote_counts_sort_correctly() {
    let v = vec![
        contest("alice", Some(u64::MAX), None, None, None),
        contest("bob", Some(0), None, None, None),
        contest("carol", None, None, None, None),
    ];
    let r = project(&v, SortColumn::LockedVotes, SortOrder::Ascending);
    assert_eq!(names(&r), vec!["carol", "bob", "alice"]);
}

#[test]
fn empty_projection_is_empty() {
    let v: Vec<ContestedResource> = Vec::new();
    let r = project(&v, SortColumn::ContestedName, SortOrder::Ascending);
    assert!(r.is_empty());
}

#[test]
fn toggle_same_column_flips_direction_twice_back() {
    let mut s = SortState { column: SortColumn::ContestedName, order: SortOrder::Ascending };
    s.toggle(SortColumn::ContestedName);
    assert_eq!(s.column, SortColumn::ContestedName);
    assert_eq!(s.order, SortOrder::Descending);
    s.toggle(SortColumn::ContestedName);
    assert_eq!(s.column, SortColumn::ContestedName);
    assert_eq!(s.order, SortOrder::Ascending);
}

#[test]
fn toggle_new_column_resets_to_ascending() {
    let mut s = SortState { column: SortColumn::ContestedName, order: SortOrder::Descending };
    s.toggle(SortColumn::LockedVotes);
    assert_eq!(s.column, SortColumn::LockedVotes);
    assert_eq!(s.order, SortOrder::Ascending);
}
