use contest_coordinator::cache::LocalCacheStore;
use contest_coordinator::coordinator::confirm_with_all;
use contest_coordinator::coordinator::confirm_with_identity;
use contest_coordinator::coordinator::locked_votes_lead;
use contest_coordinator::coordinator::max_contestant_votes;
use contest_coordinator::coordinator::pending_vote;
use contest_coordinator::coordinator::Coordinator;
use contest_coordinator::coordinator::CoordinatorAction;
use contest_coordinator::coordinator::UiIntent;
use contest_coordinator::model::AdapterReply;
use contest_coordinator::model::Contestant;
use contest_coordinator::model::ContestedResource;
use contest_coordinator::model::IdentityKind;
use contest_coordinator::model::Severity;
use contest_coordinator::model::SubmissionOutcome;
use contest_coordinator::model::SyncError;
use contest_coordinator::model::VoteChoice;
use contest_coordinator::model::VoteIntent;
use contest_coordinator::model::VotingIdentity;
use contest_coordinator::projection::SortColumn;
use contest_coordinator::projection::SortOrder;
use contest_coordinator::refresh::RefreshSynchronizer;
use contest_coordinator::status::StatusBus;
use contest_coordinator::submission::should_retry;
use contest_coordinator::submission::classify_transcript;
use contest_coordinator::submission::submit_outcomes;
use contest_coordinator::submission::MAX_SUBMISSION_ATTEMPTS;

fn contest(name: &str, locked: Option<u64>) -> ContestedResource {
    ContestedResource {
        normalized_name: name.to_string(),
        locked_votes: locked,
        abstain_votes: None,
        end_time: None,
        last_updated: None,
        contestants: Vec::new(),
    }
}

fn identity(id: &str, kind: IdentityKind) -> VotingIdentity {
    VotingIdentity { identity_id: id.to_string(), label: id.to_string(), kind }
}

#[test]
fn status_posted_at_t_visible_at_t_plus_4_absent_at_t_plus_6() {
    let mut bus = StatusBus::new();
    bus.post("network trouble".to_string(), Severity::Error, 100);
    bus.tick(104);
    let visible = bus.current(104);
    assert!(visible.is_some());
    let (text, severity, age) = visible.unwrap();
    assert_eq!(text, "network trouble");
    assert_eq!(severity, Severity::Error);
    assert_eq!(age, 4);
    bus.tick(106);
    assert!(bus.current(106).is_none());
}

#[test]
fn status_still_visible_at_exact_threshold() {
    let mut bus = StatusBus::new();
    bus.post("saved".to_string(), Severity::Success, 10);
    bus.tick(15);
    assert!(bus.current(15).is_some());
    bus.tick(16);
    assert!(bus.current(16).is_none());
}

#[test]
fn post_overwrites_pending_message() {
    let mut bus = StatusBus::new();
    bus.post("first".to_string(), Severity::Info, 1);
    bus.post("second".to_string(), Severity::Error, 2);
    let (text, severity, _) = bus.current(2).unwrap();
    assert_eq!(text, "second");
    assert_eq!(severity, Severity::Error);
}

#[test]
fn dismiss_clears_message() {
    let mut bus = StatusBus::new();
    bus.post("gone soon".to_string(), Severity::Info, 1);
    bus.dismiss();
    assert!(bus.current(1).is_none());
}

#[test]
fn refresh_one_updates_exactly_the_target_contest() {
    let cache_rows = vec![contest("alice", None), contest("bob", Some(7))];
    let mut cache = LocalCacheStore::from_loaded(cache_rows, Vec::new(), Vec::new());
    let mut sync = RefreshSynchronizer::new();
    let key = "alice".to_string();

    let issue = sync.begin_refresh(&key);
    assert!(issue);

    let fresh = ContestedResource {
        normalized_name: "alice".to_string(),
        locked_votes: Some(42),
        abstain_votes: None,
        end_time: Some(1700000000000),
        last_updated: None,
        contestants: Vec::new(),
    };
    sync.complete_refresh(&key, fresh, &mut cache);

    let alice = cache.find_contest(&key).unwrap();
    assert_eq!(alice.locked_votes, Some(42));
    assert_eq!(alice.end_time, Some(1700000000000));

    let bob = cache.find_contest(&"bob".to_string()).unwrap();
    assert_eq!(bob.locked_votes, Some(7));
    assert_eq!(bob.end_time, None);
}

#[test]
fn concurrent_refreshes_for_one_key_issue_one_query() {
    let mut cache = LocalCacheStore::from_loaded(
        vec![contest("x", None)],
        Vec::new(),
        Vec::new(),
    );
    let mut sync = RefreshSynchronizer::new();
    let key = "x".to_string();

    let first = sync.begin_refresh(&key);
    let second = sync.begin_refresh(&key);
    assert!(first);
    assert!(!second);

    let snapshot = contest("x", Some(9));
    sync.complete_refresh(&key, snapshot, &mut cache);

    let seen_by_first = cache.find_contest(&key).unwrap();
    let seen_by_second = cache.find_contest(&key).unwrap();
    assert_eq!(seen_by_first, seen_by_second);
    assert_eq!(seen_by_first.locked_votes, Some(9));

    let again = sync.begin_refresh(&key);
    assert!(again);
}

#[test]
fn resolve_refresh_merges_matching_snapshot() {
    let mut cache = LocalCacheStore::from_loaded(vec![contest("alice", None)], Vec::new(), Vec::new());
    let mut sync = RefreshSynchronizer::new();
    let key = "alice".to_string();
    assert!(sync.begin_refresh(&key));
    let got = sync.resolve_refresh(&key, Ok(contest("alice", Some(42))), &mut cache);
    assert_eq!(got.unwrap().locked_votes, Some(42));
    assert_eq!(cache.find_contest(&key).unwrap().locked_votes, Some(42));
}

#[test]
fn resolve_refresh_rejects_snapshot_for_other_key() {
    let mut cache = LocalCacheStore::from_loaded(vec![contest("alice", Some(3))], Vec::new(), Vec::new());
    let mut sync = RefreshSynchronizer::new();
    let key = "alice".to_string();
    assert!(sync.begin_refresh(&key));
    let got = sync.resolve_refresh(&key, Ok(contest("mallory", Some(9))), &mut cache);
    assert_eq!(got, Err(SyncError::Malformed));
    assert_eq!(cache.find_contest(&key).unwrap().locked_votes, Some(3));
    assert!(cache.find_contest(&"mallory".to_string()).is_none());
    assert!(sync.begin_refresh(&key));
}

#[test]
fn resolve_refresh_passes_adapter_error_through() {
    let mut cache = LocalCacheStore::from_loaded(vec![contest("alice", Some(3))], Vec::new(), Vec::new());
    let mut sync = RefreshSynchronizer::new();
    let key = "alice".to_string();
    assert!(sync.begin_refresh(&key));
    let got = sync.resolve_refresh(&key, Err(SyncError::Timeout), &mut cache);
    assert_eq!(got, Err(SyncError::Timeout));
    assert_eq!(cache.find_contest(&key).unwrap().locked_votes, Some(3));
}

#[test]
fn aborted_refresh_leaves_cache_untouched() {
    let mut cache = LocalCacheStore::from_loaded(
        vec![contest("alice", Some(3))],
        Vec::new(),
        Vec::new(),
    );
    let mut sync = RefreshSynchronizer::new();
    let key = "alice".to_string();
    assert!(sync.begin_refresh(&key));
    sync.abort_refresh(&key);
    let alice = cache.find_contest(&key).unwrap();
    assert_eq!(alice.locked_votes, Some(3));
    assert!(sync.begin_refresh(&key));
}

#[test]
fn rejected_and_accepted_identities_are_independent() {
    let intent = VoteIntent {
        contest_key: "alice".to_string(),
        choice: VoteChoice::Lock,
        voter_ids: vec!["identity-a".to_string(), "identity-b".to_string()],
    };
    let transcripts = vec![
        vec![AdapterReply::Rejected("identity ineligible".to_string())],
        vec![AdapterReply::Accepted],
    ];
    let outcomes = submit_outcomes(&intent, &transcripts);
    assert_eq!(
        outcomes,
        vec![
            SubmissionOutcome::Rejected("identity ineligible".to_string()),
            SubmissionOutcome::Accepted,
        ]
    );

    // The post-submission refresh then folds the accepted vote's effect in.
    let mut cache = LocalCacheStore::from_loaded(
        vec![contest("alice", None)],
        Vec::new(),
        Vec::new(),
    );
    let mut sync = RefreshSynchronizer::new();
    assert!(sync.begin_refresh(&intent.contest_key));
    sync.complete_refresh(&intent.contest_key, contest("alice", Some(1)), &mut cache);
    assert_eq!(cache.find_contest(&intent.contest_key).unwrap().locked_votes, Some(1));
}

#[test]
fn network_errors_are_retried_then_surfaced() {
    let all_failed = vec![
        AdapterReply::NetworkError,
        AdapterReply::NetworkError,
        AdapterReply::NetworkError,
    ];
    assert_eq!(classify_transcript(&all_failed), SubmissionOutcome::NetworkError);

    let recovered = vec![AdapterReply::NetworkError, AdapterReply::Accepted];
    assert_eq!(classify_transcript(&recovered), SubmissionOutcome::Accepted);

    let rejected_late = vec![
        AdapterReply::NetworkError,
        AdapterReply::Rejected("contest closed".to_string()),
    ];
    assert_eq!(
        classify_transcript(&rejected_late),
        SubmissionOutcome::Rejected("contest closed".to_string())
    );
}

#[test]
fn retry_policy_is_bounded_and_selective() {
    assert!(should_retry(1, &AdapterReply::NetworkError));
    assert!(should_retry(MAX_SUBMISSION_ATTEMPTS - 1, &AdapterReply::NetworkError));
    assert!(!should_retry(MAX_SUBMISSION_ATTEMPTS, &AdapterReply::NetworkError));
    assert!(!should_retry(1, &AdapterReply::Accepted));
    assert!(!should_retry(1, &AdapterReply::Rejected("no".to_string())));
}

#[test]
fn status_survives_clock_running_backwards() {
    let mut bus = StatusBus::new();
    bus.post("posted late".to_string(), Severity::Info, u64::MAX);
    bus.tick(0);
    let (_, _, age) = bus.current(0).unwrap();
    assert_eq!(age, 0);
    bus.tick(u64::MAX);
    assert!(bus.current(u64::MAX).is_some());
}

#[test]
fn sync_error_messages_name_each_failure() {
    assert_eq!(SyncError::Timeout.message(), "The platform query timed out");
    assert_eq!(SyncError::Connection.message(), "The platform could not be reached");
    assert_eq!(SyncError::Malformed.message(), "The platform answered with malformed data");
}

#[test]
fn from_loaded_keeps_first_entry_per_name_and_filters_identities() {
    let rows = vec![contest("alice", Some(1)), contest("alice", Some(2)), contest("bob", None)];
    let ids = vec![
        identity("m1", IdentityKind::Masternode),
        identity("u1", IdentityKind::User),
        identity("e1", IdentityKind::Evonode),
    ];
    let cache = LocalCacheStore::from_loaded(rows, ids.clone(), ids);
    assert_eq!(cache.get_contests().len(), 2);
    assert_eq!(cache.find_contest(&"alice".to_string()).unwrap().locked_votes, Some(1));
    let voters: Vec<String> =
        cache.get_voting_identities().iter().map(|x| x.identity_id.clone()).collect();
    assert_eq!(voters, vec!["m1", "e1"]);
    let users: Vec<String> =
        cache.get_user_identities().iter().map(|x| x.identity_id.clone()).collect();
    assert_eq!(users, vec!["u1"]);
}

#[test]
fn find_contest_misses_unknown_key() {
    let cache = LocalCacheStore::from_loaded(vec![contest("alice", None)], Vec::new(), Vec::new());
    assert!(cache.find_contest(&"carol".to_string()).is_none());
}

#[test]
fn toggle_sort_scenario_through_intents() {
    let cache = LocalCacheStore::new();
    let mut coordinator = Coordinator::new(cache);
    assert_eq!(coordinator.sort.column, SortColumn::ContestedName);
    assert_eq!(coordinator.sort.order, SortOrder::Ascending);

    coordinator.handle_intent(UiIntent::ToggleSort(SortColumn::ContestedName));
    coordinator.handle_intent(UiIntent::ToggleSort(SortColumn::ContestedName));
    assert_eq!(coordinator.sort.column, SortColumn::ContestedName);
    assert_eq!(coordinator.sort.order, SortOrder::Ascending);

    coordinator.handle_intent(UiIntent::ToggleSort(SortColumn::ContestedName));
    assert_eq!(coordinator.sort.order, SortOrder::Descending);
    coordinator.handle_intent(UiIntent::ToggleSort(SortColumn::LockedVotes));
    assert_eq!(coordinator.sort.column, SortColumn::LockedVotes);
    assert_eq!(coordinator.sort.order, SortOrder::Ascending);
}

#[test]
fn render_tick_sorts_and_expires_status() {
    let cache = LocalCacheStore::from_loaded(
        vec![contest("carol", None), contest("alice", None)],
        Vec::new(),
        Vec::new(),
    );
    let mut coordinator = Coordinator::new(cache);
    coordinator.status.post("refreshing".to_string(), Severity::Info, 0);
    let rows = coordinator.render_tick(4);
    assert_eq!(rows[0].normalized_name, "alice");
    assert_eq!(rows[1].normalized_name, "carol");
    assert!(coordinator.status.current(4).is_some());
    coordinator.render_tick(6);
    assert!(coordinator.status.current(6).is_none());
}

#[test]
fn vote_intents_dispatch_only_with_identities() {
    let cache = LocalCacheStore::new();
    let mut coordinator = Coordinator::new(cache);

    let empty = pending_vote(&"alice".to_string(), VoteChoice::Abstain);
    match coordinator.handle_intent(UiIntent::RequestVote(empty)) {
        CoordinatorAction::Idle => {},
        other => panic!("expected no action, got {:?}", action_name(&other)),
    }

    let mut confirmed = pending_vote(&"alice".to_string(), VoteChoice::Lock);
    confirm_with_identity(&mut confirmed, &identity("m1", IdentityKind::Masternode));
    match coordinator.handle_intent(UiIntent::RequestVote(confirmed)) {
        CoordinatorAction::SubmitVotes(intent) => {
            assert_eq!(intent.contest_key, "alice");
            assert_eq!(intent.voter_ids, vec!["m1"]);
        },
        other => panic!("expected submission, got {:?}", action_name(&other)),
    }

    match coordinator.handle_intent(UiIntent::RequestRefreshAll) {
        CoordinatorAction::QueryAllContests => {},
        other => panic!("expected query, got {:?}", action_name(&other)),
    }
}

fn action_name(action: &CoordinatorAction) -> &'static str {
    match action {
        CoordinatorAction::Idle => "idle",
        CoordinatorAction::QueryAllContests => "query",
        CoordinatorAction::SubmitVotes(_) => "submit",
    }
}

#[test]
fn confirm_with_all_selects_every_voter_in_order() {
    let mut intent = pending_vote(
        &"alice".to_string(),
        VoteChoice::TowardContestant("claimant-1".to_string()),
    );
    let voters = vec![
        identity("m1", IdentityKind::Masternode),
        identity("e1", IdentityKind::Evonode),
    ];
    confirm_with_all(&mut intent, &voters);
    assert_eq!(intent.voter_ids, vec!["m1", "e1"]);
}

#[test]
fn max_votes_and_locked_lead() {
    let mut c = contest("alice", Some(5));
    c.contestants = vec![
        Contestant { identity_id: "a".to_string(), name: "ann".to_string(), votes: 3 },
        Contestant { identity_id: "b".to_string(), name: "ben".to_string(), votes: 4 },
    ];
    assert_eq!(max_contestant_votes(&c), 4);
    assert!(locked_votes_lead(&c));

    c.locked_votes = Some(4);
    assert!(!locked_votes_lead(&c));

    c.locked_votes = None;
    assert!(!locked_votes_lead(&c));

    let empty = contest("bob", None);
    assert_eq!(max_contestant_votes(&empty), 0);
    assert!(!locked_votes_lead(&empty));
}

#[test]
fn register_control_follows_user_identities() {
    let with_user = LocalCacheStore::from_loaded(
        Vec::new(),
        Vec::new(),
        vec![identity("u1", IdentityKind::User)],
    );
    let coordinator = Coordinator::new(with_user);
    assert!(coordinator.has_register_identity());
    assert!(!coordinator.can_vote_now());

    let with_voter = LocalCacheStore::from_loaded(
        Vec::new(),
        vec![identity("m1", IdentityKind::Masternode)],
        Vec::new(),
    );
    let coordinator = Coordinator::new(with_voter);
    assert!(!coordinator.has_register_identity());
    assert!(coordinator.can_vote_now());
}

#[test]
fn replace_contest_admits_new_name() {
    let mut cache = LocalCacheStore::from_loaded(vec![contest("alice", None)], Vec::new(), Vec::new());
    let mut sync = RefreshSynchronizer::new();
    let key = "dora".to_string();
    assert!(sync.begin_refresh(&key));
    sync.complete_refresh(&key, contest("dora", Some(11)), &mut cache);
    assert_eq!(cache.get_contests().len(), 2);
    assert_eq!(cache.find_contest(&key).unwrap().locked_votes, Some(11));
}
