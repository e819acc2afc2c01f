use rust_commit_tracker::{
    Action, CommitInfo, CommitResult, CommitTracker, CommitUser, Config, ConfigError, CycleError,
    Database, Event, FetchError, NotifyError, Phase, StorageError,
};

fn tracker_config(keep_last: i64) -> Config {
    let mut config = Config::default();
    config.discord.webhook_url = "https://discord.com/api/webhooks/1/token".to_string();
    config.monitoring.check_interval_secs = 30;
    config.database.cleanup_keep_last = keep_last;
    config
}

fn tracker_result(id: i32) -> CommitResult {
    CommitResult {
        commit: CommitInfo {
            id,
            repo: "rust_reboot".to_string(),
            branch: "main".to_string(),
            changeset: format!("cs-{}", id),
            created: "2024-01-01T00:00:00".to_string(),
            likes: 0,
            dislikes: 0,
            message: format!("commit {}", id),
            user: CommitUser { name: "Garry".to_string(), avatar: "a.png".to_string() },
        },
        total_commits: 5000,
        position: 1,
    }
}

fn storage_down() -> StorageError {
    StorageError { detail: "database is locked".to_string() }
}

fn started_tracker(keep_last: i64) -> CommitTracker {
    let mut tracker = CommitTracker::new(tracker_config(keep_last)).unwrap();
    assert_eq!(tracker.start(), Action::LoadLastSent);
    let action = tracker.advance(Event::LastSent(Ok(None)));
    assert_eq!(
        action,
        Some(Action::Fetch { url: "https://commits.facepunch.com/?format=json".to_string() })
    );
    tracker
}

/// Runs one cycle from the fetch on against `ledger`; returns the commits
/// that the webhook was asked to announce and the cycle's outcome.
fn run_one_cycle(
    tracker: &mut CommitTracker,
    ledger: &mut Database,
    fetched: Result<CommitResult, FetchError>,
    delivery: Result<(), NotifyError>,
) -> (Vec<CommitResult>, Result<(), CycleError>) {
    let mut announced = Vec::new();
    let mut delivery = Some(delivery);
    let mut action = tracker.advance(Event::Fetched(fetched)).unwrap();
    for _ in 0..8 {
        let event = match action {
            Action::Notify { result } => {
                announced.push(result);
                Event::Notified(delivery.take().unwrap())
            }
            Action::Sleep { secs, outcome } => {
                assert_eq!(secs, 30);
                assert_eq!(tracker.current_phase(), &Phase::Sleeping);
                return (announced, outcome);
            }
            other => ledger.serve(&other).unwrap(),
        };
        action = tracker.advance(event).unwrap();
    }
    panic!("the cycle did not end");
}

fn wake(tracker: &mut CommitTracker) {
    assert_eq!(
        tracker.advance(Event::Woke),
        Some(Action::Fetch { url: "https://commits.facepunch.com/?format=json".to_string() })
    );
}

#[test]
fn tracker_refuses_an_invalid_configuration() {
    assert_eq!(
        CommitTracker::new(Config::default()).err(),
        Some(ConfigError::WebhookNotConfigured)
    );
    let mut config = Config::default();
    config.discord.webhook_url = "https://example.com".to_string();
    assert_eq!(
        CommitTracker::new(config).err(),
        Some(ConfigError::InvalidWebhookFormat { got: "https://example.com".to_string() })
    );
}

#[test]
fn new_tracker_is_idle_and_waits_for_no_event() {
    let mut tracker = CommitTracker::new(tracker_config(1000)).unwrap();
    assert_eq!(tracker.current_phase(), &Phase::Idle);
    assert_eq!(tracker.advance(Event::Woke), None);
    assert_eq!(tracker.advance(Event::Fetched(Ok(tracker_result(1)))), None);
    assert_eq!(tracker.current_phase(), &Phase::Idle);
}

#[test]
fn startup_reads_the_ledger_then_fetches() {
    let mut tracker = CommitTracker::new(tracker_config(1000)).unwrap();
    assert_eq!(tracker.start(), Action::LoadLastSent);
    assert_eq!(tracker.current_phase(), &Phase::Resuming);
    let action = tracker.advance(Event::LastSent(Ok(Some((41, "cs-41".to_string())))));
    assert_eq!(
        action,
        Some(Action::Fetch { url: "https://commits.facepunch.com/?format=json".to_string() })
    );
    assert_eq!(tracker.current_phase(), &Phase::Fetching);
}

#[test]
fn startup_failure_stops_the_tracker() {
    let mut tracker = CommitTracker::new(tracker_config(1000)).unwrap();
    tracker.start();
    let action = tracker.advance(Event::LastSent(Err(storage_down())));
    assert_eq!(action, Some(Action::Abort { error: storage_down() }));
    assert_eq!(tracker.current_phase(), &Phase::Stopped);
    assert_eq!(tracker.advance(Event::Woke), None);
    assert_eq!(tracker.current_phase(), &Phase::Stopped);
}

#[test]
fn new_commit_is_announced_once_and_recorded() {
    let mut tracker = started_tracker(1000);
    let mut ledger = Database::new();
    let (announced, outcome) =
        run_one_cycle(&mut tracker, &mut ledger, Ok(tracker_result(7)), Ok(()));
    assert_eq!(announced, vec![tracker_result(7)]);
    assert_eq!(outcome, Ok(()));
    assert!(ledger.is_commit_sent(7));
    assert_eq!(ledger.get_sent_commits_count(), 1);
    assert_eq!(ledger.get_last_sent_commit_info(), Some((7, "cs-7".to_string())));
}

#[test]
fn seen_commit_is_not_announced_again() {
    let mut tracker = started_tracker(1000);
    let mut ledger = Database::new();
    ledger.mark_commit_sent(7, "Garry", "commit 7", "main", "cs-7");
    let (announced, outcome) =
        run_one_cycle(&mut tracker, &mut ledger, Ok(tracker_result(7)), Ok(()));
    assert!(announced.is_empty());
    assert_eq!(outcome, Ok(()));
    assert_eq!(ledger.get_sent_commits_count(), 1);
}

#[test]
fn commit_42_in_the_ledger_is_not_announced() {
    let mut tracker = started_tracker(1000);
    let mut ledger = Database::new();
    for id in [40, 41, 42, 43] {
        ledger.mark_commit_sent(id, "a", "m", "b", "c");
    }
    let (announced, _) = run_one_cycle(
        &mut tracker,
        &mut ledger,
        Ok(tracker_result(42)),
        Err(NotifyError::Rejected { status: 500 }),
    );
    assert!(announced.is_empty());
}

#[test]
fn same_commit_over_two_cycles_is_announced_once() {
    let mut tracker = started_tracker(1000);
    let mut ledger = Database::new();
    let (first, _) = run_one_cycle(&mut tracker, &mut ledger, Ok(tracker_result(7)), Ok(()));
    wake(&mut tracker);
    let (second, outcome) = run_one_cycle(&mut tracker, &mut ledger, Ok(tracker_result(7)), Ok(()));
    assert_eq!(first.len(), 1);
    assert_eq!(second.len(), 0);
    assert_eq!(outcome, Ok(()));
}

#[test]
fn failed_fetch_leaves_the_ledger_unchanged() {
    let mut tracker = started_tracker(1000);
    let mut ledger = Database::new();
    ledger.mark_commit_sent(3, "a", "m", "b", "c");
    let (announced, outcome) = run_one_cycle(
        &mut tracker,
        &mut ledger,
        Err(FetchError::Unreachable("connection refused".to_string())),
        Ok(()),
    );
    assert!(announced.is_empty());
    assert_eq!(
        outcome,
        Err(CycleError::Fetch(FetchError::Unreachable("connection refused".to_string())))
    );
    assert_eq!(outcome.unwrap_err().message(), "connection refused");
    assert_eq!(ledger.get_sent_commits_count(), 1);
    assert!(ledger.is_commit_sent(3));
    wake(&mut tracker);
}

#[test]
fn failed_notification_is_not_recorded_and_is_retried() {
    let mut tracker = started_tracker(1000);
    let mut ledger = Database::new();
    let (announced, outcome) = run_one_cycle(
        &mut tracker,
        &mut ledger,
        Ok(tracker_result(7)),
        Err(NotifyError::Rejected { status: 429 }),
    );
    assert_eq!(announced.len(), 1);
    assert_eq!(outcome, Err(CycleError::Notify(NotifyError::Rejected { status: 429 })));
    assert!(!ledger.is_commit_sent(7));
    assert_eq!(ledger.get_sent_commits_count(), 0);
    wake(&mut tracker);
    let (again, outcome) = run_one_cycle(&mut tracker, &mut ledger, Ok(tracker_result(7)), Ok(()));
    assert_eq!(again, vec![tracker_result(7)]);
    assert_eq!(outcome, Ok(()));
    assert!(ledger.is_commit_sent(7));
}

#[test]
fn failed_recording_ends_the_cycle_without_a_ledger_request() {
    let mut tracker = started_tracker(1000);
    assert_eq!(
        tracker.advance(Event::Fetched(Ok(tracker_result(7)))),
        Some(Action::CheckSent { commit_id: 7 })
    );
    assert_eq!(
        tracker.advance(Event::Checked(Ok(false))),
        Some(Action::Notify { result: tracker_result(7) })
    );
    assert_eq!(
        tracker.advance(Event::Notified(Ok(()))),
        Some(Action::Record {
            commit_id: 7,
            author: "Garry".to_string(),
            message: "commit 7".to_string(),
            branch: "main".to_string(),
            changeset: "cs-7".to_string(),
        })
    );
    assert_eq!(tracker.current_phase(), &Phase::Recording);
    assert_eq!(
        tracker.advance(Event::Recorded(Err(storage_down()))),
        Some(Action::Sleep { secs: 30, outcome: Err(CycleError::Storage(storage_down())) })
    );
    assert_eq!(tracker.current_phase(), &Phase::Sleeping);
}

#[test]
fn failed_check_ends_the_cycle_without_announcing() {
    let mut tracker = started_tracker(1000);
    tracker.advance(Event::Fetched(Ok(tracker_result(7))));
    assert_eq!(tracker.current_phase(), &Phase::Checking(tracker_result(7)));
    assert_eq!(
        tracker.advance(Event::Checked(Err(storage_down()))),
        Some(Action::Sleep { secs: 30, outcome: Err(CycleError::Storage(storage_down())) })
    );
}

#[test]
fn retention_waits_for_the_margin() {
    let mut tracker = started_tracker(1000);
    tracker.advance(Event::Fetched(Ok(tracker_result(7))));
    tracker.advance(Event::Checked(Ok(false)));
    tracker.advance(Event::Notified(Ok(())));
    assert_eq!(tracker.advance(Event::Recorded(Ok(()))), Some(Action::Count));
    assert_eq!(tracker.current_phase(), &Phase::Counting);
    assert_eq!(
        tracker.advance(Event::Counted(Ok(1100))),
        Some(Action::Sleep { secs: 30, outcome: Ok(()) })
    );
}

#[test]
fn retention_trims_past_the_margin() {
    let mut tracker = started_tracker(1000);
    tracker.advance(Event::Fetched(Ok(tracker_result(7))));
    tracker.advance(Event::Checked(Ok(false)));
    tracker.advance(Event::Notified(Ok(())));
    tracker.advance(Event::Recorded(Ok(())));
    assert_eq!(tracker.advance(Event::Counted(Ok(1101))), Some(Action::Trim { keep_last: 1000 }));
    assert_eq!(tracker.current_phase(), &Phase::Trimming);
    assert_eq!(
        tracker.advance(Event::Trimmed(Ok(()))),
        Some(Action::Sleep { secs: 30, outcome: Ok(()) })
    );
}

#[test]
fn failed_count_and_failed_trim_only_end_the_cycle() {
    let mut tracker = started_tracker(1000);
    tracker.advance(Event::Fetched(Ok(tracker_result(7))));
    tracker.advance(Event::Checked(Ok(false)));
    tracker.advance(Event::Notified(Ok(())));
    tracker.advance(Event::Recorded(Ok(())));
    assert_eq!(
        tracker.advance(Event::Counted(Err(storage_down()))),
        Some(Action::Sleep { secs: 30, outcome: Err(CycleError::Storage(storage_down())) })
    );
    wake(&mut tracker);
    tracker.advance(Event::Fetched(Ok(tracker_result(8))));
    tracker.advance(Event::Checked(Ok(false)));
    tracker.advance(Event::Notified(Ok(())));
    tracker.advance(Event::Recorded(Ok(())));
    tracker.advance(Event::Counted(Ok(5000)));
    assert_eq!(
        tracker.advance(Event::Trimmed(Err(storage_down()))),
        Some(Action::Sleep { secs: 30, outcome: Err(CycleError::Storage(storage_down())) })
    );
    wake(&mut tracker);
}

#[test]
fn retention_bound_near_the_largest_number_never_trims() {
    let mut tracker = started_tracker(i64::MAX - 50);
    tracker.advance(Event::Fetched(Ok(tracker_result(7))));
    tracker.advance(Event::Checked(Ok(false)));
    tracker.advance(Event::Notified(Ok(())));
    tracker.advance(Event::Recorded(Ok(())));
    assert_eq!(
        tracker.advance(Event::Counted(Ok(i64::MAX))),
        Some(Action::Sleep { secs: 30, outcome: Ok(()) })
    );
}

#[test]
fn ledger_of_1100_is_trimmed_to_the_1000_highest() {
    let mut tracker = started_tracker(1000);
    let mut ledger = Database::new();
    for id in 1..=1100 {
        ledger.mark_commit_sent(id, "a", "m", "b", "c");
    }
    let (announced, outcome) =
        run_one_cycle(&mut tracker, &mut ledger, Ok(tracker_result(1101)), Ok(()));
    assert_eq!(announced.len(), 1);
    assert_eq!(outcome, Ok(()));
    assert_eq!(ledger.get_sent_commits_count(), 1000);
    assert!(ledger.is_commit_sent(1100));
    assert!(ledger.is_commit_sent(1101));
    assert!(ledger.is_commit_sent(102));
    assert!(!ledger.is_commit_sent(101));
    assert!(!ledger.is_commit_sent(1));
}

#[test]
fn event_out_of_turn_changes_nothing() {
    let mut tracker = started_tracker(1000);
    assert_eq!(tracker.advance(Event::Notified(Ok(()))), None);
    assert_eq!(tracker.advance(Event::Checked(Ok(false))), None);
    assert_eq!(tracker.advance(Event::Woke), None);
    assert_eq!(tracker.current_phase(), &Phase::Fetching);
    assert_eq!(
        tracker.advance(Event::Fetched(Ok(tracker_result(7)))),
        Some(Action::CheckSent { commit_id: 7 })
    );
}

#[test]
fn ledger_serves_only_ledger_requests() {
    let mut ledger = Database::new();
    assert_eq!(ledger.serve(&Action::Fetch { url: "u".to_string() }), None);
    assert_eq!(ledger.serve(&Action::Notify { result: tracker_result(1) }), None);
    assert_eq!(ledger.serve(&Action::Sleep { secs: 1, outcome: Ok(()) }), None);
    assert_eq!(ledger.serve(&Action::Abort { error: storage_down() }), None);
    assert_eq!(ledger.serve(&Action::LoadLastSent), Some(Event::LastSent(Ok(None))));
    assert_eq!(ledger.serve(&Action::Count), Some(Event::Counted(Ok(0))));
    assert_eq!(ledger.serve(&Action::CheckSent { commit_id: 1 }), Some(Event::Checked(Ok(false))));
    let record = Action::Record {
        commit_id: 1,
        author: "a".to_string(),
        message: "m".to_string(),
        branch: "b".to_string(),
        changeset: "c".to_string(),
    };
    assert_eq!(ledger.serve(&record), Some(Event::Recorded(Ok(()))));
    assert_eq!(ledger.serve(&Action::CheckSent { commit_id: 1 }), Some(Event::Checked(Ok(true))));
    assert_eq!(
        ledger.serve(&Action::LoadLastSent),
        Some(Event::LastSent(Ok(Some((1, "c".to_string())))))
    );
    assert_eq!(ledger.serve(&Action::Trim { keep_last: 0 }), Some(Event::Trimmed(Ok(()))));
    assert_eq!(ledger.serve(&Action::Count), Some(Event::Counted(Ok(0))));
}

#[test]
fn cycle_error_messages() {
    assert_eq!(CycleError::Fetch(FetchError::NoCommits).message(), "No commits found in response");
    assert_eq!(
        CycleError::Notify(NotifyError::Rejected { status: 502 }).message(),
        "Discord webhook failed with status: 502"
    );
    assert_eq!(CycleError::Storage(storage_down()).message(), "database is locked");
}
