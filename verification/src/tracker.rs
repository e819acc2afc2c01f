//! The poll-dedupe-notify cycle as a state machine. The tracker decides; the
//! caller performs each action it is handed and reports the outcome as the
//! next event.

use crate::config::{verdict, Config, ConfigError, ConfigErrorView, CLEANUP_MARGIN};
use crate::ledger::StorageError;
use crate::notifier::{notify_error_text, NotifyError};
use crate::scraper::{fetch_error_text, CommitResult, FetchError};
use vstd::prelude::*;
use vstd::string::*;

verus! {

/// Why a cycle ended without announcing what it set out to.
#[derive(Debug, PartialEq, Eq)]
pub enum CycleError {
    Fetch(FetchError),
    Notify(NotifyError),
    Storage(StorageError),
}

impl CycleError {
    /// The error in words.
    pub fn message(&self) -> (r: String)
        ensures
            r@ == match self {
                CycleError::Fetch(e) => fetch_error_text(e@),
                CycleError::Notify(e) => notify_error_text(e@),
                CycleError::Storage(e) => e@.detail,
            },
    {
        match self {
            CycleError::Fetch(e) => e.message(),
            CycleError::Notify(e) => e.message(),
            CycleError::Storage(e) => e.message(),
        }
    }
}

/// Where the tracker stands. A cycle runs from `Fetching` to `Sleeping`;
/// `Counting` and `Trimming` are the two halves of the retention step.
#[derive(Debug, PartialEq, Eq)]
pub enum Phase {
    /// Not started.
    Idle,
    /// Waiting to learn what the ledger last recorded.
    Resuming,
    /// Waiting for the feed.
    Fetching,
    /// Waiting to learn whether the fetched commit is in the ledger.
    Checking(CommitResult),
    /// Waiting for the webhook's answer on the fetched commit.
    Notifying(CommitResult),
    /// Waiting for the ledger to take the announced commit.
    Recording,
    /// Waiting for the size of the ledger.
    Counting,
    /// Waiting for the ledger to be trimmed.
    Trimming,
    /// Waiting for the next tick.
    Sleeping,
    /// Given up: the ledger could not be read at startup.
    Stopped,
}

/// What the caller is to do next.
#[derive(Debug, PartialEq, Eq)]
pub enum Action {
    /// Ask the ledger for its highest commit id and that entry's changeset.
    LoadLastSent,
    /// Fetch the latest commit from the feed at `url`.
    Fetch { url: String },
    /// Ask the ledger whether it holds `commit_id`.
    CheckSent { commit_id: i32 },
    /// Announce `result` on the webhook.
    Notify { result: CommitResult },
    /// Record the commit in the ledger.
    Record { commit_id: i32, author: String, message: String, branch: String, changeset: String },
    /// Ask the ledger how many entries it holds.
    Count,
    /// Trim the ledger to its `keep_last` highest entries.
    Trim { keep_last: i64 },
    /// The cycle is over with `outcome`; report it and wait `secs` seconds.
    Sleep { secs: u64, outcome: Result<(), CycleError> },
    /// Startup failed; stop.
    Abort { error: StorageError },
}

/// What the caller reports back.
#[derive(Debug, PartialEq, Eq)]
pub enum Event {
    LastSent(Result<Option<(i32, String)>, StorageError>),
    Fetched(Result<CommitResult, FetchError>),
    Checked(Result<bool, StorageError>),
    Notified(Result<(), NotifyError>),
    Recorded(Result<(), StorageError>),
    Counted(Result<i64, StorageError>),
    Trimmed(Result<(), StorageError>),
    /// The wait is over.
    Woke,
}

/// Whether a ledger of `count` entries is due for trimming to `keep_last`:
/// only once it has outgrown the bound by more than the margin.
pub open spec fn wants_trim(count: i64, keep_last: i64) -> bool {
    count > keep_last + CLEANUP_MARGIN
}

/// The action that opens a cycle.
pub open spec fn fetch_of(config: Config) -> Action {
    Action::Fetch { url: config.monitoring.commits_url }
}

/// The action that records the commit of `result`.
pub open spec fn record_of(result: CommitResult) -> Action {
    Action::Record {
        commit_id: result.commit.id,
        author: result.commit.user.name,
        message: result.commit.message,
        branch: result.commit.branch,
        changeset: result.commit.changeset,
    }
}

/// The end of a cycle: on to `Sleeping`, with the cycle's outcome.
pub open spec fn rest(config: Config, outcome: Result<(), CycleError>) -> Option<(Phase, Action)> {
    Some((Phase::Sleeping, Action::Sleep { secs: config.monitoring.check_interval_secs, outcome }))
}

/// The transition function: the phase that follows and the action to take
/// when `event` arrives in `phase`; `None` where `phase` waits for no such
/// event.
pub open spec fn step(config: Config, phase: Phase, event: Event) -> Option<(Phase, Action)> {
    match phase {
        Phase::Resuming => match event {
            Event::LastSent(Ok(_)) => Some((Phase::Fetching, fetch_of(config))),
            Event::LastSent(Err(error)) => Some((Phase::Stopped, Action::Abort { error })),
            _ => None,
        },
        Phase::Fetching => match event {
            Event::Fetched(Ok(result)) => Some(
                (Phase::Checking(result), Action::CheckSent { commit_id: result.commit.id }),
            ),
            Event::Fetched(Err(e)) => rest(config, Err(CycleError::Fetch(e))),
            _ => None,
        },
        Phase::Checking(result) => match event {
            Event::Checked(Ok(sent)) => if sent {
                rest(config, Ok(()))
            } else {
                Some((Phase::Notifying(result), Action::Notify { result }))
            },
            Event::Checked(Err(e)) => rest(config, Err(CycleError::Storage(e))),
            _ => None,
        },
        Phase::Notifying(result) => match event {
            Event::Notified(Ok(_)) => Some((Phase::Recording, record_of(result))),
            Event::Notified(Err(e)) => rest(config, Err(CycleError::Notify(e))),
            _ => None,
        },
        Phase::Recording => match event {
            Event::Recorded(Ok(_)) => Some((Phase::Counting, Action::Count)),
            Event::Recorded(Err(e)) => rest(config, Err(CycleError::Storage(e))),
            _ => None,
        },
        Phase::Counting => match event {
            Event::Counted(Ok(count)) => if wants_trim(count, config.database.cleanup_keep_last) {
                Some(
                    (Phase::Trimming, Action::Trim { keep_last: config.database.cleanup_keep_last }),
                )
            } else {
                rest(config, Ok(()))
            },
            Event::Counted(Err(e)) => rest(config, Err(CycleError::Storage(e))),
            _ => None,
        },
        Phase::Trimming => match event {
            Event::Trimmed(Ok(_)) => rest(config, Ok(())),
            Event::Trimmed(Err(e)) => rest(config, Err(CycleError::Storage(e))),
            _ => None,
        },
        Phase::Sleeping => match event {
            Event::Woke => Some((Phase::Fetching, fetch_of(config))),
            _ => None,
        },
        Phase::Idle => None,
        Phase::Stopped => None,
    }
}

fn fetch_action(config: &Config) -> (r: Action)
    ensures
        r == fetch_of(*config),
{
    Action::Fetch { url: config.monitoring.commits_url.clone() }
}

fn finish(config: &Config, outcome: Result<(), CycleError>) -> (r: Option<(Phase, Action)>)
    ensures
        r == rest(*config, outcome),
{
    Some((Phase::Sleeping, Action::Sleep { secs: config.monitoring.check_interval_secs, outcome }))
}

/// Whether a ledger of `count` entries is due for trimming to `keep_last`.
pub fn due_for_trim(count: i64, keep_last: i64) -> (r: bool)
    ensures
        r == wants_trim(count, keep_last),
{
    keep_last <= i64::MAX - CLEANUP_MARGIN && count > keep_last + CLEANUP_MARGIN
}

fn decide(config: &Config, phase: &Phase, event: Event) -> (r: Option<(Phase, Action)>)
    ensures
        r == step(*config, *phase, event),
{
    match phase {
        Phase::Resuming => match event {
            Event::LastSent(Ok(_)) => Some((Phase::Fetching, fetch_action(config))),
            Event::LastSent(Err(error)) => Some((Phase::Stopped, Action::Abort { error })),
            _ => None,
        },
        Phase::Fetching => match event {
            Event::Fetched(Ok(result)) => {
                let commit_id: i32 = result.commit.id;
                Some((Phase::Checking(result), Action::CheckSent { commit_id }))
            },
            Event::Fetched(Err(e)) => finish(config, Err(CycleError::Fetch(e))),
            _ => None,
        },
        Phase::Checking(result) => match event {
            Event::Checked(Ok(sent)) => if sent {
                finish(config, Ok(()))
            } else {
                Some((Phase::Notifying(result.clone()), Action::Notify { result: result.clone() }))
            },
            Event::Checked(Err(e)) => finish(config, Err(CycleError::Storage(e))),
            _ => None,
        },
        Phase::Notifying(result) => match event {
            Event::Notified(Ok(_)) => Some(
                (
                    Phase::Recording,
                    Action::Record {
                        commit_id: result.commit.id,
                        author: result.commit.user.name.clone(),
                        message: result.commit.message.clone(),
                        branch: result.commit.branch.clone(),
                        changeset: result.commit.changeset.clone(),
                    },
                ),
            ),
            Event::Notified(Err(e)) => finish(config, Err(CycleError::Notify(e))),
            _ => None,
        },
        Phase::Recording => match event {
            Event::Recorded(Ok(_)) => Some((Phase::Counting, Action::Count)),
            Event::Recorded(Err(e)) => finish(config, Err(CycleError::Storage(e))),
            _ => None,
        },
        Phase::Counting => match event {
            Event::Counted(Ok(count)) => if due_for_trim(count, config.database.cleanup_keep_last) {
                Some(
                    (Phase::Trimming, Action::Trim { keep_last: config.database.cleanup_keep_last }),
                )
            } else {
                finish(config, Ok(()))
            },
            Event::Counted(Err(e)) => finish(config, Err(CycleError::Storage(e))),
            _ => None,
        },
        Phase::Trimming => match event {
            Event::Trimmed(Ok(_)) => finish(config, Ok(())),
            Event::Trimmed(Err(e)) => finish(config, Err(CycleError::Storage(e))),
            _ => None,
        },
        Phase::Sleeping => match event {
            Event::Woke => Some((Phase::Fetching, fetch_action(config))),
            _ => None,
        },
        Phase::Idle => None,
        Phase::Stopped => None,
    }
}

/// The tracker: a valid configuration and the phase it stands in.
#[derive(Debug)]
pub struct CommitTracker {
    config: Config,
    phase: Phase,
}

impl CommitTracker {
    /// The configuration that the tracker runs under.
    pub closed spec fn config(&self) -> Config {
        self.config
    }

    /// The phase that the tracker stands in.
    pub closed spec fn phase(&self) -> Phase {
        self.phase
    }

    /// A tracker under `config`, not yet started. A configuration that breaks
    /// a rule is refused with the rule it breaks.
    pub fn new(config: Config) -> (r: Result<Self, ConfigError>)
        ensures
            match r {
                Ok(tracker) => verdict(config@) is Ok && tracker.config() == config
                    && tracker.phase() == Phase::Idle,
                Err(e) => verdict(config@) == Err::<(), ConfigErrorView>(e@),
            },
    {
        match config.validate() {
            Ok(_) => Ok(CommitTracker { config, phase: Phase::Idle }),
            Err(e) => Err(e),
        }
    }

    /// Starts the tracker, from whatever phase: the first thing to do is to
    /// ask the ledger what it last recorded.
    pub fn start(&mut self) -> (r: Action)
        ensures
            r == Action::LoadLastSent,
            final(self).phase() == Phase::Resuming,
            final(self).config() == old(self).config(),
    {
        self.phase = Phase::Resuming;
        Action::LoadLastSent
    }

    /// Takes the outcome of the last action and says what to do next, as
    /// `step` lays down. An event that the current phase does not wait for is
    /// answered with `None` and changes nothing.
    pub fn advance(&mut self, event: Event) -> (r: Option<Action>)
        ensures
            final(self).config() == old(self).config(),
            match step(old(self).config(), old(self).phase(), event) {
                Some(next) => r == Some(next.1) && final(self).phase() == next.0,
                None => r is None && final(self).phase() == old(self).phase(),
            },
    {
        match decide(&self.config, &self.phase, event) {
            Some(next) => {
                self.phase = next.0;
                Some(next.1)
            },
            None => None,
        }
    }

    /// The retention count of the tracker's configuration.
    pub fn keep_last(&self) -> (r: i64)
        ensures
            r == self.config().database.cleanup_keep_last,
    {
        self.config.database.cleanup_keep_last
    }

    /// The phase that the tracker stands in.
    pub fn current_phase(&self) -> (r: &Phase)
        ensures
            *r == self.phase(),
    {
        &self.phase
    }
}

} // verus!
