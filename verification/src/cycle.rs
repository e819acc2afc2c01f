//! One cycle of the tracker against a ledger: the ledger's side of the
//! protocol, a model of the world that answers the tracker's actions, and
//! what holds of every cycle whatever the world answers.

use crate::clock::now_rfc3339;
use crate::config::Config;
use crate::ledger::{is_latest, recorded, trimmed, Database, LedgerEntryView, StorageError};
use crate::notifier::NotifyError;
use crate::scraper::{CommitResult, FetchError};
use crate::tracker::{
    due_for_trim, fetch_of, record_of, step, wants_trim, Action, CommitTracker, CycleError, Event,
    Phase,
};
use vstd::prelude::*;
use vstd::string::*;

verus! {

/// What the world outside answers in the course of one cycle: the feed's and
/// the webhook's answers, the time, and for each request to the ledger the
/// fault that keeps the store from serving it, if any.
pub struct Outcomes {
    pub fetched: Result<CommitResult, FetchError>,
    pub check_fault: Option<StorageError>,
    pub notified: Result<(), NotifyError>,
    pub record_fault: Option<StorageError>,
    pub sent_at: Seq<char>,
    pub count_fault: Option<StorageError>,
    pub trim_fault: Option<StorageError>,
}

/// What a cycle can change: the ledger, and the announcements that the
/// webhook was asked to make.
pub struct World {
    pub ledger: Map<int, LedgerEntryView>,
    pub announced: Seq<CommitResult>,
}

/// The ledger entry that a `Record` action asks for, stamped `sent_at`.
pub open spec fn entry_of(action: Action, sent_at: Seq<char>) -> LedgerEntryView {
    match action {
        Action::Record { commit_id, author, message, branch, changeset } => LedgerEntryView {
            commit_id,
            author: author@,
            message: message@,
            branch: branch@,
            changeset: changeset@,
            sent_at,
        },
        _ => arbitrary(),
    }
}

/// The answer of a store that may fail: the fault where there is one, else
/// the value.
pub open spec fn served<T>(fault: Option<StorageError>, value: T) -> Result<T, StorageError> {
    match fault {
        Some(e) => Err(e),
        None => Ok(value),
    }
}

/// The world after `action` was performed in it, and the event that reports
/// the outcome. A request that the store fails to serve leaves the ledger as
/// it was.
pub open spec fn respond(world: World, action: Action, o: Outcomes) -> (World, Event) {
    match action {
        Action::Fetch { url } => (world, Event::Fetched(o.fetched)),
        Action::CheckSent { commit_id } => (
            world,
            Event::Checked(served(o.check_fault, world.ledger.contains_key(commit_id as int))),
        ),
        Action::Notify { result } => (
            World { ledger: world.ledger, announced: world.announced.push(result) },
            Event::Notified(o.notified),
        ),
        Action::Record { commit_id, author, message, branch, changeset } => (
            if o.record_fault is Some {
                world
            } else {
                World {
                    ledger: recorded(world.ledger, entry_of(action, o.sent_at)),
                    announced: world.announced,
                }
            },
            Event::Recorded(served(o.record_fault, ())),
        ),
        Action::Count => (
            world,
            Event::Counted(served(o.count_fault, world.ledger.dom().len() as i64)),
        ),
        Action::Trim { keep_last } => (
            if o.trim_fault is Some {
                world
            } else {
                World {
                    ledger: trimmed(world.ledger, keep_last as int),
                    announced: world.announced,
                }
            },
            Event::Trimmed(served(o.trim_fault, ())),
        ),
        _ => (world, Event::Woke),
    }
}

/// The tracker and the world taking turns, from `action` on, until the
/// tracker asks to sleep or to stop, for `fuel` turns at most.
pub open spec fn run(
    config: Config,
    phase: Phase,
    action: Action,
    world: World,
    o: Outcomes,
    fuel: nat,
) -> (Phase, Action, World)
    decreases fuel,
{
    if fuel == 0 || action is Sleep || action is Abort {
        (phase, action, world)
    } else {
        let answer = respond(world, action, o);
        match step(config, phase, answer.1) {
            Some(next) => run(config, next.0, next.1, answer.0, o, (fuel - 1) as nat),
            None => (phase, action, answer.0),
        }
    }
}

/// One whole cycle: from the fetch to the sleep. A cycle takes six actions
/// at most before it asks to sleep.
pub open spec fn cycle(config: Config, world: World, o: Outcomes) -> (Phase, Action, World) {
    run(config, Phase::Fetching, fetch_of(config), world, o, 7)
}

/// The ledger after the commit of `result` was announced and recorded, and
/// the retention step was taken.
pub open spec fn announced_ledger(
    config: Config,
    ledger: Map<int, LedgerEntryView>,
    result: CommitResult,
    o: Outcomes,
) -> Map<int, LedgerEntryView> {
    let grown = recorded(ledger, entry_of(record_of(result), o.sent_at));
    if o.count_fault is None && wants_trim(
        grown.dom().len() as i64,
        config.database.cleanup_keep_last,
    ) && o.trim_fault is None {
        trimmed(grown, config.database.cleanup_keep_last as int)
    } else {
        grown
    }
}

/// Every cycle ends with the tracker asleep, whatever the world answered: no
/// failure within a cycle stops the tracker.
pub proof fn lemma_cycle_ends_asleep(config: Config, world: World, o: Outcomes)
    ensures
        cycle(config, world, o).0 == Phase::Sleeping,
        cycle(config, world, o).1 is Sleep,
        cycle(config, world, o).1->secs == config.monitoring.check_interval_secs,
{
    reveal_with_fuel(run, 8);
}

/// A cycle whose fetch fails changes nothing and announces nothing; it ends
/// with that failure as its outcome.
pub proof fn lemma_failed_fetch_changes_nothing(config: Config, world: World, o: Outcomes)
    requires
        o.fetched is Err,
    ensures
        cycle(config, world, o).2 == world,
        cycle(config, world, o).1->outcome == Err::<(), CycleError>(
            CycleError::Fetch(o.fetched->Err_0),
        ),
{
    reveal_with_fuel(run, 8);
}

/// A cycle that fetches a commit which the ledger holds does not ask the
/// webhook for anything, and leaves the ledger as it was.
pub proof fn lemma_seen_commit_is_not_announced(
    config: Config,
    world: World,
    o: Outcomes,
    result: CommitResult,
)
    requires
        o.fetched == Ok::<CommitResult, FetchError>(result),
        world.ledger.contains_key(result.commit.id as int),
    ensures
        cycle(config, world, o).2 == world,
{
    reveal_with_fuel(run, 8);
}

/// The webhook is asked at most once in a cycle, and only for the fetched
/// commit, and only where the ledger said that it does not hold it.
pub proof fn lemma_announces_only_new_commits(config: Config, world: World, o: Outcomes)
    ensures
        cycle(config, world, o).2.announced == world.announced || (o.fetched is Ok
            && o.check_fault is None && !world.ledger.contains_key(
            o.fetched->Ok_0.commit.id as int,
        ) && cycle(config, world, o).2.announced == world.announced.push(o.fetched->Ok_0)),
{
    reveal_with_fuel(run, 8);
}

/// At-least-once delivery: where the announcement fails, or it succeeds and
/// recording it fails, the ledger is left as it was and so does not hold
/// the commit, which the next cycle therefore takes up again.
pub proof fn lemma_failed_delivery_is_not_recorded(
    config: Config,
    world: World,
    o: Outcomes,
    result: CommitResult,
)
    requires
        o.fetched == Ok::<CommitResult, FetchError>(result),
        !world.ledger.contains_key(result.commit.id as int),
        o.notified is Err || o.record_fault is Some,
    ensures
        cycle(config, world, o).2.ledger == world.ledger,
        !cycle(config, world, o).2.ledger.contains_key(result.commit.id as int),
        cycle(config, world, o).1->outcome is Err,
{
    reveal_with_fuel(run, 8);
}

/// The ledger changes only in a cycle that announced its commit with
/// success: whenever a commit enters the ledger, the webhook has taken it.
pub proof fn lemma_recorded_only_after_delivery(config: Config, world: World, o: Outcomes)
    requires
        cycle(config, world, o).2.ledger != world.ledger,
    ensures
        o.fetched is Ok,
        o.notified is Ok,
        cycle(config, world, o).2.announced == world.announced.push(o.fetched->Ok_0),
{
    reveal_with_fuel(run, 8);
}

/// A cycle in which nothing fails and the commit is new announces it once
/// and records it; the retention step then trims the ledger where it has
/// outgrown its bound by more than the margin.
pub proof fn lemma_new_commit_is_announced_and_recorded(
    config: Config,
    world: World,
    o: Outcomes,
    result: CommitResult,
)
    requires
        o.fetched == Ok::<CommitResult, FetchError>(result),
        !world.ledger.contains_key(result.commit.id as int),
        o.check_fault is None,
        o.notified is Ok,
        o.record_fault is None,
    ensures
        cycle(config, world, o).2.announced == world.announced.push(result),
        cycle(config, world, o).2.ledger == announced_ledger(config, world.ledger, result, o),
        recorded(
            world.ledger,
            entry_of(record_of(result), o.sent_at),
        ).contains_key(result.commit.id as int),
{
    reveal_with_fuel(run, 8);
}

/// What one cycle came to.
#[derive(Debug, PartialEq, Eq)]
pub struct CycleReport {
    /// The commit that the webhook was asked to announce, if it was asked.
    pub announced: Option<CommitResult>,
    /// How the cycle ended.
    pub outcome: Result<(), CycleError>,
}

/// The outcomes of a cycle in which the store serves every request.
pub open spec fn with_sound_store(
    fetched: Result<CommitResult, FetchError>,
    notified: Result<(), NotifyError>,
    sent_at: Seq<char>,
) -> Outcomes {
    Outcomes {
        fetched,
        check_fault: None,
        notified,
        record_fault: None,
        sent_at,
        count_fault: None,
        trim_fault: None,
    }
}

/// The announcements of a cycle that announced `commit`, or nothing.
pub open spec fn announcements(commit: Option<CommitResult>) -> Seq<CommitResult> {
    match commit {
        Some(result) => seq![result],
        None => Seq::empty(),
    }
}

/// Whether `report` and `ledger` are what the cycle under `config` leaves,
/// started on the ledger `before` with nothing announced yet and answered
/// with `o`.
pub open spec fn is_cycle_result(
    config: Config,
    before: Map<int, LedgerEntryView>,
    o: Outcomes,
    report: CycleReport,
    ledger: Map<int, LedgerEntryView>,
) -> bool {
    let end = cycle(config, World { ledger: before, announced: Seq::empty() }, o);
    &&& end.1 == Action::Sleep {
        secs: config.monitoring.check_interval_secs,
        outcome: report.outcome,
    }
    &&& end.2.ledger == ledger
    &&& end.2.announced == announcements(report.announced)
}

impl CommitTracker {
    /// Runs one whole cycle against a ledger in memory: `fetched` is what
    /// the feed answered, `delivery` what the webhook answers if it is
    /// asked, `sent_at` the time. What comes of it is what the tracker's
    /// transitions and the ledger's answers, taking turns, come to.
    pub fn check_for_new_commits_at(
        &self,
        ledger: &mut Database,
        fetched: Result<CommitResult, FetchError>,
        delivery: Result<(), NotifyError>,
        sent_at: &str,
    ) -> (report: CycleReport)
        requires
            old(ledger).wf(),
        ensures
            final(ledger).wf(),
            is_cycle_result(
                self.config(),
                old(ledger)@,
                with_sound_store(fetched, delivery, sent_at@),
                report,
                final(ledger)@,
            ),
    {
        proof {
            reveal_with_fuel(run, 8);
        }
        let result = match fetched {
            Ok(result) => result,
            Err(e) => {
                return CycleReport { announced: None, outcome: Err(CycleError::Fetch(e)) };
            },
        };
        if ledger.is_commit_sent(result.commit.id) {
            return CycleReport { announced: None, outcome: Ok(()) };
        }
        if let Err(e) = delivery {
            return CycleReport { announced: Some(result), outcome: Err(CycleError::Notify(e)) };
        }
        ledger.record_at(
            result.commit.id,
            result.commit.author(),
            result.commit.message.as_str(),
            result.commit.branch.as_str(),
            result.commit.changeset.as_str(),
            sent_at,
        );
        let keep_last: i64 = self.keep_last();
        let count: i64 = ledger.get_sent_commits_count();
        if due_for_trim(count, keep_last) {
            ledger.cleanup_old_commits(keep_last);
        }
        let report = CycleReport { announced: Some(result), outcome: Ok(()) };
        assert(announcements(report.announced) =~= Seq::<CommitResult>::empty().push(result));
        report
    }

    /// Runs one whole cycle against a ledger in memory, at the current
    /// time. Everything but the time of a new entry is fixed by the
    /// arguments.
    pub fn check_for_new_commits(
        &self,
        ledger: &mut Database,
        fetched: Result<CommitResult, FetchError>,
        delivery: Result<(), NotifyError>,
    ) -> (report: CycleReport)
        requires
            old(ledger).wf(),
        ensures
            final(ledger).wf(),
            exists|sent_at: Seq<char>|
                is_cycle_result(
                    self.config(),
                    old(ledger)@,
                    #[trigger] with_sound_store(fetched, delivery, sent_at),
                    report,
                    final(ledger)@,
                ),
    {
        let stamp = now_rfc3339();
        let report = self.check_for_new_commits_at(ledger, fetched, delivery, stamp.as_str());
        assert(is_cycle_result(
            self.config(),
            old(ledger)@,
            with_sound_store(fetched, delivery, stamp@),
            report,
            ledger@,
        ));
        report
    }
}

impl Database {
    /// Serves a request to the ledger: performs `action` where it is one of
    /// the five that address the ledger, and answers with the event that
    /// reports it. Any other action is not for the ledger and is answered
    /// with `None`. A ledger in memory does not fail.
    pub fn serve(&mut self, action: &Action) -> (r: Option<Event>)
        requires
            old(self).wf(),
        ensures
            final(self).wf(),
            match *action {
                Action::LoadLastSent => final(self)@ == old(self)@ && match r {
                    Some(Event::LastSent(Ok(Some(last)))) => is_latest(old(self)@, last.0 as int)
                        && last.1@ == old(self)@[last.0 as int].changeset,
                    Some(Event::LastSent(Ok(None))) => old(self)@ == Map::<
                        int,
                        LedgerEntryView,
                    >::empty(),
                    _ => false,
                },
                Action::CheckSent { commit_id } => final(self)@ == old(self)@ && r == Some(
                    Event::Checked(Ok(old(self)@.contains_key(commit_id as int))),
                ),
                Action::Record { commit_id, author, message, branch, changeset } => r == Some(
                    Event::Recorded(Ok(())),
                ) && final(self)@.contains_key(commit_id as int) && final(self)@ == recorded(
                    old(self)@,
                    entry_of(*action, final(self)@[commit_id as int].sent_at),
                ),
                Action::Count => final(self)@ == old(self)@ && r == Some(
                    Event::Counted(Ok(old(self)@.dom().len() as i64)),
                ),
                Action::Trim { keep_last } => r == Some(Event::Trimmed(Ok(()))) && final(self)@
                    == trimmed(old(self)@, keep_last as int),
                _ => r is None && final(self)@ == old(self)@,
            },
    {
        match action {
            Action::LoadLastSent => Some(Event::LastSent(Ok(self.get_last_sent_commit_info()))),
            Action::CheckSent { commit_id } => Some(
                Event::Checked(Ok(self.is_commit_sent(*commit_id))),
            ),
            Action::Record { commit_id, author, message, branch, changeset } => {
                self.mark_commit_sent(
                    *commit_id,
                    author.as_str(),
                    message.as_str(),
                    branch.as_str(),
                    changeset.as_str(),
                );
                Some(Event::Recorded(Ok(())))
            },
            Action::Count => Some(Event::Counted(Ok(self.get_sent_commits_count()))),
            Action::Trim { keep_last } => {
                self.cleanup_old_commits(*keep_last);
                Some(Event::Trimmed(Ok(())))
            },
            _ => None,
        }
    }
}

} // verus!
