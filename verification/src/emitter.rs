use crate::account::AccountData;
use vstd::prelude::*;

verus! {

/// What the node reported for one submission attempt.
#[derive(Clone, Copy, Debug, PartialEq, Eq)]
pub enum SubmitOutcome {
    /// The node confirmed inclusion of the transaction.
    Confirmed,
    /// Confirmation did not arrive within the bound (transient).
    Timeout,
    /// The connection to the instance failed (transient).
    ConnectionError,
    /// The node rejected the transaction for a stale sequence number.
    SequenceMismatch,
    /// Any other rejection by the node.
    Rejected,
}

/// What the worker must do next after an outcome was recorded.
#[derive(Clone, Copy, Debug, PartialEq, Eq)]
pub enum WorkerVerdict {
    /// The submission was accepted: build the next transaction.
    Accepted,
    /// Submit the same transaction again, with the same sequence number.
    RetrySame,
    /// Query the ledger for the authoritative sequence number, resync, and
    /// retry once with the corrected value.
    NeedResync,
    /// This submission permanently failed; the counter is untouched and the
    /// worker moves on.
    PermanentFailure,
}

/// The moves of a worker's run that touch the account's sequence counter.
pub enum WorkerEvent {
    /// The node accepted a transaction carrying the then-current counter.
    Accepted,
    /// A submission permanently failed; the counter stays.
    Failed,
    /// A resync overwrote the counter with the ledger's value.
    Resynced { authoritative: u64 },
}

/// The account's sequence counter after a run of events, starting from
/// `start`: each acceptance advances it by one, a failure leaves it, a
/// resync overwrites it.
pub open spec fn counter_after(start: int, events: Seq<WorkerEvent>) -> int
    decreases events.len(),
{
    if events.len() == 0 {
        start
    } else {
        match events.last() {
            WorkerEvent::Accepted => counter_after(start, events.drop_last()) + 1,
            WorkerEvent::Failed => counter_after(start, events.drop_last()),
            WorkerEvent::Resynced { authoritative } => authoritative as int,
        }
    }
}

/// The sequence numbers carried by the transactions the node accepted during
/// a run, in order of acceptance.
pub open spec fn accepted_numbers(start: int, events: Seq<WorkerEvent>) -> Seq<int>
    decreases events.len(),
{
    if events.len() == 0 {
        Seq::empty()
    } else {
        match events.last() {
            WorkerEvent::Accepted => accepted_numbers(start, events.drop_last()).push(
                counter_after(start, events.drop_last()),
            ),
            _ => accepted_numbers(start, events.drop_last()),
        }
    }
}

/// Every resync of the run handed back a value no smaller than the local
/// counter at that point: the ledger's authoritative counter is never behind
/// a local counter that only accepted transactions have advanced.
pub open spec fn resyncs_ahead(start: int, events: Seq<WorkerEvent>) -> bool {
    forall|i: int|
        0 <= i < events.len() ==> ((#[trigger] events[i]) matches WorkerEvent::Resynced {
            authoritative,
        } ==> authoritative as int >= counter_after(start, events.take(i)))
}

proof fn lemma_resyncs_ahead_prefix(start: int, events: Seq<WorkerEvent>)
    requires
        resyncs_ahead(start, events),
        events.len() > 0,
    ensures
        resyncs_ahead(start, events.drop_last()),
{
    let prefix = events.drop_last();
    assert forall|i: int|
        0 <= i < prefix.len() implies ((#[trigger] prefix[i]) matches WorkerEvent::Resynced {
        authoritative,
    } ==> authoritative as int >= counter_after(start, prefix.take(i))) by {
        assert(prefix[i] == events[i]);
        assert(prefix.take(i) =~= events.take(i));
    }
}

/// Every number accepted so far lies strictly below the current counter.
proof fn lemma_accepted_below_counter(start: int, events: Seq<WorkerEvent>)
    requires
        resyncs_ahead(start, events),
    ensures
        forall|t: int|
            0 <= t < accepted_numbers(start, events).len() ==> #[trigger] accepted_numbers(
                start,
                events,
            )[t] < counter_after(start, events),
    decreases events.len(),
{
    if events.len() > 0 {
        let prefix = events.drop_last();
        let acc = accepted_numbers(start, events);
        let pacc = accepted_numbers(start, prefix);
        let c = counter_after(start, events);
        let pc = counter_after(start, prefix);
        lemma_resyncs_ahead_prefix(start, events);
        lemma_accepted_below_counter(start, prefix);
        match events.last() {
            WorkerEvent::Accepted => {
                assert(acc == pacc.push(pc));
                assert(c == pc + 1);
                assert forall|t: int| 0 <= t < acc.len() implies #[trigger] acc[t] < c by {
                    if t < pacc.len() {
                        assert(acc[t] == pacc[t]);
                    } else {
                        assert(acc[t] == pc);
                    }
                }
            },
            WorkerEvent::Failed => {
                assert(acc == pacc);
                assert(c == pc);
            },
            WorkerEvent::Resynced { authoritative } => {
                assert(events[events.len() - 1] == events.last());
                assert(events.take(events.len() - 1) =~= prefix);
                assert(authoritative as int >= pc);
                assert(acc == pacc);
                assert(c == authoritative as int);
                assert forall|t: int| 0 <= t < acc.len() implies #[trigger] acc[t] < c by {
                    assert(acc[t] == pacc[t]);
                    assert(pacc[t] < pc);
                }
            },
        }
    }
}

/// Law: for a single account whose submissions are serialized through one
/// worker, a run in which every resync returns a value no smaller than the
/// local counter at that point never produces two accepted transactions with
/// the same sequence number: the accepted numbers are strictly increasing,
/// hence pairwise distinct.
pub proof fn lemma_sequence_numbers_unique(start: int, events: Seq<WorkerEvent>)
    requires
        resyncs_ahead(start, events),
    ensures
        forall|a: int, b: int|
            0 <= a < b < accepted_numbers(start, events).len() ==> #[trigger] accepted_numbers(
                start,
                events,
            )[a] < #[trigger] accepted_numbers(start, events)[b],
    decreases events.len(),
{
    if events.len() > 0 {
        let prefix = events.drop_last();
        let acc = accepted_numbers(start, events);
        let pacc = accepted_numbers(start, prefix);
        let pc = counter_after(start, prefix);
        lemma_resyncs_ahead_prefix(start, events);
        lemma_sequence_numbers_unique(start, prefix);
        lemma_accepted_below_counter(start, prefix);
        match events.last() {
            WorkerEvent::Accepted => {
                assert(acc == pacc.push(pc));
                assert forall|a: int, b: int| 0 <= a < b < acc.len() implies #[trigger] acc[a]
                    < #[trigger] acc[b] by {
                    assert(acc[a] == pacc[a]);
                    if b < pacc.len() {
                        assert(acc[b] == pacc[b]);
                    } else {
                        assert(acc[b] == pc);
                        assert(pacc[a] < pc);
                    }
                }
            },
            WorkerEvent::Failed => {
                assert(acc == pacc);
            },
            WorkerEvent::Resynced { authoritative } => {
                assert(acc == pacc);
            },
        }
    }
}

/// Drives the submissions of one account: the single logical writer of that
/// account's sequence number. The retry policy: a transient failure is
/// retried with the same sequence number up to `max_attempts` further tries;
/// a sequence mismatch triggers exactly one resync and one retry with the
/// corrected value; any other rejection is a permanent failure. Only
/// acceptance by the node advances the counter.
pub struct EmissionWorker {
    pub account: AccountData,
    /// Bound on transient retries per submission.
    pub max_attempts: u64,
    /// Transient retries already spent on the current submission.
    pub attempts: u64,
    /// A resync already corrected the current submission once.
    pub resynced: bool,
    /// The counter value the worker started from.
    pub start_seq: Ghost<u64>,
    /// The counter-touching moves of the run so far.
    pub history: Ghost<Seq<WorkerEvent>>,
}

impl EmissionWorker {
    pub open spec fn wf(self) -> bool {
        self.account.sequence_number as int == counter_after(
            self.start_seq@ as int,
            self.history@,
        )
    }

    pub fn new(account: AccountData, max_attempts: u64) -> (r: Self)
        ensures
            r.wf(),
            r.account == account,
            r.max_attempts == max_attempts,
            r.attempts == 0,
            !r.resynced,
            r.start_seq@ == account.sequence_number,
            r.history@ == Seq::<WorkerEvent>::empty(),
    {
        let ghost start = account.sequence_number;
        EmissionWorker {
            account,
            max_attempts,
            attempts: 0,
            resynced: false,
            start_seq: Ghost(start),
            history: Ghost(Seq::empty()),
        }
    }

    /// The sequence number the next submission must carry: the account's
    /// current counter, the single point of truth.
    pub fn next_submission(&self) -> (r: u64)
        ensures
            r == self.account.sequence_number,
    {
        self.account.next_sequence()
    }

    /// Record a permanent failure for the current submission: the counter is
    /// untouched, so the next transaction reuses the failed number.
    fn record_permanent_failure(&mut self)
        requires
            old(self).wf(),
        ensures
            final(self).wf(),
            final(self).account == old(self).account,
            final(self).max_attempts == old(self).max_attempts,
            final(self).start_seq == old(self).start_seq,
            final(self).attempts == 0,
            !final(self).resynced,
            final(self).history@ == old(self).history@.push(WorkerEvent::Failed),
            accepted_numbers(final(self).start_seq@ as int, final(self).history@)
                == accepted_numbers(old(self).start_seq@ as int, old(self).history@),
    {
        self.attempts = 0;
        self.resynced = false;
        proof {
            assert(self.history@.push(WorkerEvent::Failed).drop_last() =~= self.history@);
        }
        self.history = Ghost(self.history@.push(WorkerEvent::Failed));
    }

    /// Decide the next move from the node's verdict on the submission that
    /// carried the current sequence number.
    pub fn on_outcome(&mut self, outcome: SubmitOutcome) -> (r: WorkerVerdict)
        requires
            old(self).wf(),
            outcome is Confirmed ==> old(self).account.sequence_number < u64::MAX,
        ensures
            final(self).wf(),
            final(self).max_attempts == old(self).max_attempts,
            final(self).start_seq == old(self).start_seq,
            final(self).account.address@ == old(self).account.address@,
            final(self).account.signing_key@ == old(self).account.signing_key@,
            // acceptance is the only outcome that advances the counter, by one
            outcome is Confirmed ==> ({
                &&& r is Accepted
                &&& final(self).account.sequence_number == old(self).account.sequence_number + 1
                &&& final(self).attempts == 0
                &&& !final(self).resynced
                &&& final(self).history@ == old(self).history@.push(WorkerEvent::Accepted)
                &&& accepted_numbers(final(self).start_seq@ as int, final(self).history@)
                    == accepted_numbers(old(self).start_seq@ as int, old(self).history@).push(
                    old(self).account.sequence_number as int,
                )
            }),
            // a transient failure within the bound: retry, same sequence number
            (outcome is Timeout || outcome is ConnectionError) && old(self).attempts < old(
                self,
            ).max_attempts ==> ({
                &&& r is RetrySame
                &&& final(self).account == old(self).account
                &&& final(self).attempts == old(self).attempts + 1
                &&& final(self).resynced == old(self).resynced
                &&& final(self).history@ == old(self).history@
            }),
            // transient retries exhausted: permanent failure, counter untouched
            (outcome is Timeout || outcome is ConnectionError) && old(self).attempts >= old(
                self,
            ).max_attempts ==> ({
                &&& r is PermanentFailure
                &&& final(self).account == old(self).account
                &&& final(self).attempts == 0
                &&& !final(self).resynced
                &&& final(self).history@ == old(self).history@.push(WorkerEvent::Failed)
            }),
            // first mismatch: ask for exactly one resync before the retry
            outcome is SequenceMismatch && !old(self).resynced ==> ({
                &&& r is NeedResync
                &&& final(self).account == old(self).account
                &&& final(self).resynced
                &&& final(self).attempts == old(self).attempts
                &&& final(self).history@ == old(self).history@
            }),
            // a second mismatch after the resync: permanent failure
            outcome is SequenceMismatch && old(self).resynced ==> ({
                &&& r is PermanentFailure
                &&& final(self).account == old(self).account
                &&& final(self).attempts == 0
                &&& !final(self).resynced
                &&& final(self).history@ == old(self).history@.push(WorkerEvent::Failed)
            }),
            // any other rejection: permanent failure, counter untouched
            outcome is Rejected ==> ({
                &&& r is PermanentFailure
                &&& final(self).account == old(self).account
                &&& final(self).attempts == 0
                &&& !final(self).resynced
                &&& final(self).history@ == old(self).history@.push(WorkerEvent::Failed)
            }),
    {
        match outcome {
            SubmitOutcome::Confirmed => {
                self.account.record_accepted();
                self.attempts = 0;
                self.resynced = false;
                proof {
                    assert(self.history@.push(WorkerEvent::Accepted).drop_last()
                        =~= self.history@);
                }
                self.history = Ghost(self.history@.push(WorkerEvent::Accepted));
                WorkerVerdict::Accepted
            },
            SubmitOutcome::Timeout | SubmitOutcome::ConnectionError => {
                if self.attempts < self.max_attempts {
                    self.attempts = self.attempts + 1;
                    WorkerVerdict::RetrySame
                } else {
                    self.record_permanent_failure();
                    WorkerVerdict::PermanentFailure
                }
            },
            SubmitOutcome::SequenceMismatch => {
                if !self.resynced {
                    self.resynced = true;
                    WorkerVerdict::NeedResync
                } else {
                    self.record_permanent_failure();
                    WorkerVerdict::PermanentFailure
                }
            },
            SubmitOutcome::Rejected => {
                self.record_permanent_failure();
                WorkerVerdict::PermanentFailure
            },
        }
    }

    /// Apply the authoritative sequence number the ledger returned after a
    /// mismatch. The returned value is the sequence number the single retry
    /// must carry: exactly the ledger's value.
    pub fn apply_resync(&mut self, authoritative: u64) -> (r: u64)
        requires
            old(self).wf(),
            old(self).resynced,
        ensures
            final(self).wf(),
            r == authoritative,
            final(self).account.sequence_number == authoritative,
            final(self).account.address@ == old(self).account.address@,
            final(self).account.signing_key@ == old(self).account.signing_key@,
            final(self).max_attempts == old(self).max_attempts,
            final(self).start_seq == old(self).start_seq,
            final(self).attempts == old(self).attempts,
            final(self).resynced,
            final(self).history@ == old(self).history@.push(
                WorkerEvent::Resynced { authoritative },
            ),
            accepted_numbers(final(self).start_seq@ as int, final(self).history@)
                == accepted_numbers(old(self).start_seq@ as int, old(self).history@),
    {
        self.account.resync(authoritative);
        proof {
            assert(self.history@.push(WorkerEvent::Resynced { authoritative }).drop_last()
                =~= self.history@);
        }
        self.history = Ghost(self.history@.push(WorkerEvent::Resynced { authoritative }));
        authoritative
    }
}

/// The lifecycle states of the emission job.
#[derive(Clone, Copy, Debug, PartialEq, Eq)]
pub enum JobState {
    Idle,
    Running,
    Stopping,
    Stopped,
}

/// Why a running job was told to stop: both bounds must be supported.
#[derive(Clone, Copy, Debug, PartialEq, Eq)]
pub enum StopReason {
    /// The configured duration elapsed.
    DurationElapsed,
    /// An explicit cancellation signal arrived.
    Cancelled,
}

/// The aggregate the job reports on completion.
#[derive(Clone, Copy, Debug, PartialEq, Eq)]
pub struct JobStats {
    pub submitted: u64,
    pub confirmed: u64,
    pub failed: u64,
}

/// The handle of a running transaction-emission job: its lifecycle state, the
/// number of submissions still in flight, and the aggregate counts. New
/// submissions begin only while the job is `Running`; a stop is cooperative,
/// so in-flight submissions still report their terminal outcome; the job is
/// `Stopped` only once none is left in flight.
pub struct EmissionJobHandle {
    pub state: JobState,
    pub stop_reason: Option<StopReason>,
    pub in_flight: u64,
    pub stats: JobStats,
}

impl EmissionJobHandle {
    /// Every submission begun is accounted for: it is in flight or counted as
    /// exactly one terminal outcome; a stopped or idle job has nothing in
    /// flight; a stop reason exists exactly once a stop was requested.
    pub open spec fn wf(self) -> bool {
        &&& self.stats.submitted == self.stats.confirmed + self.stats.failed + self.in_flight
        &&& (self.state is Idle ==> self.in_flight == 0 && self.stats.submitted == 0)
        &&& (self.state is Stopped ==> self.in_flight == 0)
        &&& ((self.state is Stopping || self.state is Stopped) <==> self.stop_reason is Some)
    }

    pub fn new() -> (r: Self)
        ensures
            r.wf(),
            r.state is Idle,
            r.stop_reason is None,
            r.in_flight == 0,
            r.stats == (JobStats { submitted: 0, confirmed: 0, failed: 0 }),
    {
        EmissionJobHandle {
            state: JobState::Idle,
            stop_reason: None,
            in_flight: 0,
            stats: JobStats { submitted: 0, confirmed: 0, failed: 0 },
        }
    }

    /// Start the job: workers may begin submitting.
    pub fn start(&mut self)
        requires
            old(self).wf(),
            old(self).state is Idle,
        ensures
            final(self).wf(),
            final(self).state is Running,
            final(self).stop_reason is None,
            final(self).in_flight == 0,
            final(self).stats == old(self).stats,
    {
        self.state = JobState::Running;
    }

    /// A worker begins one submission. Only a `Running` job starts new
    /// submissions: once a stop is pending, none begins.
    pub fn begin_submission(&mut self)
        requires
            old(self).wf(),
            old(self).state is Running,
            old(self).stats.submitted < u64::MAX,
        ensures
            final(self).wf(),
            final(self).state is Running,
            final(self).stop_reason is None,
            final(self).stats.submitted == old(self).stats.submitted + 1,
            final(self).in_flight == old(self).in_flight + 1,
            final(self).stats.confirmed == old(self).stats.confirmed,
            final(self).stats.failed == old(self).stats.failed,
    {
        self.stats.submitted = self.stats.submitted + 1;
        self.in_flight = self.in_flight + 1;
    }

    /// An in-flight submission reported its terminal outcome: it is counted
    /// as exactly one of confirmed or failed, never lost. Allowed while the
    /// job is `Running` or `Stopping` (a stop is cooperative: submissions
    /// already in flight always complete).
    pub fn submission_done(&mut self, confirmed: bool)
        requires
            old(self).wf(),
            old(self).in_flight > 0,
            old(self).state is Running || old(self).state is Stopping,
        ensures
            final(self).wf(),
            final(self).state == old(self).state,
            final(self).stop_reason == old(self).stop_reason,
            final(self).in_flight == old(self).in_flight - 1,
            final(self).stats.submitted == old(self).stats.submitted,
            confirmed ==> final(self).stats.confirmed == old(self).stats.confirmed + 1
                && final(self).stats.failed == old(self).stats.failed,
            !confirmed ==> final(self).stats.failed == old(self).stats.failed + 1
                && final(self).stats.confirmed == old(self).stats.confirmed,
    {
        self.in_flight = self.in_flight - 1;
        if confirmed {
            self.stats.confirmed = self.stats.confirmed + 1;
        } else {
            self.stats.failed = self.stats.failed + 1;
        }
    }

    /// Ask the job to stop, on an elapsed duration or an explicit signal.
    /// In-flight submissions are allowed to finish; new ones are not started.
    pub fn request_stop(&mut self, reason: StopReason)
        requires
            old(self).wf(),
            old(self).state is Running,
        ensures
            final(self).wf(),
            final(self).state is Stopping,
            final(self).stop_reason == Some(reason),
            final(self).in_flight == old(self).in_flight,
            final(self).stats == old(self).stats,
    {
        self.state = JobState::Stopping;
        self.stop_reason = Some(reason);
    }

    /// The job comes to rest: only once every in-flight submission has
    /// reported a terminal outcome.
    pub fn finish(&mut self)
        requires
            old(self).wf(),
            old(self).state is Stopping,
            old(self).in_flight == 0,
        ensures
            final(self).wf(),
            final(self).state is Stopped,
            final(self).stop_reason == old(self).stop_reason,
            final(self).in_flight == 0,
            final(self).stats == old(self).stats,
    {
        self.state = JobState::Stopped;
    }

    /// The aggregate of a completed job.
    pub fn report(&self) -> (r: JobStats)
        requires
            self.state is Stopped,
        ensures
            r == self.stats,
    {
        self.stats
    }
}

/// Law: a job in `Stopped` has no submission in flight, and its aggregate
/// loses no outcome: every submission begun was counted as exactly one
/// terminal outcome, confirmed or failed.
pub proof fn lemma_stopped_job_accounts_for_all(job: EmissionJobHandle)
    requires
        job.wf(),
        job.state is Stopped,
    ensures
        job.in_flight == 0,
        job.stats.submitted == job.stats.confirmed + job.stats.failed,
{
}

} // verus!
