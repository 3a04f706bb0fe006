//! The newsletter fan-out.  The send itself is the notifier's; what is
//! verified here is the drive: every confirmed recipient is attempted
//! exactly once, in order, a failed send is recorded and never aborts
//! the rest, and the final report counts exactly what happened.

use vstd::prelude::*;
use crate::domain::SubscriberEmail;
use crate::notify::SendError;

verus! {

/// One recipient the broadcast could not reach, and why.
pub struct DeliveryFailure {
    pub recipient: SubscriberEmail,
    pub error: SendError,
}

/// What a finished broadcast reports: counts and the recorded failures,
/// enough for manual remediation.
pub struct BroadcastReport {
    pub attempted: usize,
    pub succeeded: usize,
    pub failed: usize,
    pub failures: Vec<DeliveryFailure>,
}

/// The failures among a history of per-recipient outcomes, in order.
pub open spec fn spec_failures(h: Seq<(Seq<u8>, Result<(), SendError>)>) -> Seq<(Seq<u8>, SendError)>
    decreases h.len(),
{
    if h.len() == 0 {
        Seq::<(Seq<u8>, SendError)>::empty()
    } else {
        spec_failures(h.drop_last()) + match h.last().1 {
            Ok(_) => Seq::<(Seq<u8>, SendError)>::empty(),
            Err(e) => seq![(h.last().0, e)],
        }
    }
}

/// How many outcomes in the history succeeded.
pub open spec fn spec_succeeded(h: Seq<(Seq<u8>, Result<(), SendError>)>) -> int
    decreases h.len(),
{
    if h.len() == 0 {
        0
    } else {
        spec_succeeded(h.drop_last()) + if h.last().1 is Ok {
            1int
        } else {
            0int
        }
    }
}

pub open spec fn failures_view(fs: Seq<DeliveryFailure>) -> Seq<(Seq<u8>, SendError)> {
    fs.map_values(|f: DeliveryFailure| (f.recipient@, f.error))
}

/// A report counts a history exactly: one attempt per outcome, the
/// successes and failures tallied, and each failure recorded with its
/// recipient and error.
pub open spec fn report_matches(
    report: BroadcastReport,
    h: Seq<(Seq<u8>, Result<(), SendError>)>,
) -> bool {
    &&& report.attempted == h.len()
    &&& report.succeeded == spec_succeeded(h)
    &&& report.failed == spec_failures(h).len()
    &&& failures_view(report.failures@) == spec_failures(h)
}

pub proof fn lemma_succeeded_bounds(h: Seq<(Seq<u8>, Result<(), SendError>)>)
    ensures
        0 <= spec_succeeded(h) <= h.len(),
        spec_succeeded(h) + spec_failures(h).len() == h.len(),
    decreases h.len(),
{
    if h.len() > 0 {
        lemma_succeeded_bounds(h.drop_last());
    }
}

/// A best-effort fan-out in progress: recipients are attempted in
/// order, one at a time, and every outcome is recorded.
pub struct BroadcastRun {
    recipients: Vec<SubscriberEmail>,
    next: usize,
    report: BroadcastReport,
    log: Ghost<Seq<(Seq<u8>, Result<(), SendError>)>>,
}

impl BroadcastRun {
    /// The recipients of this run, by email bytes.
    pub closed spec fn recipients_view(&self) -> Seq<Seq<u8>> {
        self.recipients@.map_values(|e: SubscriberEmail| e@)
    }

    /// How many recipients have been attempted so far.
    pub closed spec fn sent(&self) -> int {
        self.next as int
    }

    /// The per-recipient outcomes recorded so far, in order.
    pub closed spec fn log(&self) -> Seq<(Seq<u8>, Result<(), SendError>)> {
        self.log@
    }

    /// The run's invariant: outcomes are recorded exactly for the
    /// recipients attempted so far, and the report counts them.
    pub open spec fn wf(&self) -> bool {
        &&& 0 <= self.sent() <= self.recipients_view().len()
        &&& self.log().len() == self.sent()
        &&& forall|i: int| 0 <= i < self.sent() ==> self.log()[i].0 == self.recipients_view()[i]
        &&& report_matches(self.spec_report(), self.log())
    }

    pub closed spec fn spec_report(&self) -> BroadcastReport {
        self.report
    }

    /// Start a broadcast over these recipients.
    pub fn begin(recipients: Vec<SubscriberEmail>) -> (r: BroadcastRun)
        ensures
            r.wf(),
            r.sent() == 0,
            r.log() == Seq::<(Seq<u8>, Result<(), SendError>)>::empty(),
            r.recipients_view() == recipients@.map_values(|e: SubscriberEmail| e@),
    {
        let r = BroadcastRun {
            recipients,
            next: 0,
            report: BroadcastReport {
                attempted: 0,
                succeeded: 0,
                failed: 0,
                failures: Vec::new(),
            },
            log: Ghost(Seq::empty()),
        };
        proof {
            assert(failures_view(r.report.failures@) =~= spec_failures(r.log()));
        }
        r
    }

    /// The next recipient to attempt, or `None` when every recipient
    /// has been attempted.
    pub fn next_recipient(&self) -> (r: Option<&SubscriberEmail>)
        requires
            self.wf(),
        ensures
            match r {
                Some(e) => self.sent() < self.recipients_view().len() && e@
                    == self.recipients_view()[self.sent()],
                None => self.sent() == self.recipients_view().len(),
            },
    {
        if self.next < self.recipients.len() {
            proof {
                assert(self.recipients_view()[self.next as int] == self.recipients@[
                    self.next as int
                ]@);
            }
            Some(&self.recipients[self.next])
        } else {
            None
        }
    }

    /// Record the outcome of the attempt at the current recipient and
    /// move on: a failure is recorded, never fatal.
    pub fn record_outcome(&mut self, outcome: Result<(), SendError>)
        requires
            old(self).wf(),
            old(self).sent() < old(self).recipients_view().len(),
        ensures
            final(self).wf(),
            final(self).recipients_view() == old(self).recipients_view(),
            final(self).sent() == old(self).sent() + 1,
            final(self).log() == old(self).log().push(
                (old(self).recipients_view()[old(self).sent()], outcome),
            ),
    {
        let cap = self.recipients.len();
        let ghost entry = (self.recipients@[self.next as int]@, outcome);
        let ghost newlog = self.log@.push(entry);
        proof {
            assert(self.log@.len() < cap as int);
            assert(newlog.drop_last() =~= self.log@);
            assert(newlog.last() == entry);
            lemma_succeeded_bounds(self.log@);
            assert(self.report.succeeded == spec_succeeded(self.log@));
            assert(self.report.attempted == self.log@.len());
            assert(self.log@.len() < self.recipients@.len());
        }
        match outcome {
            Ok(_) => {
                self.report.succeeded = self.report.succeeded + 1;
                proof {
                    assert(spec_failures(newlog) =~= spec_failures(self.log@));
                }
            },
            Err(e) => {
                let recipient = self.recipients[self.next].clone();
                self.report.failures.push(DeliveryFailure { recipient, error: e });
                self.report.failed = self.report.failed + 1;
                proof {
                    assert(failures_view(self.report.failures@) =~= spec_failures(newlog));
                }
            },
        }
        self.report.attempted = self.report.attempted + 1;
        self.next = self.next + 1;
        proof {
            self.log@ = newlog;
        }
    }

    /// Finish the run and hand out the report.
    pub fn into_report(self) -> (r: BroadcastReport)
        requires
            self.wf(),
            self.sent() == self.recipients_view().len(),
        ensures
            report_matches(r, self.log()),
            r.attempted == self.recipients_view().len(),
    {
        self.report
    }
}

/// Drive a whole fan-out: every recipient is attempted exactly once,
/// in order, with the outcome the notifier edge reported for it; the
/// returned report counts the complete history, however long it is.
pub fn drive_broadcast(recipients: Vec<SubscriberEmail>, outcomes: &Vec<Result<(), SendError>>) -> (r:
    BroadcastReport)
    requires
        outcomes@.len() == recipients@.len(),
    ensures
        report_matches(
            r,
            Seq::new(recipients@.len(), |i: int| (recipients@[i]@, outcomes@[i])),
        ),
        r.attempted == recipients@.len(),
{
    let n = recipients.len();
    let ghost recv = recipients@.map_values(|e: SubscriberEmail| e@);
    let mut run = BroadcastRun::begin(recipients);
    proof {
        assert(run.log() =~= Seq::new(0, |j: int| (recv[j], outcomes@[j])));
    }
    let mut i: usize = 0;
    while i < n
        invariant
            n == recv.len() && n == outcomes@.len(),
            i <= n,
            run.wf(),
            run.recipients_view() == recv,
            run.sent() == i,
            run.log() == Seq::new(i as nat, |j: int| (recv[j], outcomes@[j])),
        decreases n - i,
    {
        run.record_outcome(outcomes[i]);
        proof {
            assert(run.log() =~= Seq::new((i + 1) as nat, |j: int| (recv[j], outcomes@[j])));
        }
        i = i + 1;
    }
    let report = run.into_report();
    proof {
        assert(Seq::new(n as nat, |j: int| (recv[j], outcomes@[j])) =~= Seq::new(
            n as nat,
            |j: int| ((recipients@[j]@, outcomes@[j])),
        ));
    }
    report
}

/// Broadcasting to N recipients where exactly one send fails yields a
/// report of N attempts, N - 1 successes and exactly that failure
/// recorded: no failure aborts the rest of the batch.
pub proof fn lemma_single_failure_report(h: Seq<(Seq<u8>, Result<(), SendError>)>, k: int)
    requires
        0 <= k < h.len(),
        h[k].1 is Err,
        forall|i: int| 0 <= i < h.len() && i != k ==> h[i].1 is Ok,
    ensures
        spec_succeeded(h) == h.len() - 1,
        spec_failures(h) == seq![(h[k].0, h[k].1->Err_0)],
    decreases h.len(),
{
    if k == h.len() - 1 {
        lemma_all_ok_report(h.drop_last());
        assert(spec_failures(h) =~= seq![(h[k].0, h[k].1->Err_0)]);
    } else {
        lemma_single_failure_report(h.drop_last(), k);
        assert(h.drop_last()[k] == h[k]);
        assert(spec_failures(h) =~= seq![(h[k].0, h[k].1->Err_0)]);
    }
}

/// The fan-out property over a whole run of any length: a report that
/// counts a history of N recipients in which the notifier failed for
/// exactly one shows N attempts, N - 1 successes and one failure, with
/// the failing recipient and failure kind recorded.
pub proof fn lemma_drive_single_failure(
    recipients: Seq<Seq<u8>>,
    outcomes: Seq<Result<(), SendError>>,
    report: BroadcastReport,
    k: int,
)
    requires
        outcomes.len() == recipients.len(),
        report_matches(report, Seq::new(recipients.len(), |i: int| (recipients[i], outcomes[i]))),
        0 <= k < outcomes.len(),
        outcomes[k] is Err,
        forall|i: int| 0 <= i < outcomes.len() && i != k ==> outcomes[i] is Ok,
    ensures
        report.attempted == recipients.len(),
        report.succeeded == recipients.len() - 1,
        report.failed == 1,
        failures_view(report.failures@) == seq![(recipients[k], outcomes[k]->Err_0)],
{
    let h = Seq::new(recipients.len(), |i: int| (recipients[i], outcomes[i]));
    assert(h[k].1 is Err);
    assert forall|i: int| 0 <= i < h.len() && i != k implies h[i].1 is Ok by {
        assert(outcomes[i] is Ok);
    }
    lemma_single_failure_report(h, k);
}

/// A broadcast whose every send succeeds reports full success and no
/// failures.
pub proof fn lemma_all_ok_report(h: Seq<(Seq<u8>, Result<(), SendError>)>)
    requires
        forall|i: int| 0 <= i < h.len() ==> h[i].1 is Ok,
    ensures
        spec_succeeded(h) == h.len(),
        spec_failures(h) == Seq::<(Seq<u8>, SendError)>::empty(),
    decreases h.len(),
{
    if h.len() > 0 {
        lemma_all_ok_report(h.drop_last());
        assert(spec_failures(h) =~= Seq::<(Seq<u8>, SendError)>::empty());
    }
}

} // verus!
