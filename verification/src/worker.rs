//! The step functions of the daemon's workers.
//!
//! Each worker is a loop around something that blocks: a read from one of the
//! child's pipes, or a poll of the child's status. What the worker does with
//! the outcome is decided here; the loop itself, the pipe and the child belong
//! to the program that runs the worker.

use crate::packet::{PacketTy, PacketView, StreamTy};
use vstd::prelude::*;
use vstd::slice::slice_to_vec;

verus! {

/// The most that an output worker reads from its pipe at once.
pub const OUTPUT_CHUNK_SIZE: usize = 1024;

/// How long the status worker sleeps between two polls, in milliseconds.
pub const STATUS_POLL_MILLIS: u64 = 10;

/// How long the daemon lingers after the host has hung up, in milliseconds.
pub const HANGUP_GRACE_MILLIS: u64 = 1000;

/// One step of an output worker: what to do with the bytes that a read from
/// the child's pipe delivered. No bytes mean that the pipe is closed: the
/// worker ends and says nothing. Otherwise exactly these bytes go to the host
/// as one `DataOut` packet that names the stream.
pub fn handle_output(stream_ty: StreamTy, chunk: &[u8]) -> (packet: Option<PacketTy>)
    ensures
        chunk@.len() == 0 ==> packet is None,
        chunk@.len() > 0 ==> (packet matches Some(p) && p@ == (PacketView::DataOut {
            ty: stream_ty,
            buf: chunk@,
        })),
{
    if chunk.len() == 0 {
        None
    } else {
        Some(PacketTy::DataOut { ty: stream_ty, buf: slice_to_vec(chunk) })
    }
}

/// What a poll of the child's status can find.
#[derive(Copy, Clone, Debug, PartialEq, Eq)]
pub enum WaitOutcome {
    /// The child has ended, with this exit code if the platform has one.
    Exited { code: Option<i32> },
    /// The child still runs.
    Running,
    /// The poll itself failed. This is taken to pass.
    Failed,
}

/// What the status worker does after a poll.
#[derive(Debug, PartialEq, Eq)]
pub enum StatusAction {
    /// Enqueue this `ExitStatus` packet, then end the worker.
    Report { packet: PacketTy },
    /// Sleep for the poll interval, then look again.
    Retry,
    /// The exit status has been reported before: end the worker.
    Done,
}

/// What one poll leads to, given whether the exit status has been reported
/// already: whether it has been reported afterwards, and the exit code to
/// report now, if there is one to report.
pub open spec fn poll_spec(reported: bool, outcome: WaitOutcome) -> (bool, Option<Option<i32>>) {
    if reported {
        (true, None)
    } else {
        match outcome {
            WaitOutcome::Exited { code } => (true, Some(code)),
            _ => (false, None),
        }
    }
}

/// Whether a round kills the child: it does when a shutdown has been
/// requested and the exit status has not been reported yet.
pub open spec fn kill_spec(reported: bool, shutdown_requested: bool) -> bool {
    shutdown_requested && !reported
}

/// One round of the status worker: whether a shutdown was requested when the
/// round began, and what the poll found.
pub struct Tick {
    pub shutdown_requested: bool,
    pub outcome: WaitOutcome,
}

/// Whether the exit status has been reported after a run of rounds.
pub open spec fn reported_after(reported: bool, ticks: Seq<Tick>) -> bool
    decreases ticks.len(),
{
    if ticks.len() == 0 {
        reported
    } else {
        poll_spec(reported_after(reported, ticks.drop_last()), ticks.last().outcome).0
    }
}

/// The exit codes that a run of rounds reports, in order.
pub open spec fn reports(reported: bool, ticks: Seq<Tick>) -> Seq<Option<i32>>
    decreases ticks.len(),
{
    if ticks.len() == 0 {
        Seq::empty()
    } else {
        let before = reports(reported, ticks.drop_last());
        match poll_spec(reported_after(reported, ticks.drop_last()), ticks.last().outcome).1 {
            Some(code) => before.push(code),
            None => before,
        }
    }
}

/// How often a run of rounds kills the child.
pub open spec fn kills(reported: bool, ticks: Seq<Tick>) -> nat
    decreases ticks.len(),
{
    if ticks.len() == 0 {
        0
    } else {
        kills(reported, ticks.drop_last()) + if kill_spec(
            reported_after(reported, ticks.drop_last()),
            ticks.last().shutdown_requested,
        ) {
            1nat
        } else {
            0nat
        }
    }
}

/// The status worker: it watches the child and reports its end, once.
pub struct StatusWorker {
    reported: bool,
}

impl View for StatusWorker {
    type V = bool;

    /// Whether the exit status has been reported.
    closed spec fn view(&self) -> bool {
        self.reported
    }
}

impl StatusWorker {
    /// A worker that has reported nothing yet.
    pub fn new() -> (worker: StatusWorker)
        ensures
            !worker@,
    {
        StatusWorker { reported: false }
    }

    /// Whether the exit status has been reported.
    pub fn has_reported(&self) -> (reported: bool)
        ensures
            reported == self@,
    {
        self.reported
    }

    /// The first half of a round: whether to kill the child. It is killed
    /// when a shutdown was requested and its end has not been reported yet;
    /// a request that comes later, or once more, is met with nothing.
    pub fn should_kill(&self, shutdown_requested: bool) -> (kill: bool)
        ensures
            kill == kill_spec(self@, shutdown_requested),
    {
        shutdown_requested && !self.reported
    }

    /// The second half of a round: what to do with the outcome of the poll.
    /// The first poll that finds the child ended yields the `ExitStatus`
    /// packet with the code it found. Until then every poll, failed or not,
    /// asks for another; after it, none yields a packet again.
    pub fn on_poll(&mut self, outcome: WaitOutcome) -> (action: StatusAction)
        ensures
            final(self)@ == poll_spec(old(self)@, outcome).0,
            match poll_spec(old(self)@, outcome).1 {
                Some(code) => action matches StatusAction::Report { packet } && packet@
                    == (PacketView::ExitStatus { code }),
                None => action == (if old(self)@ {
                    StatusAction::Done
                } else {
                    StatusAction::Retry
                }),
            },
    {
        if self.reported {
            return StatusAction::Done;
        }
        match outcome {
            WaitOutcome::Exited { code } => {
                self.reported = true;
                StatusAction::Report { packet: PacketTy::ExitStatus { code } }
            },
            WaitOutcome::Running => StatusAction::Retry,
            WaitOutcome::Failed => StatusAction::Retry,
        }
    }
}

/// The position of the first round whose poll finds the child ended, or the
/// number of rounds if none does.
pub open spec fn first_exit(ticks: Seq<Tick>) -> int
    decreases ticks.len(),
{
    if ticks.len() == 0 {
        0
    } else if first_exit(ticks.drop_last()) < ticks.len() - 1 {
        first_exit(ticks.drop_last())
    } else if ticks.last().outcome is Exited {
        ticks.len() - 1
    } else {
        ticks.len() as int
    }
}

/// The exit status is reported at most once. Whatever the polls find and
/// however often a shutdown is requested, a worker that starts fresh reports
/// the code of the first poll that finds the child ended, and nothing else;
/// if no poll finds that, it reports nothing.
pub proof fn lemma_one_exit_status(ticks: Seq<Tick>)
    ensures
        0 <= first_exit(ticks) <= ticks.len(),
        forall|i: int| 0 <= i < first_exit(ticks) ==> !((#[trigger] ticks[i]).outcome is Exited),
        first_exit(ticks) < ticks.len() ==> ticks[first_exit(ticks)].outcome is Exited,
        reported_after(false, ticks) == (first_exit(ticks) < ticks.len()),
        reports(false, ticks).len() <= 1,
        first_exit(ticks) < ticks.len() ==> reports(false, ticks) == seq![
            ticks[first_exit(ticks)].outcome->code,
        ],
        first_exit(ticks) == ticks.len() ==> reports(false, ticks) == Seq::<Option<i32>>::empty(),
    decreases ticks.len(),
{
    if ticks.len() > 0 {
        let head = ticks.drop_last();
        lemma_one_exit_status(head);
        assert forall|i: int| 0 <= i < first_exit(ticks) implies !((#[trigger] ticks[i]).outcome is Exited) by {
            if i < head.len() {
                assert(ticks[i] == head[i]);
            }
        }
        if first_exit(head) < head.len() {
            assert(ticks[first_exit(head)] == head[first_exit(head)]);
        } else if ticks.last().outcome is Exited {
            assert(Seq::<Option<i32>>::empty().push(ticks.last().outcome->code) =~= seq![
                ticks.last().outcome->code,
            ]);
        }
    }
}

/// Once the exit status has been reported, nothing follows: no further
/// report, and no kill, whatever is requested and whatever the polls find.
pub proof fn lemma_nothing_after_report(ticks: Seq<Tick>)
    ensures
        reported_after(true, ticks),
        reports(true, ticks) == Seq::<Option<i32>>::empty(),
        kills(true, ticks) == 0,
    decreases ticks.len(),
{
    if ticks.len() > 0 {
        lemma_nothing_after_report(ticks.drop_last());
    }
}

/// Requesting the shutdown again changes nothing that the host sees: two
/// runs whose polls find the same report the same, whichever of their rounds
/// carry a shutdown request.
pub proof fn lemma_shutdown_requests_do_not_report(first: Seq<Tick>, second: Seq<Tick>)
    requires
        first.len() == second.len(),
        forall|i: int| 0 <= i < first.len() ==> first[i].outcome == second[i].outcome,
    ensures
        reported_after(false, first) == reported_after(false, second),
        reports(false, first) == reports(false, second),
    decreases first.len(),
{
    if first.len() > 0 {
        assert forall|i: int| 0 <= i < first.drop_last().len() implies first.drop_last()[i].outcome
            == second.drop_last()[i].outcome by {
            assert(first.drop_last()[i] == first[i]);
            assert(second.drop_last()[i] == second[i]);
        }
        lemma_shutdown_requests_do_not_report(first.drop_last(), second.drop_last());
        assert(first.last().outcome == second.last().outcome);
    }
}

} // verus!
