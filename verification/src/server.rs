//! The daemon's state machine: which packet is legal when, and what each one
//! asks the daemon to do.
//!
//! The machine decides; it does not act. Dispatching a packet yields the
//! [`Action`] that the daemon has to carry out. The one transition, from
//! `NotStarted` to `Started`, is made by [`ResinServer::child_started`] once
//! the child really runs. A child that could not be started therefore leaves
//! the daemon in `NotStarted`, where a further `StartProcess` is accepted.

use crate::error::InternalError;
use crate::packet::{Direction, PacketTy, PacketView};
use vstd::prelude::*;
use vstd::string::StringExecFns;

verus! {

/// Whether the daemon has a child.
#[derive(Copy, Clone, Debug, PartialEq, Eq, Structural)]
pub enum ServerState {
    /// No child has been started yet.
    NotStarted,
    /// The child has been started. There is no way back.
    Started,
}

/// What a legal packet asks the daemon to do.
#[derive(Debug, PartialEq, Eq)]
pub enum Action {
    /// Start the executable with these arguments and three pipes, then start
    /// the workers.
    Spawn { executable: String, args: Vec<String> },
    /// Write these bytes to the child's standard input, all of them, before
    /// the next packet is looked at.
    WriteStdin { buf: Vec<u8> },
    /// Raise the shutdown signal, on which the status worker kills the child.
    /// Raising it again, or after the child has ended, is harmless.
    SignalShutdown,
}

/// The mathematical value of an [`Action`].
pub enum ActionView {
    Spawn { executable: Seq<char>, args: Seq<Seq<char>> },
    WriteStdin { buf: Seq<u8> },
    SignalShutdown,
}

impl View for Action {
    type V = ActionView;

    open spec fn view(&self) -> ActionView {
        match self {
            Action::Spawn { executable, args } => ActionView::Spawn {
                executable: executable@,
                args: args.deep_view(),
            },
            Action::WriteStdin { buf } => ActionView::WriteStdin { buf: buf@ },
            Action::SignalShutdown => ActionView::SignalShutdown,
        }
    }
}

/// The transition table: the action that a packet calls for in a state, or
/// `None` where the packet is illegal in that state.
pub open spec fn dispatch_spec(state: ServerState, packet: PacketView) -> Option<ActionView> {
    match (state, packet) {
        (ServerState::NotStarted, PacketView::StartProcess { executable, args }) => Some(
            ActionView::Spawn { executable, args },
        ),
        (ServerState::Started, PacketView::DataIn { buf }) => Some(ActionView::WriteStdin { buf }),
        (ServerState::Started, PacketView::KillProcess) => Some(ActionView::SignalShutdown),
        _ => None,
    }
}

/// The words that open every error report.
pub open spec fn report_prefix() -> Seq<char> {
    "resin daemon error: "@
}

/// The daemon's state machine.
pub struct ResinServer {
    state: ServerState,
}

impl View for ResinServer {
    type V = ServerState;

    closed spec fn view(&self) -> ServerState {
        self.state
    }
}

impl ResinServer {
    /// A daemon without a child.
    pub fn new() -> (server: ResinServer)
        ensures
            server@ == ServerState::NotStarted,
    {
        ResinServer { state: ServerState::NotStarted }
    }

    /// The state the daemon is in.
    pub fn state(&self) -> (state: ServerState)
        ensures
            state == self@,
    {
        self.state
    }

    /// Looks a packet up in the transition table. A legal packet yields the
    /// action it calls for; any other is refused as a breach of the protocol.
    /// Dispatching leaves the state as it is.
    pub fn dispatch_packet(&self, packet: PacketTy) -> (r: Result<Action, InternalError>)
        ensures
            match dispatch_spec(self@, packet@) {
                Some(action) => r matches Ok(a) && a@ == action,
                None => r matches Err(InternalError::IllegalPacket),
            },
    {
        match self.state {
            ServerState::NotStarted => Self::dispatch_not_running(packet),
            ServerState::Started => Self::dispatch_running(packet),
        }
    }

    /// The row of the table for a daemon without a child: only `StartProcess`
    /// is legal.
    fn dispatch_not_running(packet: PacketTy) -> (r: Result<Action, InternalError>)
        ensures
            match dispatch_spec(ServerState::NotStarted, packet@) {
                Some(action) => r matches Ok(a) && a@ == action,
                None => r matches Err(InternalError::IllegalPacket),
            },
    {
        match packet {
            PacketTy::StartProcess { executable, args } => Ok(Action::Spawn { executable, args }),
            _ => Err(InternalError::IllegalPacket),
        }
    }

    /// The row of the table for a daemon with a child: `DataIn` and
    /// `KillProcess` are legal.
    fn dispatch_running(packet: PacketTy) -> (r: Result<Action, InternalError>)
        ensures
            match dispatch_spec(ServerState::Started, packet@) {
                Some(action) => r matches Ok(a) && a@ == action,
                None => r matches Err(InternalError::IllegalPacket),
            },
    {
        match packet {
            PacketTy::DataIn { buf } => Ok(Action::WriteStdin { buf }),
            PacketTy::KillProcess => Ok(Action::SignalShutdown),
            _ => Err(InternalError::IllegalPacket),
        }
    }

    /// Records that the child runs. The first call takes the daemon from
    /// `NotStarted` to `Started` and returns `true`; every later call finds it
    /// in `Started`, leaves it there and returns `false`.
    pub fn child_started(&mut self) -> (first: bool)
        ensures
            final(self)@ == next_state(old(self)@, ServerEvent::ChildStarted),
            first == (old(self)@ == ServerState::NotStarted),
    {
        let first = match self.state {
            ServerState::NotStarted => true,
            ServerState::Started => false,
        };
        self.state = ServerState::Started;
        first
    }

    /// Words an error for the host: an `ErrorReport` whose message is
    /// "resin daemon error: " followed by the error's own message.
    pub fn dispatch_error(&self, error: &InternalError) -> (report: PacketTy)
        ensures
            report@ is ErrorReport,
            (report_prefix() + error.message_head()).is_prefix_of(report@->msg),
            !error.has_detail() ==> report@->msg == report_prefix() + error.message_head(),
    {
        let text = error.message();
        let msg = String::from_str("resin daemon error: ").concat(text.as_str());
        proof {
            let head = error.message_head();
            assert((report_prefix() + head).is_prefix_of(msg@)) by {
                assert(msg@.subrange(0, (report_prefix() + head).len() as int) =~= report_prefix()
                    + head);
            }
        }
        PacketTy::ErrorReport { msg }
    }
}

/// What can happen to the state machine: a packet arrives, or the child is
/// found to run.
pub enum ServerEvent {
    Packet { packet: PacketView },
    ChildStarted,
}

/// The state after one event.
pub open spec fn next_state(state: ServerState, event: ServerEvent) -> ServerState {
    match event {
        ServerEvent::Packet { .. } => state,
        ServerEvent::ChildStarted => ServerState::Started,
    }
}

/// The state after a run of events.
pub open spec fn run(state: ServerState, events: Seq<ServerEvent>) -> ServerState
    decreases events.len(),
{
    if events.len() == 0 {
        state
    } else {
        next_state(run(state, events.drop_last()), events.last())
    }
}

/// How often a run of events takes the daemon from `NotStarted` to `Started`.
pub open spec fn transitions(state: ServerState, events: Seq<ServerEvent>) -> nat
    decreases events.len(),
{
    if events.len() == 0 {
        0
    } else {
        let before = run(state, events.drop_last());
        let after = next_state(before, events.last());
        transitions(state, events.drop_last()) + if before != after {
            1nat
        } else {
            0nat
        }
    }
}

/// The table read by packet: `StartProcess` is legal exactly in `NotStarted`,
/// `DataIn` and `KillProcess` exactly in `Started`, and a packet that travels
/// from the daemon to the host is legal nowhere.
pub proof fn lemma_legal_packets(state: ServerState, packet: PacketView)
    ensures
        packet is StartProcess ==> (dispatch_spec(state, packet) is Some <==> state
            == ServerState::NotStarted),
        packet is DataIn || packet is KillProcess ==> (dispatch_spec(state, packet) is Some <==> state
            == ServerState::Started),
        packet.direction() == Direction::Outbound ==> dispatch_spec(state, packet) is None,
        dispatch_spec(state, packet) is Some ==> packet.direction() == Direction::Inbound,
{
}

/// `Started` is final: no run of events leads out of it, and no run of
/// events, from either state, makes the step to `Started` more than once.
pub proof fn lemma_started_once(state: ServerState, events: Seq<ServerEvent>)
    ensures
        state == ServerState::Started ==> run(state, events) == ServerState::Started,
        state == ServerState::Started ==> transitions(state, events) == 0,
        transitions(state, events) <= 1,
        transitions(state, events) == 1 <==> (state == ServerState::NotStarted && run(state, events)
            == ServerState::Started),
    decreases events.len(),
{
    if events.len() > 0 {
        lemma_started_once(state, events.drop_last());
    }
}

} // verus!
