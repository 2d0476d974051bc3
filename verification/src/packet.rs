//! The messages exchanged between the host and the daemon.

use vstd::prelude::*;

verus! {

/// Which of the child's output streams a chunk of data was read from.
#[derive(Copy, Clone, Debug, PartialEq, Eq, Structural)]
pub enum StreamTy {
    Stdout,
    Stderr,
}

/// One application-level message. `StartProcess`, `KillProcess` and `DataIn`
/// travel from the host to the daemon; `DataOut`, `ExitStatus` and
/// `ErrorReport` travel from the daemon to the host.
#[derive(Debug, PartialEq, Eq)]
pub enum PacketTy {
    /// Asks the daemon to start the named executable with the given arguments.
    StartProcess { executable: String, args: Vec<String> },
    /// Asks the daemon to stop the child at once.
    KillProcess,
    /// Bytes that the child wrote to one of its output streams.
    DataOut { ty: StreamTy, buf: Vec<u8> },
    /// Bytes to hand to the child on its standard input.
    DataIn { buf: Vec<u8> },
    /// The child has ended. The code is absent where the platform has none to
    /// give, as after death by a signal.
    ExitStatus { code: Option<i32> },
    /// The daemon met an error that it survived.
    ErrorReport { msg: String },
}

/// The mathematical value of a [`PacketTy`].
pub enum PacketView {
    StartProcess { executable: Seq<char>, args: Seq<Seq<char>> },
    KillProcess,
    DataOut { ty: StreamTy, buf: Seq<u8> },
    DataIn { buf: Seq<u8> },
    ExitStatus { code: Option<i32> },
    ErrorReport { msg: Seq<char> },
}

/// The two directions of travel.
#[derive(Copy, Clone, Debug, PartialEq, Eq, Structural)]
pub enum Direction {
    /// From the host to the daemon.
    Inbound,
    /// From the daemon to the host.
    Outbound,
}

impl PacketView {
    /// The direction in which a packet of this variant travels.
    pub open spec fn direction(self) -> Direction {
        match self {
            PacketView::StartProcess { .. } => Direction::Inbound,
            PacketView::KillProcess => Direction::Inbound,
            PacketView::DataIn { .. } => Direction::Inbound,
            PacketView::DataOut { .. } => Direction::Outbound,
            PacketView::ExitStatus { .. } => Direction::Outbound,
            PacketView::ErrorReport { .. } => Direction::Outbound,
        }
    }
}

impl View for PacketTy {
    type V = PacketView;

    open spec fn view(&self) -> PacketView {
        match self {
            PacketTy::StartProcess { executable, args } => PacketView::StartProcess {
                executable: executable@,
                args: args.deep_view(),
            },
            PacketTy::KillProcess => PacketView::KillProcess,
            PacketTy::DataOut { ty, buf } => PacketView::DataOut { ty: *ty, buf: buf@ },
            PacketTy::DataIn { buf } => PacketView::DataIn { buf: buf@ },
            PacketTy::ExitStatus { code } => PacketView::ExitStatus { code: *code },
            PacketTy::ErrorReport { msg } => PacketView::ErrorReport { msg: msg@ },
        }
    }
}

impl PacketTy {
    /// Whether this packet is the daemon's last word: after an `ExitStatus`
    /// the daemon ends.
    pub fn ends_daemon(&self) -> (last: bool)
        ensures
            last == (self@ is ExitStatus),
    {
        match self {
            PacketTy::ExitStatus { .. } => true,
            _ => false,
        }
    }

    /// The direction in which this packet travels.
    pub fn direction(&self) -> (d: Direction)
        ensures
            d == self@.direction(),
    {
        match self {
            PacketTy::StartProcess { .. } => Direction::Inbound,
            PacketTy::KillProcess => Direction::Inbound,
            PacketTy::DataIn { .. } => Direction::Inbound,
            PacketTy::DataOut { .. } => Direction::Outbound,
            PacketTy::ExitStatus { .. } => Direction::Outbound,
            PacketTy::ErrorReport { .. } => Direction::Outbound,
        }
    }
}

} // verus!
