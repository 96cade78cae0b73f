//! What the compositor tells about input and idleness.

use vstd::prelude::*;

use crate::events::{ActivityKind, Event};
use crate::text::strings::{cat, str_eq};

verus! {

/// After how long without input the compositor tells that the seat is idle.
pub const IDLE_TIMEOUT_MS: u32 = 250;

/// How long the daemon waits for the compositor's first word before it takes the seat for idle.
pub const BOOT_DELAY_MS: u64 = 400;

/// How long one wait for the compositor lasts.
pub const POLL_TIMEOUT_MS: i32 = 200;

#[derive(Debug)]
pub enum WaylandError {
    Connect(String),
    Roundtrip(String),
}

impl WaylandError {
    /// The words that the user reads.
    pub open spec fn words(self) -> Seq<char> {
        match self {
            WaylandError::Connect(s) => "wayland connect failed: "@ + s@,
            WaylandError::Roundtrip(s) => "wayland roundtrip failed: "@ + s@,
        }
    }

    pub fn message(&self) -> (r: String)
        ensures
            r@ == self.words(),
    {
        match self {
            WaylandError::Connect(s) => cat("wayland connect failed: ", s.as_str()),
            WaylandError::Roundtrip(s) => cat("wayland roundtrip failed: ", s.as_str()),
        }
    }
}

/// What the daemon wants of a global that the compositor announces.
#[derive(Debug, Clone, Copy, PartialEq, Eq, Structural)]
pub enum Wanted {
    IdleNotifier,
    Seat,
    Nothing,
}

/// What the daemon wants of a global of an interface.
pub open spec fn wanted(interface: Seq<char>) -> Wanted {
    if interface == "ext_idle_notifier_v1"@ {
        Wanted::IdleNotifier
    } else if interface == "wl_seat"@ {
        Wanted::Seat
    } else {
        Wanted::Nothing
    }
}

/// What the daemon wants of a global of an interface.
pub fn wanted_of(interface: &str) -> (r: Wanted)
    ensures
        r == wanted(interface@),
{
    if str_eq(interface, "ext_idle_notifier_v1") {
        Wanted::IdleNotifier
    } else if str_eq(interface, "wl_seat") {
        Wanted::Seat
    } else {
        Wanted::Nothing
    }
}

/// What the compositor tells of the seat.
#[derive(Debug, Clone, Copy, PartialEq, Eq, Structural)]
pub enum SeatSignal {
    /// The pointer moved, a button was pressed or a wheel was turned.
    Pointer,
    /// A key was pressed or let go.
    Key,
    /// There has been no input for the idle timeout.
    Idled,
    /// There is input again.
    Resumed,
    /// Anything else.
    Other,
}

/// The events that a signal makes. An idle seat is no more than told: the time alone drives the
/// plan.
pub open spec fn signal_events(sig: SeatSignal, now_ms: u64) -> Seq<Event> {
    match sig {
        SeatSignal::Pointer | SeatSignal::Key => seq![
            Event::UserActivity { kind: ActivityKind::Any, now_ms },
        ],
        SeatSignal::Idled => seq![Event::CompositorIdled { now_ms }],
        SeatSignal::Resumed => seq![
            Event::CompositorResumed { now_ms },
            Event::UserActivity { kind: ActivityKind::Any, now_ms },
        ],
        SeatSignal::Other => Seq::empty(),
    }
}

/// The compositor has spoken of idleness.
pub open spec fn is_edge(sig: SeatSignal) -> bool {
    sig == SeatSignal::Idled || sig == SeatSignal::Resumed
}

/// Remembers whether the compositor has spoken of idleness.
#[derive(Debug)]
pub struct SeatWatch {
    edge_seen: bool,
}

impl View for SeatWatch {
    type V = bool;

    closed spec fn view(&self) -> bool {
        self.edge_seen
    }
}

impl SeatWatch {
    pub fn new() -> (r: Self)
        ensures
            r@ == false,
    {
        SeatWatch { edge_seen: false }
    }

    /// Takes a signal, and gives the events that it makes.
    pub fn take(&mut self, sig: SeatSignal, now_ms: u64) -> (r: Vec<Event>)
        ensures
            final(self)@ == (old(self)@ || is_edge(sig)),
            r@ == signal_events(sig, now_ms),
    {
        let mut out: Vec<Event> = Vec::new();
        match sig {
            SeatSignal::Pointer | SeatSignal::Key => {
                out.push(Event::UserActivity { kind: ActivityKind::Any, now_ms });
            },
            SeatSignal::Idled => {
                self.edge_seen = true;
                out.push(Event::CompositorIdled { now_ms });
            },
            SeatSignal::Resumed => {
                self.edge_seen = true;
                out.push(Event::CompositorResumed { now_ms });
                out.push(Event::UserActivity { kind: ActivityKind::Any, now_ms });
            },
            SeatSignal::Other => {},
        }
        assert(out@ =~= signal_events(sig, now_ms));
        out
    }

    /// The event that is told after the boot delay: a compositor that has not spoken yet is taken
    /// to have an idle seat.
    pub fn bootstrap(&self, now_ms: u64) -> (r: Option<Event>)
        ensures
            match r {
                Some(e) => !self@ && e == (Event::CompositorIdled { now_ms }),
                None => self@,
            },
    {
        if self.edge_seen {
            None
        } else {
            Some(Event::CompositorIdled { now_ms })
        }
    }
}

/// How a round of waiting for the compositor and taking its messages went.
#[derive(Debug, Clone, Copy, PartialEq, Eq, Structural)]
pub enum Round {
    /// The daemon is to stop.
    StopAsked,
    /// Messages were taken, or none came in time.
    Done,
    /// Sending, waiting, reading or taking failed.
    Failed,
}

/// What follows a round: another one, or the end, with whether the compositor is gone.
pub fn after_round(round: Round) -> (r: Option<bool>)
    ensures
        r == (match round {
            Round::StopAsked => Some(false),
            Round::Failed => Some(true),
            Round::Done => None,
        }),
{
    match round {
        Round::StopAsked => Some(false),
        Round::Failed => Some(true),
        Round::Done => None,
    }
}

} // verus!
