//! One probe on the wire: sent once, then awaited until a frame answers
//! it or the time is up. The decisions are made here; whoever holds the
//! socket sends, receives and tells what happened.

use crate::layers::{any_matches, frame_payload, select_response, LayersMatch};
use crate::DEFAULT_MAXLOOP;
use vstd::prelude::*;

verus! {

/// Where a probe stands.
#[derive(Debug, Clone, Copy, PartialEq, Eq, Structural)]
pub enum ProbeState {
    /// Not yet on the wire.
    Pending,
    /// On the wire, no response yet.
    Sent,
    /// Answered.
    Matched,
    /// The time passed without a response.
    TimedOut,
    /// The socket refused the probe every time.
    Failed,
}

/// A probe on its way, with the number of times that the socket has
/// refused it.
#[derive(Debug, Clone, Copy, PartialEq, Eq, Structural)]
pub struct Exchange {
    pub state: ProbeState,
    pub failures: usize,
}

/// What the socket reports. Times are counted from the first attempt to
/// send, in nanoseconds.
#[derive(Debug, Clone)]
pub enum Event {
    /// The socket refused the probe.
    SendFailed,
    /// The probe is on the wire.
    SendDone,
    /// A frame came in, `elapsed` after the start.
    Frame { bytes: Vec<u8>, elapsed: u64 },
    /// Nothing came in until `elapsed` after the start.
    Silence { elapsed: u64 },
}

/// What to do next.
#[derive(Debug, Clone, PartialEq, Eq)]
pub enum Action {
    /// Hand the probe to the socket.
    Send,
    /// Wait for a frame, no longer than `wait`.
    Receive { wait: u64 },
    /// Done: the response, if one came, and the time it took.
    Return { response: Option<Vec<u8>>, elapsed: u64 },
    /// Done: the probe could not be sent.
    Fail,
    /// Nothing: the exchange is over, or the report does not belong to
    /// where it stands.
    Ignore,
}

/// The mathematical content of an `Event`.
pub enum EventView {
    SendFailed,
    SendDone,
    Frame { bytes: Seq<u8>, elapsed: u64 },
    Silence { elapsed: u64 },
}

/// The mathematical content of an `Action`.
pub enum ActionView {
    Send,
    Receive { wait: u64 },
    Return { response: Option<Seq<u8>>, elapsed: u64 },
    Fail,
    Ignore,
}

impl View for Event {
    type V = EventView;

    open spec fn view(&self) -> EventView {
        match self {
            Event::SendFailed => EventView::SendFailed,
            Event::SendDone => EventView::SendDone,
            Event::Frame { bytes, elapsed } => EventView::Frame { bytes: bytes@, elapsed: *elapsed },
            Event::Silence { elapsed } => EventView::Silence { elapsed: *elapsed },
        }
    }
}

impl View for Action {
    type V = ActionView;

    open spec fn view(&self) -> ActionView {
        match self {
            Action::Send => ActionView::Send,
            Action::Receive { wait } => ActionView::Receive { wait: *wait },
            Action::Return { response, elapsed } => ActionView::Return {
                response: match response {
                    Some(packet) => Some(packet@),
                    None => None,
                },
                elapsed: *elapsed,
            },
            Action::Fail => ActionView::Fail,
            Action::Ignore => ActionView::Ignore,
        }
    }
}

/// Whether an exchange is over.
pub open spec fn is_over(state: ProbeState) -> bool {
    state == ProbeState::Matched || state == ProbeState::TimedOut || state == ProbeState::Failed
}

/// Where the exchange stands after a report, and what to do next.
///
/// - A probe that the socket refuses is sent again, until it has been
///   refused `DEFAULT_MAXLOOP` times; then the exchange has failed.
/// - A probe on the wire is not sent again. Each frame that comes in
///   before the time is up is held against the matchers: the first that
///   one of them accepts ends the exchange with the frame's payload;
///   any other is passed over, and the wait goes on for the time left.
/// - When the time is up, the exchange ends without a response.
/// - An exchange that is over stays as it is.
pub open spec fn advance(
    exchange: Exchange,
    event: EventView,
    matchers: Seq<LayersMatch>,
    timeout: u64,
) -> (Exchange, ActionView) {
    match (exchange.state, event) {
        (ProbeState::Pending, EventView::SendFailed) => if exchange.failures + 1 < DEFAULT_MAXLOOP {
            (
                Exchange { state: ProbeState::Pending, failures: (exchange.failures + 1) as usize },
                ActionView::Send,
            )
        } else {
            (Exchange { state: ProbeState::Failed, failures: exchange.failures }, ActionView::Fail)
        },
        (ProbeState::Pending, EventView::SendDone) => (
            Exchange { state: ProbeState::Sent, failures: exchange.failures },
            ActionView::Receive { wait: timeout },
        ),
        (ProbeState::Sent, EventView::Frame { bytes, elapsed }) => if elapsed >= timeout {
            (
                Exchange { state: ProbeState::TimedOut, failures: exchange.failures },
                ActionView::Return { response: None, elapsed },
            )
        } else if any_matches(matchers, bytes) {
            (
                Exchange { state: ProbeState::Matched, failures: exchange.failures },
                ActionView::Return { response: Some(frame_payload(bytes)), elapsed },
            )
        } else {
            (exchange, ActionView::Receive { wait: (timeout - elapsed) as u64 })
        },
        (ProbeState::Sent, EventView::Silence { elapsed }) => if elapsed >= timeout {
            (
                Exchange { state: ProbeState::TimedOut, failures: exchange.failures },
                ActionView::Return { response: None, elapsed },
            )
        } else {
            (exchange, ActionView::Receive { wait: (timeout - elapsed) as u64 })
        },
        _ => (exchange, ActionView::Ignore),
    }
}

impl Exchange {
    /// A probe not yet on the wire; the first thing to do is to send it.
    pub fn new() -> (exchange: Exchange)
        ensures
            exchange == (Exchange { state: ProbeState::Pending, failures: 0 }),
    {
        Exchange { state: ProbeState::Pending, failures: 0 }
    }

    /// Takes a report, and says what to do next.
    pub fn on_event(&mut self, event: Event, matchers: &[LayersMatch], timeout: u64) -> (action:
        Action)
        ensures
            (*final(self), action@) == advance(*old(self), event@, matchers@, timeout),
    {
        match (self.state, event) {
            (ProbeState::Pending, Event::SendFailed) => {
                if self.failures < DEFAULT_MAXLOOP - 1 {
                    self.failures = self.failures + 1;
                    Action::Send
                } else {
                    self.state = ProbeState::Failed;
                    Action::Fail
                }
            },
            (ProbeState::Pending, Event::SendDone) => {
                self.state = ProbeState::Sent;
                Action::Receive { wait: timeout }
            },
            (ProbeState::Sent, Event::Frame { bytes, elapsed }) => {
                if elapsed >= timeout {
                    self.state = ProbeState::TimedOut;
                    Action::Return { response: None, elapsed }
                } else {
                    match select_response(matchers, bytes.as_slice()) {
                        Some(packet) => {
                            self.state = ProbeState::Matched;
                            Action::Return { response: Some(packet), elapsed }
                        },
                        None => Action::Receive { wait: timeout - elapsed },
                    }
                }
            },
            (ProbeState::Sent, Event::Silence { elapsed }) => {
                if elapsed >= timeout {
                    self.state = ProbeState::TimedOut;
                    Action::Return { response: None, elapsed }
                } else {
                    Action::Receive { wait: timeout - elapsed }
                }
            },
            _ => Action::Ignore,
        }
    }
}

/// The round-trip time of a probe: the time that its exchange took where
/// a response came, and none where none came.
pub fn round_trip(response: &Option<Vec<u8>>, elapsed: u64) -> (rtt: Option<u64>)
    ensures
        rtt == if response is Some {
            Some(elapsed)
        } else {
            None
        },
{
    match response {
        Some(_) => Some(elapsed),
        None => None,
    }
}

/// An exchange that is over stays as it is, whatever is reported.
pub proof fn lemma_over_stays(
    exchange: Exchange,
    event: EventView,
    matchers: Seq<LayersMatch>,
    timeout: u64,
)
    requires
        is_over(exchange.state),
    ensures
        advance(exchange, event, matchers, timeout) == (exchange, ActionView::Ignore),
{
}

/// An exchange hands out a response only for a frame that came before
/// the time was up and that one of the matchers accepts, and the response
/// is that frame's payload.
pub proof fn lemma_response_is_matched(
    exchange: Exchange,
    event: EventView,
    matchers: Seq<LayersMatch>,
    timeout: u64,
)
    requires
        advance(exchange, event, matchers, timeout).1 matches ActionView::Return {
            response: Some(_),
            ..
        },
    ensures
        exchange.state == ProbeState::Sent,
        advance(exchange, event, matchers, timeout).0.state == ProbeState::Matched,
        event matches EventView::Frame { bytes, elapsed } && elapsed < timeout && any_matches(
            matchers,
            bytes,
        ) && advance(exchange, event, matchers, timeout).1 == (ActionView::Return {
            response: Some(frame_payload(bytes)),
            elapsed,
        }),
{
}

/// A probe is handed to the socket no more than `DEFAULT_MAXLOOP` times, and not
/// again once it is on the wire.
pub proof fn lemma_sends_are_bounded(
    exchange: Exchange,
    event: EventView,
    matchers: Seq<LayersMatch>,
    timeout: u64,
)
    requires
        exchange.failures < DEFAULT_MAXLOOP,
        advance(exchange, event, matchers, timeout).1 == ActionView::Send,
    ensures
        exchange.state == ProbeState::Pending,
        event == EventView::SendFailed,
        advance(exchange, event, matchers, timeout).0.failures == exchange.failures + 1,
        advance(exchange, event, matchers, timeout).0.failures < DEFAULT_MAXLOOP,
{
}

} // verus!
