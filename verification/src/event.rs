//! The events that a connection delivers to its consumer.

use vstd::prelude::*;

verus! {

/// One event of a connection, as the consumer receives it.
///
/// A connection delivers at most one `Connected`, then its messages in the
/// order of arrival, then at most one of `Disconnected` and `Error`.
#[derive(Clone, Debug, PartialEq, Eq)]
pub enum SseEvent {
    /// The server accepted the request; messages may follow.
    Connected,
    /// One application message. The payload is handed on as it came.
    Message { raw: String },
    /// The connection ended without a failure.
    Disconnected { reason: String },
    /// The connection failed.
    Error { message: String },
}

/// What an `SseEvent` stands for: the same event over plain text.
pub enum EventView {
    Connected,
    Message { raw: Seq<char> },
    Disconnected { reason: Seq<char> },
    Error { message: Seq<char> },
}

impl View for SseEvent {
    type V = EventView;

    open spec fn view(&self) -> EventView {
        match *self {
            SseEvent::Connected => EventView::Connected,
            SseEvent::Message { raw } => EventView::Message { raw: raw@ },
            SseEvent::Disconnected { reason } => EventView::Disconnected { reason: reason@ },
            SseEvent::Error { message } => EventView::Error { message: message@ },
        }
    }
}

impl DeepView for SseEvent {
    type V = EventView;

    open spec fn deep_view(&self) -> EventView {
        self@
    }
}

impl EventView {
    /// Whether the event is an application message.
    pub open spec fn is_message(self) -> bool {
        self is Message
    }

    /// Whether the event ends the connection's stream of events.
    pub open spec fn is_terminal(self) -> bool {
        self is Disconnected || self is Error
    }
}

} // verus!
