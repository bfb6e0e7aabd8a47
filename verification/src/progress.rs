//! The progress stream of a workorder over a WebSocket: what the server
//! relays of the raw terminal output and the structured build events, and
//! what the client does with each frame it receives.
use vstd::prelude::*;

use crate::verbosity::Verbosity;

verus! {

/// The kind of a structured build event, as far as the relay cares.
#[derive(Debug, Clone, Copy, PartialEq, Eq, Structural)]
pub enum EventKind {
    /// A log line, superseded by the raw terminal output.
    Log,
    /// The build finished; nothing follows.
    Finished,
    /// Any other event (status change, package built or failed).
    Other,
}

/// What the server's relay task is woken by.
#[derive(Debug, Clone, Copy, PartialEq, Eq, Structural)]
pub enum RelayEvent {
    /// Raw terminal bytes arrived.
    RawBytes,
    /// The raw channel skipped messages.
    RawLagged,
    /// The raw channel closed.
    RawClosed,
    /// A structured event arrived.
    Event(EventKind),
    /// The event channel skipped messages.
    EventLagged,
    /// The event channel closed.
    EventClosed,
}

/// What the relay does in answer.
#[derive(Debug, Clone, Copy, PartialEq, Eq, Structural)]
pub enum RelayAction {
    /// Nothing is sent.
    Nothing,
    /// The raw bytes go out as a binary frame.
    SendBinary,
    /// The event goes out as a text frame.
    SendText,
    /// The event goes out as a text frame, then a close frame ends the
    /// stream.
    SendTextThenClose,
    /// A close frame ends the stream.
    SendClose,
}

/// The relay's state: whether the raw channel is done, and whether the
/// stream is over.
#[derive(Debug, Clone, Copy, PartialEq, Eq, Structural)]
pub struct RelayState {
    pub raw_done: bool,
    pub closed: bool,
}

impl RelayState {
    /// A relay whose raw channel may be gone already.
    pub fn new(has_raw: bool) -> (r: Self)
        ensures
            r.raw_done == !has_raw,
            !r.closed,
    {
        RelayState { raw_done: !has_raw, closed: false }
    }
}

/// One step of the relay: raw bytes pass as binary frames while the raw
/// channel lasts; log events are dropped; other events pass as text, and
/// `Finished` or a closed event channel ends the stream with a close
/// frame. A closed stream stays closed and sends nothing.
pub open spec fn relay_spec(s: RelayState, e: RelayEvent) -> (RelayState, RelayAction) {
    if s.closed {
        (s, RelayAction::Nothing)
    } else {
        match e {
            RelayEvent::RawBytes => if s.raw_done {
                (s, RelayAction::Nothing)
            } else {
                (s, RelayAction::SendBinary)
            },
            RelayEvent::RawLagged => (s, RelayAction::Nothing),
            RelayEvent::RawClosed => (RelayState { raw_done: true, ..s }, RelayAction::Nothing),
            RelayEvent::Event(k) => match k {
                EventKind::Log => (s, RelayAction::Nothing),
                EventKind::Finished => (RelayState { closed: true, ..s }, RelayAction::SendTextThenClose),
                EventKind::Other => (s, RelayAction::SendText),
            },
            RelayEvent::EventLagged => (s, RelayAction::Nothing),
            RelayEvent::EventClosed => (RelayState { closed: true, ..s }, RelayAction::SendClose),
        }
    }
}

/// The relay's answer to one event.
pub fn relay_step(s: RelayState, e: RelayEvent) -> (r: (RelayState, RelayAction))
    ensures
        r == relay_spec(s, e),
{
    if s.closed {
        return (s, RelayAction::Nothing);
    }
    match e {
        RelayEvent::RawBytes => if s.raw_done {
            (s, RelayAction::Nothing)
        } else {
            (s, RelayAction::SendBinary)
        },
        RelayEvent::RawLagged => (s, RelayAction::Nothing),
        RelayEvent::RawClosed => (RelayState { raw_done: true, closed: s.closed }, RelayAction::Nothing),
        RelayEvent::Event(k) => match k {
            EventKind::Log => (s, RelayAction::Nothing),
            EventKind::Finished => (
                RelayState { raw_done: s.raw_done, closed: true },
                RelayAction::SendTextThenClose,
            ),
            EventKind::Other => (s, RelayAction::SendText),
        },
        RelayEvent::EventLagged => (s, RelayAction::Nothing),
        RelayEvent::EventClosed => (
            RelayState { raw_done: s.raw_done, closed: true },
            RelayAction::SendClose,
        ),
    }
}

/// The relay over a sequence of events: the state after it and the
/// actions taken, in order.
pub open spec fn relay_run(s: RelayState, es: Seq<RelayEvent>) -> (RelayState, Seq<RelayAction>)
    decreases es.len(),
{
    if es.len() == 0 {
        (s, Seq::empty())
    } else {
        let (s1, a1) = relay_run(s, es.drop_last());
        let (s2, a) = relay_spec(s1, es.last());
        (s2, a1.push(a))
    }
}

/// Log events never reach the client, and a `Finished` event always
/// closes the stream: after one, the relay is closed and sends nothing
/// more, whatever follows; raw output, once its channel is done, stays
/// done.
pub proof fn law_relay_finishes_and_filters(s: RelayState, es: Seq<RelayEvent>)
    ensures
        !s.closed ==> relay_spec(s, RelayEvent::Event(EventKind::Log)).1 == RelayAction::Nothing,
        relay_spec(s, RelayEvent::Event(EventKind::Finished)).0.closed,
        relay_run(RelayState { closed: true, ..s }, es).1 == Seq::new(
            es.len(),
            |i: int| RelayAction::Nothing,
        ),
        s.raw_done ==> relay_run(s, es).0.raw_done,
    decreases es.len(),
{
    if es.len() > 0 {
        law_relay_finishes_and_filters(s, es.drop_last());
        let closed = RelayState { closed: true, ..s };
        let (s1, a1) = relay_run(closed, es.drop_last());
        assert(s1.closed) by {
            lemma_closed_stays(closed, es.drop_last());
        }
        assert(relay_run(closed, es).1 =~= Seq::new(es.len(), |i: int| RelayAction::Nothing));
    }
}

proof fn lemma_closed_stays(s: RelayState, es: Seq<RelayEvent>)
    requires
        s.closed,
    ensures
        relay_run(s, es).0 == s,
    decreases es.len(),
{
    if es.len() > 0 {
        lemma_closed_stays(s, es.drop_last());
    }
}

/// A frame the client receives on the progress stream.
#[derive(Debug, Clone, Copy, PartialEq, Eq, Structural)]
pub enum ClientFrame {
    /// Raw terminal bytes.
    Binary,
    /// A text frame: whether it reads as a build event, and its kind.
    Text { event: Option<EventKind> },
    /// The server closed the stream.
    Close,
    /// Pings and other control frames.
    Other,
}

/// What the client does with a frame.
#[derive(Debug, Clone, Copy, PartialEq, Eq, Structural)]
pub struct ClientFrameAction {
    /// Hide the status bar before the raw bytes overwrite it.
    pub hide_status_bar: bool,
    /// Write the raw bytes to standard output.
    pub write_raw: bool,
    /// Write the text frame as one line of JSON.
    pub write_json_line: bool,
    /// Show the build event to the user.
    pub print_event: bool,
    /// Fetch the workorder's result and stop reading.
    pub fetch_result: bool,
    /// Stop reading.
    pub stop: bool,
}

/// The client's answer to a frame, given whether it writes JSON lines and
/// whether it already hid the status bar: raw bytes are written (hiding
/// the bar the first time) except in JSON mode; text frames are written as
/// JSON lines in JSON mode and shown otherwise; `Finished` fetches the
/// result and stops; a close frame stops.
pub open spec fn client_frame_spec(log_json: bool, bar_hidden: bool, f: ClientFrame) -> ClientFrameAction {
    let none = ClientFrameAction {
        hide_status_bar: false,
        write_raw: false,
        write_json_line: false,
        print_event: false,
        fetch_result: false,
        stop: false,
    };
    match f {
        ClientFrame::Binary => ClientFrameAction {
            hide_status_bar: !log_json && !bar_hidden,
            write_raw: !log_json,
            ..none
        },
        ClientFrame::Text { event } => ClientFrameAction {
            write_json_line: log_json,
            print_event: !log_json && event is Some,
            fetch_result: event == Some(EventKind::Finished),
            stop: event == Some(EventKind::Finished),
            ..none
        },
        ClientFrame::Close => ClientFrameAction { stop: true, ..none },
        ClientFrame::Other => none,
    }
}

/// The client's answer to one frame.
pub fn client_frame_action(log_json: bool, bar_hidden: bool, f: ClientFrame) -> (r: ClientFrameAction)
    ensures
        r == client_frame_spec(log_json, bar_hidden, f),
{
    let none = ClientFrameAction {
        hide_status_bar: false,
        write_raw: false,
        write_json_line: false,
        print_event: false,
        fetch_result: false,
        stop: false,
    };
    match f {
        ClientFrame::Binary => ClientFrameAction {
            hide_status_bar: !log_json && !bar_hidden,
            write_raw: !log_json,
            ..none
        },
        ClientFrame::Text { event } => {
            let finished = match event {
                Some(EventKind::Finished) => true,
                _ => false,
            };
            ClientFrameAction {
                write_json_line: log_json,
                print_event: !log_json && event.is_some(),
                fetch_result: finished,
                stop: finished,
                ..none
            }
        },
        ClientFrame::Close => ClientFrameAction { stop: true, ..none },
        ClientFrame::Other => none,
    }
}

/// The progress URL with the log level the client wants: the server
/// sends no log events below it.
pub fn progress_url_with_level(ws_url: &str, verbosity: Verbosity) -> (r: String)
    ensures
        r@ == ws_url@ + "?log_level="@ + crate::verbosity::log_level_text(verbosity),
{
    let mut out = crate::text::chars_of(ws_url);
    crate::text::append_chars(&mut out, crate::text::chars_of("?log_level=").as_slice());
    crate::text::append_chars(&mut out, crate::text::chars_of(verbosity.rust_log_level()).as_slice());
    crate::text::string_of(out.as_slice())
}

} // verus!
