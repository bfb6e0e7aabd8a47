use remerge::progress::{
    client_frame_action, progress_url_with_level, relay_step, ClientFrame, EventKind, RelayAction,
    RelayEvent, RelayState,
};
use remerge::verbosity::Verbosity;

#[test]
fn relay_forwards_raw_output_and_drops_logs() {
    let s = RelayState::new(true);
    assert_eq!(relay_step(s, RelayEvent::RawBytes), (s, RelayAction::SendBinary));
    assert_eq!(relay_step(s, RelayEvent::Event(EventKind::Log)), (s, RelayAction::Nothing));
    assert_eq!(relay_step(s, RelayEvent::Event(EventKind::Other)), (s, RelayAction::SendText));
    assert_eq!(relay_step(s, RelayEvent::RawLagged), (s, RelayAction::Nothing));
}

#[test]
fn relay_closes_on_finished_or_closed_events() {
    let s = RelayState::new(true);
    let (s2, a) = relay_step(s, RelayEvent::Event(EventKind::Finished));
    assert_eq!(a, RelayAction::SendTextThenClose);
    assert!(s2.closed);
    assert_eq!(relay_step(s2, RelayEvent::RawBytes).1, RelayAction::Nothing);
    let (s3, a) = relay_step(s, RelayEvent::EventClosed);
    assert_eq!(a, RelayAction::SendClose);
    assert!(s3.closed);
}

#[test]
fn relay_without_raw_channel_ignores_raw_events() {
    let s = RelayState::new(false);
    assert!(s.raw_done);
    assert_eq!(relay_step(s, RelayEvent::RawBytes).1, RelayAction::Nothing);
    let (s2, _) = relay_step(RelayState::new(true), RelayEvent::RawClosed);
    assert!(s2.raw_done && !s2.closed);
}

#[test]
fn client_writes_raw_bytes_and_hides_the_bar_once() {
    let a = client_frame_action(false, false, ClientFrame::Binary);
    assert!(a.write_raw && a.hide_status_bar && !a.stop);
    let a = client_frame_action(false, true, ClientFrame::Binary);
    assert!(a.write_raw && !a.hide_status_bar);
    let a = client_frame_action(true, false, ClientFrame::Binary);
    assert!(!a.write_raw && !a.hide_status_bar);
}

#[test]
fn client_handles_text_frames() {
    let a = client_frame_action(true, false, ClientFrame::Text { event: Some(EventKind::Other) });
    assert!(a.write_json_line && !a.print_event && !a.stop);
    let a = client_frame_action(false, false, ClientFrame::Text { event: Some(EventKind::Finished) });
    assert!(!a.write_json_line && a.print_event && a.fetch_result && a.stop);
    let a = client_frame_action(false, false, ClientFrame::Text { event: None });
    assert!(!a.print_event && !a.stop);
    assert!(client_frame_action(false, false, ClientFrame::Close).stop);
    assert!(!client_frame_action(false, false, ClientFrame::Other).stop);
}

#[test]
fn progress_url_carries_the_log_level() {
    assert_eq!(
        progress_url_with_level("ws://h/api/v1/workorders/x/progress", Verbosity::Verbose),
        "ws://h/api/v1/workorders/x/progress?log_level=info"
    );
    assert_eq!(progress_url_with_level("ws://h/p", Verbosity::Normal), "ws://h/p?log_level=warn");
}
