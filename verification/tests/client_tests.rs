use remerge::client::{
    check_upload_ack, is_retryable_blob_stream_error, log_event_is_visible, log_event_line,
    normalize_base_url, payload_for_selected_encoding, snapshot_blob_stream_url,
    validate_blob_upload_envelope, workorder_id_from_progress_url, BlobStreamError, LogEvent,
    LogLevel, SnapshotBlobChunkPolicy, SnapshotBlobUploadPayload,
    SNAPSHOT_BLOB_DEFAULT_CHUNK_SIZE_BYTES,
};
use remerge::verbosity::Verbosity;

fn make_event(level: LogLevel) -> LogEvent {
    LogEvent {
        level,
        target: "remerge_worker::builder".to_string(),
        message: "test message".to_string(),
        workorder_id: 0x1234_5678_9abc_def0_1234_5678_9abc_def0,
        span: None,
        timestamp_millis: 1_700_000_000_000,
    }
}

#[test]
fn parses_workorder_id_from_progress_url() {
    let id = uuid::Uuid::parse_str("23137eac-2455-45cf-a09f-cbdbd3a01fcc").unwrap();

    assert_eq!(
        workorder_id_from_progress_url(
            "ws://localhost/api/v1/workorders/23137eac-2455-45cf-a09f-cbdbd3a01fcc/progress"
        ),
        Some(id.as_u128())
    );
}

#[test]
fn rejects_invalid_progress_url_workorder_id() {
    assert_eq!(
        workorder_id_from_progress_url("ws://localhost/api/v1/workorders/not-a-uuid/progress"),
        None
    );
}

#[test]
fn progress_url_query_string_is_ignored() {
    assert_eq!(
        workorder_id_from_progress_url(
            "ws://h/api/v1/workorders/23137eac-2455-45cf-a09f-cbdbd3a01fcc/progress?log_level=debug"
        ),
        Some(0x23137eac_2455_45cf_a09f_cbdbd3a01fcc)
    );
    assert_eq!(workorder_id_from_progress_url("progress"), None);
}

#[test]
fn snapshot_blob_chunk_policy_starts_at_default_chunk_size() {
    let policy = SnapshotBlobChunkPolicy::new(SNAPSHOT_BLOB_DEFAULT_CHUNK_SIZE_BYTES);
    assert_eq!(
        policy.current_chunk_size_bytes(),
        SNAPSHOT_BLOB_DEFAULT_CHUNK_SIZE_BYTES
    );
}

#[test]
fn snapshot_blob_chunk_policy_shrinks_on_slow_ack_and_reconnect() {
    let mut policy = SnapshotBlobChunkPolicy::new(SNAPSHOT_BLOB_DEFAULT_CHUNK_SIZE_BYTES);

    policy.on_ack(250);
    assert_eq!(
        policy.current_chunk_size_bytes(),
        SNAPSHOT_BLOB_DEFAULT_CHUNK_SIZE_BYTES / 2
    );

    policy.on_reconnect();
    assert_eq!(
        policy.current_chunk_size_bytes(),
        SNAPSHOT_BLOB_DEFAULT_CHUNK_SIZE_BYTES / 4
    );
}

#[test]
fn snapshot_blob_chunk_policy_grows_only_after_healthy_ack_streak() {
    let mut policy = SnapshotBlobChunkPolicy::new(SNAPSHOT_BLOB_DEFAULT_CHUNK_SIZE_BYTES);
    policy.on_ack(250);
    assert_eq!(
        policy.current_chunk_size_bytes(),
        SNAPSHOT_BLOB_DEFAULT_CHUNK_SIZE_BYTES / 2
    );

    policy.on_ack(10);
    assert_eq!(
        policy.current_chunk_size_bytes(),
        SNAPSHOT_BLOB_DEFAULT_CHUNK_SIZE_BYTES / 2
    );

    policy.on_ack(10);
    assert_eq!(
        policy.current_chunk_size_bytes(),
        SNAPSHOT_BLOB_DEFAULT_CHUNK_SIZE_BYTES
    );
}

#[test]
fn snapshot_blob_chunk_policy_never_shrinks_below_floor() {
    let mut policy = SnapshotBlobChunkPolicy::new(SNAPSHOT_BLOB_DEFAULT_CHUNK_SIZE_BYTES);
    for _ in 0..10 {
        policy.on_reconnect();
    }
    assert_eq!(policy.current_chunk_size_bytes(), 256 * 1024);
    assert_eq!(policy.chunk_size_for_remaining(10), 10);
    assert_eq!(policy.chunk_size_for_remaining(0), 1);
    assert_eq!(policy.chunk_size_for_remaining(u64::MAX), 256 * 1024);
}

#[test]
fn log_event_line_formats_by_verbosity() {
    let e = make_event(LogLevel::Warn);
    assert_eq!(log_event_line(&e, Verbosity::Normal), Some("WARN : test message".to_string()));
    assert_eq!(
        log_event_line(&e, Verbosity::Verbose),
        Some("[WARN ] remerge_worker::builder: test message".to_string())
    );
    assert_eq!(log_event_line(&e, Verbosity::Quiet), None);
}

#[test]
fn blob_stream_url_follows_base_scheme() {
    assert_eq!(
        snapshot_blob_stream_url("https://h:1"),
        "wss://h:1/api/v1/snapshots/blobs/stream"
    );
    assert_eq!(
        snapshot_blob_stream_url("http://h"),
        "ws://h/api/v1/snapshots/blobs/stream"
    );
    assert_eq!(snapshot_blob_stream_url("h"), "h/api/v1/snapshots/blobs/stream");
    assert_eq!(normalize_base_url("http://h///"), "http://h");
}

#[test]
fn blob_upload_envelope_checks_each_field() {
    assert_eq!(validate_blob_upload_envelope(1, 7, "d", "d", Some(7)), Ok(()));
    assert_eq!(
        validate_blob_upload_envelope(2, 7, "d", "d", Some(7)),
        Err(BlobStreamError::VersionMismatch { expected: 1, got: 2 })
    );
    assert_eq!(
        validate_blob_upload_envelope(1, 7, "d", "e", Some(7)),
        Err(BlobStreamError::DigestMismatch)
    );
    assert_eq!(
        validate_blob_upload_envelope(1, 7, "d", "d", None),
        Err(BlobStreamError::WorkorderMismatch)
    );
}

#[test]
fn upload_ack_checks_sequence_offset_and_size() {
    assert_eq!(check_upload_ack(3, 100, 10, 3, 100, 10, 110), Ok((110, 4)));
    assert_eq!(
        check_upload_ack(3, 100, 10, 4, 100, 10, 110),
        Err(BlobStreamError::SequenceMismatch { expected: 3, got: 4 })
    );
    assert_eq!(
        check_upload_ack(3, 100, 10, 3, 90, 10, 110),
        Err(BlobStreamError::OffsetMismatch { expected: 100, got: 90 })
    );
    assert_eq!(
        check_upload_ack(3, 100, 10, 3, 100, 9, 110),
        Err(BlobStreamError::SizeMismatch { expected: 10, got: 9 })
    );
}

#[test]
fn payload_selection_follows_server_encoding() {
    let p = SnapshotBlobUploadPayload { raw_bytes: vec![1, 2, 3], zstd_bytes: Some(vec![9]) };
    assert_eq!(payload_for_selected_encoding(&p, None), Ok(&[1u8, 2, 3][..]));
    assert_eq!(payload_for_selected_encoding(&p, Some("zstd")), Ok(&[9u8][..]));
    assert_eq!(
        payload_for_selected_encoding(&p, Some("gzip")),
        Err(BlobStreamError::UnsupportedEncoding)
    );
    let raw = SnapshotBlobUploadPayload { raw_bytes: vec![1], zstd_bytes: None };
    assert_eq!(
        payload_for_selected_encoding(&raw, Some("zstd")),
        Err(BlobStreamError::MissingZstdPayload)
    );
}

#[test]
fn retryable_errors_are_recognised_case_insensitively() {
    assert!(is_retryable_blob_stream_error("context: Blob Stream Read Failed: reset"));
    assert!(is_retryable_blob_stream_error("Timed out waiting for blob upload control frame"));
    assert!(!is_retryable_blob_stream_error("Blob stream digest mismatch"));
}

#[test]
fn quiet_suppresses_error() {
    assert!(!log_event_is_visible(&make_event(LogLevel::Error), Verbosity::Quiet));
}

#[test]
fn quiet_suppresses_warn() {
    assert!(!log_event_is_visible(&make_event(LogLevel::Warn), Verbosity::Quiet));
}

#[test]
fn quiet_suppresses_info() {
    assert!(!log_event_is_visible(&make_event(LogLevel::Info), Verbosity::Quiet));
}

#[test]
fn normal_shows_error() {
    assert!(log_event_is_visible(&make_event(LogLevel::Error), Verbosity::Normal));
}

#[test]
fn normal_shows_warn() {
    assert!(log_event_is_visible(&make_event(LogLevel::Warn), Verbosity::Normal));
}

#[test]
fn normal_suppresses_info() {
    assert!(!log_event_is_visible(&make_event(LogLevel::Info), Verbosity::Normal));
}

#[test]
fn normal_suppresses_debug() {
    assert!(!log_event_is_visible(&make_event(LogLevel::Debug), Verbosity::Normal));
}

#[test]
fn normal_suppresses_trace() {
    assert!(!log_event_is_visible(&make_event(LogLevel::Trace), Verbosity::Normal));
}

#[test]
fn verbose_shows_error() {
    assert!(log_event_is_visible(&make_event(LogLevel::Error), Verbosity::Verbose));
}

#[test]
fn verbose_shows_warn() {
    assert!(log_event_is_visible(&make_event(LogLevel::Warn), Verbosity::Verbose));
}

#[test]
fn verbose_shows_info() {
    assert!(log_event_is_visible(&make_event(LogLevel::Info), Verbosity::Verbose));
}

#[test]
fn verbose_suppresses_debug() {
    assert!(!log_event_is_visible(&make_event(LogLevel::Debug), Verbosity::Verbose));
}

#[test]
fn verbose_debug_shows_debug() {
    assert!(log_event_is_visible(&make_event(LogLevel::Debug), Verbosity::VerboseDebug));
}

#[test]
fn verbose_debug_suppresses_trace() {
    assert!(!log_event_is_visible(&make_event(LogLevel::Trace), Verbosity::VerboseDebug));
}

#[test]
fn verbose_trace_shows_trace() {
    assert!(log_event_is_visible(&make_event(LogLevel::Trace), Verbosity::VerboseTrace));
}

#[test]
fn verbose_trace_shows_error() {
    assert!(log_event_is_visible(&make_event(LogLevel::Error), Verbosity::VerboseTrace));
}
