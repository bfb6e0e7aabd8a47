use remerge::client::{SNAPSHOT_BLOB_DEFAULT_CHUNK_SIZE_BYTES, SNAPSHOT_BLOB_PROTOCOL_VERSION};
use remerge::upload::{
    append_chunk, check_chunk_header, check_decoded_size, check_upload_init, chunk_frame_action,
    finalize_plan, init_frame_action, init_outcome, prepare_resume, select_upload_encoding,
    upload_finished, EncodingOffer, InitOutcome, PersistedBlobUploadState, SessionPosition,
    StreamDecoding, UploadError, UploadFrameAction, UploadFrameKind,
};

const DIGEST: &str = "9f86d081884c7d659a2feaa0c55ad015a3bf4f1b2b0b822cd15d6c15b0f00a08";

fn state(received: u64, next_sequence: u64) -> PersistedBlobUploadState {
    PersistedBlobUploadState {
        digest: DIGEST.to_string(),
        raw_size_bytes: 4096,
        stream_size_bytes: 3000,
        chunk_size_bytes: SNAPSHOT_BLOB_DEFAULT_CHUNK_SIZE_BYTES,
        selected_encoding: Some("zstd".to_string()),
        next_sequence,
        next_offset_bytes: received,
        received_bytes: received,
    }
}

#[test]
fn upload_init_accepts_only_the_protocol_version_and_fixed_chunk_size() {
    assert_eq!(
        check_upload_init(SNAPSHOT_BLOB_PROTOCOL_VERSION, SNAPSHOT_BLOB_DEFAULT_CHUNK_SIZE_BYTES),
        Ok(())
    );
    let err = check_upload_init(SNAPSHOT_BLOB_PROTOCOL_VERSION + 1, 1).unwrap_err();
    assert_eq!(err, UploadError::UnsupportedVersion { got: SNAPSHOT_BLOB_PROTOCOL_VERSION + 1 });
    assert_eq!(err.code(), "unsupported_version");
    let err = check_upload_init(SNAPSHOT_BLOB_PROTOCOL_VERSION, 4096).unwrap_err();
    assert_eq!(err, UploadError::UnsupportedChunkSize { got: 4096 });
    assert_eq!(err.code(), "unsupported_chunk_size");
}

#[test]
fn zstd_is_selected_only_with_the_capability() {
    let offers = vec![EncodingOffer { encoding: "zstd".to_string(), size_bytes: 700 }];
    let flags = vec!["zstd".to_string()];
    assert_eq!(
        select_upload_encoding(4096, &flags, &offers),
        Ok((Some("zstd".to_string()), 700))
    );
    assert_eq!(select_upload_encoding(4096, &[], &offers), Ok((None, 4096)));
    assert_eq!(select_upload_encoding(4096, &flags, &[]), Ok((None, 4096)));
}

#[test]
fn unknown_offered_encoding_is_refused() {
    let offers = vec![EncodingOffer { encoding: "brotli".to_string(), size_bytes: 10 }];
    let err = select_upload_encoding(4096, &["zstd".to_string()], &offers).unwrap_err();
    assert_eq!(err, UploadError::UnsupportedEncoding { encoding: "brotli".to_string() });
    assert_eq!(err.code(), "unsupported_encoding");
}

#[test]
fn fresh_upload_starts_at_zero() {
    let s = prepare_resume(
        None,
        DIGEST,
        4096,
        3000,
        SNAPSHOT_BLOB_DEFAULT_CHUNK_SIZE_BYTES,
        Some("zstd".to_string()),
        0,
    )
    .unwrap();
    assert_eq!(s, state(0, 0));
}

#[test]
fn stored_state_resumes_at_staged_bytes() {
    let s = prepare_resume(
        Some(state(2048, 2)),
        DIGEST,
        4096,
        3000,
        SNAPSHOT_BLOB_DEFAULT_CHUNK_SIZE_BYTES,
        Some("zstd".to_string()),
        2048,
    )
    .unwrap();
    assert_eq!(s, state(2048, 2));
}

#[test]
fn resume_refusals() {
    let chunk = SNAPSHOT_BLOB_DEFAULT_CHUNK_SIZE_BYTES;
    let zstd = || Some("zstd".to_string());
    assert_eq!(
        prepare_resume(Some(state(0, 0)), DIGEST, 4096, 3000, chunk, None, 0),
        Err(UploadError::EncodingMismatch { expected: zstd(), got: None })
    );
    assert_eq!(
        prepare_resume(Some(state(0, 0)), DIGEST, 4000, 2999, chunk, zstd(), 0),
        Err(UploadError::RawSizeMismatch { expected: 4096, got: 4000 })
    );
    assert_eq!(
        prepare_resume(Some(state(0, 0)), DIGEST, 4096, 3000, chunk + 1, None, 0),
        Err(UploadError::ChunkSizeMismatch { expected: chunk, got: chunk + 1 })
    );
    assert_eq!(
        prepare_resume(Some(state(0, 0)), DIGEST, 4096, 2999, chunk, zstd(), 0),
        Err(UploadError::StreamSizeMismatch { expected: 3000, got: 2999 })
    );
    assert_eq!(
        prepare_resume(Some(state(0, 0)), DIGEST, 4096, 3000, chunk, zstd(), 3001),
        Err(UploadError::StagedBeyondDeclaredSize { received: 3001, declared: 3000 })
    );
    assert_eq!(
        prepare_resume(Some(state(100, 1)), DIGEST, 4096, 3000, chunk, zstd(), 50),
        Err(UploadError::Inconsistent)
    );
    assert_eq!(
        prepare_resume(Some(state(100, 0)), DIGEST, 4096, 3000, chunk, zstd(), 100),
        Err(UploadError::MissingResumeSequence)
    );
    assert_eq!(UploadError::MissingResumeSequence.code(), "resume_prepare_failed");
}

#[test]
fn inconsistent_metadata_restarts_when_nothing_is_staged() {
    let s = prepare_resume(
        Some(state(100, 4)),
        DIGEST,
        4096,
        3000,
        SNAPSHOT_BLOB_DEFAULT_CHUNK_SIZE_BYTES,
        Some("zstd".to_string()),
        0,
    )
    .unwrap();
    assert_eq!(s, state(0, 0));
}

#[test]
fn appended_chunks_advance_the_resume_state() {
    let s = append_chunk(state(0, 0), 1000).unwrap();
    assert_eq!(s, state(1000, 1));
    let s = append_chunk(s, 2000).unwrap();
    assert_eq!(s, state(3000, 2));
    // An empty final chunk is accepted once everything is there.
    assert_eq!(append_chunk(s.clone(), 0), Ok(state(3000, 3)));
    assert_eq!(append_chunk(s, 1), Err(UploadError::ChunkExceedsDeclaredSize));
    assert_eq!(append_chunk(state(10, 1), 0), Err(UploadError::EmptyNonFinalChunk));
    assert_eq!(UploadError::EmptyNonFinalChunk.code(), "persist_failed");
}

#[test]
fn chunk_headers_are_checked_in_order() {
    let session = SessionPosition {
        next_sequence: 3,
        received_bytes: 2000,
        chunk_size_bytes: 1000,
        stream_size_bytes: 2500,
    };
    assert_eq!(
        check_chunk_header(&session, 2, 2000, 10),
        Err(UploadError::UnexpectedSequence { expected: 3, got: 2 })
    );
    assert_eq!(
        check_chunk_header(&session, 3, 1000, 10),
        Err(UploadError::UnexpectedOffset { expected: 2000, got: 1000 })
    );
    assert_eq!(
        check_chunk_header(&session, 3, 2000, 1001),
        Err(UploadError::ChunkTooLarge { size: 1001, limit: 1000 })
    );
    assert_eq!(
        check_chunk_header(&session, 3, 2000, 600),
        Err(UploadError::BlobTooLarge { received: 2600, declared: 2500 })
    );
    assert_eq!(check_chunk_header(&session, 3, 2000, 500), Ok(()));
    assert_eq!(UploadError::BlobTooLarge { received: 0, declared: 0 }.code(), "blob_too_large");
}

#[test]
fn finalize_requires_every_byte_and_reads_the_encoding() {
    let complete = state(3000, 3);
    assert_eq!(
        finalize_plan(&complete, 2999),
        Err(UploadError::Incomplete { received: 2999, declared: 3000 })
    );
    assert_eq!(finalize_plan(&complete, 3000), Ok(StreamDecoding::Zstd));
    let mut raw = complete.clone();
    raw.selected_encoding = None;
    assert_eq!(finalize_plan(&raw, 3000), Ok(StreamDecoding::Raw));
    let mut other = complete;
    other.selected_encoding = Some("gzip".to_string());
    assert_eq!(
        finalize_plan(&other, 3000),
        Ok(StreamDecoding::Unsupported("gzip".to_string()))
    );
}

#[test]
fn decoded_size_must_match_the_declared_raw_size() {
    let s = state(3000, 3);
    assert_eq!(check_decoded_size(&s, 4096), Ok(()));
    let err = check_decoded_size(&s, 4000).unwrap_err();
    assert_eq!(err, UploadError::DecodedSizeMismatch { decoded: 4000, expected: 4096 });
    assert_eq!(err.code(), "store_failed");
}

#[test]
fn upload_frames_are_dispatched_by_kind() {
    assert_eq!(init_frame_action(None), UploadFrameAction::Stop);
    assert_eq!(init_frame_action(Some(UploadFrameKind::Text)), UploadFrameAction::ParseInit);
    assert_eq!(
        init_frame_action(Some(UploadFrameKind::Binary)),
        UploadFrameAction::Refuse(UploadError::InvalidInitFrame)
    );
    assert_eq!(UploadError::InvalidInitFrame.code(), "invalid_init_frame");
    assert_eq!(chunk_frame_action(UploadFrameKind::Binary), UploadFrameAction::TakeChunk);
    assert_eq!(
        chunk_frame_action(UploadFrameKind::Text),
        UploadFrameAction::Refuse(UploadError::UnexpectedControlFrame)
    );
    assert_eq!(UploadError::UnexpectedControlFrame.code(), "unexpected_control_frame");
    assert_eq!(chunk_frame_action(UploadFrameKind::Ping), UploadFrameAction::Skip);
    assert_eq!(chunk_frame_action(UploadFrameKind::Pong), UploadFrameAction::Skip);
    assert_eq!(chunk_frame_action(UploadFrameKind::Close), UploadFrameAction::Stop);
}

#[test]
fn accepted_init_goes_on_by_stored_and_staged_bytes() {
    assert_eq!(init_outcome(true, 0, 100), InitOutcome::AlreadyStored);
    assert_eq!(init_outcome(false, 100, 100), InitOutcome::FinalizeStaged);
    assert_eq!(init_outcome(false, 0, 0), InitOutcome::FinalizeStaged);
    assert_eq!(init_outcome(false, 40, 100), InitOutcome::AnnounceThenReceive);
    assert!(upload_finished(&state(3000, 3)));
    assert!(!upload_finished(&state(2048, 2)));
}
