//! The server side of the resumable snapshot blob upload stream: the
//! checks on `upload_init`, the choice of the stream encoding, the resume
//! state kept between connections, and the checks on every chunk.
use vstd::prelude::*;

use crate::client::{SNAPSHOT_BLOB_DEFAULT_CHUNK_SIZE_BYTES, SNAPSHOT_BLOB_PROTOCOL_VERSION};
use crate::text::{chars_of, eq_chars, string_of};

verus! {

/// The only stream encoding besides raw bytes.
pub const SNAPSHOT_BLOB_ENCODING_ZSTD: &'static str = "zstd";

/// An encoding the client offers for one blob, with the stream size in it.
#[derive(Debug, Clone, PartialEq, Eq)]
pub struct EncodingOffer {
    pub encoding: String,
    pub size_bytes: u64,
}

/// Resume state of one blob upload, kept across connections.
#[derive(Debug, Clone, PartialEq, Eq)]
pub struct PersistedBlobUploadState {
    pub digest: String,
    pub raw_size_bytes: u64,
    pub stream_size_bytes: u64,
    pub chunk_size_bytes: u64,
    pub selected_encoding: Option<String>,
    pub next_sequence: u64,
    pub next_offset_bytes: u64,
    pub received_bytes: u64,
}

/// Why the server refuses an upload, with the code it sends.
#[derive(Debug, Clone, PartialEq, Eq)]
pub enum UploadError {
    /// `unsupported_version`: another protocol version.
    UnsupportedVersion { got: u8 },
    /// `unsupported_chunk_size`: not the fixed chunk size.
    UnsupportedChunkSize { got: u64 },
    /// `unsupported_encoding`: an offered encoding the server cannot read.
    UnsupportedEncoding { encoding: String },
    /// `resume_prepare_failed`: the stored session has another raw size.
    RawSizeMismatch { expected: u64, got: u64 },
    /// `resume_prepare_failed`: the stored session has another stream size.
    StreamSizeMismatch { expected: u64, got: u64 },
    /// `resume_prepare_failed`: the stored session has another chunk size.
    ChunkSizeMismatch { expected: u64, got: u64 },
    /// `resume_prepare_failed`: the stored session has another encoding.
    EncodingMismatch { expected: Option<String>, got: Option<String> },
    /// `resume_prepare_failed`: more bytes are staged than declared; the
    /// staged state is to be removed.
    StagedBeyondDeclaredSize { received: u64, declared: u64 },
    /// `resume_prepare_failed`: metadata and staged bytes disagree.
    Inconsistent,
    /// `resume_prepare_failed`: bytes are staged but the sequence is lost.
    MissingResumeSequence,
    /// `persist_failed`: the chunk would pass the declared size.
    ChunkExceedsDeclaredSize,
    /// `persist_failed`: an empty chunk before the end.
    EmptyNonFinalChunk,
    /// `unexpected_sequence`.
    UnexpectedSequence { expected: u64, got: u64 },
    /// `unexpected_offset`.
    UnexpectedOffset { expected: u64, got: u64 },
    /// `chunk_too_large`.
    ChunkTooLarge { size: u64, limit: u64 },
    /// `blob_too_large`.
    BlobTooLarge { received: u64, declared: u64 },
    /// `store_failed`: finalised before all bytes arrived.
    Incomplete { received: u64, declared: u64 },
    /// `store_failed`: the decoded blob has another size.
    DecodedSizeMismatch { decoded: u64, expected: u64 },
    /// `invalid_init_frame`: the first frame is not a text message.
    InvalidInitFrame,
    /// `unexpected_control_frame`: a text frame where chunks are expected.
    UnexpectedControlFrame,
}

impl UploadError {
    /// The error code sent to the client.
    pub fn code(&self) -> (r: &'static str)
        ensures
            r@ == upload_error_code(*self),
    {
        match self {
            UploadError::UnsupportedVersion { .. } => "unsupported_version",
            UploadError::UnsupportedChunkSize { .. } => "unsupported_chunk_size",
            UploadError::UnsupportedEncoding { .. } => "unsupported_encoding",
            UploadError::RawSizeMismatch { .. } => "resume_prepare_failed",
            UploadError::StreamSizeMismatch { .. } => "resume_prepare_failed",
            UploadError::ChunkSizeMismatch { .. } => "resume_prepare_failed",
            UploadError::EncodingMismatch { .. } => "resume_prepare_failed",
            UploadError::StagedBeyondDeclaredSize { .. } => "resume_prepare_failed",
            UploadError::Inconsistent => "resume_prepare_failed",
            UploadError::MissingResumeSequence => "resume_prepare_failed",
            UploadError::ChunkExceedsDeclaredSize => "persist_failed",
            UploadError::EmptyNonFinalChunk => "persist_failed",
            UploadError::UnexpectedSequence { .. } => "unexpected_sequence",
            UploadError::UnexpectedOffset { .. } => "unexpected_offset",
            UploadError::ChunkTooLarge { .. } => "chunk_too_large",
            UploadError::BlobTooLarge { .. } => "blob_too_large",
            UploadError::Incomplete { .. } => "store_failed",
            UploadError::DecodedSizeMismatch { .. } => "store_failed",
            UploadError::InvalidInitFrame => "invalid_init_frame",
            UploadError::UnexpectedControlFrame => "unexpected_control_frame",
        }
    }
}

pub open spec fn upload_error_code(e: UploadError) -> Seq<char> {
    match e {
        UploadError::UnsupportedVersion { .. } => "unsupported_version"@,
        UploadError::UnsupportedChunkSize { .. } => "unsupported_chunk_size"@,
        UploadError::UnsupportedEncoding { .. } => "unsupported_encoding"@,
        UploadError::RawSizeMismatch { .. } => "resume_prepare_failed"@,
        UploadError::StreamSizeMismatch { .. } => "resume_prepare_failed"@,
        UploadError::ChunkSizeMismatch { .. } => "resume_prepare_failed"@,
        UploadError::EncodingMismatch { .. } => "resume_prepare_failed"@,
        UploadError::StagedBeyondDeclaredSize { .. } => "resume_prepare_failed"@,
        UploadError::Inconsistent => "resume_prepare_failed"@,
        UploadError::MissingResumeSequence => "resume_prepare_failed"@,
        UploadError::ChunkExceedsDeclaredSize => "persist_failed"@,
        UploadError::EmptyNonFinalChunk => "persist_failed"@,
        UploadError::UnexpectedSequence { .. } => "unexpected_sequence"@,
        UploadError::UnexpectedOffset { .. } => "unexpected_offset"@,
        UploadError::ChunkTooLarge { .. } => "chunk_too_large"@,
        UploadError::BlobTooLarge { .. } => "blob_too_large"@,
        UploadError::Incomplete { .. } => "store_failed"@,
        UploadError::DecodedSizeMismatch { .. } => "store_failed"@,
        UploadError::InvalidInitFrame => "invalid_init_frame"@,
        UploadError::UnexpectedControlFrame => "unexpected_control_frame"@,
    }
}

/// Checks the protocol version and chunk size of an `upload_init`.
pub fn check_upload_init(version: u8, chunk_size_bytes: u64) -> (r: Result<(), UploadError>)
    ensures
        version != SNAPSHOT_BLOB_PROTOCOL_VERSION ==> r == Err::<(), UploadError>(
            UploadError::UnsupportedVersion { got: version },
        ),
        version == SNAPSHOT_BLOB_PROTOCOL_VERSION && chunk_size_bytes
            != SNAPSHOT_BLOB_DEFAULT_CHUNK_SIZE_BYTES ==> r == Err::<(), UploadError>(
            UploadError::UnsupportedChunkSize { got: chunk_size_bytes },
        ),
        version == SNAPSHOT_BLOB_PROTOCOL_VERSION && chunk_size_bytes
            == SNAPSHOT_BLOB_DEFAULT_CHUNK_SIZE_BYTES ==> r is Ok,
{
    if version != SNAPSHOT_BLOB_PROTOCOL_VERSION {
        return Err(UploadError::UnsupportedVersion { got: version });
    }
    if chunk_size_bytes != SNAPSHOT_BLOB_DEFAULT_CHUNK_SIZE_BYTES {
        return Err(UploadError::UnsupportedChunkSize { got: chunk_size_bytes });
    }
    Ok(())
}

/// Position of the first offer whose encoding is `zstd` (when `zstd` is
/// true) or is not (when false), or the number of offers.
pub open spec fn first_offer(offers: Seq<EncodingOffer>, zstd: bool) -> int
    decreases offers.len(),
{
    if offers.len() == 0 {
        0
    } else if (offers[0].encoding@ == "zstd"@) == zstd {
        0
    } else {
        1 + first_offer(offers.drop_first(), zstd)
    }
}

proof fn lemma_first_offer(offers: Seq<EncodingOffer>, zstd: bool, i: int)
    requires
        0 <= i <= offers.len(),
        forall|j: int| 0 <= j < i ==> ((#[trigger] offers[j]).encoding@ == "zstd"@) != zstd,
    ensures
        i < offers.len() && (offers[i].encoding@ == "zstd"@) == zstd ==> first_offer(offers, zstd)
            == i,
        i == offers.len() ==> first_offer(offers, zstd) == offers.len(),
    decreases i,
{
    if i > 0 {
        assert forall|j: int| 0 <= j < i - 1 implies ((
        #[trigger] offers.drop_first()[j]).encoding@ == "zstd"@) != zstd by {
            assert(offers.drop_first()[j] == offers[j + 1]);
        }
        lemma_first_offer(offers.drop_first(), zstd, i - 1);
    }
}

fn find_offer(offers: &[EncodingOffer], zstd: bool) -> (r: usize)
    ensures
        r == first_offer(offers@, zstd),
        r <= offers.len(),
        r < offers.len() ==> (offers@[r as int].encoding@ == "zstd"@) == zstd,
{
    let z = chars_of(SNAPSHOT_BLOB_ENCODING_ZSTD);
    let mut i: usize = 0;
    while i < offers.len()
        invariant
            i <= offers.len(),
            z@ == "zstd"@,
            forall|j: int| 0 <= j < i ==> ((#[trigger] offers@[j]).encoding@ == "zstd"@) != zstd,
        decreases offers.len() - i,
    {
        let is_z = eq_chars(chars_of(offers[i].encoding.as_str()).as_slice(), z.as_slice());
        if is_z == zstd {
            proof {
                lemma_first_offer(offers@, zstd, i as int);
            }
            return i;
        }
        i += 1;
    }
    proof {
        lemma_first_offer(offers@, zstd, i as int);
    }
    i
}

/// Whether the client declares the `zstd` capability.
pub open spec fn has_zstd_flag(flags: Seq<String>) -> bool {
    exists|i: int| 0 <= i < flags.len() && (#[trigger] flags[i])@ == "zstd"@
}

/// Chooses the stream encoding of an upload: the `zstd` offer when the
/// client declares the `zstd` capability and offers it; else an offer of
/// another encoding is refused; else the raw bytes.
pub fn select_upload_encoding(
    raw_size_bytes: u64,
    capability_flags: &[String],
    offered_encodings: &[EncodingOffer],
) -> (r: Result<(Option<String>, u64), UploadError>)
    ensures
        ({
            let z = first_offer(offered_encodings@, true);
            let other = first_offer(offered_encodings@, false);
            if has_zstd_flag(capability_flags@) && z < offered_encodings.len() {
                r matches Ok((Some(e), n)) && e@ == "zstd"@ && n
                    == offered_encodings@[z].size_bytes
            } else if other < offered_encodings.len() {
                r matches Err(UploadError::UnsupportedEncoding { encoding }) && encoding@
                    == offered_encodings@[other].encoding@
            } else {
                r == Ok::<(Option<String>, u64), UploadError>((None, raw_size_bytes))
            }
        }),
{
    let z = chars_of(SNAPSHOT_BLOB_ENCODING_ZSTD);
    let mut flagged = false;
    let mut i: usize = 0;
    while i < capability_flags.len()
        invariant
            i <= capability_flags.len(),
            z@ == "zstd"@,
            flagged == exists|j: int| 0 <= j < i && (#[trigger] capability_flags@[j])@ == "zstd"@,
        decreases capability_flags.len() - i,
    {
        if eq_chars(chars_of(capability_flags[i].as_str()).as_slice(), z.as_slice()) {
            flagged = true;
        }
        i += 1;
    }
    let zi = find_offer(offered_encodings, true);
    if flagged && zi < offered_encodings.len() {
        let e = offered_encodings[zi].encoding.clone();
        return Ok((Some(e), offered_encodings[zi].size_bytes));
    }
    let oi = find_offer(offered_encodings, false);
    if oi < offered_encodings.len() {
        return Err(UploadError::UnsupportedEncoding { encoding: offered_encodings[oi].encoding.clone() });
    }
    Ok((None, raw_size_bytes))
}

pub open spec fn opt_view(o: Option<String>) -> Option<Seq<char>> {
    match o {
        Some(s) => Some(s@),
        None => None,
    }
}

fn same_encoding(a: &Option<String>, b: &Option<String>) -> (r: bool)
    ensures
        r == (opt_view(*a) == opt_view(*b)),
{
    match (a, b) {
        (None, None) => true,
        (Some(x), Some(y)) => eq_chars(chars_of(x.as_str()).as_slice(), chars_of(y.as_str()).as_slice()),
        _ => false,
    }
}

fn copy_encoding(a: &Option<String>) -> (r: Option<String>)
    ensures
        r == *a,
{
    match a {
        None => None,
        Some(x) => Some(x.clone()),
    }
}

/// The resume state that an upload continues from, given the stored state
/// (if any), the parameters of this connection and the number of bytes
/// staged on disk:
/// - stored state that disagrees on a size or the encoding is refused;
/// - more staged bytes than declared are refused (and the state removed);
/// - metadata that disagrees with the staged bytes restarts from zero when
///   nothing is staged, and is refused otherwise;
/// - staged bytes without a resume sequence are refused;
/// - otherwise the state continues at the staged byte count.
pub fn prepare_resume(
    stored: Option<PersistedBlobUploadState>,
    digest: &str,
    raw_size_bytes: u64,
    stream_size_bytes: u64,
    chunk_size_bytes: u64,
    selected_encoding: Option<String>,
    staged_bytes: u64,
) -> (r: Result<PersistedBlobUploadState, UploadError>)
    ensures
        ({
            let s = match stored {
                Some(st) => st,
                None => PersistedBlobUploadState {
                    digest: arbitrary(),
                    raw_size_bytes,
                    stream_size_bytes,
                    chunk_size_bytes,
                    selected_encoding,
                    next_sequence: 0,
                    next_offset_bytes: 0,
                    received_bytes: 0,
                },
            };
            let reset = s.received_bytes != staged_bytes || s.next_offset_bytes != staged_bytes;
            let seq = if reset {
                0
            } else {
                s.next_sequence
            };
            if s.raw_size_bytes != raw_size_bytes {
                r == Err::<PersistedBlobUploadState, UploadError>(
                    UploadError::RawSizeMismatch { expected: s.raw_size_bytes, got: raw_size_bytes },
                )
            } else if s.stream_size_bytes != stream_size_bytes {
                r == Err::<PersistedBlobUploadState, UploadError>(
                    UploadError::StreamSizeMismatch {
                        expected: s.stream_size_bytes,
                        got: stream_size_bytes,
                    },
                )
            } else if s.chunk_size_bytes != chunk_size_bytes {
                r == Err::<PersistedBlobUploadState, UploadError>(
                    UploadError::ChunkSizeMismatch {
                        expected: s.chunk_size_bytes,
                        got: chunk_size_bytes,
                    },
                )
            } else if opt_view(s.selected_encoding) != opt_view(selected_encoding) {
                r == Err::<PersistedBlobUploadState, UploadError>(
                    UploadError::EncodingMismatch {
                        expected: s.selected_encoding,
                        got: selected_encoding,
                    },
                )
            } else if staged_bytes > stream_size_bytes {
                r == Err::<PersistedBlobUploadState, UploadError>(
                    UploadError::StagedBeyondDeclaredSize {
                        received: staged_bytes,
                        declared: stream_size_bytes,
                    },
                )
            } else if reset && staged_bytes != 0 {
                r == Err::<PersistedBlobUploadState, UploadError>(UploadError::Inconsistent)
            } else if staged_bytes > 0 && seq == 0 {
                r == Err::<PersistedBlobUploadState, UploadError>(
                    UploadError::MissingResumeSequence,
                )
            } else {
                r matches Ok(n) && n.raw_size_bytes == raw_size_bytes && n.stream_size_bytes
                    == stream_size_bytes && n.chunk_size_bytes == chunk_size_bytes && opt_view(
                    n.selected_encoding,
                ) == opt_view(selected_encoding) && n.next_sequence == seq && n.received_bytes
                    == staged_bytes && n.next_offset_bytes == staged_bytes && (stored matches Some(
                    st,
                ) ==> n.digest == st.digest) && (stored is None ==> n.digest@ == digest@)
            }
        }),
{
    let mut state = match stored {
        Some(st) => st,
        None => PersistedBlobUploadState {
            digest: string_of(chars_of(digest).as_slice()),
            raw_size_bytes,
            stream_size_bytes,
            chunk_size_bytes,
            selected_encoding: copy_encoding(&selected_encoding),
            next_sequence: 0,
            next_offset_bytes: 0,
            received_bytes: 0,
        },
    };
    if state.raw_size_bytes != raw_size_bytes {
        return Err(
            UploadError::RawSizeMismatch { expected: state.raw_size_bytes, got: raw_size_bytes },
        );
    }
    if state.stream_size_bytes != stream_size_bytes {
        return Err(
            UploadError::StreamSizeMismatch {
                expected: state.stream_size_bytes,
                got: stream_size_bytes,
            },
        );
    }
    if state.chunk_size_bytes != chunk_size_bytes {
        return Err(
            UploadError::ChunkSizeMismatch { expected: state.chunk_size_bytes, got: chunk_size_bytes },
        );
    }
    if !same_encoding(&state.selected_encoding, &selected_encoding) {
        return Err(
            UploadError::EncodingMismatch { expected: state.selected_encoding, got: selected_encoding },
        );
    }
    if staged_bytes > stream_size_bytes {
        return Err(
            UploadError::StagedBeyondDeclaredSize {
                received: staged_bytes,
                declared: stream_size_bytes,
            },
        );
    }
    if state.received_bytes != staged_bytes || state.next_offset_bytes != staged_bytes {
        if staged_bytes == 0 {
            state.received_bytes = 0;
            state.next_offset_bytes = 0;
            state.next_sequence = 0;
        } else {
            return Err(UploadError::Inconsistent);
        }
    }
    if staged_bytes > 0 && state.next_sequence == 0 {
        return Err(UploadError::MissingResumeSequence);
    }
    state.received_bytes = staged_bytes;
    state.next_offset_bytes = staged_bytes;
    Ok(state)
}

/// The resume state after a chunk of `payload_len` bytes is appended.
pub fn append_chunk(state: PersistedBlobUploadState, payload_len: u64) -> (r: Result<
    PersistedBlobUploadState,
    UploadError,
>)
    requires
        state.received_bytes <= state.stream_size_bytes,
    ensures
        state.received_bytes + payload_len > state.stream_size_bytes ==> r == Err::<
            PersistedBlobUploadState,
            UploadError,
        >(UploadError::ChunkExceedsDeclaredSize),
        state.received_bytes + payload_len <= state.stream_size_bytes && payload_len == 0
            && state.received_bytes < state.stream_size_bytes ==> r == Err::<
            PersistedBlobUploadState,
            UploadError,
        >(UploadError::EmptyNonFinalChunk),
        state.received_bytes + payload_len <= state.stream_size_bytes && !(payload_len == 0
            && state.received_bytes < state.stream_size_bytes) ==> r == Ok::<
            PersistedBlobUploadState,
            UploadError,
        >(
            PersistedBlobUploadState {
                received_bytes: (state.received_bytes + payload_len) as u64,
                next_offset_bytes: (state.received_bytes + payload_len) as u64,
                next_sequence: if state.next_sequence == u64::MAX {
                    u64::MAX
                } else {
                    (state.next_sequence + 1) as u64
                },
                ..state
            },
        ),
{
    if payload_len > state.stream_size_bytes - state.received_bytes {
        return Err(UploadError::ChunkExceedsDeclaredSize);
    }
    let next_received = state.received_bytes + payload_len;
    if payload_len == 0 && next_received < state.stream_size_bytes {
        return Err(UploadError::EmptyNonFinalChunk);
    }
    let next_sequence = state.next_sequence.saturating_add(1);
    Ok(
        PersistedBlobUploadState {
            received_bytes: next_received,
            next_offset_bytes: next_received,
            next_sequence,
            ..state
        },
    )
}

/// The part of an upload session that the chunk checks read.
#[derive(Debug, Clone, PartialEq, Eq)]
pub struct SessionPosition {
    pub next_sequence: u64,
    pub received_bytes: u64,
    pub chunk_size_bytes: u64,
    pub stream_size_bytes: u64,
}

/// Checks a chunk header against the session: the expected sequence and
/// offset, the negotiated chunk size, and the declared length.
pub fn check_chunk_header(
    session: &SessionPosition,
    sequence: u64,
    offset_bytes: u64,
    payload_size_bytes: u64,
) -> (r: Result<(), UploadError>)
    ensures
        sequence != session.next_sequence ==> r == Err::<(), UploadError>(
            UploadError::UnexpectedSequence { expected: session.next_sequence, got: sequence },
        ),
        sequence == session.next_sequence && offset_bytes != session.received_bytes ==> r == Err::<
            (),
            UploadError,
        >(UploadError::UnexpectedOffset { expected: session.received_bytes, got: offset_bytes }),
        sequence == session.next_sequence && offset_bytes == session.received_bytes
            && payload_size_bytes > session.chunk_size_bytes ==> r == Err::<(), UploadError>(
            UploadError::ChunkTooLarge {
                size: payload_size_bytes,
                limit: session.chunk_size_bytes,
            },
        ),
        ({
            let next = if session.received_bytes + payload_size_bytes > u64::MAX {
                u64::MAX as int
            } else {
                session.received_bytes + payload_size_bytes
            };
            sequence == session.next_sequence && offset_bytes == session.received_bytes
                && payload_size_bytes <= session.chunk_size_bytes ==> if next
                > session.stream_size_bytes {
                r == Err::<(), UploadError>(
                    UploadError::BlobTooLarge {
                        received: next as u64,
                        declared: session.stream_size_bytes,
                    },
                )
            } else {
                r is Ok
            }
        }),
{
    if sequence != session.next_sequence {
        return Err(UploadError::UnexpectedSequence { expected: session.next_sequence, got: sequence });
    }
    if offset_bytes != session.received_bytes {
        return Err(
            UploadError::UnexpectedOffset { expected: session.received_bytes, got: offset_bytes },
        );
    }
    if payload_size_bytes > session.chunk_size_bytes {
        return Err(
            UploadError::ChunkTooLarge { size: payload_size_bytes, limit: session.chunk_size_bytes },
        );
    }
    let next_received = session.received_bytes.saturating_add(payload_size_bytes);
    if next_received > session.stream_size_bytes {
        return Err(
            UploadError::BlobTooLarge { received: next_received, declared: session.stream_size_bytes },
        );
    }
    Ok(())
}

/// How the staged stream of a complete session is turned into the blob.
#[derive(Debug, Clone, PartialEq, Eq)]
pub enum StreamDecoding {
    /// The stream is the blob.
    Raw,
    /// The stream is zstd; the blob is its decoding, and the stream is kept
    /// as the blob's zstd variant.
    Zstd,
    /// The stream has an encoding the server cannot read.
    Unsupported(String),
}

/// Checks that a session to finalise has every byte staged, and says how
/// its stream decodes.
pub fn finalize_plan(state: &PersistedBlobUploadState, staged_bytes: u64) -> (r: Result<
    StreamDecoding,
    UploadError,
>)
    ensures
        staged_bytes != state.stream_size_bytes ==> r == Err::<StreamDecoding, UploadError>(
            UploadError::Incomplete { received: staged_bytes, declared: state.stream_size_bytes },
        ),
        staged_bytes == state.stream_size_bytes ==> match state.selected_encoding {
            None => r == Ok::<StreamDecoding, UploadError>(StreamDecoding::Raw),
            Some(e) => if e@ == "zstd"@ {
                r == Ok::<StreamDecoding, UploadError>(StreamDecoding::Zstd)
            } else {
                r matches Ok(StreamDecoding::Unsupported(x)) && x@ == e@
            },
        },
{
    if staged_bytes != state.stream_size_bytes {
        return Err(
            UploadError::Incomplete { received: staged_bytes, declared: state.stream_size_bytes },
        );
    }
    match &state.selected_encoding {
        None => Ok(StreamDecoding::Raw),
        Some(e) => {
            if eq_chars(chars_of(e.as_str()).as_slice(), chars_of(SNAPSHOT_BLOB_ENCODING_ZSTD).as_slice()) {
                Ok(StreamDecoding::Zstd)
            } else {
                Ok(StreamDecoding::Unsupported(e.clone()))
            }
        },
    }
}

/// Checks the size of the decoded blob against the declared raw size.
pub fn check_decoded_size(state: &PersistedBlobUploadState, decoded_len: u64) -> (r: Result<
    (),
    UploadError,
>)
    ensures
        decoded_len == state.raw_size_bytes ==> r is Ok,
        decoded_len != state.raw_size_bytes ==> r == Err::<(), UploadError>(
            UploadError::DecodedSizeMismatch { decoded: decoded_len, expected: state.raw_size_bytes },
        ),
{
    if decoded_len != state.raw_size_bytes {
        return Err(
            UploadError::DecodedSizeMismatch { decoded: decoded_len, expected: state.raw_size_bytes },
        );
    }
    Ok(())
}

/// The kind of a websocket frame read from the upload stream.
#[derive(Debug, Clone, Copy, PartialEq, Eq)]
pub enum UploadFrameKind {
    Text,
    Binary,
    Ping,
    Pong,
    Close,
}

/// What the server does with a frame of the upload stream.
#[derive(Debug, Clone, PartialEq, Eq)]
pub enum UploadFrameAction {
    /// Parse the text frame as `upload_init`.
    ParseInit,
    /// Decode the binary frame as a chunk.
    TakeChunk,
    /// Read the next frame.
    Skip,
    /// Stop reading without an answer.
    Stop,
    /// Answer with this error and stop.
    Refuse(UploadError),
}

/// The action for the first frame of the stream (`None`: the stream ended
/// before it).
pub fn init_frame_action(frame: Option<UploadFrameKind>) -> (r: UploadFrameAction)
    ensures
        r == match frame {
            None => UploadFrameAction::Stop,
            Some(UploadFrameKind::Text) => UploadFrameAction::ParseInit,
            Some(_) => UploadFrameAction::Refuse(UploadError::InvalidInitFrame),
        },
{
    match frame {
        None => UploadFrameAction::Stop,
        Some(UploadFrameKind::Text) => UploadFrameAction::ParseInit,
        Some(_) => UploadFrameAction::Refuse(UploadError::InvalidInitFrame),
    }
}

/// The action for a frame that arrives after the resume point was
/// announced.
pub fn chunk_frame_action(frame: UploadFrameKind) -> (r: UploadFrameAction)
    ensures
        r == match frame {
            UploadFrameKind::Binary => UploadFrameAction::TakeChunk,
            UploadFrameKind::Text => UploadFrameAction::Refuse(UploadError::UnexpectedControlFrame),
            UploadFrameKind::Close => UploadFrameAction::Stop,
            UploadFrameKind::Ping | UploadFrameKind::Pong => UploadFrameAction::Skip,
        },
{
    match frame {
        UploadFrameKind::Binary => UploadFrameAction::TakeChunk,
        UploadFrameKind::Text => UploadFrameAction::Refuse(UploadError::UnexpectedControlFrame),
        UploadFrameKind::Close => UploadFrameAction::Stop,
        UploadFrameKind::Ping | UploadFrameKind::Pong => UploadFrameAction::Skip,
    }
}

/// How an accepted `upload_init` goes on.
#[derive(Debug, Clone, Copy, PartialEq, Eq)]
pub enum InitOutcome {
    /// The blob is stored already: answer `upload_complete` with
    /// `uploaded: false`.
    AlreadyStored,
    /// Every byte is staged: finalise at once.
    FinalizeStaged,
    /// Announce the resume point, then finalise the empty stream.
    AnnounceThenFinalize,
    /// Announce the resume point, then read chunks.
    AnnounceThenReceive,
}

/// The step after `upload_init` was accepted: `blob_present` is whether the
/// blob store holds the digest, `received_bytes` what the prepared resume
/// state has staged.
pub fn init_outcome(blob_present: bool, received_bytes: u64, stream_size_bytes: u64) -> (r:
    InitOutcome)
    ensures
        r == if blob_present {
            InitOutcome::AlreadyStored
        } else if received_bytes == stream_size_bytes {
            InitOutcome::FinalizeStaged
        } else if stream_size_bytes == 0 {
            InitOutcome::AnnounceThenFinalize
        } else {
            InitOutcome::AnnounceThenReceive
        },
{
    if blob_present {
        InitOutcome::AlreadyStored
    } else if received_bytes == stream_size_bytes {
        InitOutcome::FinalizeStaged
    } else if stream_size_bytes == 0 {
        InitOutcome::AnnounceThenFinalize
    } else {
        InitOutcome::AnnounceThenReceive
    }
}

/// Whether the stream is finalised after a chunk was acknowledged.
pub fn upload_finished(state: &PersistedBlobUploadState) -> (r: bool)
    ensures
        r == (state.received_bytes == state.stream_size_bytes),
{
    state.received_bytes == state.stream_size_bytes
}

} // verus!
