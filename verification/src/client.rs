//! Decisions of the HTTP and WebSocket client that talks to the remerge
//! server: the adaptive chunk size of snapshot blob uploads, the checks on
//! the server's control frames, and which forwarded log events to show.
use vstd::prelude::*;

use crate::text::{
    ascii_lower_seq, chars_of, concat_chars, contains_chars, contains_seq, eq_chars, has_prefix,
    lower_chars, split_chars, split_on, starts_with, string_of, sub_chars,
};
use crate::verbosity::{rank, Verbosity};

verus! {

/// Chunk size that snapshot blob uploads start from.
pub const SNAPSHOT_BLOB_DEFAULT_CHUNK_SIZE_BYTES: u64 = 1048576;

/// Version of the snapshot blob upload protocol.
pub const SNAPSHOT_BLOB_PROTOCOL_VERSION: u8 = 1;

/// Smallest chunk the adaptive policy shrinks to.
pub const SNAPSHOT_BLOB_STREAM_MIN_CHUNK_SIZE_BYTES: u64 = 262144;

/// Acks slower than this many milliseconds shrink the chunk size.
pub const SNAPSHOT_BLOB_STREAM_SLOW_ACK_THRESHOLD_MILLIS: u64 = 150;

/// Consecutive fast acks after which the chunk size grows.
pub const SNAPSHOT_BLOB_STREAM_GROW_AFTER_HEALTHY_ACKS: usize = 2;

/// Connection attempts of a blob upload before giving up.
pub const SNAPSHOT_BLOB_STREAM_MAX_CONNECTION_ATTEMPTS: usize = 4;

pub open spec fn min_u64(a: u64, b: u64) -> u64 {
    if a <= b {
        a
    } else {
        b
    }
}

pub open spec fn max_u64(a: u64, b: u64) -> u64 {
    if a >= b {
        a
    } else {
        b
    }
}

/// The floor that a policy for chunks of at most `max` bytes never goes below.
pub open spec fn min_chunk_for(max: u64) -> u64 {
    min_u64(SNAPSHOT_BLOB_STREAM_MIN_CHUNK_SIZE_BYTES, max_u64(max, 1))
}

/// Adaptive chunk size for websocket snapshot blob uploads: halves on a
/// slow ack or a reconnect, doubles after a streak of fast acks, and stays
/// between a floor and the configured maximum.
#[derive(Debug, Clone)]
pub struct SnapshotBlobChunkPolicy {
    current_chunk_size_bytes: u64,
    max_chunk_size_bytes: u64,
    min_chunk_size_bytes: u64,
    healthy_ack_streak: usize,
}

impl SnapshotBlobChunkPolicy {
    pub closed spec fn current(&self) -> u64 {
        self.current_chunk_size_bytes
    }

    pub closed spec fn max_size(&self) -> u64 {
        self.max_chunk_size_bytes
    }

    pub closed spec fn min_size(&self) -> u64 {
        self.min_chunk_size_bytes
    }

    pub closed spec fn streak(&self) -> usize {
        self.healthy_ack_streak
    }

    /// The policy's invariant: the floor is fixed by the maximum, the streak
    /// is shorter than the growth threshold, and the current size lies
    /// between the floor and the maximum (the maximum itself before any ack
    /// when the maximum is below the floor).
    pub open spec fn wf(&self) -> bool {
        &&& self.sizes_wf()
        &&& self.streak() < SNAPSHOT_BLOB_STREAM_GROW_AFTER_HEALTHY_ACKS
    }

    /// The part of [`Self::wf`] that speaks of sizes only.
    pub open spec fn sizes_wf(&self) -> bool {
        &&& self.min_size() == min_chunk_for(self.max_size())
        &&& self.max_size() <= u64::MAX / 2
        &&& self.current() <= max_u64(self.max_size(), self.min_size())
        &&& (self.current() >= self.min_size() || self.current() == self.max_size())
    }

    /// A policy that starts at `max_chunk_size_bytes`.
    pub fn new(max_chunk_size_bytes: u64) -> (p: Self)
        requires
            max_chunk_size_bytes <= u64::MAX / 2,
        ensures
            p.wf(),
            p.current() == max_chunk_size_bytes,
            p.max_size() == max_chunk_size_bytes,
            p.streak() == 0,
    {
        let floor = if max_chunk_size_bytes > 1 {
            max_chunk_size_bytes
        } else {
            1
        };
        let min = if SNAPSHOT_BLOB_STREAM_MIN_CHUNK_SIZE_BYTES < floor {
            SNAPSHOT_BLOB_STREAM_MIN_CHUNK_SIZE_BYTES
        } else {
            floor
        };
        SnapshotBlobChunkPolicy {
            current_chunk_size_bytes: max_chunk_size_bytes,
            max_chunk_size_bytes,
            min_chunk_size_bytes: min,
            healthy_ack_streak: 0,
        }
    }

    /// The chunk size currently in use.
    pub fn current_chunk_size_bytes(&self) -> (r: u64)
        ensures
            r == self.current(),
    {
        self.current_chunk_size_bytes
    }

    /// Size of the next chunk when `remaining_bytes` are still to be sent.
    pub fn chunk_size_for_remaining(&self, remaining_bytes: u64) -> (r: usize)
        ensures
            r == (min_u64(self.current(), max_u64(remaining_bytes, 1))) as usize,
    {
        let rem = if remaining_bytes > 1 {
            remaining_bytes
        } else {
            1
        };
        let size = if self.current_chunk_size_bytes < rem {
            self.current_chunk_size_bytes
        } else {
            rem
        };
        size as usize
    }

    /// Records an ack that took `ack_latency_millis` milliseconds.
    pub fn on_ack(&mut self, ack_latency_millis: u64)
        requires
            old(self).wf(),
        ensures
            final(self).wf(),
            final(self).max_size() == old(self).max_size(),
            ack_latency_millis >= SNAPSHOT_BLOB_STREAM_SLOW_ACK_THRESHOLD_MILLIS ==> {
                &&& final(self).current() == max_u64(old(self).current() / 2, old(self).min_size())
                &&& final(self).streak() == 0
            },
            ack_latency_millis < SNAPSHOT_BLOB_STREAM_SLOW_ACK_THRESHOLD_MILLIS && old(self).streak()
                + 1 >= SNAPSHOT_BLOB_STREAM_GROW_AFTER_HEALTHY_ACKS ==> {
                &&& final(self).current() == max_u64(
                    min_u64((old(self).current() * 2) as u64, old(self).max_size()),
                    old(self).min_size(),
                )
                &&& final(self).streak() == 0
            },
            ack_latency_millis < SNAPSHOT_BLOB_STREAM_SLOW_ACK_THRESHOLD_MILLIS && old(self).streak()
                + 1 < SNAPSHOT_BLOB_STREAM_GROW_AFTER_HEALTHY_ACKS ==> {
                &&& final(self).current() == old(self).current()
                &&& final(self).streak() == old(self).streak() + 1
            },
    {
        if ack_latency_millis >= SNAPSHOT_BLOB_STREAM_SLOW_ACK_THRESHOLD_MILLIS {
            self.shrink();
            self.healthy_ack_streak = 0;
            return;
        }
        self.healthy_ack_streak = self.healthy_ack_streak + 1;
        if self.healthy_ack_streak >= SNAPSHOT_BLOB_STREAM_GROW_AFTER_HEALTHY_ACKS {
            self.grow();
            self.healthy_ack_streak = 0;
        }
    }

    /// Records a reconnect: the chunk size halves.
    pub fn on_reconnect(&mut self)
        requires
            old(self).wf(),
        ensures
            final(self).wf(),
            final(self).max_size() == old(self).max_size(),
            final(self).current() == max_u64(old(self).current() / 2, old(self).min_size()),
            final(self).streak() == 0,
    {
        self.shrink();
        self.healthy_ack_streak = 0;
    }

    fn shrink(&mut self)
        requires
            old(self).sizes_wf(),
        ensures
            final(self).current() == max_u64(old(self).current() / 2, old(self).min_size()),
            final(self).max_size() == old(self).max_size(),
            final(self).min_size() == old(self).min_size(),
            final(self).streak() == old(self).streak(),
            final(self).sizes_wf(),
    {
        let half = self.current_chunk_size_bytes / 2;
        self.current_chunk_size_bytes = if half > self.min_chunk_size_bytes {
            half
        } else {
            self.min_chunk_size_bytes
        };
    }

    fn grow(&mut self)
        requires
            old(self).sizes_wf(),
        ensures
            final(self).current() == max_u64(
                min_u64((old(self).current() * 2) as u64, old(self).max_size()),
                old(self).min_size(),
            ),
            final(self).max_size() == old(self).max_size(),
            final(self).min_size() == old(self).min_size(),
            final(self).streak() == old(self).streak(),
            final(self).sizes_wf(),
    {
        let doubled = self.current_chunk_size_bytes * 2;
        let capped = if doubled < self.max_chunk_size_bytes {
            doubled
        } else {
            self.max_chunk_size_bytes
        };
        self.current_chunk_size_bytes = if capped > self.min_chunk_size_bytes {
            capped
        } else {
            self.min_chunk_size_bytes
        };
    }
}

/// Log levels of forwarded worker log events, from most to least severe.
#[derive(Debug, Clone, Copy, PartialEq, Eq, Structural)]
pub enum LogLevel {
    Error,
    Warn,
    Info,
    Debug,
    Trace,
}

pub open spec fn level_rank(l: LogLevel) -> int {
    match l {
        LogLevel::Error => 0,
        LogLevel::Warn => 1,
        LogLevel::Info => 2,
        LogLevel::Debug => 3,
        LogLevel::Trace => 4,
    }
}

/// A worker log event forwarded to the client.
#[derive(Debug, Clone)]
pub struct LogEvent {
    pub level: LogLevel,
    pub target: String,
    pub message: String,
    pub workorder_id: u128,
    pub span: Option<String>,
    /// Milliseconds since the Unix epoch.
    pub timestamp_millis: i64,
}

/// Whether an event of level `l` is shown at verbosity `v`: nothing when
/// quiet, warnings and errors normally, and one more level per `-v`.
pub open spec fn visible(l: LogLevel, v: Verbosity) -> bool {
    v != Verbosity::Quiet && level_rank(l) <= rank(v)
}

/// Whether a [`LogEvent`] should be displayed at a given verbosity level.
pub fn log_event_is_visible(event: &LogEvent, verbosity: Verbosity) -> (r: bool)
    ensures
        r == visible(event.level, verbosity),
{
    let max_level: u8 = match verbosity {
        Verbosity::Quiet => {
            return false;
        },
        Verbosity::Normal => 1,
        Verbosity::Verbose => 2,
        Verbosity::VerboseDebug => 3,
        Verbosity::VerboseTrace => 4,
    };
    let level: u8 = match event.level {
        LogLevel::Error => 0,
        LogLevel::Warn => 1,
        LogLevel::Info => 2,
        LogLevel::Debug => 3,
        LogLevel::Trace => 4,
    };
    level <= max_level
}

/// The line printed for a forwarded log event, or `None` when the event is
/// not visible: `[LEVEL] target: message` in verbose modes,
/// `LEVEL: message` otherwise.
pub fn log_event_line(event: &LogEvent, verbosity: Verbosity) -> (r: Option<String>)
    ensures
        r.is_some() == visible(event.level, verbosity),
        r.is_some() ==> r.unwrap()@ == (if rank(verbosity) >= 2 {
            "["@ + level_prefix(event.level) + "] "@ + event.target@ + ": "@ + event.message@
        } else {
            level_prefix(event.level) + ": "@ + event.message@
        }),
{
    if !log_event_is_visible(event, verbosity) {
        return None;
    }
    let prefix = level_prefix_exec(event.level);
    let mut out: Vec<char> = Vec::new();
    let target = chars_of(event.target.as_str());
    let message = chars_of(event.message.as_str());
    if verbosity.is_verbose() {
        crate::text::append_chars(&mut out, chars_of("[").as_slice());
        crate::text::append_chars(&mut out, prefix.as_slice());
        crate::text::append_chars(&mut out, chars_of("] ").as_slice());
        crate::text::append_chars(&mut out, target.as_slice());
        crate::text::append_chars(&mut out, chars_of(": ").as_slice());
        crate::text::append_chars(&mut out, message.as_slice());
        assert(out@ =~= "["@ + level_prefix(event.level) + "] "@ + event.target@ + ": "@
            + event.message@);
    } else {
        crate::text::append_chars(&mut out, prefix.as_slice());
        crate::text::append_chars(&mut out, chars_of(": ").as_slice());
        crate::text::append_chars(&mut out, message.as_slice());
        assert(out@ =~= level_prefix(event.level) + ": "@ + event.message@);
    }
    Some(string_of(out.as_slice()))
}

/// The five-character label of a log level.
pub open spec fn level_prefix(l: LogLevel) -> Seq<char> {
    match l {
        LogLevel::Error => "ERROR"@,
        LogLevel::Warn => "WARN "@,
        LogLevel::Info => "INFO "@,
        LogLevel::Debug => "DEBUG"@,
        LogLevel::Trace => "TRACE"@,
    }
}

fn level_prefix_exec(l: LogLevel) -> (r: Vec<char>)
    ensures
        r@ == level_prefix(l),
{
    match l {
        LogLevel::Error => chars_of("ERROR"),
        LogLevel::Warn => chars_of("WARN "),
        LogLevel::Info => chars_of("INFO "),
        LogLevel::Debug => chars_of("DEBUG"),
        LogLevel::Trace => chars_of("TRACE"),
    }
}

/// The UUID that `uuid::Uuid::parse_str` reads from a text, as a 128-bit
/// integer; `None` where it reports an error.
pub uninterp spec fn uuid_of_text(s: Seq<char>) -> Option<u128>;

/// Parses a UUID with `uuid::Uuid::parse_str`.
///
/// Trusted: the result is taken to be the value named by `uuid_of_text`
/// for the text, and the lowercase hyphenated text of a UUID (what the
/// crate's `Display` writes) reads back as that UUID, as the crate documents
/// for `parse_str`; which other texts the crate accepts is not stated here.
#[verifier::external_body]
fn parse_uuid(s: &str) -> (r: Option<u128>)
    ensures
        r == uuid_of_text(s@),
        forall|x: u128| s@ == #[trigger] crate::ids::uuid_text(x) ==> r == Some(x),
{
    uuid::Uuid::parse_str(s).ok().map(|u| u.as_u128())
}

/// The path of a websocket URL, without its query string.
pub open spec fn url_path(url: Seq<char>) -> Seq<char> {
    split_on(url, '?')[0]
}

/// The second to last `/`-separated segment of the path of `url`.
pub open spec fn id_segment(url: Seq<char>) -> Option<Seq<char>> {
    let segs = split_on(url_path(url), '/');
    if segs.len() >= 2 {
        Some(segs[segs.len() - 2])
    } else {
        None
    }
}

/// The workorder ID in a progress URL
/// (`…/workorders/<id>/progress?log_level=…`): the second to last path
/// segment read as a UUID.
pub open spec fn workorder_id_of_url(url: Seq<char>) -> Option<u128> {
    match id_segment(url) {
        Some(seg) => uuid_of_text(seg),
        None => None,
    }
}

/// The segment of a progress URL that holds the workorder ID.
pub fn progress_url_id_segment(ws_url: &str) -> (r: Option<String>)
    ensures
        match r {
            Some(s) => id_segment(ws_url@) == Some(s@),
            None => id_segment(ws_url@).is_none(),
        },
{
    let url = chars_of(ws_url);
    let parts = split_chars(url.as_slice(), '?');
    proof {
        crate::text::lemma_split_on_nonempty(url@, '?');
    }
    assert(parts@[0]@ == split_on(url@, '?')[0]);
    let segs = split_chars(parts[0].as_slice(), '/');
    if segs.len() >= 2 {
        let seg = &segs[segs.len() - 2];
        assert(seg@ == split_on(url_path(ws_url@), '/')[segs.len() - 2]);
        Some(string_of(seg.as_slice()))
    } else {
        None
    }
}

/// The workorder ID in a progress websocket URL, if it has one.
pub fn workorder_id_from_progress_url(ws_url: &str) -> (r: Option<u128>)
    ensures
        r == workorder_id_of_url(ws_url@),
{
    match progress_url_id_segment(ws_url) {
        Some(seg) => parse_uuid(seg.as_str()),
        None => None,
    }
}

/// `base_url` without trailing slashes (`str::trim_end_matches('/')`).
pub open spec fn trim_slashes(s: Seq<char>) -> Seq<char>
    decreases s.len(),
{
    if s.len() > 0 && s.last() == '/' {
        trim_slashes(s.drop_last())
    } else {
        s
    }
}

/// The server base URL as the client keeps it: without trailing slashes.
pub fn normalize_base_url(base_url: &str) -> (r: String)
    ensures
        r@ == trim_slashes(base_url@),
{
    let s = chars_of(base_url);
    let mut n = s.len();
    assert(s@.take(n as int) =~= s@);
    while n > 0 && s[n - 1] == '/'
        invariant
            n <= s.len(),
            trim_slashes(s@.take(n as int)) == trim_slashes(s@),
        decreases n,
    {
        assert(s@.take(n as int).drop_last() =~= s@.take(n - 1));
        n -= 1;
    }
    let t = sub_chars(s.as_slice(), 0, n);
    assert(t@ =~= s@.take(n as int));
    string_of(t.as_slice())
}

/// The websocket URL of the snapshot blob stream of a server.
pub open spec fn blob_stream_url(base: Seq<char>) -> Seq<char> {
    if starts_with(base, "https://"@) {
        "wss://"@ + base.skip(8) + "/api/v1/snapshots/blobs/stream"@
    } else if starts_with(base, "http://"@) {
        "ws://"@ + base.skip(7) + "/api/v1/snapshots/blobs/stream"@
    } else {
        base + "/api/v1/snapshots/blobs/stream"@
    }
}

/// The websocket URL of the snapshot blob stream for the server `base_url`.
pub fn snapshot_blob_stream_url(base_url: &str) -> (r: String)
    ensures
        r@ == blob_stream_url(base_url@),
{
    proof {
        reveal_strlit("https://");
        reveal_strlit("http://");
    }
    let b = chars_of(base_url);
    let https = chars_of("https://");
    let http = chars_of("http://");
    let tail = chars_of("/api/v1/snapshots/blobs/stream");
    let out = if has_prefix(b.as_slice(), https.as_slice()) {
        let rest = sub_chars(b.as_slice(), 8, b.len());
        let x = concat_chars(chars_of("wss://").as_slice(), rest.as_slice());
        concat_chars(x.as_slice(), tail.as_slice())
    } else if has_prefix(b.as_slice(), http.as_slice()) {
        let rest = sub_chars(b.as_slice(), 7, b.len());
        let x = concat_chars(chars_of("ws://").as_slice(), rest.as_slice());
        concat_chars(x.as_slice(), tail.as_slice())
    } else {
        concat_chars(b.as_slice(), tail.as_slice())
    };
    string_of(out.as_slice())
}

/// Why a control frame of the blob stream was refused.
#[derive(Debug, Clone, PartialEq, Eq)]
pub enum BlobStreamError {
    /// The frame speaks another protocol version.
    VersionMismatch { expected: u8, got: u8 },
    /// The frame is about another blob.
    DigestMismatch,
    /// The frame is about another upload.
    WorkorderMismatch,
    /// The ack names another chunk sequence number.
    SequenceMismatch { expected: u64, got: u64 },
    /// The ack names another offset.
    OffsetMismatch { expected: u64, got: u64 },
    /// The ack names another chunk size.
    SizeMismatch { expected: u64, got: u64 },
    /// The server selected zstd though no zstd payload was prepared.
    MissingZstdPayload,
    /// The server selected an encoding the client does not offer.
    UnsupportedEncoding,
    /// The server expects another payload length.
    UnexpectedLength { expected: u64, got: u64 },
}

/// Checks the version, digest and upload identity that every control frame
/// of the blob stream repeats.
pub fn validate_blob_upload_envelope(
    version: u8,
    workorder_id: u128,
    digest: &str,
    response_digest: &str,
    response_workorder_id: Option<u128>,
) -> (r: Result<(), BlobStreamError>)
    ensures
        version != SNAPSHOT_BLOB_PROTOCOL_VERSION ==> r == Err::<(), BlobStreamError>(
            BlobStreamError::VersionMismatch { expected: SNAPSHOT_BLOB_PROTOCOL_VERSION, got: version },
        ),
        version == SNAPSHOT_BLOB_PROTOCOL_VERSION && response_digest@ != digest@ ==> r == Err::<
            (),
            BlobStreamError,
        >(BlobStreamError::DigestMismatch),
        version == SNAPSHOT_BLOB_PROTOCOL_VERSION && response_digest@ == digest@
            && response_workorder_id != Some(workorder_id) ==> r == Err::<(), BlobStreamError>(
            BlobStreamError::WorkorderMismatch,
        ),
        r.is_ok() == (version == SNAPSHOT_BLOB_PROTOCOL_VERSION && response_digest@ == digest@
            && response_workorder_id == Some(workorder_id)),
{
    if version != SNAPSHOT_BLOB_PROTOCOL_VERSION {
        return Err(
            BlobStreamError::VersionMismatch { expected: SNAPSHOT_BLOB_PROTOCOL_VERSION, got: version },
        );
    }
    let a = chars_of(response_digest);
    let b = chars_of(digest);
    if !eq_chars(a.as_slice(), b.as_slice()) {
        return Err(BlobStreamError::DigestMismatch);
    }
    match response_workorder_id {
        Some(id) => {
            if id != workorder_id {
                return Err(BlobStreamError::WorkorderMismatch);
            }
        },
        None => {
            return Err(BlobStreamError::WorkorderMismatch);
        },
    }
    Ok(())
}

/// The lowercase phrases that mark a blob stream error as worth a reconnect.
pub open spec fn retryable_phrase(m: Seq<char>) -> bool {
    ||| contains_seq(m, "failed to connect to snapshot blob stream"@)
    ||| contains_seq(m, "failed to send blob chunk"@)
    ||| contains_seq(m, "blob stream read failed"@)
    ||| contains_seq(m, "blob stream closed unexpectedly"@)
    ||| contains_seq(m, "blob stream closed before completing upload"@)
    ||| contains_seq(m, "timed out waiting for blob upload control frame"@)
}

/// Whether an upload error (its full message chain) is a transport failure
/// that a reconnect may cure.
pub fn is_retryable_blob_stream_error(message: &str) -> (r: bool)
    ensures
        r == retryable_phrase(ascii_lower_seq(message@)),
{
    let m = lower_chars(&chars_of(message));
    contains_chars(m.as_slice(), chars_of("failed to connect to snapshot blob stream").as_slice())
        || contains_chars(m.as_slice(), chars_of("failed to send blob chunk").as_slice())
        || contains_chars(m.as_slice(), chars_of("blob stream read failed").as_slice())
        || contains_chars(m.as_slice(), chars_of("blob stream closed unexpectedly").as_slice())
        || contains_chars(
        m.as_slice(),
        chars_of("blob stream closed before completing upload").as_slice(),
    ) || contains_chars(
        m.as_slice(),
        chars_of("timed out waiting for blob upload control frame").as_slice(),
    )
}

/// The bytes prepared for one snapshot blob upload: the raw payload and,
/// when compression paid off, its zstd encoding.
#[derive(Debug, Clone)]
pub struct SnapshotBlobUploadPayload {
    pub raw_bytes: Vec<u8>,
    pub zstd_bytes: Option<Vec<u8>>,
}

/// The payload to stream for the encoding the server selected.
pub fn payload_for_selected_encoding<'a>(
    payload: &'a SnapshotBlobUploadPayload,
    selected_encoding: Option<&str>,
) -> (r: Result<&'a [u8], BlobStreamError>)
    ensures
        match selected_encoding {
            None => r matches Ok(b) && b@ == payload.raw_bytes@,
            Some(e) => if e@ == "zstd"@ {
                match payload.zstd_bytes {
                    Some(z) => r matches Ok(b) && b@ == z@,
                    None => r == Err::<&[u8], BlobStreamError>(BlobStreamError::MissingZstdPayload),
                }
            } else {
                r == Err::<&[u8], BlobStreamError>(BlobStreamError::UnsupportedEncoding)
            },
        },
{
    match selected_encoding {
        None => Ok(payload.raw_bytes.as_slice()),
        Some(e) => {
            let ec = chars_of(e);
            if eq_chars(ec.as_slice(), chars_of("zstd").as_slice()) {
                match &payload.zstd_bytes {
                    Some(z) => Ok(z.as_slice()),
                    None => Err(BlobStreamError::MissingZstdPayload),
                }
            } else {
                Err(BlobStreamError::UnsupportedEncoding)
            }
        },
    }
}

/// Checks the payload length that the server expects after selecting an
/// encoding.
pub fn check_resume_length(expected_size_bytes: u64, selected_len: u64) -> (r: Result<
    (),
    BlobStreamError,
>)
    ensures
        r.is_ok() == (expected_size_bytes == selected_len),
        r.is_err() ==> r == Err::<(), BlobStreamError>(
            BlobStreamError::UnexpectedLength { expected: selected_len, got: expected_size_bytes },
        ),
{
    if expected_size_bytes != selected_len {
        return Err(
            BlobStreamError::UnexpectedLength { expected: selected_len, got: expected_size_bytes },
        );
    }
    Ok(())
}

/// Checks an ack of the chunk just sent (sequence `next_sequence` at
/// `next_offset`, `chunk_len` bytes) and returns the offset and sequence to
/// continue from: the server's received byte count and the next sequence.
pub fn check_upload_ack(
    next_sequence: u64,
    next_offset: u64,
    chunk_len: u64,
    sequence: u64,
    offset_bytes: u64,
    size_bytes: u64,
    received_bytes: u64,
) -> (r: Result<(u64, u64), BlobStreamError>)
    requires
        next_sequence < u64::MAX,
    ensures
        sequence != next_sequence ==> r == Err::<(u64, u64), BlobStreamError>(
            BlobStreamError::SequenceMismatch { expected: next_sequence, got: sequence },
        ),
        sequence == next_sequence && offset_bytes != next_offset ==> r == Err::<
            (u64, u64),
            BlobStreamError,
        >(BlobStreamError::OffsetMismatch { expected: next_offset, got: offset_bytes }),
        sequence == next_sequence && offset_bytes == next_offset && size_bytes != chunk_len ==> r
            == Err::<(u64, u64), BlobStreamError>(
            BlobStreamError::SizeMismatch { expected: chunk_len, got: size_bytes },
        ),
        sequence == next_sequence && offset_bytes == next_offset && size_bytes == chunk_len ==> r
            == Ok::<(u64, u64), BlobStreamError>((received_bytes, (next_sequence + 1) as u64)),
{
    if sequence != next_sequence {
        return Err(BlobStreamError::SequenceMismatch { expected: next_sequence, got: sequence });
    }
    if offset_bytes != next_offset {
        return Err(BlobStreamError::OffsetMismatch { expected: next_offset, got: offset_bytes });
    }
    if size_bytes != chunk_len {
        return Err(BlobStreamError::SizeMismatch { expected: chunk_len, got: size_bytes });
    }
    Ok((received_bytes, next_sequence + 1))
}

/// Whether a failed upload attempt is followed by a reconnect: only a
/// retryable failure before the last attempt.
pub fn should_reconnect(attempt: usize, attempts: usize, retryable: bool) -> (r: bool)
    ensures
        r == (attempt < attempts && retryable),
{
    attempt < attempts && retryable
}

} // verus!
