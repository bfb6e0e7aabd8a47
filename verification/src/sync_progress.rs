//! The bookkeeping of a binary package sync: how progress is shown, when a
//! progress line is redrawn, and the summary of what was downloaded,
//! reused or failed.
use vstd::prelude::*;

use crate::text::{append_chars, chars_of, decimal, string_of, u64_to_decimal};

verus! {

/// How sync progress is shown.
#[derive(Debug, Clone, Copy, PartialEq, Eq, Structural)]
pub enum SyncProgressOutputMode {
    /// A terminal: the progress line is redrawn in place.
    Interactive,
    /// A pipe or log: progress lines are printed one after another.
    Plain,
    /// Quiet mode: nothing is shown.
    Silent,
}

/// How a package came to be in the local cache.
#[derive(Debug, Clone, Copy, PartialEq, Eq, Structural)]
pub enum PackageSyncDisposition {
    Downloaded,
    CacheHit,
}

/// The result of syncing one package.
#[derive(Debug, Clone, PartialEq, Eq)]
pub struct PackageSyncStatus {
    pub atom: String,
    pub size: u64,
    pub disposition: PackageSyncDisposition,
}

/// What a sync did.
#[derive(Debug, Clone, PartialEq, Eq)]
pub struct BinpkgSyncSummary {
    pub downloaded_packages: usize,
    pub downloaded_bytes: u64,
    pub reused_packages: usize,
    pub reused_bytes: u64,
    pub failed_package: Option<String>,
    /// How long the sync took, in milliseconds.
    pub elapsed_millis: u64,
}

/// The state of a sync's progress display.
#[derive(Debug, Clone, PartialEq, Eq)]
pub struct SyncProgressReporter {
    pub total_packages: usize,
    pub binhost_uri: String,
    pub output_mode: SyncProgressOutputMode,
    /// When the progress line was last drawn, in milliseconds of a
    /// monotonic clock; `None` before the first draw of a download.
    pub last_progress_draw_millis: Option<u64>,
    pub summary: BinpkgSyncSummary,
}

/// How often a progress line may be redrawn, in milliseconds.
pub open spec fn draw_interval_millis(mode: SyncProgressOutputMode) -> int {
    match mode {
        SyncProgressOutputMode::Interactive => 100,
        SyncProgressOutputMode::Plain => 1000,
        SyncProgressOutputMode::Silent => 0,
    }
}

/// Whether a progress update is drawn: never in quiet mode; otherwise
/// when nothing was drawn yet for this download, when the interval has
/// passed since the last draw, or when the download is complete.
pub open spec fn should_draw(
    mode: SyncProgressOutputMode,
    last: Option<u64>,
    now: u64,
    received: u64,
    total: u64,
) -> bool {
    mode != SyncProgressOutputMode::Silent && (match last {
        None => true,
        Some(t) => (if now >= t {
            now - t
        } else {
            0
        }) >= draw_interval_millis(mode),
    } || received >= total)
}

impl SyncProgressReporter {
    /// A reporter for a sync of `total_packages` packages from a binhost.
    pub fn with_output_mode(total_packages: usize, binhost_uri: String, output_mode: SyncProgressOutputMode) -> (r: Self)
        ensures
            r.total_packages == total_packages,
            r.binhost_uri == binhost_uri,
            r.output_mode == output_mode,
            r.last_progress_draw_millis is None,
            r.summary == (BinpkgSyncSummary {
                downloaded_packages: 0,
                downloaded_bytes: 0,
                reused_packages: 0,
                reused_bytes: 0,
                failed_package: None,
                elapsed_millis: 0,
            }),
    {
        SyncProgressReporter {
            total_packages,
            binhost_uri,
            output_mode,
            last_progress_draw_millis: None,
            summary: BinpkgSyncSummary {
                downloaded_packages: 0,
                downloaded_bytes: 0,
                reused_packages: 0,
                reused_bytes: 0,
                failed_package: None,
                elapsed_millis: 0,
            },
        }
    }

    /// Whether lines are printed at all.
    pub fn prints_lines(&self) -> (r: bool)
        ensures
            r == (self.output_mode != SyncProgressOutputMode::Silent),
    {
        self.output_mode != SyncProgressOutputMode::Silent
    }

    /// The line that opens the sync.
    pub fn header_line(&self) -> (r: String)
        ensures
            r@ == "Syncing "@ + decimal(self.total_packages as nat) + " package(s) from "@
                + self.binhost_uri@,
    {
        let mut out = chars_of("Syncing ");
        append_chars(&mut out, u64_to_decimal(self.total_packages as u64).as_slice());
        append_chars(&mut out, chars_of(" package(s) from ").as_slice());
        append_chars(&mut out, chars_of(self.binhost_uri.as_str()).as_slice());
        string_of(out.as_slice())
    }

    /// A new download starts: its first progress update is drawn.
    pub fn start_download(&mut self)
        ensures
            *final(self) == (SyncProgressReporter { last_progress_draw_millis: None, ..*old(self) }),
    {
        self.last_progress_draw_millis = None;
    }

    /// Decides whether a progress update is drawn, and notes the time when
    /// it is.
    pub fn update_download_progress(&mut self, now_millis: u64, received_bytes: u64, total_bytes: u64) -> (r: bool)
        ensures
            r == should_draw(
                old(self).output_mode,
                old(self).last_progress_draw_millis,
                now_millis,
                received_bytes,
                total_bytes,
            ),
            r ==> *final(self) == (SyncProgressReporter {
                last_progress_draw_millis: Some(now_millis),
                ..*old(self)
            }),
            !r ==> *final(self) == *old(self),
    {
        let interval: u64 = match self.output_mode {
            SyncProgressOutputMode::Interactive => 100,
            SyncProgressOutputMode::Plain => 1000,
            SyncProgressOutputMode::Silent => {
                return false;
            },
        };
        let due = match self.last_progress_draw_millis {
            None => true,
            Some(t) => {
                let since = if now_millis >= t {
                    now_millis - t
                } else {
                    0
                };
                since >= interval
            },
        };
        if !(due || received_bytes >= total_bytes) {
            return false;
        }
        self.last_progress_draw_millis = Some(now_millis);
        true
    }

    /// A download finished: the next one starts drawing afresh.
    pub fn finish_download(&mut self)
        ensures
            *final(self) == (SyncProgressReporter { last_progress_draw_millis: None, ..*old(self) }),
    {
        self.last_progress_draw_millis = None;
    }

    /// Counts a synced package as downloaded or reused.
    pub fn record_result(&mut self, status: &PackageSyncStatus)
        requires
            status.disposition == PackageSyncDisposition::Downloaded ==> old(self).summary.downloaded_packages
                < usize::MAX && old(self).summary.downloaded_bytes + status.size <= u64::MAX,
            status.disposition == PackageSyncDisposition::CacheHit ==> old(self).summary.reused_packages
                < usize::MAX && old(self).summary.reused_bytes + status.size <= u64::MAX,
        ensures
            final(self).summary == (match status.disposition {
                PackageSyncDisposition::Downloaded => BinpkgSyncSummary {
                    downloaded_packages: (old(self).summary.downloaded_packages + 1) as usize,
                    downloaded_bytes: (old(self).summary.downloaded_bytes + status.size) as u64,
                    ..old(self).summary
                },
                PackageSyncDisposition::CacheHit => BinpkgSyncSummary {
                    reused_packages: (old(self).summary.reused_packages + 1) as usize,
                    reused_bytes: (old(self).summary.reused_bytes + status.size) as u64,
                    ..old(self).summary
                },
            }),
            *final(self) == (SyncProgressReporter { summary: final(self).summary, ..*old(self) }),
    {
        match status.disposition {
            PackageSyncDisposition::Downloaded => {
                self.summary.downloaded_packages = self.summary.downloaded_packages + 1;
                self.summary.downloaded_bytes = self.summary.downloaded_bytes + status.size;
            },
            PackageSyncDisposition::CacheHit => {
                self.summary.reused_packages = self.summary.reused_packages + 1;
                self.summary.reused_bytes = self.summary.reused_bytes + status.size;
            },
        }
    }

    /// Notes the package whose sync failed.
    pub fn record_failure(&mut self, atom: &str)
        ensures
            final(self).summary.failed_package matches Some(a) && a@ == atom@,
            final(self).summary == (BinpkgSyncSummary {
                failed_package: final(self).summary.failed_package,
                ..old(self).summary
            }),
            *final(self) == (SyncProgressReporter { summary: final(self).summary, ..*old(self) }),
    {
        self.summary.failed_package = Some(string_of(chars_of(atom).as_slice()));
    }

    /// Ends the sync: the summary with the time it took.
    pub fn finish(self, elapsed_millis: u64) -> (r: BinpkgSyncSummary)
        ensures
            r == (BinpkgSyncSummary { elapsed_millis, ..self.summary }),
    {
        let mut s = self.summary;
        s.elapsed_millis = elapsed_millis;
        s
    }
}

/// The heading of the summary: complete, or incomplete after a failure.
pub fn summary_heading(summary: &BinpkgSyncSummary) -> (r: &'static str)
    ensures
        r@ == (if summary.failed_package is Some {
            "Sync incomplete:"@
        } else {
            "Sync complete:"@
        }),
{
    if summary.failed_package.is_some() {
        "Sync incomplete:"
    } else {
        "Sync complete:"
    }
}

/// The display of a sync: nothing when quiet, a redrawn line on a terminal,
/// plain lines elsewhere.
pub fn sync_output_mode(quiet: bool, stderr_is_terminal: bool) -> (r: SyncProgressOutputMode)
    ensures
        r == (if quiet {
            SyncProgressOutputMode::Silent
        } else if stderr_is_terminal {
            SyncProgressOutputMode::Interactive
        } else {
            SyncProgressOutputMode::Plain
        }),
{
    if quiet {
        SyncProgressOutputMode::Silent
    } else if stderr_is_terminal {
        SyncProgressOutputMode::Interactive
    } else {
        SyncProgressOutputMode::Plain
    }
}

/// `s` without its leading `/` characters.
pub open spec fn trim_leading_slashes(s: Seq<char>) -> Seq<char>
    decreases s.len(),
{
    if s.len() > 0 && s[0] == '/' {
        trim_leading_slashes(s.drop_first())
    } else {
        s
    }
}

fn leading_slashes_end(s: &[char]) -> (r: usize)
    ensures
        r <= s.len(),
        s@.skip(r as int) == trim_leading_slashes(s@),
{
    let mut i: usize = 0;
    assert(s@.skip(0) =~= s@);
    while i < s.len() && s[i] == '/'
        invariant
            i <= s.len(),
            trim_leading_slashes(s@.skip(i as int)) == trim_leading_slashes(s@),
        decreases s.len() - i,
    {
        assert(s@.skip(i as int).drop_first() =~= s@.skip(i + 1));
        i = i + 1;
    }
    i
}

/// The URL of a built package: the binhost URI without trailing slashes, a
/// slash, and the package path without leading slashes.
pub fn binpkg_url(binhost_uri: &str, binpkg_path: &str) -> (r: String)
    ensures
        r@ == crate::client::trim_slashes(binhost_uri@) + "/"@ + trim_leading_slashes(binpkg_path@),
{
    let base = crate::client::normalize_base_url(binhost_uri);
    let mut out = chars_of(base.as_str());
    append_chars(&mut out, chars_of("/").as_slice());
    let p = chars_of(binpkg_path);
    let k = leading_slashes_end(p.as_slice());
    let rest = crate::text::sub_chars(p.as_slice(), k, p.len());
    assert(rest@ =~= p@.skip(k as int));
    append_chars(&mut out, rest.as_slice());
    string_of(out.as_slice())
}

/// The URL of the binhost's `Packages` index.
pub fn packages_index_url(binhost_uri: &str) -> (r: String)
    ensures
        r@ == crate::client::trim_slashes(binhost_uri@) + "/Packages"@,
{
    let base = crate::client::normalize_base_url(binhost_uri);
    let mut out = chars_of(base.as_str());
    append_chars(&mut out, chars_of("/Packages").as_slice());
    string_of(out.as_slice())
}

/// Whether a package already in the local cache is the one built: its
/// length is the built size and its SHA-256 matches in any case
/// (`sha256` is the digest of the cached file, computed when its length
/// matched).
pub fn cache_hit(cached_len: Option<u64>, size: u64, sha256: Option<&str>, expected_sha256: &str) -> (r: bool)
    ensures
        r == (cached_len == Some(size) && sha256 is Some && crate::text::eq_ignore_case(
            sha256->Some_0@,
            expected_sha256@,
        )),
{
    match (cached_len, sha256) {
        (Some(len), Some(d)) => len == size && crate::text::eq_ignore_ascii_case(
            chars_of(d).as_slice(),
            chars_of(expected_sha256).as_slice(),
        ),
        _ => false,
    }
}

/// Why a downloaded package is refused.
#[derive(Debug, Clone, PartialEq, Eq)]
pub enum BinpkgCheckError {
    SizeMismatch { atom: String, downloaded: u64, expected: u64 },
    DigestMismatch { atom: String, expected: String, got: String },
}

/// The text of a refused download.
pub open spec fn binpkg_check_text(e: BinpkgCheckError) -> Seq<char> {
    match e {
        BinpkgCheckError::SizeMismatch { atom, downloaded, expected } => "Downloaded "@ + decimal(
            downloaded as nat,
        ) + " but expected "@ + decimal(expected as nat) + " bytes for "@ + atom@,
        BinpkgCheckError::DigestMismatch { atom, expected, got } => "SHA256 mismatch for "@ + atom@
            + ": expected "@ + expected@ + ", got "@ + got@,
    }
}

impl BinpkgCheckError {
    /// The error's text.
    pub fn message(&self) -> (r: String)
        ensures
            r@ == binpkg_check_text(*self),
    {
        match self {
            BinpkgCheckError::SizeMismatch { atom, downloaded, expected } => {
                let mut out = chars_of("Downloaded ");
                append_chars(&mut out, u64_to_decimal(*downloaded).as_slice());
                append_chars(&mut out, chars_of(" but expected ").as_slice());
                append_chars(&mut out, u64_to_decimal(*expected).as_slice());
                append_chars(&mut out, chars_of(" bytes for ").as_slice());
                append_chars(&mut out, chars_of(atom.as_str()).as_slice());
                string_of(out.as_slice())
            },
            BinpkgCheckError::DigestMismatch { atom, expected, got } => {
                let mut out = chars_of("SHA256 mismatch for ");
                append_chars(&mut out, chars_of(atom.as_str()).as_slice());
                append_chars(&mut out, chars_of(": expected ").as_slice());
                append_chars(&mut out, chars_of(expected.as_str()).as_slice());
                append_chars(&mut out, chars_of(", got ").as_slice());
                append_chars(&mut out, chars_of(got.as_str()).as_slice());
                string_of(out.as_slice())
            },
        }
    }
}

/// Checks a downloaded package against the built one: first its length,
/// then its SHA-256 in any case.
pub fn check_downloaded_binpkg(
    atom: &str,
    downloaded_len: u64,
    size: u64,
    sha256: &str,
    expected_sha256: &str,
) -> (r: Result<(), BinpkgCheckError>)
    ensures
        r is Ok <==> (downloaded_len == size && crate::text::eq_ignore_case(sha256@, expected_sha256@)),
        downloaded_len != size ==> (r matches Err(
            BinpkgCheckError::SizeMismatch { atom: a, downloaded, expected },
        ) && a@ == atom@ && downloaded == downloaded_len && expected == size),
        downloaded_len == size && !crate::text::eq_ignore_case(sha256@, expected_sha256@) ==> (r matches Err(
            BinpkgCheckError::DigestMismatch { atom: a, expected, got },
        ) && a@ == atom@ && expected@ == expected_sha256@ && got@ == sha256@),
{
    if downloaded_len != size {
        return Err(
            BinpkgCheckError::SizeMismatch {
                atom: string_of(chars_of(atom).as_slice()),
                downloaded: downloaded_len,
                expected: size,
            },
        );
    }
    if !crate::text::eq_ignore_ascii_case(chars_of(sha256).as_slice(), chars_of(expected_sha256).as_slice()) {
        return Err(
            BinpkgCheckError::DigestMismatch {
                atom: string_of(chars_of(atom).as_slice()),
                expected: string_of(chars_of(expected_sha256).as_slice()),
                got: string_of(chars_of(sha256).as_slice()),
            },
        );
    }
    Ok(())
}

} // verus!
