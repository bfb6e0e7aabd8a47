//! Server counters and gauges, and their rendering in the Prometheus text
//! exposition format.
//!
//! Counters wrap around on overflow, as atomic `fetch_add` does. The
//! per-package aggregates are bounded: at most
//! [`MAX_PACKAGE_BUILD_METRIC_SERIES`] atoms get a series of their own.
use vstd::prelude::*;

use crate::strmap::StrMap;
use crate::text::{append_chars, chars_of, decimal, string_of, u64_to_decimal};

verus! {

/// Most atoms that get a labelled build series.
pub const MAX_PACKAGE_BUILD_METRIC_SERIES: usize = 128;

/// Build count and total build time of one package atom.
#[derive(Debug, Clone, Copy, PartialEq, Eq, Structural)]
pub struct PackageBuildMetrics {
    pub builds_total: u64,
    pub duration_secs_total: u64,
}

/// `a + b` modulo 2^64, as a wrapping counter adds.
pub open spec fn wrap_add(a: u64, b: u64) -> u64 {
    if a + b > u64::MAX {
        (a + b - (u64::MAX + 1)) as u64
    } else {
        (a + b) as u64
    }
}

fn bump(a: u64, b: u64) -> (r: u64)
    ensures
        r == wrap_add(a, b),
{
    a.wrapping_add(b)
}

/// Counters and gauges of the server.
pub struct Metrics {
    /// Total workorders submitted.
    pub workorders_submitted: u64,
    /// Workorders that completed successfully.
    pub workorders_completed: u64,
    /// Workorders that failed.
    pub workorders_failed: u64,
    /// Workorders that were cancelled.
    pub workorders_cancelled: u64,
    /// Currently active (Building) workorders.
    pub builds_active: u64,
    /// Cumulative build duration in seconds.
    pub builds_total_duration_secs: u64,
    /// Number of workorders waiting in the queue.
    pub queue_depth: u64,
    /// Total size of the binpkg repository directory in bytes.
    pub binpkg_disk_usage_bytes: u64,
    /// Number of worker image build attempts.
    pub worker_image_builds_total: u64,
    /// Cumulative worker image build duration in seconds.
    pub worker_image_build_duration_secs_total: u64,
    /// Number of worker container start attempts.
    pub worker_container_starts_total: u64,
    /// Cumulative worker container startup duration in seconds.
    pub worker_container_startup_duration_secs_total: u64,
    /// Successful runtime cleanup operations.
    pub cleanup_success_total: u64,
    /// Failed runtime cleanup operations.
    pub cleanup_failure_total: u64,
    /// Cumulative bytes reclaimed by snapshot cleanup.
    pub cleanup_reclaimed_bytes_total: u64,
    /// Total snapshot missing-blob discovery requests.
    pub snapshot_missing_blob_queries_total: u64,
    /// Total digests examined by snapshot missing-blob discovery.
    pub snapshot_missing_blob_digests_total: u64,
    /// Total digests reported missing by snapshot missing-blob discovery.
    pub snapshot_missing_blob_digests_missing_total: u64,
    /// Total snapshot blob upload requests accepted by the server.
    pub snapshot_blob_uploads_total: u64,
    /// Upload requests that reused an already stored canonical blob.
    pub snapshot_blob_upload_dedup_hits_total: u64,
    /// Cumulative raw snapshot blob bytes accepted by the server.
    pub snapshot_blob_upload_bytes_total: u64,
    /// Total snapshot blob download responses served.
    pub snapshot_blob_downloads_total: u64,
    /// Cumulative snapshot blob bytes served to clients.
    pub snapshot_blob_download_bytes_total: u64,
    /// Snapshot runtime staging passes completed successfully.
    pub snapshot_runtime_stages_total: u64,
    /// Cumulative bytes materialized while staging snapshot runtimes.
    pub snapshot_runtime_stage_bytes_total: u64,
    /// Best-effort package build completions detected from emerge output.
    pub package_builds_total: u64,
    /// Cumulative best-effort package build duration in seconds.
    pub package_build_duration_secs_total: u64,
    /// Bounded per-package timing aggregates for labelled output, in
    /// ascending atom order.
    pub package_builds_by_atom: StrMap<PackageBuildMetrics>,
}

/// One unlabelled series of the exposition: name, help text, whether it is
/// a gauge (else a counter), and its value.
pub struct Series {
    pub name: &'static str,
    pub help: &'static str,
    pub gauge: bool,
    pub value: u64,
}

pub open spec fn series_view(s: Seq<Series>) -> Seq<(Seq<char>, Seq<char>, bool, u64)> {
    s.map_values(|x: Series| (x.name@, x.help@, x.gauge, x.value))
}

/// The block of one series: its `# HELP` and `# TYPE` lines, the sample,
/// and an empty line.
pub open spec fn series_block(s: (Seq<char>, Seq<char>, bool, u64)) -> Seq<char> {
    "# HELP "@ + s.0 + " "@ + s.1 + "\n"@ + "# TYPE "@ + s.0 + " "@ + (if s.2 {
        "gauge"@
    } else {
        "counter"@
    }) + "\n"@ + s.0 + " "@ + decimal(s.3 as nat) + "\n\n"@
}

pub open spec fn series_blocks(s: Seq<(Seq<char>, Seq<char>, bool, u64)>) -> Seq<char>
    decreases s.len(),
{
    if s.len() == 0 {
        Seq::empty()
    } else {
        series_blocks(s.drop_last()) + series_block(s.last())
    }
}

/// A label value with `\`, newline and `"` escaped.
pub open spec fn escape_label(s: Seq<char>) -> Seq<char>
    decreases s.len(),
{
    if s.len() == 0 {
        Seq::empty()
    } else {
        let c = s.last();
        escape_label(s.drop_last()) + (if c == '\\' {
            seq!['\\', '\\']
        } else if c == '\n' {
            seq!['\\', 'n']
        } else if c == '"' {
            seq!['\\', '"']
        } else {
            seq![c]
        })
    }
}

/// The two labelled samples of one package atom.
pub open spec fn atom_lines(atom: Seq<char>, m: PackageBuildMetrics) -> Seq<char> {
    "remerge_package_builds_by_atom_total{atom=\""@ + escape_label(atom) + "\"} "@ + decimal(
        m.builds_total as nat,
    ) + "\n"@ + "remerge_package_build_duration_seconds_by_atom_total{atom=\""@ + escape_label(
        atom,
    ) + "\"} "@ + decimal(m.duration_secs_total as nat) + "\n"@
}

pub open spec fn all_atom_lines(e: Seq<(String, PackageBuildMetrics)>) -> Seq<char>
    decreases e.len(),
{
    if e.len() == 0 {
        Seq::empty()
    } else {
        all_atom_lines(e.drop_last()) + atom_lines(e.last().0@, e.last().1)
    }
}

/// The help and type lines of the two labelled families.
pub open spec fn atom_header() -> Seq<char> {
    "# HELP remerge_package_builds_by_atom_total Best-effort package build completions grouped by atom.\n"@
        + "# TYPE remerge_package_builds_by_atom_total counter\n"@
        + "# HELP remerge_package_build_duration_seconds_by_atom_total Best-effort package build duration grouped by atom.\n"@
        + "# TYPE remerge_package_build_duration_seconds_by_atom_total counter\n"@
}

fn escape_label_value(value: &str) -> (r: Vec<char>)
    ensures
        r@ == escape_label(value@),
{
    let s = chars_of(value);
    let mut out: Vec<char> = Vec::new();
    let mut i: usize = 0;
    while i < s.len()
        invariant
            i <= s.len(),
            out@ == escape_label(s@.take(i as int)),
        decreases s.len() - i,
    {
        let c = s[i];
        assert(s@.take(i + 1).drop_last() =~= s@.take(i as int));
        if c == '\\' {
            out.push('\\');
            out.push('\\');
        } else if c == '\n' {
            out.push('\\');
            out.push('n');
        } else if c == '"' {
            out.push('\\');
            out.push('"');
        } else {
            out.push(c);
        }
        i += 1;
    }
    assert(s@.take(s.len() as int) =~= s@);
    out
}

fn append_str(out: &mut Vec<char>, s: &str)
    ensures
        final(out)@ == old(out)@ + s@,
{
    let c = chars_of(s);
    append_chars(out, c.as_slice());
}

fn append_u64(out: &mut Vec<char>, n: u64)
    ensures
        final(out)@ == old(out)@ + decimal(n as nat),
{
    let c = u64_to_decimal(n);
    append_chars(out, c.as_slice());
}

fn append_series_block(out: &mut Vec<char>, s: &Series)
    ensures
        final(out)@ == old(out)@ + series_block((s.name@, s.help@, s.gauge, s.value)),
{
    let ghost start = out@;
    append_str(out, "# HELP ");
    append_str(out, s.name);
    append_str(out, " ");
    append_str(out, s.help);
    append_str(out, "\n");
    append_str(out, "# TYPE ");
    append_str(out, s.name);
    append_str(out, " ");
    if s.gauge {
        append_str(out, "gauge");
    } else {
        append_str(out, "counter");
    }
    append_str(out, "\n");
    append_str(out, s.name);
    append_str(out, " ");
    append_u64(out, s.value);
    append_str(out, "\n\n");
    assert(out@ =~= start + series_block((s.name@, s.help@, s.gauge, s.value)));
}

fn append_atom_lines(out: &mut Vec<char>, atom: &String, m: PackageBuildMetrics)
    ensures
        final(out)@ == old(out)@ + atom_lines(atom@, m),
{
    let ghost start = out@;
    let esc = escape_label_value(atom.as_str());
    append_str(out, "remerge_package_builds_by_atom_total{atom=\"");
    append_chars(out, esc.as_slice());
    append_str(out, "\"} ");
    append_u64(out, m.builds_total);
    append_str(out, "\n");
    append_str(out, "remerge_package_build_duration_seconds_by_atom_total{atom=\"");
    append_chars(out, esc.as_slice());
    append_str(out, "\"} ");
    append_u64(out, m.duration_secs_total);
    append_str(out, "\n");
    assert(out@ =~= start + atom_lines(atom@, m));
}

/// Whether a build of `atom` gets counted in its own series: the atom is
/// tracked already or there is room for one more.
pub open spec fn tracks_atom(m: &Metrics, atom: Seq<char>) -> bool {
    m.package_builds_by_atom.has_key(atom) || m.package_builds_by_atom.size()
        < MAX_PACKAGE_BUILD_METRIC_SERIES
}

/// An atom's aggregate after one more build of `duration_secs`.
pub open spec fn bumped(prev: Option<PackageBuildMetrics>, duration_secs: u64) -> PackageBuildMetrics {
    let p = match prev {
        Some(m) => m,
        None => PackageBuildMetrics { builds_total: 0, duration_secs_total: 0 },
    };
    PackageBuildMetrics {
        builds_total: (p.builds_total + 1) as u64,
        duration_secs_total: (p.duration_secs_total + duration_secs) as u64,
    }
}

/// The whole exposition text of `m`.
pub open spec fn prometheus_text(m: &Metrics) -> Seq<char> {
    series_blocks(m.series()) + atom_header() + all_atom_lines(
        m.package_builds_by_atom.entries_view(),
    ) + "\n"@
}

impl Metrics {
    /// The per-atom map is ordered and holds at most
    /// [`MAX_PACKAGE_BUILD_METRIC_SERIES`] atoms.
    pub open spec fn wf(&self) -> bool {
        &&& self.package_builds_by_atom.wf()
        &&& self.package_builds_by_atom.size() <= MAX_PACKAGE_BUILD_METRIC_SERIES
    }

    /// The unlabelled series in the order they are written.
    pub open spec fn series(&self) -> Seq<(Seq<char>, Seq<char>, bool, u64)> {
        seq![
            ("remerge_workorders_submitted_total"@, "Total number of workorders submitted."@, false, self.workorders_submitted),
            ("remerge_workorders_completed_total"@, "Total number of workorders completed successfully."@, false, self.workorders_completed),
            ("remerge_workorders_failed_total"@, "Total number of workorders that failed."@, false, self.workorders_failed),
            ("remerge_workorders_cancelled_total"@, "Total number of workorders cancelled."@, false, self.workorders_cancelled),
            ("remerge_builds_active"@, "Number of builds currently in progress."@, true, self.builds_active),
            ("remerge_builds_duration_seconds_total"@, "Total cumulative build duration in seconds."@, false, self.builds_total_duration_secs),
            ("remerge_queue_depth"@, "Number of workorders waiting in the queue."@, true, self.queue_depth),
            ("remerge_binpkg_disk_usage_bytes"@, "Total size of the binpkg repository in bytes."@, true, self.binpkg_disk_usage_bytes),
            ("remerge_worker_image_builds_total"@, "Total number of worker image build attempts."@, false, self.worker_image_builds_total),
            ("remerge_worker_image_build_duration_seconds_total"@, "Total cumulative worker image build duration in seconds."@, false, self.worker_image_build_duration_secs_total),
            ("remerge_worker_container_starts_total"@, "Total number of worker container start attempts."@, false, self.worker_container_starts_total),
            ("remerge_worker_container_startup_duration_seconds_total"@, "Total cumulative worker container startup duration in seconds."@, false, self.worker_container_startup_duration_secs_total),
            ("remerge_cleanup_success_total"@, "Total successful worker runtime cleanup operations."@, false, self.cleanup_success_total),
            ("remerge_cleanup_failure_total"@, "Total failed worker runtime cleanup operations."@, false, self.cleanup_failure_total),
            ("remerge_cleanup_reclaimed_bytes_total"@, "Total snapshot cache bytes reclaimed by cleanup."@, false, self.cleanup_reclaimed_bytes_total),
            ("remerge_snapshot_missing_blob_queries_total"@, "Total snapshot missing-blob discovery requests."@, false, self.snapshot_missing_blob_queries_total),
            ("remerge_snapshot_missing_blob_digests_total"@, "Total digests examined by snapshot missing-blob discovery."@, false, self.snapshot_missing_blob_digests_total),
            ("remerge_snapshot_missing_blob_digests_missing_total"@, "Total digests reported missing by snapshot missing-blob discovery."@, false, self.snapshot_missing_blob_digests_missing_total),
            ("remerge_snapshot_blob_uploads_total"@, "Total snapshot blob upload requests accepted by the server."@, false, self.snapshot_blob_uploads_total),
            ("remerge_snapshot_blob_upload_dedup_hits_total"@, "Snapshot blob upload requests that reused an already stored canonical blob."@, false, self.snapshot_blob_upload_dedup_hits_total),
            ("remerge_snapshot_blob_upload_bytes_total"@, "Total raw snapshot blob bytes accepted by the server."@, false, self.snapshot_blob_upload_bytes_total),
            ("remerge_snapshot_blob_downloads_total"@, "Total snapshot blob download responses served."@, false, self.snapshot_blob_downloads_total),
            ("remerge_snapshot_blob_download_bytes_total"@, "Total snapshot blob bytes served to clients."@, false, self.snapshot_blob_download_bytes_total),
            ("remerge_snapshot_runtime_stages_total"@, "Total snapshot runtime staging passes completed successfully."@, false, self.snapshot_runtime_stages_total),
            ("remerge_snapshot_runtime_stage_bytes_total"@, "Total bytes materialized while staging snapshot runtimes."@, false, self.snapshot_runtime_stage_bytes_total),
            ("remerge_package_builds_total"@, "Total best-effort package build completions detected from emerge output."@, false, self.package_builds_total),
            ("remerge_package_build_duration_seconds_total"@, "Total cumulative best-effort package build duration in seconds."@, false, self.package_build_duration_secs_total),
        ]
    }

    /// The unlabelled series, in the order they are written.
    pub fn series_list(&self) -> (r: Vec<Series>)
        ensures
            series_view(r@) == self.series(),
    {
        let mut v: Vec<Series> = Vec::new();
        v.push(Series { name: "remerge_workorders_submitted_total", help: "Total number of workorders submitted.", gauge: false, value: self.workorders_submitted });
        v.push(Series { name: "remerge_workorders_completed_total", help: "Total number of workorders completed successfully.", gauge: false, value: self.workorders_completed });
        v.push(Series { name: "remerge_workorders_failed_total", help: "Total number of workorders that failed.", gauge: false, value: self.workorders_failed });
        v.push(Series { name: "remerge_workorders_cancelled_total", help: "Total number of workorders cancelled.", gauge: false, value: self.workorders_cancelled });
        v.push(Series { name: "remerge_builds_active", help: "Number of builds currently in progress.", gauge: true, value: self.builds_active });
        v.push(Series { name: "remerge_builds_duration_seconds_total", help: "Total cumulative build duration in seconds.", gauge: false, value: self.builds_total_duration_secs });
        v.push(Series { name: "remerge_queue_depth", help: "Number of workorders waiting in the queue.", gauge: true, value: self.queue_depth });
        v.push(Series { name: "remerge_binpkg_disk_usage_bytes", help: "Total size of the binpkg repository in bytes.", gauge: true, value: self.binpkg_disk_usage_bytes });
        v.push(Series { name: "remerge_worker_image_builds_total", help: "Total number of worker image build attempts.", gauge: false, value: self.worker_image_builds_total });
        v.push(Series { name: "remerge_worker_image_build_duration_seconds_total", help: "Total cumulative worker image build duration in seconds.", gauge: false, value: self.worker_image_build_duration_secs_total });
        v.push(Series { name: "remerge_worker_container_starts_total", help: "Total number of worker container start attempts.", gauge: false, value: self.worker_container_starts_total });
        v.push(Series { name: "remerge_worker_container_startup_duration_seconds_total", help: "Total cumulative worker container startup duration in seconds.", gauge: false, value: self.worker_container_startup_duration_secs_total });
        v.push(Series { name: "remerge_cleanup_success_total", help: "Total successful worker runtime cleanup operations.", gauge: false, value: self.cleanup_success_total });
        v.push(Series { name: "remerge_cleanup_failure_total", help: "Total failed worker runtime cleanup operations.", gauge: false, value: self.cleanup_failure_total });
        v.push(Series { name: "remerge_cleanup_reclaimed_bytes_total", help: "Total snapshot cache bytes reclaimed by cleanup.", gauge: false, value: self.cleanup_reclaimed_bytes_total });
        v.push(Series { name: "remerge_snapshot_missing_blob_queries_total", help: "Total snapshot missing-blob discovery requests.", gauge: false, value: self.snapshot_missing_blob_queries_total });
        v.push(Series { name: "remerge_snapshot_missing_blob_digests_total", help: "Total digests examined by snapshot missing-blob discovery.", gauge: false, value: self.snapshot_missing_blob_digests_total });
        v.push(Series { name: "remerge_snapshot_missing_blob_digests_missing_total", help: "Total digests reported missing by snapshot missing-blob discovery.", gauge: false, value: self.snapshot_missing_blob_digests_missing_total });
        v.push(Series { name: "remerge_snapshot_blob_uploads_total", help: "Total snapshot blob upload requests accepted by the server.", gauge: false, value: self.snapshot_blob_uploads_total });
        v.push(Series { name: "remerge_snapshot_blob_upload_dedup_hits_total", help: "Snapshot blob upload requests that reused an already stored canonical blob.", gauge: false, value: self.snapshot_blob_upload_dedup_hits_total });
        v.push(Series { name: "remerge_snapshot_blob_upload_bytes_total", help: "Total raw snapshot blob bytes accepted by the server.", gauge: false, value: self.snapshot_blob_upload_bytes_total });
        v.push(Series { name: "remerge_snapshot_blob_downloads_total", help: "Total snapshot blob download responses served.", gauge: false, value: self.snapshot_blob_downloads_total });
        v.push(Series { name: "remerge_snapshot_blob_download_bytes_total", help: "Total snapshot blob bytes served to clients.", gauge: false, value: self.snapshot_blob_download_bytes_total });
        v.push(Series { name: "remerge_snapshot_runtime_stages_total", help: "Total snapshot runtime staging passes completed successfully.", gauge: false, value: self.snapshot_runtime_stages_total });
        v.push(Series { name: "remerge_snapshot_runtime_stage_bytes_total", help: "Total bytes materialized while staging snapshot runtimes.", gauge: false, value: self.snapshot_runtime_stage_bytes_total });
        v.push(Series { name: "remerge_package_builds_total", help: "Total best-effort package build completions detected from emerge output.", gauge: false, value: self.package_builds_total });
        v.push(Series { name: "remerge_package_build_duration_seconds_total", help: "Total cumulative best-effort package build duration in seconds.", gauge: false, value: self.package_build_duration_secs_total });
        assert(series_view(v@) =~= self.series());
        v
    }

    /// Counts a worker image build that took `duration_secs` seconds.
    pub fn record_worker_image_build(&mut self, duration_secs: u64)
        ensures
            *final(self) == (Metrics {
                worker_image_builds_total: wrap_add(old(self).worker_image_builds_total, 1),
                worker_image_build_duration_secs_total: wrap_add(
                    old(self).worker_image_build_duration_secs_total,
                    duration_secs,
                ),
                ..*old(self)
            }),
    {
        self.worker_image_builds_total = bump(self.worker_image_builds_total, 1);
        self.worker_image_build_duration_secs_total = bump(
            self.worker_image_build_duration_secs_total,
            duration_secs,
        );
    }

    /// Counts a worker container start that took `duration_secs` seconds.
    pub fn record_worker_container_start(&mut self, duration_secs: u64)
        ensures
            *final(self) == (Metrics {
                worker_container_starts_total: wrap_add(old(self).worker_container_starts_total, 1),
                worker_container_startup_duration_secs_total: wrap_add(
                    old(self).worker_container_startup_duration_secs_total,
                    duration_secs,
                ),
                ..*old(self)
            }),
    {
        self.worker_container_starts_total = bump(self.worker_container_starts_total, 1);
        self.worker_container_startup_duration_secs_total = bump(
            self.worker_container_startup_duration_secs_total,
            duration_secs,
        );
    }

    /// Counts a runtime cleanup, successful or failed.
    pub fn record_cleanup(&mut self, success: bool)
        ensures
            success ==> *final(self) == (Metrics {
                cleanup_success_total: wrap_add(old(self).cleanup_success_total, 1),
                ..*old(self)
            }),
            !success ==> *final(self) == (Metrics {
                cleanup_failure_total: wrap_add(old(self).cleanup_failure_total, 1),
                ..*old(self)
            }),
    {
        if success {
            self.cleanup_success_total = bump(self.cleanup_success_total, 1);
        } else {
            self.cleanup_failure_total = bump(self.cleanup_failure_total, 1);
        }
    }

    /// Adds the bytes that a snapshot cleanup reclaimed.
    pub fn record_cleanup_reclaimed_bytes(&mut self, reclaimed_bytes: u64)
        ensures
            *final(self) == (Metrics {
                cleanup_reclaimed_bytes_total: wrap_add(
                    old(self).cleanup_reclaimed_bytes_total,
                    reclaimed_bytes,
                ),
                ..*old(self)
            }),
    {
        self.cleanup_reclaimed_bytes_total = bump(
            self.cleanup_reclaimed_bytes_total,
            reclaimed_bytes,
        );
    }

    /// Counts a missing-blob query over `digest_count` digests of which
    /// `missing_count` were missing.
    pub fn record_snapshot_missing_blob_query(&mut self, digest_count: usize, missing_count: usize)
        ensures
            *final(self) == (Metrics {
                snapshot_missing_blob_queries_total: wrap_add(
                    old(self).snapshot_missing_blob_queries_total,
                    1,
                ),
                snapshot_missing_blob_digests_total: wrap_add(
                    old(self).snapshot_missing_blob_digests_total,
                    digest_count as u64,
                ),
                snapshot_missing_blob_digests_missing_total: wrap_add(
                    old(self).snapshot_missing_blob_digests_missing_total,
                    missing_count as u64,
                ),
                ..*old(self)
            }),
    {
        self.snapshot_missing_blob_queries_total = bump(self.snapshot_missing_blob_queries_total, 1);
        self.snapshot_missing_blob_digests_total = bump(
            self.snapshot_missing_blob_digests_total,
            digest_count as u64,
        );
        self.snapshot_missing_blob_digests_missing_total = bump(
            self.snapshot_missing_blob_digests_missing_total,
            missing_count as u64,
        );
    }

    /// Counts an accepted blob upload of `raw_size_bytes`; one that was not
    /// stored anew (`uploaded` false) is a dedup hit.
    pub fn record_snapshot_blob_upload(&mut self, raw_size_bytes: u64, uploaded: bool)
        ensures
            *final(self) == (Metrics {
                snapshot_blob_uploads_total: wrap_add(old(self).snapshot_blob_uploads_total, 1),
                snapshot_blob_upload_bytes_total: wrap_add(
                    old(self).snapshot_blob_upload_bytes_total,
                    raw_size_bytes,
                ),
                snapshot_blob_upload_dedup_hits_total: if uploaded {
                    old(self).snapshot_blob_upload_dedup_hits_total
                } else {
                    wrap_add(old(self).snapshot_blob_upload_dedup_hits_total, 1)
                },
                ..*old(self)
            }),
    {
        self.snapshot_blob_uploads_total = bump(self.snapshot_blob_uploads_total, 1);
        self.snapshot_blob_upload_bytes_total = bump(
            self.snapshot_blob_upload_bytes_total,
            raw_size_bytes,
        );
        if !uploaded {
            self.snapshot_blob_upload_dedup_hits_total = bump(
                self.snapshot_blob_upload_dedup_hits_total,
                1,
            );
        }
    }

    /// Counts a blob download that served `served_bytes`.
    pub fn record_snapshot_blob_download(&mut self, served_bytes: u64)
        ensures
            *final(self) == (Metrics {
                snapshot_blob_downloads_total: wrap_add(old(self).snapshot_blob_downloads_total, 1),
                snapshot_blob_download_bytes_total: wrap_add(
                    old(self).snapshot_blob_download_bytes_total,
                    served_bytes,
                ),
                ..*old(self)
            }),
    {
        self.snapshot_blob_downloads_total = bump(self.snapshot_blob_downloads_total, 1);
        self.snapshot_blob_download_bytes_total = bump(
            self.snapshot_blob_download_bytes_total,
            served_bytes,
        );
    }

    /// Counts a runtime staging pass that materialized `materialized_bytes`.
    pub fn record_snapshot_runtime_stage(&mut self, materialized_bytes: u64)
        ensures
            *final(self) == (Metrics {
                snapshot_runtime_stages_total: wrap_add(old(self).snapshot_runtime_stages_total, 1),
                snapshot_runtime_stage_bytes_total: wrap_add(
                    old(self).snapshot_runtime_stage_bytes_total,
                    materialized_bytes,
                ),
                ..*old(self)
            }),
    {
        self.snapshot_runtime_stages_total = bump(self.snapshot_runtime_stages_total, 1);
        self.snapshot_runtime_stage_bytes_total = bump(
            self.snapshot_runtime_stage_bytes_total,
            materialized_bytes,
        );
    }

    /// Counts a package build of `atom` that took `duration_secs` seconds.
    /// The atom's own series is kept when the atom is already tracked or
    /// fewer than [`MAX_PACKAGE_BUILD_METRIC_SERIES`] atoms are.
    pub fn record_package_build(&mut self, atom: &str, duration_secs: u64)
        requires
            old(self).wf(),
            old(self).package_builds_by_atom.lookup(atom@) matches Some(m) ==> m.builds_total
                < u64::MAX && m.duration_secs_total + duration_secs <= u64::MAX,
        ensures
            final(self).wf(),
            *final(self) == (Metrics {
                package_builds_total: wrap_add(old(self).package_builds_total, 1),
                package_build_duration_secs_total: wrap_add(
                    old(self).package_build_duration_secs_total,
                    duration_secs,
                ),
                package_builds_by_atom: final(self).package_builds_by_atom,
                ..*old(self)
            }),
            tracks_atom(old(self), atom@) ==> {
                &&& final(self).package_builds_by_atom.lookup(atom@) == Some(
                    bumped(old(self).package_builds_by_atom.lookup(atom@), duration_secs),
                )
                &&& forall|k: Seq<char>|
                    k != atom@ ==> #[trigger] final(self).package_builds_by_atom.lookup(k)
                        == old(self).package_builds_by_atom.lookup(k)
                &&& forall|k: Seq<char>|
                    #[trigger] final(self).package_builds_by_atom.has_key(k) == (
                    old(self).package_builds_by_atom.has_key(k) || k == atom@)
            },
            !tracks_atom(old(self), atom@) ==> final(self).package_builds_by_atom
                == old(self).package_builds_by_atom,
    {
        self.package_builds_total = bump(self.package_builds_total, 1);
        self.package_build_duration_secs_total = bump(
            self.package_build_duration_secs_total,
            duration_secs,
        );
        let known = self.package_builds_by_atom.contains_key(atom);
        if !known && self.package_builds_by_atom.len() >= MAX_PACKAGE_BUILD_METRIC_SERIES {
            return;
        }
        let prev = match self.package_builds_by_atom.get(atom) {
            Some(m) => *m,
            None => PackageBuildMetrics { builds_total: 0, duration_secs_total: 0 },
        };
        let next = PackageBuildMetrics {
            builds_total: prev.builds_total + 1,
            duration_secs_total: prev.duration_secs_total + duration_secs,
        };
        self.package_builds_by_atom.insert(atom.to_owned(), next);
    }

    /// The metrics in Prometheus text exposition format: every unlabelled
    /// series as a block, then the two labelled families with one sample
    /// per tracked atom in ascending atom order, then an empty line.
    pub fn to_prometheus(&self) -> (r: String)
        requires
            self.wf(),
        ensures
            r@ == prometheus_text(self),
    {
        let list = self.series_list();
        let mut out: Vec<char> = Vec::new();
        let mut i: usize = 0;
        while i < list.len()
            invariant
                i <= list.len(),
                series_view(list@) == self.series(),
                out@ == series_blocks(series_view(list@).take(i as int)),
            decreases list.len() - i,
        {
            assert(series_view(list@).take(i + 1).drop_last() =~= series_view(list@).take(i as int));
            append_series_block(&mut out, &list[i]);
            i += 1;
        }
        assert(series_view(list@).take(list.len() as int) =~= self.series());
        append_str(&mut out, "# HELP remerge_package_builds_by_atom_total Best-effort package build completions grouped by atom.\n");
        append_str(&mut out, "# TYPE remerge_package_builds_by_atom_total counter\n");
        append_str(&mut out, "# HELP remerge_package_build_duration_seconds_by_atom_total Best-effort package build duration grouped by atom.\n");
        append_str(&mut out, "# TYPE remerge_package_build_duration_seconds_by_atom_total counter\n");
        let ghost head = out@;
        assert(head =~= series_blocks(self.series()) + atom_header());
        let n = self.package_builds_by_atom.len();
        let ghost e = self.package_builds_by_atom.entries_view();
        let mut j: usize = 0;
        while j < n
            invariant
                j <= n,
                n == e.len(),
                e == self.package_builds_by_atom.entries_view(),
                out@ == head + all_atom_lines(e.take(j as int)),
            decreases n - j,
        {
            let (atom, m) = self.package_builds_by_atom.entry_at(j);
            assert(e.take(j + 1).drop_last() =~= e.take(j as int));
            let ghost before = out@;
            append_atom_lines(&mut out, atom, *m);
            assert(out@ =~= head + all_atom_lines(e.take(j + 1)));
            j += 1;
        }
        assert(e.take(n as int) =~= e);
        append_str(&mut out, "\n");
        string_of(out.as_slice())
    }

    /// All counters and gauges at zero, no atom tracked.
    pub fn new() -> (m: Self)
        ensures
            m.wf(),
            m.package_builds_by_atom.size() == 0,
            forall|k: Seq<char>| !m.package_builds_by_atom.has_key(k),
            m.workorders_submitted == 0 && m.workorders_completed == 0 && m.workorders_failed == 0
                && m.workorders_cancelled == 0 && m.builds_active == 0
                && m.builds_total_duration_secs == 0 && m.queue_depth == 0
                && m.binpkg_disk_usage_bytes == 0 && m.worker_image_builds_total == 0
                && m.worker_image_build_duration_secs_total == 0
                && m.worker_container_starts_total == 0
                && m.worker_container_startup_duration_secs_total == 0
                && m.cleanup_success_total == 0 && m.cleanup_failure_total == 0
                && m.cleanup_reclaimed_bytes_total == 0
                && m.snapshot_missing_blob_queries_total == 0
                && m.snapshot_missing_blob_digests_total == 0
                && m.snapshot_missing_blob_digests_missing_total == 0
                && m.snapshot_blob_uploads_total == 0
                && m.snapshot_blob_upload_dedup_hits_total == 0
                && m.snapshot_blob_upload_bytes_total == 0
                && m.snapshot_blob_downloads_total == 0
                && m.snapshot_blob_download_bytes_total == 0
                && m.snapshot_runtime_stages_total == 0
                && m.snapshot_runtime_stage_bytes_total == 0 && m.package_builds_total == 0
                && m.package_build_duration_secs_total == 0,
    {
        Metrics {
            workorders_submitted: 0,
            workorders_completed: 0,
            workorders_failed: 0,
            workorders_cancelled: 0,
            builds_active: 0,
            builds_total_duration_secs: 0,
            queue_depth: 0,
            binpkg_disk_usage_bytes: 0,
            worker_image_builds_total: 0,
            worker_image_build_duration_secs_total: 0,
            worker_container_starts_total: 0,
            worker_container_startup_duration_secs_total: 0,
            cleanup_success_total: 0,
            cleanup_failure_total: 0,
            cleanup_reclaimed_bytes_total: 0,
            snapshot_missing_blob_queries_total: 0,
            snapshot_missing_blob_digests_total: 0,
            snapshot_missing_blob_digests_missing_total: 0,
            snapshot_blob_uploads_total: 0,
            snapshot_blob_upload_dedup_hits_total: 0,
            snapshot_blob_upload_bytes_total: 0,
            snapshot_blob_downloads_total: 0,
            snapshot_blob_download_bytes_total: 0,
            snapshot_runtime_stages_total: 0,
            snapshot_runtime_stage_bytes_total: 0,
            package_builds_total: 0,
            package_build_duration_secs_total: 0,
            package_builds_by_atom: StrMap::new(),
        }
    }
}

proof fn lemma_series_blocks_split(a: Seq<(Seq<char>, Seq<char>, bool, u64)>, b: Seq<(Seq<char>, Seq<char>, bool, u64)>)
    ensures
        series_blocks(a + b) == series_blocks(a) + series_blocks(b),
    decreases b.len(),
{
    if b.len() == 0 {
        assert(a + b =~= a);
        assert(series_blocks(a) + Seq::<char>::empty() =~= series_blocks(a));
    } else {
        assert((a + b).drop_last() =~= a + b.drop_last());
        assert((a + b).last() == b.last());
        lemma_series_blocks_split(a, b.drop_last());
        assert(series_blocks(a) + series_blocks(b.drop_last()) + series_block(b.last()) =~= series_blocks(a)
            + (series_blocks(b.drop_last()) + series_block(b.last())));
    }
}

proof fn lemma_atom_lines_split(a: Seq<(String, PackageBuildMetrics)>, b: Seq<(String, PackageBuildMetrics)>)
    ensures
        all_atom_lines(a + b) == all_atom_lines(a) + all_atom_lines(b),
    decreases b.len(),
{
    if b.len() == 0 {
        assert(a + b =~= a);
        assert(all_atom_lines(a) + Seq::<char>::empty() =~= all_atom_lines(a));
    } else {
        assert((a + b).drop_last() =~= a + b.drop_last());
        assert((a + b).last() == b.last());
        lemma_atom_lines_split(a, b.drop_last());
        assert(all_atom_lines(a) + all_atom_lines(b.drop_last()) + atom_lines(b.last().0@, b.last().1)
            =~= all_atom_lines(a) + (all_atom_lines(b.drop_last()) + atom_lines(b.last().0@, b.last().1)));
    }
}

proof fn lemma_series_at(ss: Seq<(Seq<char>, Seq<char>, bool, u64)>, i: int)
    requires
        0 <= i < ss.len(),
    ensures
        series_blocks(ss) == series_blocks(ss.take(i)) + series_block(ss[i]) + series_blocks(
            ss.skip(i + 1),
        ),
{
    let pre = ss.take(i);
    let one = seq![ss[i]];
    let rest = ss.skip(i + 1);
    assert(ss =~= pre + one + rest);
    lemma_series_blocks_split(pre + one, rest);
    lemma_series_blocks_split(pre, one);
    assert(one.drop_last() =~= Seq::<(Seq<char>, Seq<char>, bool, u64)>::empty());
    assert(series_blocks(Seq::<(Seq<char>, Seq<char>, bool, u64)>::empty()) == Seq::<char>::empty());
    assert(one.last() == ss[i]);
    assert(series_blocks(one) =~= Seq::<char>::empty() + series_block(ss[i]));
    assert(Seq::<char>::empty() + series_block(ss[i]) =~= series_block(ss[i]));
}

proof fn lemma_atoms_at(es: Seq<(String, PackageBuildMetrics)>, k: int)
    requires
        0 <= k < es.len(),
    ensures
        all_atom_lines(es) == all_atom_lines(es.take(k)) + atom_lines(es[k].0@, es[k].1)
            + all_atom_lines(es.skip(k + 1)),
{
    let pre = es.take(k);
    let one = seq![es[k]];
    let rest = es.skip(k + 1);
    assert(es =~= pre + one + rest);
    lemma_atom_lines_split(pre + one, rest);
    lemma_atom_lines_split(pre, one);
    assert(one.drop_last() =~= Seq::<(String, PackageBuildMetrics)>::empty());
    assert(all_atom_lines(Seq::<(String, PackageBuildMetrics)>::empty()) == Seq::<char>::empty());
    assert(one.last() == es[k]);
    assert(all_atom_lines(one) =~= Seq::<char>::empty() + atom_lines(es[k].0@, es[k].1));
    assert(Seq::<char>::empty() + atom_lines(es[k].0@, es[k].1) =~= atom_lines(es[k].0@, es[k].1));
}

proof fn lemma_piece_at(t: Seq<char>, a: Seq<char>, b: Seq<char>, c: Seq<char>)
    requires
        t == a + b + c,
    ensures
        t.subrange(a.len() as int, (a.len() + b.len()) as int) == b,
{
    assert(t.subrange(a.len() as int, (a.len() + b.len()) as int) =~= b);
}

/// The layout of the Prometheus text around its pieces: the unlabelled
/// series blocks, the per-atom header, the per-atom lines and a final
/// newline.
pub open spec fn text_pieces(
    ss: Seq<(Seq<char>, Seq<char>, bool, u64)>,
    es: Seq<(String, PackageBuildMetrics)>,
) -> Seq<char> {
    series_blocks(ss) + atom_header() + all_atom_lines(es) + "\n"@
}

proof fn lemma_series_pieces(
    ss: Seq<(Seq<char>, Seq<char>, bool, u64)>,
    es: Seq<(String, PackageBuildMetrics)>,
)
    ensures
        forall|i: int|
            0 <= i < ss.len() ==> text_pieces(ss, es).subrange(
                series_blocks(ss.take(i)).len() as int,
                (series_blocks(ss.take(i)).len() + series_block(#[trigger] ss[i]).len()) as int,
            ) == series_block(ss[i]),
{
    let t = text_pieces(ss, es);
    assert forall|i: int| 0 <= i < ss.len() implies t.subrange(
        series_blocks(ss.take(i)).len() as int,
        (series_blocks(ss.take(i)).len() + series_block(#[trigger] ss[i]).len()) as int,
    ) == series_block(ss[i]) by {
        lemma_series_at(ss, i);
        let a = series_blocks(ss.take(i));
        let b = series_block(ss[i]);
        let c = series_blocks(ss.skip(i + 1)) + atom_header() + all_atom_lines(es) + "\n"@;
        assert(t =~= a + b + c);
        lemma_piece_at(t, a, b, c);
    }
}

proof fn lemma_atom_pieces(
    ss: Seq<(Seq<char>, Seq<char>, bool, u64)>,
    es: Seq<(String, PackageBuildMetrics)>,
)
    ensures
        forall|k: int|
            0 <= k < es.len() ==> text_pieces(ss, es).subrange(
                (series_blocks(ss).len() + atom_header().len() + all_atom_lines(es.take(k)).len()) as int,
                (series_blocks(ss).len() + atom_header().len() + all_atom_lines(es.take(k)).len()
                    + atom_lines((#[trigger] es[k]).0@, es[k].1).len()) as int,
            ) == atom_lines(es[k].0@, es[k].1),
{
    let t = text_pieces(ss, es);
    let head = series_blocks(ss) + atom_header();
    assert forall|k: int| 0 <= k < es.len() implies t.subrange(
        (series_blocks(ss).len() + atom_header().len() + all_atom_lines(es.take(k)).len()) as int,
        (series_blocks(ss).len() + atom_header().len() + all_atom_lines(es.take(k)).len()
            + atom_lines((#[trigger] es[k]).0@, es[k].1).len()) as int,
    ) == atom_lines(es[k].0@, es[k].1) by {
        lemma_atoms_at(es, k);
        let a = head + all_atom_lines(es.take(k));
        let b = atom_lines(es[k].0@, es[k].1);
        let c = all_atom_lines(es.skip(k + 1)) + "\n"@;
        assert(t =~= a + b + c);
        lemma_piece_at(t, a, b, c);
    }
}

proof fn lemma_head_and_end(
    ss: Seq<(Seq<char>, Seq<char>, bool, u64)>,
    es: Seq<(String, PackageBuildMetrics)>,
)
    ensures
        text_pieces(ss, es).subrange(
            series_blocks(ss).len() as int,
            (series_blocks(ss).len() + atom_header().len()) as int,
        ) == atom_header(),
        text_pieces(ss, es).len() == series_blocks(ss).len() + atom_header().len() + all_atom_lines(
            es,
        ).len() + 1,
        text_pieces(ss, es).last() == '\n',
{
    let t = text_pieces(ss, es);
    reveal_strlit("\n");
    let c = all_atom_lines(es) + "\n"@;
    assert(t =~= series_blocks(ss) + atom_header() + c);
    lemma_piece_at(t, series_blocks(ss), atom_header(), c);
}

/// The layout of the Prometheus text: each unlabelled series, in order,
/// writes its `# HELP`, `# TYPE` (gauge or counter) and sample lines; the
/// help and type lines of the two per-atom families follow once, however
/// many atoms there are; then every tracked atom, in strictly ascending
/// order, writes its build-count line directly followed by its duration
/// line; and the text ends with a newline.
pub proof fn law_prometheus_layout(m: &Metrics)
    requires
        m.wf(),
    ensures
        prometheus_text(m) == text_pieces(m.series(), m.package_builds_by_atom.entries_view()),
        forall|i: int|
            0 <= i < m.series().len() ==> text_pieces(
                m.series(),
                m.package_builds_by_atom.entries_view(),
            ).subrange(
                series_blocks(m.series().take(i)).len() as int,
                (series_blocks(m.series().take(i)).len() + series_block(
                    #[trigger] m.series()[i],
                ).len()) as int,
            ) == series_block(m.series()[i]),
        text_pieces(m.series(), m.package_builds_by_atom.entries_view()).subrange(
            series_blocks(m.series()).len() as int,
            (series_blocks(m.series()).len() + atom_header().len()) as int,
        ) == atom_header(),
        forall|k: int|
            0 <= k < m.package_builds_by_atom.entries_view().len() ==> text_pieces(
                m.series(),
                m.package_builds_by_atom.entries_view(),
            ).subrange(
                (series_blocks(m.series()).len() + atom_header().len() + all_atom_lines(
                    m.package_builds_by_atom.entries_view().take(k),
                ).len()) as int,
                (series_blocks(m.series()).len() + atom_header().len() + all_atom_lines(
                    m.package_builds_by_atom.entries_view().take(k),
                ).len() + atom_lines(
                    (#[trigger] m.package_builds_by_atom.entries_view()[k]).0@,
                    m.package_builds_by_atom.entries_view()[k].1,
                ).len()) as int,
            ) == atom_lines(
                m.package_builds_by_atom.entries_view()[k].0@,
                m.package_builds_by_atom.entries_view()[k].1,
            ),
        text_pieces(m.series(), m.package_builds_by_atom.entries_view()).last() == '\n',
        forall|j: int, k: int|
            0 <= j < k < m.package_builds_by_atom.entries_view().len() ==> crate::strmap::key_lt(
                (#[trigger] m.package_builds_by_atom.entries_view()[j]).0@,
                (#[trigger] m.package_builds_by_atom.entries_view()[k]).0@,
            ),
{
    let es = m.package_builds_by_atom.entries_view();
    lemma_series_pieces(m.series(), es);
    lemma_atom_pieces(m.series(), es);
    lemma_head_and_end(m.series(), es);
    assert forall|j: int, k: int| 0 <= j < k < es.len() implies crate::strmap::key_lt(
        (#[trigger] es[j]).0@,
        (#[trigger] es[k]).0@,
    ) by {
        assert(m.package_builds_by_atom.key_seq()[j] == es[j].0@);
        assert(m.package_builds_by_atom.key_seq()[k] == es[k].0@);
    }
}

} // verus!
