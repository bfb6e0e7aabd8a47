//! What the server's HTTP API decides before and after it touches shared
//! state: who may see or cancel a workorder, whether another submission
//! fits, what a cancellation changes, how the progress URL is built, and
//! whether a client accepts zstd.
use vstd::prelude::*;

use crate::auth::AuthMode;
use crate::ids::uuid_text;
use crate::text::{chars_of, eq_ignore_case, split_chars, split_on, string_of, trim, trim_chars, vv};

verus! {

/// The life cycle of a workorder.
#[derive(Debug, Clone, PartialEq, Eq)]
pub enum WorkorderStatus {
    Pending,
    Provisioning,
    Building,
    Completed,
    Failed { reason: String },
    Cancelled,
}

/// Queued or running: counts against the capacity and can be cancelled.
pub open spec fn is_active(s: WorkorderStatus) -> bool {
    s is Pending || s is Provisioning || s is Building
}

impl WorkorderStatus {
    /// Whether the workorder is queued or running.
    pub fn is_active(&self) -> (r: bool)
        ensures
            r == is_active(*self),
    {
        match self {
            WorkorderStatus::Pending | WorkorderStatus::Provisioning | WorkorderStatus::Building => true,
            _ => false,
        }
    }

    /// Whether the workorder has finished, one way or another.
    pub fn is_terminal(&self) -> (r: bool)
        ensures
            r == !is_active(*self),
    {
        !self.is_active()
    }
}

/// An HTTP error answer: status code and message.
#[derive(Debug, Clone, PartialEq, Eq)]
pub struct ApiError {
    pub status: u16,
    pub message: String,
}

/// The number of queued or running workorders.
pub open spec fn active_count(s: Seq<WorkorderStatus>) -> int
    decreases s.len(),
{
    if s.len() == 0 {
        0
    } else {
        active_count(s.drop_last()) + if is_active(s.last()) {
            1int
        } else {
            0int
        }
    }
}

/// Counts the queued or running workorders.
pub fn count_active(statuses: &[WorkorderStatus]) -> (n: usize)
    ensures
        n == active_count(statuses@),
{
    let mut n: usize = 0;
    let mut i: usize = 0;
    while i < statuses.len()
        invariant
            i <= statuses.len(),
            n == active_count(statuses@.take(i as int)),
            n <= i,
        decreases statuses.len() - i,
    {
        assert(statuses@.take(i + 1).drop_last() =~= statuses@.take(i as int));
        if statuses[i].is_active() {
            n += 1;
        }
        i += 1;
    }
    assert(statuses@.take(statuses.len() as int) =~= statuses@);
    n
}

/// Refuses a submission when a capacity is set and that many workorders
/// are queued or running: `503` with the limit in the message.
pub fn check_capacity(active: usize, max_active: usize) -> (r: Result<(), ApiError>)
    ensures
        (max_active > 0 && active >= max_active) == (r matches Err(e) && e.status == 503),
        r is Ok <==> !(max_active > 0 && active >= max_active),
{
    if max_active > 0 && active >= max_active {
        return Err(
            ApiError {
                status: 503,
                message: format_capacity_message(max_active),
            },
        );
    }
    Ok(())
}

/// `Workorder capacity reached (limit N). Retry later.`
fn format_capacity_message(limit: usize) -> (r: String)
    ensures
        r@ == "Workorder capacity reached (limit "@ + crate::text::decimal(limit as nat)
            + "). Retry later."@,
{
    let mut out = chars_of("Workorder capacity reached (limit ");
    let digits = crate::text::u64_to_decimal(limit as u64);
    crate::text::append_chars(&mut out, digits.as_slice());
    crate::text::append_chars(&mut out, chars_of("). Retry later.").as_slice());
    string_of(out.as_slice())
}

/// Who may see a workorder: anyone without authentication; else only the
/// client the certificate header identifies as its owner (`403` for
/// another client, `401` without an identity).
pub open spec fn access_status(mode: AuthMode, caller: Option<u128>, owner: u128) -> Option<u16> {
    if mode == AuthMode::NoAuth {
        None
    } else {
        match caller {
            Some(c) => if c == owner {
                None
            } else {
                Some(403u16)
            },
            None => Some(401u16),
        }
    }
}

/// Checks that the caller may see or cancel a workorder of `owner`.
pub fn check_owner_access(mode: AuthMode, caller: Option<u128>, owner: u128) -> (r: Result<(), u16>)
    ensures
        match access_status(mode, caller, owner) {
            None => r is Ok,
            Some(code) => r == Err::<(), u16>(code),
        },
{
    if mode == AuthMode::NoAuth {
        return Ok(());
    }
    match caller {
        Some(c) => if c == owner {
            Ok(())
        } else {
            Err(403)
        },
        None => Err(401),
    }
}

/// Checks a cancellation request: an unknown workorder is `404`; a known
/// one needs its owner in authenticated modes, with the messages the
/// server sends.
pub fn check_cancel_access(mode: AuthMode, caller: Option<u128>, owner: Option<u128>) -> (r: Result<
    (),
    ApiError,
>)
    ensures
        owner is None ==> (r matches Err(e) && e.status == 404 && e.message@ == "Workorder not found"@),
        owner matches Some(o) ==> match access_status(mode, caller, o) {
            None => r is Ok,
            Some(code) => r matches Err(e) && e.status == code && e.message@ == (if code == 403 {
                "You do not own this workorder"@
            } else {
                "Authentication required to cancel workorders"@
            }),
        },
{
    match owner {
        None => Err(ApiError { status: 404, message: "Workorder not found".to_string() }),
        Some(o) => match check_owner_access(mode, caller, o) {
            Ok(()) => Ok(()),
            Err(code) => {
                if code == 403 {
                    Err(ApiError { status: 403, message: "You do not own this workorder".to_string() })
                } else {
                    Err(
                        ApiError {
                            status: 401,
                            message: "Authentication required to cancel workorders".to_string(),
                        },
                    )
                }
            },
        },
    }
}

/// What a cancellation does to a workorder.
#[derive(Debug, Clone, PartialEq, Eq)]
pub struct CancelOutcome {
    /// The workorder was queued or running and is now cancelled.
    pub cancelled: bool,
    /// The status after the request.
    pub status: WorkorderStatus,
    /// It was queued, so the queue depth drops.
    pub was_pending: bool,
    /// It was building, so its container is stopped.
    pub was_building: bool,
}

/// Cancels a queued or running workorder; a finished one stays as it is.
pub fn cancel_transition(status: WorkorderStatus) -> (r: CancelOutcome)
    ensures
        r.cancelled == is_active(status),
        r.cancelled ==> r.status == WorkorderStatus::Cancelled,
        !r.cancelled ==> r.status == status,
        r.was_pending == (status is Pending),
        r.was_building == (status is Building),
{
    let was_pending = match status {
        WorkorderStatus::Pending => true,
        _ => false,
    };
    let was_building = match status {
        WorkorderStatus::Building => true,
        _ => false,
    };
    if status.is_active() {
        CancelOutcome { cancelled: true, status: WorkorderStatus::Cancelled, was_pending, was_building }
    } else {
        CancelOutcome { cancelled: false, status, was_pending, was_building }
    }
}

/// The snapshot endpoints need an identity in authenticated modes.
pub fn check_snapshot_auth(mode: AuthMode, caller: Option<u128>) -> (r: Result<(), ApiError>)
    ensures
        r is Ok <==> (mode == AuthMode::NoAuth || caller is Some),
        r is Err ==> (r matches Err(e) && e.status == 401 && e.message@ == "Authentication required"@),
{
    if mode != AuthMode::NoAuth && caller.is_none() {
        return Err(ApiError { status: 401, message: "Authentication required".to_string() });
    }
    Ok(())
}

/// The WebSocket scheme of the progress URL: `wss` when a reverse proxy
/// reports `https` (in any case), `ws` for another protocol, and without
/// the header `wss` exactly when the server serves TLS itself.
pub open spec fn progress_scheme(forwarded_proto: Option<Seq<char>>, tls: bool) -> Seq<char> {
    match forwarded_proto {
        Some(p) => if eq_ignore_case(p, "https"@) {
            "wss"@
        } else {
            "ws"@
        },
        None => if tls {
            "wss"@
        } else {
            "ws"@
        },
    }
}

pub open spec fn opt_text(o: Option<&str>) -> Option<Seq<char>> {
    match o {
        Some(s) => Some(s@),
        None => None,
    }
}

/// The URL on which a client follows a workorder's progress, on the host
/// it reached (`localhost:7654` when the request names none).
pub fn progress_ws_url(forwarded_proto: Option<&str>, tls: bool, host: Option<&str>, id: u128) -> (r:
    String)
    ensures
        r@ == progress_scheme(opt_text(forwarded_proto), tls) + "://"@ + (match host {
            Some(h) => h@,
            None => "localhost:7654"@,
        }) + "/api/v1/workorders/"@ + uuid_text(id) + "/progress"@,
{
    let scheme = match forwarded_proto {
        Some(p) => {
            if crate::text::eq_ignore_ascii_case(chars_of(p).as_slice(), chars_of("https").as_slice()) {
                "wss"
            } else {
                "ws"
            }
        },
        None => if tls {
            "wss"
        } else {
            "ws"
        },
    };
    let mut out = chars_of(scheme);
    crate::text::append_chars(&mut out, chars_of("://").as_slice());
    let h = match host {
        Some(h) => h,
        None => "localhost:7654",
    };
    crate::text::append_chars(&mut out, chars_of(h).as_slice());
    crate::text::append_chars(&mut out, chars_of("/api/v1/workorders/").as_slice());
    let idt = crate::ids::uuid_hyphenated(id);
    crate::text::append_chars(&mut out, chars_of(idt.as_str()).as_slice());
    crate::text::append_chars(&mut out, chars_of("/progress").as_slice());
    string_of(out.as_slice())
}

/// Whether an `Accept-Encoding` value lists `zstd`: one of its
/// comma-separated entries, parameters after `;` aside, is `zstd` in any
/// case once trimmed.
pub open spec fn accepts_zstd(value: Seq<char>) -> bool {
    exists|i: int|
        0 <= i < split_on(value, ',').len() && eq_ignore_case(
            trim(split_on(#[trigger] split_on(value, ',')[i], ';')[0]),
            "zstd"@,
        )
}

/// Whether the request's `Accept-Encoding` header lists `zstd`.
pub fn request_accepts_zstd(accept_encoding: Option<&str>) -> (r: bool)
    ensures
        r == match accept_encoding {
            Some(v) => accepts_zstd(v@),
            None => false,
        },
{
    match accept_encoding {
        Some(v) => lists_zstd(v),
        None => false,
    }
}

fn lists_zstd(v: &str) -> (r: bool)
    ensures
        r == accepts_zstd(v@),
{
    let parts = split_chars(chars_of(v).as_slice(), ',');
    let z = chars_of("zstd");
    let mut i: usize = 0;
    while i < parts.len()
        invariant
            i <= parts.len(),
            vv(parts@) == split_on(v@, ','),
            z@ == "zstd"@,
            forall|j: int|
                0 <= j < i ==> !eq_ignore_case(
                    trim(split_on(#[trigger] split_on(v@, ',')[j], ';')[0]),
                    "zstd"@,
                ),
        decreases parts.len() - i,
    {
        assert(vv(parts@)[i as int] == parts@[i as int]@);
        let pieces = split_chars(parts[i].as_slice(), ';');
        proof {
            crate::text::lemma_split_on_nonempty(parts@[i as int]@, ';');
            assert(vv(pieces@)[0] == pieces@[0]@);
        }
        let token = trim_chars(pieces[0].as_slice());
        assert(token@ == trim(split_on(split_on(v@, ',')[i as int], ';')[0]));
        if crate::text::eq_ignore_ascii_case(token.as_slice(), z.as_slice()) {
            assert(eq_ignore_case(trim(split_on(split_on(v@, ',')[i as int], ';')[0]), "zstd"@));
            return true;
        }
        i += 1;
    }
    false
}

} // verus!
