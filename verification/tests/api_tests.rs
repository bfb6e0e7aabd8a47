use remerge::api::{
    cancel_transition, check_cancel_access, check_capacity, check_owner_access,
    check_snapshot_auth, count_active, progress_ws_url, request_accepts_zstd, WorkorderStatus,
};
use remerge::auth::AuthMode;

const OWNER: u128 = 0x550e8400_e29b_41d4_a716_446655440000;

#[test]
fn capacity_counts_queued_and_running_workorders() {
    let statuses = vec![
        WorkorderStatus::Pending,
        WorkorderStatus::Completed,
        WorkorderStatus::Building,
        WorkorderStatus::Failed { reason: "x".to_string() },
        WorkorderStatus::Provisioning,
        WorkorderStatus::Cancelled,
    ];
    assert_eq!(count_active(&statuses), 3);
    assert_eq!(check_capacity(3, 0), Ok(()));
    assert_eq!(check_capacity(2, 3), Ok(()));
    let err = check_capacity(3, 3).unwrap_err();
    assert_eq!(err.status, 503);
    assert_eq!(err.message, "Workorder capacity reached (limit 3). Retry later.");
}

#[test]
fn owners_only_in_authenticated_modes() {
    assert_eq!(check_owner_access(AuthMode::NoAuth, None, OWNER), Ok(()));
    assert_eq!(check_owner_access(AuthMode::Mtls, Some(OWNER), OWNER), Ok(()));
    assert_eq!(check_owner_access(AuthMode::Mtls, Some(1), OWNER), Err(403));
    assert_eq!(check_owner_access(AuthMode::Mixed, None, OWNER), Err(401));
}

#[test]
fn cancel_access_messages() {
    let err = check_cancel_access(AuthMode::Mtls, Some(1), None).unwrap_err();
    assert_eq!((err.status, err.message.as_str()), (404, "Workorder not found"));
    let err = check_cancel_access(AuthMode::Mtls, Some(1), Some(OWNER)).unwrap_err();
    assert_eq!((err.status, err.message.as_str()), (403, "You do not own this workorder"));
    let err = check_cancel_access(AuthMode::Mixed, None, Some(OWNER)).unwrap_err();
    assert_eq!(
        (err.status, err.message.as_str()),
        (401, "Authentication required to cancel workorders")
    );
    assert_eq!(check_cancel_access(AuthMode::NoAuth, None, Some(OWNER)), Ok(()));
}

#[test]
fn only_active_workorders_are_cancelled() {
    let out = cancel_transition(WorkorderStatus::Building);
    assert!(out.cancelled && out.was_building && !out.was_pending);
    assert_eq!(out.status, WorkorderStatus::Cancelled);
    let out = cancel_transition(WorkorderStatus::Pending);
    assert!(out.cancelled && out.was_pending);
    let done = WorkorderStatus::Failed { reason: "boom".to_string() };
    let out = cancel_transition(done.clone());
    assert!(!out.cancelled);
    assert_eq!(out.status, done);
    assert!(WorkorderStatus::Completed.is_terminal());
}

#[test]
fn snapshot_endpoints_need_an_identity_when_authenticated() {
    assert_eq!(check_snapshot_auth(AuthMode::NoAuth, None), Ok(()));
    assert_eq!(check_snapshot_auth(AuthMode::Mtls, Some(7)), Ok(()));
    let err = check_snapshot_auth(AuthMode::Mtls, None).unwrap_err();
    assert_eq!((err.status, err.message.as_str()), (401, "Authentication required"));
}

#[test]
fn progress_url_scheme_follows_proxy_and_tls() {
    assert_eq!(
        progress_ws_url(Some("HTTPS"), false, Some("build.example:443"), OWNER),
        "wss://build.example:443/api/v1/workorders/550e8400-e29b-41d4-a716-446655440000/progress"
    );
    assert_eq!(
        progress_ws_url(Some("http"), true, Some("h"), OWNER),
        "ws://h/api/v1/workorders/550e8400-e29b-41d4-a716-446655440000/progress"
    );
    assert_eq!(
        progress_ws_url(None, true, None, OWNER),
        "wss://localhost:7654/api/v1/workorders/550e8400-e29b-41d4-a716-446655440000/progress"
    );
    assert!(progress_ws_url(None, false, None, OWNER).starts_with("ws://localhost:7654/"));
}

#[test]
fn accept_encoding_lists_zstd() {
    assert!(request_accepts_zstd(Some("gzip, zstd")));
    assert!(request_accepts_zstd(Some("br;q=1.0, ZSTD;q=0.5")));
    assert!(!request_accepts_zstd(Some("gzip, deflate")));
    assert!(!request_accepts_zstd(Some("zstdx")));
    assert!(!request_accepts_zstd(None));
}
