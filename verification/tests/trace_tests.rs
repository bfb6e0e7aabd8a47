use std::collections::hash_map::RandomState;
use std::hash::{BuildHasher, Hasher};

use remerge::trace::{new_trace_context, parse_trace_context, request_trace_context, TraceContext};

fn random_u64() -> u64 {
    let mut h = RandomState::new().build_hasher();
    h.write_u64(0x5eed);
    h.finish() | 1
}

#[test]
fn generated_trace_context_is_well_formed() {
    let trace_id = ((random_u64() as u128) << 64) | random_u64() as u128;
    let trace = new_trace_context(trace_id, random_u64());
    assert_eq!(trace.trace_id.len(), 32);
    assert!(parse_trace_context(&trace.traceparent).is_some());
}

#[test]
fn invalid_traceparent_is_rejected() {
    assert!(parse_trace_context("00-bad-2222222222222222-01").is_none());
    assert!(
        parse_trace_context("00-00000000000000000000000000000000-2222222222222222-01").is_none()
    );
}

#[test]
fn traceparent_is_trimmed_and_lower_cased() {
    let ctx = parse_trace_context("  00-4BF92F3577B34DA6A3CE929D0E0E4736-00F067AA0BA902B7-01 \n")
        .unwrap();
    assert_eq!(ctx.trace_id, "4bf92f3577b34da6a3ce929d0e0e4736");
    assert_eq!(ctx.traceparent, "00-4bf92f3577b34da6a3ce929d0e0e4736-00f067aa0ba902b7-01");
}

#[test]
fn malformed_fields_are_rejected() {
    let ok = "00-4bf92f3577b34da6a3ce929d0e0e4736-00f067aa0ba902b7-01";
    assert!(parse_trace_context(ok).is_some());
    assert!(parse_trace_context("01-4bf92f3577b34da6a3ce929d0e0e4736-00f067aa0ba902b7-01").is_none());
    assert!(parse_trace_context("00-4bf92f3577b34da6a3ce929d0e0e4736-0000000000000000-01").is_none());
    assert!(parse_trace_context("00-4bf92f3577b34da6a3ce929d0e0e4736-00f067aa0ba902b7-1").is_none());
    assert!(parse_trace_context("00-4bf92f3577b34da6a3ce929d0e0e4736-00f067aa0ba902b7-01-x").is_none());
    assert!(parse_trace_context("00-4bf92f3577b34da6a3ce929d0e0e473g-00f067aa0ba902b7-01").is_none());
}

#[test]
fn fresh_context_formats_the_ids_as_hex() {
    let ctx = new_trace_context(0x4bf92f3577b34da6a3ce929d0e0e4736, 0x00f067aa0ba902b7);
    assert_eq!(ctx.trace_id, "4bf92f3577b34da6a3ce929d0e0e4736");
    assert_eq!(ctx.traceparent, "00-4bf92f3577b34da6a3ce929d0e0e4736-00f067aa0ba902b7-01");
    let small = new_trace_context(1, 2);
    assert_eq!(small.trace_id, "00000000000000000000000000000001");
    assert_eq!(small.traceparent, "00-00000000000000000000000000000001-0000000000000002-01");
}

#[test]
fn request_context_prefers_a_valid_header() {
    let fresh = TraceContext { trace_id: "f".repeat(32), traceparent: "fresh".to_string() };
    let got = request_trace_context(
        Some("00-4bf92f3577b34da6a3ce929d0e0e4736-00f067aa0ba902b7-01"),
        fresh.clone(),
    );
    assert_eq!(got.trace_id, "4bf92f3577b34da6a3ce929d0e0e4736");
    assert_eq!(request_trace_context(Some("garbage"), fresh.clone()), fresh);
    assert_eq!(request_trace_context(None, fresh.clone()), fresh);
}
