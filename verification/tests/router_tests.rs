use iris_engine::router::{
    after_ingest, dedup_probe, dedup_should_drop, route_frame, FrameItem, RouteDecision,
};
use iris_engine::types::NostrResponse;

fn str_item(s: &str) -> FrameItem {
    FrameItem { as_str: Some(s.to_string()), json: format!("\"{}\"", s) }
}

fn json_item(j: &str) -> FrameItem {
    FrameItem { as_str: None, json: j.to_string() }
}

#[test]
fn event_frame_is_ingested_and_carries_payload() {
    let frame = vec![str_item("EVENT"), str_item("sub1"), json_item("{\"id\":\"x\"}")];
    match route_frame(&frame, true) {
        RouteDecision::Ingest { sub_id, payload } => {
            assert_eq!(sub_id.as_deref(), Some("sub1"));
            assert_eq!(payload, "{\"id\":\"x\"}");
        }
        _ => panic!("expected ingestion"),
    }
}

#[test]
fn event_frame_without_string_sub_id_still_ingests() {
    let frame = vec![str_item("EVENT"), json_item("42"), json_item("{}")];
    match route_frame(&frame, true) {
        RouteDecision::Ingest { sub_id, .. } => assert!(sub_id.is_none()),
        _ => panic!("expected ingestion"),
    }
}

#[test]
fn short_event_frame_is_ignored() {
    let frame = vec![str_item("EVENT"), str_item("sub1")];
    assert!(matches!(route_frame(&frame, true), RouteDecision::Ignore));
}

#[test]
fn notice_is_logged_only() {
    let frame = vec![str_item("NOTICE"), str_item("slow down")];
    assert!(matches!(route_frame(&frame, false), RouteDecision::Notice));
}

#[test]
fn eose_forwarding_obeys_policy() {
    let frame = vec![str_item("EOSE"), str_item("sub2")];
    match route_frame(&frame, false) {
        RouteDecision::Eose { sub_id } => assert_eq!(sub_id, "sub2"),
        _ => panic!("expected an end-of-stream decision"),
    }
    assert!(matches!(route_frame(&frame, true), RouteDecision::EoseSuppressed));
    let bad = vec![str_item("EOSE"), json_item("7")];
    assert!(matches!(route_frame(&bad, false), RouteDecision::Ignore));
}

#[test]
fn ok_is_acknowledged_and_unknown_ignored() {
    assert!(matches!(route_frame(&vec![str_item("OK")], false), RouteDecision::Ack));
    assert!(matches!(route_frame(&vec![str_item("AUTH")], false), RouteDecision::Ignore));
    assert!(matches!(route_frame(&vec![json_item("1")], false), RouteDecision::Ignore));
    assert!(matches!(route_frame(&vec![], false), RouteDecision::Ignore));
}

#[test]
fn accepted_event_is_forwarded_with_relay_origin() {
    let r = after_ingest(
        Some("s".to_string()),
        "{\"id\":\"e\"}".to_string(),
        "wss://r".to_string(),
        true,
    );
    match r {
        Some(NostrResponse::Event { sub_id, event, relay }) => {
            assert_eq!(sub_id, "s");
            assert_eq!(event, "{\"id\":\"e\"}");
            assert_eq!(relay.as_deref(), Some("wss://r"));
        }
        _ => panic!("expected a forwarded event"),
    }
}

/// A rejected event (the store rejects duplicates among others) is dropped
/// silently: no emission reaches any subscriber.
#[test]
fn rejected_event_forwards_nothing() {
    let r = after_ingest(
        Some("s".to_string()),
        "{}".to_string(),
        "wss://r".to_string(),
        false,
    );
    assert!(r.is_none());
    let r2 = after_ingest(None, "{}".to_string(), "wss://r".to_string(), true);
    assert!(r2.is_none());
}

#[test]
fn probe_extracts_inline_id() {
    let id_hex = "ab".repeat(32);
    let text = format!("[\"EVENT\",\"s\",{{\"id\":\"{}\",\"kind\":1}}]", id_hex);
    let k = dedup_probe(text.as_bytes()).expect("probe finds the id");
    assert_eq!(k, vec![0xabu8; 32]);
}

#[test]
fn probe_requires_event_shape() {
    let id_hex = "ab".repeat(32);
    let notice = format!("[\"NOTICE\",{{\"id\":\"{}\"}}]", id_hex);
    assert!(dedup_probe(notice.as_bytes()).is_none());
    assert!(dedup_probe(b"[]").is_none());
}

#[test]
fn probe_rejects_malformed_inline_id() {
    let short = "[\"EVENT\",\"s\",{\"id\":\"abcd\"}]";
    assert!(dedup_probe(short.as_bytes()).is_none());
    let bad = format!("[\"EVENT\",\"s\",{{\"id\":\"{}\"}}]", "zz".repeat(32));
    assert!(dedup_probe(bad.as_bytes()).is_none());
    let truncated = format!("[\"EVENT\",\"s\",{{\"id\":\"{}", "ab".repeat(20));
    assert!(dedup_probe(truncated.as_bytes()).is_none());
}

/// Re-ingesting an already-stored event id produces no duplicate emission:
/// the probe identifies it and the pre-parse filter drops the frame.
#[test]
fn duplicate_frame_is_dropped_before_parsing() {
    let id_hex = "cd".repeat(32);
    let text = format!("[\"EVENT\",\"s\",{{\"id\":\"{}\"}}]", id_hex);
    let probe = dedup_probe(text.as_bytes());
    assert!(dedup_should_drop(&probe, true));
    assert!(!dedup_should_drop(&probe, false));
    assert!(!dedup_should_drop(&None, true));
}
