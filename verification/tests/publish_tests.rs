use iris_engine::publish::{handle_publish, publish_after_send};
use iris_engine::types::{NostrResponse, OutboundFrame, PublishOpts};

fn opts(dests: Vec<&str>) -> Option<PublishOpts> {
    Some(PublishOpts {
        publish_to: Some(dests.into_iter().map(|s| s.to_string()).collect()),
        verify_signature: None,
        source: None,
    })
}

/// destinations ["subscriptions"]: ingested locally and fanned out by the
/// store, never sent to any relay connection.
#[test]
fn subscriptions_only_publish_stays_local() {
    let plan = handle_publish(
        "p1".to_string(),
        "{\"kind\":1}".to_string(),
        &opts(vec!["subscriptions"]),
    );
    assert!(plan.ingest_local);
    assert!(plan.frame.is_none());
    match plan.immediate {
        Some(NostrResponse::Published { id }) => assert_eq!(id, "p1"),
        _ => panic!("expected an immediate acknowledgement"),
    }
}

#[test]
fn default_destination_is_the_relay_network() {
    let plan = handle_publish("p2".to_string(), "{}".to_string(), &None);
    assert!(!plan.ingest_local);
    match plan.frame {
        Some(OutboundFrame::Event { json }) => assert_eq!(json, "{}"),
        _ => panic!("expected a relay event frame"),
    }
    assert!(plan.immediate.is_none());
}

#[test]
fn both_destinations_ingest_and_send() {
    let plan = handle_publish(
        "p3".to_string(),
        "{\"kind\":7}".to_string(),
        &opts(vec!["subscriptions", "relay"]),
    );
    assert!(plan.ingest_local);
    assert!(plan.frame.is_some());
    assert!(plan.immediate.is_none());
}

#[test]
fn empty_destination_list_goes_nowhere_but_acknowledges() {
    let plan = handle_publish("p4".to_string(), "{}".to_string(), &opts(vec![]));
    assert!(!plan.ingest_local);
    assert!(plan.frame.is_none());
    assert!(matches!(plan.immediate, Some(NostrResponse::Published { .. })));
}

#[test]
fn send_outcome_maps_to_ack_or_error() {
    match publish_after_send("ok1".to_string(), true, String::new()) {
        NostrResponse::Published { id } => assert_eq!(id, "ok1"),
        _ => panic!("expected an acknowledgement"),
    }
    match publish_after_send("bad1".to_string(), false, "Invalid event: no sig".to_string()) {
        NostrResponse::Error { id, error } => {
            assert_eq!(id.as_deref(), Some("bad1"));
            assert_eq!(error, "Invalid event: no sig");
        }
        _ => panic!("expected a correlated error"),
    }
}
