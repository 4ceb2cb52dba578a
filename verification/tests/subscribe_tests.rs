use iris_engine::subscribe::{
    handle_subscribe, resolve_general, resolve_id_lookup, SubscribePlan, QUERY_LIMIT,
};
use iris_engine::types::{NostrResponse, OutboundFrame, SubscribeOpts};
use iris_engine::wire::{WireEntry, WireFilter, WireItem, WireValue};

fn obj(entries: Vec<WireEntry>) -> WireFilter {
    WireFilter::Obj { entries }
}

fn entry(key: &str, value: WireValue) -> WireEntry {
    WireEntry { key: key.to_string(), value }
}

fn hexkey(byte: u8) -> String {
    format!("{:02x}", byte).repeat(32)
}

fn id_filter(keys: &[u8]) -> WireFilter {
    let items: Vec<WireItem> = keys.iter().map(|b| WireItem::Str(hexkey(*b))).collect();
    obj(vec![entry("ids", WireValue::Array(items))])
}

fn opts(destinations: Vec<&str>) -> Option<SubscribeOpts> {
    Some(SubscribeOpts {
        destinations: Some(destinations.into_iter().map(|s| s.to_string()).collect()),
        close_on_eose: None,
        groupable: None,
    })
}

#[test]
fn all_invalid_filters_reject_the_request() {
    let plan = handle_subscribe("s1".to_string(), &vec![WireFilter::NotObj, WireFilter::NotObj], &None);
    assert!(matches!(plan, SubscribePlan::Rejected));
}

#[test]
fn no_filters_reject_the_request() {
    let plan = handle_subscribe("s1".to_string(), &vec![], &None);
    assert!(matches!(plan, SubscribePlan::Rejected));
}

#[test]
fn first_object_filter_classifies_id_query() {
    let plan = handle_subscribe(
        "s2".to_string(),
        &vec![WireFilter::NotObj, id_filter(&[0xaa, 0xbb])],
        &None,
    );
    match plan {
        SubscribePlan::IdLookup { sub_id, ids, cache_only } => {
            assert_eq!(sub_id, "s2");
            assert_eq!(ids, vec![vec![0xaau8; 32], vec![0xbbu8; 32]]);
            assert!(!cache_only);
        }
        _ => panic!("expected an id lookup plan"),
    }
}

#[test]
fn ids_with_other_constraints_stay_a_general_query() {
    // id-only means every constraint reduces to an id set; ids plus kinds
    // (or a window, or a limit) goes down the general path
    let with_kinds = obj(vec![
        entry("ids", WireValue::Array(vec![WireItem::Str(hexkey(0x0a))])),
        entry("kinds", WireValue::Array(vec![WireItem::UInt(1)])),
    ]);
    let p1 = handle_subscribe("m1".to_string(), &vec![with_kinds], &None);
    assert!(matches!(p1, SubscribePlan::Query { .. }));
    let with_limit = obj(vec![
        entry("ids", WireValue::Array(vec![WireItem::Str(hexkey(0x0a))])),
        entry("limit", WireValue::UInt(5)),
    ]);
    let p2 = handle_subscribe("m2".to_string(), &vec![with_limit], &None);
    assert!(matches!(p2, SubscribePlan::Query { .. }));
    let with_tag = obj(vec![
        entry("ids", WireValue::Array(vec![WireItem::Str(hexkey(0x0a))])),
        entry("#t", WireValue::Array(vec![WireItem::Str("x".to_string())])),
    ]);
    let p3 = handle_subscribe("m3".to_string(), &vec![with_tag], &None);
    assert!(matches!(p3, SubscribePlan::Query { .. }));
}

#[test]
fn general_filter_yields_query_plan() {
    let w = obj(vec![entry("kinds", WireValue::Array(vec![WireItem::UInt(1)]))]);
    let plan = handle_subscribe("s3".to_string(), &vec![w], &None);
    match plan {
        SubscribePlan::Query { sub_id, filters, cache_only } => {
            assert_eq!(sub_id, "s3");
            assert_eq!(filters.len(), 1);
            assert_eq!(filters[0].kinds.as_ref().unwrap(), &vec![1]);
            assert!(!cache_only);
        }
        _ => panic!("expected a general query plan"),
    }
}

#[test]
fn cache_only_needs_cache_without_relay() {
    let w = vec![id_filter(&[0x01])];
    let p1 = handle_subscribe("a".to_string(), &w, &opts(vec!["cache"]));
    assert!(matches!(p1, SubscribePlan::IdLookup { cache_only: true, .. }));
    let p2 = handle_subscribe("a".to_string(), &w, &opts(vec!["cache", "relay"]));
    assert!(matches!(p2, SubscribePlan::IdLookup { cache_only: false, .. }));
    let p3 = handle_subscribe("a".to_string(), &w, &opts(vec!["relay"]));
    assert!(matches!(p3, SubscribePlan::IdLookup { cache_only: false, .. }));
}

/// All ids cached: every event is emitted and zero network requests go out.
#[test]
fn id_query_fully_cached_sends_no_req() {
    let ids = vec![vec![0x01u8; 32], vec![0x02u8; 32]];
    let found = vec![Some("{\"id\":\"one\"}".to_string()), Some("{\"id\":\"two\"}".to_string())];
    let out = resolve_id_lookup("s".to_string(), ids, false, &found);
    assert_eq!(out.emissions.len(), 2);
    assert!(out.req.is_none());
    assert!(!out.register_live);
    match &out.emissions[0] {
        NostrResponse::Event { sub_id, event, relay } => {
            assert_eq!(sub_id, "s");
            assert_eq!(event, "{\"id\":\"one\"}");
            assert!(relay.is_none());
        }
        _ => panic!("expected an event emission"),
    }
}

/// A cached, B not: Event(A, relay none) immediately, and a REQ for ids [B]
/// only.
#[test]
fn id_query_partial_miss_requests_only_missing() {
    let a = vec![0xaau8; 32];
    let b = vec![0xbbu8; 32];
    let ids = vec![a.clone(), b.clone()];
    let found = vec![Some("{\"content\":\"A\"}".to_string()), None];
    let out = resolve_id_lookup("sub9".to_string(), ids, false, &found);
    assert_eq!(out.emissions.len(), 1);
    match &out.emissions[0] {
        NostrResponse::Event { sub_id, relay, .. } => {
            assert_eq!(sub_id, "sub9");
            assert!(relay.is_none());
        }
        _ => panic!("expected an event emission"),
    }
    match out.req.expect("a residual request is owed") {
        OutboundFrame::Req { sub_id, filters } => {
            assert_eq!(sub_id, "sub9");
            assert_eq!(filters.len(), 1);
            let residual = &filters[0];
            assert_eq!(residual.ids.as_ref().unwrap(), &vec![b]);
            assert!(residual.authors.is_none());
            assert!(residual.kinds.is_none());
            assert!(residual.tags.is_empty());
            assert!(residual.limit.is_none());
        }
        _ => panic!("expected a REQ frame"),
    }
}

#[test]
fn id_query_cache_only_never_requests() {
    let ids = vec![vec![0x0fu8; 32]];
    let found = vec![None];
    let out = resolve_id_lookup("c".to_string(), ids, true, &found);
    assert!(out.emissions.is_empty());
    assert!(out.req.is_none());
}

/// Fifty cached matches and no cache-only flag: fifty cached events, then a
/// REQ carrying the original filter set.
#[test]
fn general_query_emits_cache_then_full_req() {
    let w = obj(vec![
        entry("kinds", WireValue::Array(vec![WireItem::UInt(1)])),
        entry("limit", WireValue::UInt(50)),
    ]);
    let plan = handle_subscribe("feed".to_string(), &vec![w], &None);
    let (sub_id, filters, cache_only) = match plan {
        SubscribePlan::Query { sub_id, filters, cache_only } => (sub_id, filters, cache_only),
        _ => panic!("expected a general query plan"),
    };
    let results: Vec<String> = (0..50).map(|i| format!("{{\"n\":{}}}", i)).collect();
    let out = resolve_general(sub_id, filters, cache_only, &results);
    assert_eq!(out.emissions.len(), 50);
    for (i, e) in out.emissions.iter().enumerate() {
        match e {
            NostrResponse::Event { sub_id, event, relay } => {
                assert_eq!(sub_id, "feed");
                assert_eq!(event, &format!("{{\"n\":{}}}", i));
                assert!(relay.is_none());
            }
            _ => panic!("expected an event emission"),
        }
    }
    assert!(out.register_live);
    match out.req.expect("a REQ with the original filters is owed") {
        OutboundFrame::Req { sub_id, filters } => {
            assert_eq!(sub_id, "feed");
            assert_eq!(filters.len(), 1);
            assert_eq!(filters[0].kinds.as_ref().unwrap(), &vec![1]);
            assert_eq!(filters[0].limit, Some(50));
        }
        _ => panic!("expected a REQ frame"),
    }
}

#[test]
fn general_query_cache_only_stops_after_emission() {
    let w = obj(vec![entry("kinds", WireValue::Array(vec![WireItem::UInt(7)]))]);
    let plan = handle_subscribe("co".to_string(), &vec![w], &opts(vec!["cache"]));
    let (sub_id, filters, cache_only) = match plan {
        SubscribePlan::Query { sub_id, filters, cache_only } => (sub_id, filters, cache_only),
        _ => panic!("expected a general query plan"),
    };
    assert!(cache_only);
    let results = vec!["{\"a\":1}".to_string()];
    let out = resolve_general(sub_id, filters, cache_only, &results);
    assert_eq!(out.emissions.len(), 1);
    assert!(out.req.is_none());
    assert!(!out.register_live);
}

#[test]
fn query_limit_is_the_documented_bound() {
    assert_eq!(QUERY_LIMIT, 1000);
}
