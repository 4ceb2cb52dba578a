use iris_engine::filter::parse_filter;
use iris_engine::filter::to_refs;
use iris_engine::wire::{WireEntry, WireFilter, WireItem, WireValue};

fn entry(key: &str, value: WireValue) -> WireEntry {
    WireEntry { key: key.to_string(), value }
}

fn str_item(s: &str) -> WireItem {
    WireItem::Str(s.to_string())
}

fn obj(entries: Vec<WireEntry>) -> WireFilter {
    WireFilter::Obj { entries }
}

fn key_a() -> String {
    "aa".repeat(32)
}

fn key_b() -> String {
    "bb".repeat(32)
}

#[test]
fn non_object_yields_no_filter() {
    assert!(parse_filter(&WireFilter::NotObj).is_none());
}

#[test]
fn empty_object_is_still_a_valid_filter() {
    let f = parse_filter(&obj(vec![])).expect("translation is total over objects");
    assert!(f.ids.is_none());
    assert!(f.authors.is_none());
    assert!(f.kinds.is_none());
    assert!(f.events.is_none());
    assert!(f.pubkeys.is_none());
    assert!(f.tags.is_empty());
    assert!(f.since.is_none());
    assert!(f.until.is_none());
    assert!(f.limit.is_none());
}

#[test]
fn translates_every_recognized_field() {
    let w = obj(vec![
        entry("authors", WireValue::Array(vec![str_item(&key_a())])),
        entry("kinds", WireValue::Array(vec![WireItem::UInt(1), WireItem::UInt(30023)])),
        entry("ids", WireValue::Array(vec![str_item(&key_b())])),
        entry("#e", WireValue::Array(vec![str_item(&key_a())])),
        entry("#p", WireValue::Array(vec![str_item(&key_b())])),
        entry("#t", WireValue::Array(vec![str_item("nostr")])),
        entry("since", WireValue::UInt(100)),
        entry("until", WireValue::UInt(200)),
        entry("limit", WireValue::UInt(50)),
    ]);
    let f = parse_filter(&w).unwrap();
    assert_eq!(f.authors.unwrap(), vec![vec![0xaau8; 32]]);
    assert_eq!(f.kinds.unwrap(), vec![1, 30023]);
    assert_eq!(f.ids.unwrap(), vec![vec![0xbbu8; 32]]);
    assert_eq!(f.events.unwrap(), vec![vec![0xaau8; 32]]);
    assert_eq!(f.pubkeys.unwrap(), vec![vec![0xbbu8; 32]]);
    assert_eq!(f.since, Some(100));
    assert_eq!(f.until, Some(200));
    assert_eq!(f.limit, Some(50));
    // only #t is a generic tag; #e and #p feed their own key sets
    assert_eq!(f.tags.len(), 1);
    assert_eq!(f.tags[0].tag, 't');
    assert_eq!(f.tags[0].values, vec!["nostr".to_string()]);
}

#[test]
fn referenced_keys_never_become_generic_tags() {
    let w = obj(vec![
        entry("#e", WireValue::Array(vec![str_item(&key_a())])),
        entry("#p", WireValue::Array(vec![str_item("not hex")])),
        entry("#x", WireValue::Array(vec![str_item("v")])),
    ]);
    let f = parse_filter(&w).unwrap();
    assert_eq!(f.events.unwrap(), vec![vec![0xaau8; 32]]);
    // the malformed #p entry is dropped from the pubkey set and feeds no
    // generic tag either
    assert!(f.pubkeys.is_none());
    assert_eq!(f.tags.len(), 1);
    assert_eq!(f.tags[0].tag, 'x');
}

#[test]
fn invalid_entries_are_skipped_individually() {
    let w = obj(vec![
        entry(
            "authors",
            WireValue::Array(vec![
                str_item("not hex"),
                str_item(&key_a()),
                WireItem::UInt(7),
                str_item("abcd"),
            ]),
        ),
        entry("kinds", WireValue::Array(vec![str_item("1"), WireItem::UInt(4)])),
        entry("since", WireValue::Str("soon".to_string())),
    ]);
    let f = parse_filter(&w).unwrap();
    assert_eq!(f.authors.unwrap(), vec![vec![0xaau8; 32]]);
    assert_eq!(f.kinds.unwrap(), vec![4]);
    assert!(f.since.is_none());
}

#[test]
fn field_with_no_valid_entry_is_omitted_not_fatal() {
    let w = obj(vec![
        entry("ids", WireValue::Array(vec![str_item("zz")])),
        entry("authors", WireValue::UInt(3)),
        entry("limit", WireValue::UInt(10)),
    ]);
    let f = parse_filter(&w).unwrap();
    assert!(f.ids.is_none());
    assert!(f.authors.is_none());
    assert_eq!(f.limit, Some(10));
}

#[test]
fn tag_without_strings_is_dropped() {
    let w = obj(vec![
        entry("#x", WireValue::Array(vec![WireItem::UInt(9)])),
        entry("#toolong", WireValue::Array(vec![str_item("v")])),
        entry("x", WireValue::Array(vec![str_item("v")])),
    ]);
    let f = parse_filter(&w).unwrap();
    assert!(f.tags.is_empty());
}

#[test]
fn id_query_classification() {
    let with_ids = parse_filter(&obj(vec![entry(
        "ids",
        WireValue::Array(vec![str_item(&key_a())]),
    )]))
    .unwrap();
    assert!(with_ids.is_id_query());
    let without = parse_filter(&obj(vec![entry(
        "kinds",
        WireValue::Array(vec![WireItem::UInt(1)]),
    )]))
    .unwrap();
    assert!(!without.is_id_query());
}

#[test]
fn to_refs_borrows_in_order() {
    let v = vec![10u64, 20, 30];
    let r = to_refs(&v);
    assert_eq!(r.len(), 3);
    assert_eq!(*r[0], 10);
    assert_eq!(*r[2], 30);
}
