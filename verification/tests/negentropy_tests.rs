use iris_engine::filter::Filter;
use iris_engine::negentropy::{
    handle_negentropy, NegAction, NegentropyEvent, SessionState, SessionTable,
};
use iris_engine::subscribe::QUERY_LIMIT;
use iris_engine::types::OutboundFrame;

fn empty_filter() -> Filter {
    Filter {
        ids: None,
        authors: None,
        kinds: None,
        events: None,
        pubkeys: None,
        tags: Vec::new(),
        since: None,
        until: None,
        limit: None,
    }
}

#[test]
fn need_local_opens_session_and_asks_for_bounded_query() {
    let mut sessions = SessionTable::new();
    let action = handle_negentropy(
        &mut sessions,
        NegentropyEvent::NeedLocalEvents {
            relay_url: "wss://r".to_string(),
            sub_id: "s".to_string(),
            filter: empty_filter(),
        },
    );
    match action {
        NegAction::ProvideLocal { relay_url, sub_id, limit, .. } => {
            assert_eq!(relay_url, "wss://r");
            assert_eq!(sub_id, "s");
            assert_eq!(limit, QUERY_LIMIT);
        }
        _ => panic!("expected a provide-local action"),
    }
    assert_eq!(sessions.sessions.len(), 1);
    assert!(matches!(sessions.sessions[0].state, SessionState::NeedLocal));
}

#[test]
fn need_remote_fetches_exactly_the_valid_ids() {
    let mut sessions = SessionTable::new();
    let good = "ee".repeat(32);
    let action = handle_negentropy(
        &mut sessions,
        NegentropyEvent::NeedEvents {
            relay_url: "wss://r".to_string(),
            sub_id: "s".to_string(),
            event_ids: vec![good, "not hex".to_string()],
        },
    );
    match action {
        NegAction::FetchRemote { frame: OutboundFrame::Req { sub_id, filters } } => {
            assert_eq!(sub_id, "s-fetch");
            assert_eq!(filters.len(), 1);
            assert_eq!(filters[0].ids.as_ref().unwrap(), &vec![vec![0xeeu8; 32]]);
            assert!(filters[0].kinds.is_none());
        }
        _ => panic!("expected a fetch request"),
    }
    assert!(matches!(sessions.sessions[0].state, SessionState::NeedRemote));
}

#[test]
fn need_remote_with_no_valid_id_fetches_nothing() {
    let mut sessions = SessionTable::new();
    let action = handle_negentropy(
        &mut sessions,
        NegentropyEvent::NeedEvents {
            relay_url: "wss://r".to_string(),
            sub_id: "s".to_string(),
            event_ids: vec!["zz".to_string()],
        },
    );
    assert!(matches!(action, NegAction::Nothing));
}

#[test]
fn have_events_is_informational() {
    let mut sessions = SessionTable::new();
    // without a session: nothing is created
    let action = handle_negentropy(
        &mut sessions,
        NegentropyEvent::HaveEvents {
            relay_url: "wss://r".to_string(),
            sub_id: "s".to_string(),
            event_ids: vec![],
        },
    );
    assert!(matches!(action, NegAction::Nothing));
    assert!(sessions.sessions.is_empty());
    // with one: the state advances
    handle_negentropy(
        &mut sessions,
        NegentropyEvent::NeedLocalEvents {
            relay_url: "wss://r".to_string(),
            sub_id: "s".to_string(),
            filter: empty_filter(),
        },
    );
    handle_negentropy(
        &mut sessions,
        NegentropyEvent::HaveEvents {
            relay_url: "wss://r".to_string(),
            sub_id: "s".to_string(),
            event_ids: vec![],
        },
    );
    assert_eq!(sessions.sessions.len(), 1);
    assert!(matches!(sessions.sessions[0].state, SessionState::HaveLocal));
}

#[test]
fn terminal_events_discard_the_session() {
    let mut sessions = SessionTable::new();
    handle_negentropy(
        &mut sessions,
        NegentropyEvent::NeedLocalEvents {
            relay_url: "wss://r".to_string(),
            sub_id: "s1".to_string(),
            filter: empty_filter(),
        },
    );
    handle_negentropy(
        &mut sessions,
        NegentropyEvent::NeedLocalEvents {
            relay_url: "wss://r".to_string(),
            sub_id: "s2".to_string(),
            filter: empty_filter(),
        },
    );
    assert_eq!(sessions.sessions.len(), 2);
    let done = handle_negentropy(
        &mut sessions,
        NegentropyEvent::SyncComplete { relay_url: "wss://r".to_string(), sub_id: "s1".to_string() },
    );
    assert!(matches!(done, NegAction::Nothing));
    assert_eq!(sessions.sessions.len(), 1);
    assert_eq!(sessions.sessions[0].sub_id, "s2");
    let failed = handle_negentropy(
        &mut sessions,
        NegentropyEvent::Error {
            relay_url: "wss://r".to_string(),
            sub_id: "s2".to_string(),
            error: "proto".to_string(),
        },
    );
    assert!(matches!(failed, NegAction::Nothing));
    assert!(sessions.sessions.is_empty());
}

#[test]
fn sessions_are_keyed_by_relay_and_sub() {
    let mut sessions = SessionTable::new();
    handle_negentropy(
        &mut sessions,
        NegentropyEvent::NeedLocalEvents {
            relay_url: "wss://a".to_string(),
            sub_id: "s".to_string(),
            filter: empty_filter(),
        },
    );
    handle_negentropy(
        &mut sessions,
        NegentropyEvent::NeedLocalEvents {
            relay_url: "wss://b".to_string(),
            sub_id: "s".to_string(),
            filter: empty_filter(),
        },
    );
    // same key again replaces, it does not duplicate
    handle_negentropy(
        &mut sessions,
        NegentropyEvent::NeedEvents {
            relay_url: "wss://a".to_string(),
            sub_id: "s".to_string(),
            event_ids: vec![],
        },
    );
    assert_eq!(sessions.sessions.len(), 2);
}
