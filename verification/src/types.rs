//! Command, response and frame types of the engine's external protocol.
//!
//! Commands come in from the UI, responses and pool notices go out to it,
//! and outbound frames go to the relay transport.  Event payloads are
//! carried as their raw JSON text; the engine never looks inside them.

use vstd::prelude::*;
use std::collections::HashMap;
use crate::filter::Filter;
use crate::wire::WireFilter;

verus! {

/// Options of a subscribe command.
pub struct SubscribeOpts {
    pub destinations: Option<Vec<String>>,
    pub close_on_eose: Option<bool>,
    pub groupable: Option<bool>,
}

/// Options of a publish command.
pub struct PublishOpts {
    pub publish_to: Option<Vec<String>>,
    pub verify_signature: Option<bool>,
    pub source: Option<String>,
}

/// One relay's externally reported status: its URL and a stable status code.
pub struct RelayStatusInfo {
    pub url: String,
    pub status: u8,
}

/// Local store statistics; the count interface of the store is not wired
/// up, so every query reports zeroes.
pub struct LocalDataStats {
    pub total_events: usize,
    pub events_by_kind: HashMap<u32, usize>,
}

/// A command from the UI.
pub enum NostrRequest {
    Init,
    Subscribe { id: String, filters: Vec<WireFilter>, subscribe_opts: Option<SubscribeOpts> },
    Unsubscribe { id: String },
    Publish { id: String, event: String, publish_opts: Option<PublishOpts> },
    GetRelayStatus { id: String },
    AddRelay { url: String },
    RemoveRelay { url: String },
    ConnectRelay { url: String },
    DisconnectRelay { url: String },
    ReconnectDisconnected { reason: Option<String> },
    GetStats { id: String },
    Close,
}

/// A response event to the UI.  `Event.relay` is `None` for an event served
/// from the local cache and names the originating relay otherwise.
pub enum NostrResponse {
    Ready,
    Event { sub_id: String, event: String, relay: Option<String> },
    Eose { sub_id: String },
    Published { id: String },
    Error { id: Option<String>, error: String },
    RelayStatus { id: String, relay_statuses: Vec<RelayStatusInfo> },
    Stats { id: String, stats: LocalDataStats },
}

/// A relay pool notification to the UI.
pub enum PoolNotice {
    RelayAdded { url: String },
    RelayConnected { url: String },
    RelayDisconnected { url: String },
}

/// Anything the engine emits towards the UI.
pub enum UiEvent {
    Response(NostrResponse),
    Notice(PoolNotice),
}

/// A frame for the relay transport to send.
pub enum OutboundFrame {
    Req { sub_id: String, filters: Vec<Filter> },
    CloseSub { sub_id: String },
    Event { json: String },
}

} // verus!
