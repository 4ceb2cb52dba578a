//! Relay protocol routing and pre-parse deduplication.
//!
//! Each inbound frame is a tagged JSON array whose first element names the
//! frame type.  The driver parses the text and hands the router a model of
//! the array: per element, its string content if it is a JSON string, and
//! its raw JSON text.  Before that full parse, a cheap probe extracts the
//! event id straight from the raw bytes so an already-stored event can be
//! dropped without any further work.

use vstd::prelude::*;
use vstd::string::StringSliceAdditionalSpecFns;
use crate::Key;
use crate::hexcode::{is_hex64_bytes, hex_key_bytes, decode_hex_key_bytes};
use crate::strutil::str_eq;
use crate::types::NostrResponse;

verus! {

/// One element of an inbound frame: its content when it is a JSON string,
/// and its raw JSON text either way.
pub struct FrameItem {
    pub as_str: Option<String>,
    pub json: String,
}

/// The string content of an element, as a view.
pub open spec fn item_str(it: FrameItem) -> Option<Seq<char>> {
    match it.as_str {
        Some(s) => Some(s@),
        None => None,
    }
}

/// What to do with one inbound frame.
pub enum RouteDecision {
    /// An EVENT frame: hand the raw frame text to store ingestion; on
    /// acceptance forward the payload under `sub_id`, on rejection drop.
    Ingest { sub_id: Option<String>, payload: String },
    /// A NOTICE frame: log only, never forwarded to the caller.
    Notice,
    /// An EOSE frame: forward end-of-stream for this subscription.
    Eose { sub_id: String },
    /// An EOSE frame dropped by the flood-suppression policy.
    EoseSuppressed,
    /// An OK frame: a publish acknowledgement, logged only.
    Ack,
    /// Anything else: logged at low severity and ignored.
    Ignore,
}

/// The routing rule.  An EVENT frame is ingested whenever it has a payload
/// element, and forwarded only when its subscription id is a string; EOSE
/// forwarding obeys the suppression policy; NOTICE and OK are never
/// forwarded; everything else is ignored.
pub open spec fn route_spec(items: Seq<FrameItem>, suppress_eose: bool) -> RouteDecision {
    if items.len() >= 3 && item_str(items[0]) == Some("EVENT"@) {
        RouteDecision::Ingest { sub_id: items[1].as_str, payload: items[2].json }
    } else if items.len() >= 2 && item_str(items[0]) == Some("NOTICE"@) {
        RouteDecision::Notice
    } else if items.len() >= 2 && item_str(items[0]) == Some("EOSE"@) {
        match items[1].as_str {
            Some(s) => if suppress_eose {
                RouteDecision::EoseSuppressed
            } else {
                RouteDecision::Eose { sub_id: s }
            },
            None => RouteDecision::Ignore,
        }
    } else if items.len() >= 1 && item_str(items[0]) == Some("OK"@) {
        RouteDecision::Ack
    } else {
        RouteDecision::Ignore
    }
}

/// Classify one inbound frame; see [`route_spec`].
pub fn route_frame(items: &Vec<FrameItem>, suppress_eose: bool) -> (r: RouteDecision)
    ensures
        r == route_spec(items@, suppress_eose),
{
    if items.len() == 0 {
        return RouteDecision::Ignore;
    }
    let head = &items[0];
    match &head.as_str {
        None => RouteDecision::Ignore,
        Some(name) => {
            if items.len() >= 3 && str_eq(name.as_str(), "EVENT") {
                let sub_id = match &items[1].as_str {
                    Some(s) => Some(s.clone()),
                    None => None,
                };
                RouteDecision::Ingest { sub_id, payload: items[2].json.clone() }
            } else if items.len() >= 2 && str_eq(name.as_str(), "NOTICE") {
                RouteDecision::Notice
            } else if items.len() >= 2 && str_eq(name.as_str(), "EOSE") {
                match &items[1].as_str {
                    Some(s) => {
                        if suppress_eose {
                            RouteDecision::EoseSuppressed
                        } else {
                            RouteDecision::Eose { sub_id: s.clone() }
                        }
                    },
                    None => RouteDecision::Ignore,
                }
            } else if str_eq(name.as_str(), "OK") {
                RouteDecision::Ack
            } else {
                RouteDecision::Ignore
            }
        },
    }
}

/// What ingestion's verdict lets the caller see: the parsed payload under
/// its subscription id, tagged with the originating relay, exactly when the
/// store accepted the event and the frame named a subscription; a rejected
/// event is dropped silently, never surfaced as a subscription error.
pub open spec fn forwarded(
    sub_id: Option<String>,
    payload: String,
    relay_url: String,
    accepted: bool,
) -> Option<NostrResponse> {
    match sub_id {
        Some(s) => if accepted {
            Some(NostrResponse::Event { sub_id: s, event: payload, relay: Some(relay_url) })
        } else {
            None
        },
        None => None,
    }
}

/// Decide the emission after store ingestion of an EVENT frame.
pub fn after_ingest(sub_id: Option<String>, payload: String, relay_url: String, accepted: bool) -> (
    r: Option<NostrResponse>)
    ensures
        r == forwarded(sub_id, payload, relay_url, accepted),
{
    match sub_id {
        Some(s) => {
            if accepted {
                Some(NostrResponse::Event { sub_id: s, event: payload, relay: Some(relay_url) })
            } else {
                None
            }
        },
        None => None,
    }
}

/// The six bytes of the marker `"id":"` that precedes an inline event id.
pub open spec fn marker_at(b: Seq<u8>, i: int) -> bool {
    &&& b[i] == 34
    &&& b[i + 1] == 105
    &&& b[i + 2] == 100
    &&& b[i + 3] == 34
    &&& b[i + 4] == 58
    &&& b[i + 5] == 34
}

/// Position of the first marker at or after `i`, or -1.
pub open spec fn first_marker_from(b: Seq<u8>, i: int) -> int
    decreases b.len() - i,
{
    if i < 0 || i + 6 > b.len() {
        -1
    } else if marker_at(b, i) {
        i
    } else {
        first_marker_from(b, i + 1)
    }
}

/// The pre-parse probe: on a frame that looks like an EVENT message, the
/// 32-byte id decoded from the 64 hex digits after the first id marker.
pub open spec fn probe_spec(b: Seq<u8>) -> Option<Seq<u8>> {
    if b.len() > 3 && b[2] == 69 && b[3] == 86 {
        let p = first_marker_from(b, 0);
        if p >= 0 && p + 6 + 64 <= b.len() && is_hex64_bytes(b.subrange(p + 6, p + 6 + 64)) {
            Some(hex_key_bytes(b.subrange(p + 6, p + 6 + 64)))
        } else {
            None
        }
    } else {
        None
    }
}

/// Extract an event id straight from the raw UTF-8 text of a frame, before
/// any JSON parsing: a fixed marker search followed by a 64-digit hex
/// decode.
pub fn dedup_probe(text: &[u8]) -> (r: Option<Key>)
    ensures
        r matches Some(k) ==> probe_spec(text@) == Some(k@),
        r is None ==> probe_spec(text@) is None,
{
    let n = text.len();
    if !(n > 3 && text[2] == 69 && text[3] == 86) {
        return None;
    }
    if n < 6 {
        return None;
    }
    let mut i: usize = 0;
    while i <= n - 6
        invariant
            n == text@.len(),
            6 <= n,
            n > 3 && text@[2] == 69 && text@[3] == 86,
            i <= n - 5,
            first_marker_from(text@, 0) == first_marker_from(text@, i as int),
        decreases n - i,
    {
        if text[i] == 34 && text[i + 1] == 105 && text[i + 2] == 100 && text[i + 3] == 34
            && text[i + 4] == 58 && text[i + 5] == 34 {
            proof {
                assert(marker_at(text@, i as int));
                assert(first_marker_from(text@, i as int) == i as int);
            }
            let start = i + 6;
            if n - start >= 64 {
                let digits = &text[start..start + 64];
                proof {
                    assert(digits@ =~= text@.subrange(start as int, start + 64));
                }
                return decode_hex_key_bytes(digits);
            } else {
                return None;
            }
        }
        i = i + 1;
    }
    None
}

/// Whether the pre-parse path drops a frame outright: it does exactly when
/// the probe found an id and the store already holds it.
pub open spec fn drop_on_dup(probe: Option<Seq<u8>>, already_stored: bool) -> bool {
    probe is Some && already_stored
}

/// Decide the pre-parse drop from the probe's result and the store's
/// point-lookup answer.
pub fn dedup_should_drop(probe: &Option<Key>, already_stored: bool) -> (r: bool)
    ensures
        r == (probe is Some && already_stored),
{
    probe.is_some() && already_stored
}

/// The whole inbound path of one frame, composed: the pre-parse drop, then
/// routing, then what ingestion's verdict lets through.  `stored` is the
/// store's answer to the probe's point lookup and `accepted` its ingestion
/// verdict; an end-of-stream frame is the only non-EVENT emission.
pub open spec fn frame_emission(
    raw: Seq<u8>,
    stored: bool,
    items: Seq<FrameItem>,
    suppress_eose: bool,
    relay_url: String,
    accepted: bool,
) -> Option<NostrResponse> {
    if drop_on_dup(probe_spec(raw), stored) {
        None
    } else {
        match route_spec(items, suppress_eose) {
            RouteDecision::Ingest { sub_id, payload } => forwarded(
                sub_id,
                payload,
                relay_url,
                accepted,
            ),
            RouteDecision::Eose { sub_id } => Some(NostrResponse::Eose { sub_id }),
            _ => None,
        }
    }
}

/// Re-ingesting an already-stored event id produces no duplicate emission:
/// a frame whose inline id the store already holds is dropped before any
/// parsing or ingestion, and an EVENT frame that the store rejects (as it
/// rejects duplicates) emits no event to any subscriber.
pub proof fn lemma_no_duplicate_emission(
    raw: Seq<u8>,
    stored: bool,
    items: Seq<FrameItem>,
    suppress_eose: bool,
    relay_url: String,
    accepted: bool,
)
    ensures
        probe_spec(raw) is Some && stored ==> frame_emission(
            raw,
            stored,
            items,
            suppress_eose,
            relay_url,
            accepted,
        ) is None,
        !accepted ==> !(frame_emission(raw, stored, items, suppress_eose, relay_url, accepted)
            matches Some(NostrResponse::Event { sub_id, event, relay })),
{
}

} // verus!
