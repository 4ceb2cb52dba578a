//! Publish dispatch.
//!
//! A publish request carries an event and a destination set.  The engine
//! decides where the event goes: into the local store (which validates,
//! stores and fans out to live store subscriptions) when "subscriptions"
//! is named, and to the relay network when "relay" is named; with no
//! destinations given, the relay network alone is the default.

use vstd::prelude::*;
use crate::strutil::{contains_str, vec_contains_str};
use crate::types::{PublishOpts, NostrResponse, OutboundFrame};

verus! {

/// The destination set of a publish request; the default is the relay
/// network alone.
pub open spec fn spec_destinations(opts: Option<PublishOpts>) -> Seq<Seq<char>> {
    match opts {
        Some(o) => match o.publish_to {
            Some(d) => d.deep_view(),
            None => seq!["relay"@],
        },
        None => seq!["relay"@],
    }
}

/// What one publish request decided.
pub struct PublishPlan {
    /// Hand the event to local store ingestion, which fans it out to
    /// matching live store subscriptions; it is never sent to any relay on
    /// this account.
    pub ingest_local: bool,
    /// The event frame for the relay transport, when the relay network is
    /// a destination.
    pub frame: Option<OutboundFrame>,
    /// The acknowledgement to emit at once when no relay send is pending.
    pub immediate: Option<NostrResponse>,
}

/// The dispatch rule, relating a plan to the request it was made from:
/// the event is ingested locally exactly when "subscriptions" is named; a
/// relay frame goes out exactly when "relay" is named, and the publish is
/// then acknowledged only once the transport accepts the event; otherwise
/// the acknowledgement is immediate.
pub open spec fn publish_plan_ok(
    r: PublishPlan,
    id: String,
    event_json: String,
    opts: Option<PublishOpts>,
) -> bool {
    &&& r.ingest_local == contains_str(spec_destinations(opts), "subscriptions"@)
    &&& (contains_str(spec_destinations(opts), "relay"@) ==> (r.frame matches Some(
        OutboundFrame::Event { json },
    ) && json == event_json) && r.immediate is None)
    &&& (!contains_str(spec_destinations(opts), "relay"@) ==> r.frame is None && (r.immediate
        matches Some(NostrResponse::Published { id: i }) && i == id))
}

/// Decide a publish request's destinations; see [`publish_plan_ok`].
pub fn handle_publish(id: String, event_json: String, opts: &Option<PublishOpts>) -> (r:
    PublishPlan)
    ensures
        publish_plan_ok(r, id, event_json, *opts),
{
    let mut ingest_local: bool;
    let mut to_relay: bool;
    match opts {
        Some(o) => match &o.publish_to {
            Some(d) => {
                ingest_local = vec_contains_str(d, "subscriptions");
                to_relay = vec_contains_str(d, "relay");
            },
            None => {
                ingest_local = default_has(false);
                to_relay = default_has(true);
            },
        },
        None => {
            ingest_local = default_has(false);
            to_relay = default_has(true);
        },
    }
    if to_relay {
        PublishPlan {
            ingest_local,
            frame: Some(OutboundFrame::Event { json: event_json }),
            immediate: None,
        }
    } else {
        PublishPlan {
            ingest_local,
            frame: None,
            immediate: Some(NostrResponse::Published { id }),
        }
    }
}

/// Membership in the default destination set: the relay network alone.
fn default_has(relay: bool) -> (r: bool)
    ensures
        relay ==> r == contains_str(seq!["relay"@], "relay"@),
        !relay ==> r == contains_str(seq!["relay"@], "subscriptions"@),
{
    proof {
        let d: Seq<Seq<char>> = seq!["relay"@];
        assert(d[0] == "relay"@);
        assert(contains_str(d, "relay"@));
        if contains_str(d, "subscriptions"@) {
            let i = choose|i: int| 0 <= i < d.len() && d[i] == "subscriptions"@;
            reveal_strlit("relay");
            reveal_strlit("subscriptions");
            assert(d[i] == "relay"@);
            assert(false);
        }
    }
    relay
}

/// The response owed once the transport has taken (or refused) a publish:
/// an acknowledgement on success, a correlated error otherwise.
pub fn publish_after_send(id: String, sent_ok: bool, error: String) -> (r: NostrResponse)
    ensures
        sent_ok ==> r == (NostrResponse::Published { id }),
        !sent_ok ==> (r matches NostrResponse::Error { id: eid, error: e } && eid == Some(id) && e
            == error),
{
    if sent_ok {
        NostrResponse::Published { id }
    } else {
        NostrResponse::Error { id: Some(id), error }
    }
}

} // verus!
