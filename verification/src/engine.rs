//! The engine's owned state and the command dispatcher.
//!
//! One worker loop owns an [`Engine`] value exclusively: the relay
//! registry, the subscription table and the reconciliation sessions.  Each
//! UI command is dispatched here; commands that need store or transport
//! work come back as a plan for the driver, everything else is decided in
//! place.  A fault discards the whole engine and the supervisor rebuilds
//! it with [`Engine::new`], so no stale bookkeeping survives a restart.

use vstd::prelude::*;
use std::collections::HashMap;
use crate::negentropy::SessionTable;
use crate::publish::{PublishPlan, handle_publish, publish_plan_ok};
use crate::relays::{RelayPool, relay_statuses, statuses_ok, without_url, set_first, RelayStatus,
    reconnect_all, handle_remove_relay, handle_connect_relay, handle_disconnect_relay,
    handle_reconnect_disconnected};
use crate::subs::{SubscriptionTable, without_sub, handle_unsubscribe};
use crate::subscribe::{SubscribePlan, handle_subscribe, subscribe_plan_ok};
use crate::types::{NostrRequest, NostrResponse, UiEvent, OutboundFrame, LocalDataStats};

verus! {

/// All state the worker owns.
pub struct Engine {
    pub pool: RelayPool,
    pub subs: SubscriptionTable,
    pub sessions: SessionTable,
    /// The flood-suppression policy: when set, end-of-stream frames are
    /// not forwarded to the UI.
    pub suppress_eose: bool,
}

impl Engine {
    /// The tables never bind one key twice.
    pub open spec fn wf(&self) -> bool {
        self.subs.wf() && self.sessions.wf()
    }

    /// A freshly initialized engine: no relays, no subscription
    /// bookkeeping, no reconciliation sessions.  The supervisor calls this
    /// after a fault, so nothing of the previous incarnation survives.
    pub fn new(suppress_eose: bool) -> (r: Engine)
        ensures
            r.pool.relays@.len() == 0,
            r.subs.entries@.len() == 0,
            r.sessions.sessions@.len() == 0,
            r.suppress_eose == suppress_eose,
            r.wf(),
    {
        Engine {
            pool: RelayPool { relays: Vec::new() },
            subs: SubscriptionTable::new(),
            sessions: SessionTable::new(),
            suppress_eose,
        }
    }
}

/// What dispatching one command decided.
pub enum DispatchOutcome {
    /// The command is fully handled: emit these events and send these
    /// frames.
    Done { emissions: Vec<UiEvent>, frames: Vec<OutboundFrame> },
    /// A subscribe request, planned; the driver runs the planned store
    /// work and resolves.
    Subscribe { plan: SubscribePlan },
    /// A publish request, decided; the driver performs the ingestion and
    /// the send.
    Publish { plan: PublishPlan },
    /// A relay registration: the driver asks the transport adapter, then
    /// records the answer with `handle_add_relay`.
    AddRelay { url: String },
    /// The clean shutdown path: exit without restart.
    Exit,
}

/// Dispatch one UI command against the engine's state.
///
/// Every mutating command answers asynchronously through emitted events;
/// relay bookkeeping commands take effect at once, and the subscribe and
/// publish paths hand a plan back to the driver.
pub fn dispatch(e: &mut Engine, cmd: NostrRequest) -> (r: DispatchOutcome)
    ensures
        old(e).wf() ==> final(e).wf(),
        final(e).suppress_eose == old(e).suppress_eose,
        (cmd matches NostrRequest::Init ==> *final(e) == *old(e) && (r matches
        DispatchOutcome::Done { emissions, frames } && emissions@ =~= seq![
            UiEvent::Response(NostrResponse::Ready),
        ] && frames@.len() == 0)),
        (cmd matches NostrRequest::Subscribe { id, filters, subscribe_opts } ==> *final(e) == *old(e)
            && (if (forall|j: int| 0 <= j < filters@.len() ==> !(filters@[j] is Obj)) {
            r matches DispatchOutcome::Done { emissions, frames } && frames@.len() == 0
                && emissions@.len() == 1 && (emissions@[0] matches UiEvent::Response(
                NostrResponse::Error { id: eid, error },
            ) && (eid matches Some(s) && s@ == id@) && error@ == "no valid filters"@)
        } else {
            r matches DispatchOutcome::Subscribe { plan } && subscribe_plan_ok(
                plan,
                id@,
                filters@,
                subscribe_opts,
            )
        })),
        (cmd matches NostrRequest::Unsubscribe { id } ==> final(e).subs.entries@ == without_sub(
            old(e).subs.entries@,
            id@,
        ) && final(e).pool == old(e).pool && final(e).sessions == old(e).sessions && (r matches
        DispatchOutcome::Done { emissions, frames } && emissions@.len() == 0 && frames@ =~= seq![
            (OutboundFrame::CloseSub { sub_id: id }),
        ])),
        (cmd matches NostrRequest::Publish { id, event, publish_opts } ==> *final(e) == *old(e) && (
        r matches DispatchOutcome::Publish { plan } && publish_plan_ok(
            plan,
            id,
            event,
            publish_opts,
        ))),
        (cmd matches NostrRequest::GetRelayStatus { id } ==> *final(e) == *old(e) && (r matches
        DispatchOutcome::Done { emissions, frames } && frames@.len() == 0 && emissions@.len() == 1
            && (emissions@[0] matches UiEvent::Response(NostrResponse::RelayStatus {
            id: rid,
            relay_statuses: infos,
        }) && rid == id && statuses_ok(infos@, old(e).pool.relays@)))),
        (cmd matches NostrRequest::AddRelay { url } ==> *final(e) == *old(e) && r == (
        DispatchOutcome::AddRelay { url })),
        (cmd matches NostrRequest::RemoveRelay { url } ==> final(e).pool.relays@ == without_url(
            old(e).pool.relays@,
            url@,
        ) && final(e).subs == old(e).subs && final(e).sessions == old(e).sessions && (r matches
        DispatchOutcome::Done { emissions, frames } && emissions@.len() == 0 && frames@.len()
            == 0)),
        (cmd matches NostrRequest::ConnectRelay { url } ==> final(e).pool.relays@ == set_first(
            old(e).pool.relays@,
            url@,
            RelayStatus::Connecting,
        ) && final(e).subs == old(e).subs && final(e).sessions == old(e).sessions && (r matches
        DispatchOutcome::Done { emissions, frames } && emissions@.len() == 0 && frames@.len()
            == 0)),
        (cmd matches NostrRequest::DisconnectRelay { url } ==> final(e).pool.relays@ == set_first(
            old(e).pool.relays@,
            url@,
            RelayStatus::Disconnected,
        ) && final(e).subs == old(e).subs && final(e).sessions == old(e).sessions && (r matches
        DispatchOutcome::Done { emissions, frames } && emissions@.len() == 0 && frames@.len()
            == 0)),
        (cmd matches NostrRequest::ReconnectDisconnected { reason } ==> final(e).pool.relays@
            == reconnect_all(old(e).pool.relays@) && final(e).subs == old(e).subs
            && final(e).sessions == old(e).sessions && (r matches DispatchOutcome::Done {
            emissions,
            frames,
        } && emissions@.len() == 0 && frames@.len() == 0)),
        (cmd matches NostrRequest::GetStats { id } ==> *final(e) == *old(e) && (r matches
        DispatchOutcome::Done { emissions, frames } && frames@.len() == 0 && emissions@.len() == 1
            && (emissions@[0] matches UiEvent::Response(NostrResponse::Stats {
            id: rid,
            stats,
        }) && rid == id && stats.total_events == 0 && stats.events_by_kind@ == Map::<u32, usize>::empty()))),
        (cmd matches NostrRequest::Close ==> *final(e) == *old(e) && r is Exit),
{
    match cmd {
        NostrRequest::Init => {
            let mut emissions: Vec<UiEvent> = Vec::new();
            emissions.push(UiEvent::Response(NostrResponse::Ready));
            proof {
                assert(emissions@ =~= seq![UiEvent::Response(NostrResponse::Ready)]);
            }
            DispatchOutcome::Done { emissions, frames: Vec::new() }
        },
        NostrRequest::Subscribe { id, filters, subscribe_opts } => {
            let err_id = id.clone();
            let plan = handle_subscribe(id, &filters, &subscribe_opts);
            match plan {
                SubscribePlan::Rejected => {
                    let mut emissions: Vec<UiEvent> = Vec::new();
                    emissions.push(
                        UiEvent::Response(
                            NostrResponse::Error {
                                id: Some(err_id),
                                error: "no valid filters".to_owned(),
                            },
                        ),
                    );
                    DispatchOutcome::Done { emissions, frames: Vec::new() }
                },
                kept => DispatchOutcome::Subscribe { plan: kept },
            }
        },
        NostrRequest::Unsubscribe { id } => {
            let frame = handle_unsubscribe(&mut e.subs, id);
            let mut frames: Vec<OutboundFrame> = Vec::new();
            let ghost gframe = frame;
            frames.push(frame);
            proof {
                assert(frames@ =~= seq![gframe]);
            }
            DispatchOutcome::Done { emissions: Vec::new(), frames }
        },
        NostrRequest::Publish { id, event, publish_opts } => {
            let plan = handle_publish(id, event, &publish_opts);
            DispatchOutcome::Publish { plan }
        },
        NostrRequest::GetRelayStatus { id } => {
            let infos = relay_statuses(&e.pool);
            let mut emissions: Vec<UiEvent> = Vec::new();
            emissions.push(
                UiEvent::Response(NostrResponse::RelayStatus { id, relay_statuses: infos }),
            );
            DispatchOutcome::Done { emissions, frames: Vec::new() }
        },
        NostrRequest::AddRelay { url } => DispatchOutcome::AddRelay { url },
        NostrRequest::RemoveRelay { url } => {
            handle_remove_relay(&mut e.pool, url);
            DispatchOutcome::Done { emissions: Vec::new(), frames: Vec::new() }
        },
        NostrRequest::ConnectRelay { url } => {
            handle_connect_relay(&mut e.pool, url);
            DispatchOutcome::Done { emissions: Vec::new(), frames: Vec::new() }
        },
        NostrRequest::DisconnectRelay { url } => {
            handle_disconnect_relay(&mut e.pool, url);
            DispatchOutcome::Done { emissions: Vec::new(), frames: Vec::new() }
        },
        NostrRequest::ReconnectDisconnected { reason: _ } => {
            handle_reconnect_disconnected(&mut e.pool);
            DispatchOutcome::Done { emissions: Vec::new(), frames: Vec::new() }
        },
        NostrRequest::GetStats { id } => {
            let stats = LocalDataStats { total_events: 0, events_by_kind: HashMap::new() };
            let mut emissions: Vec<UiEvent> = Vec::new();
            emissions.push(UiEvent::Response(NostrResponse::Stats { id, stats }));
            DispatchOutcome::Done { emissions, frames: Vec::new() }
        },
        NostrRequest::Close => DispatchOutcome::Exit,
    }
}

} // verus!
