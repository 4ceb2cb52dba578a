//! Negentropy reconciliation: the set-reconciliation side channel.
//!
//! Reconciliation callbacks arrive from the transport separately from the
//! plain frame path.  Each session is keyed by relay URL and subscription
//! id, is created on the first need-local or need-remote event, progresses
//! through its states, and is discarded on completion or error.  The
//! engine's decisions keep network use minimal: events the remote needs
//! are read from the local store bounded, and events the remote holds are
//! fetched by a request scoped to exactly their ids.

use vstd::prelude::*;
use vstd::string::StringExecFns;
use crate::Key;
use crate::filter::Filter;
use crate::hexcode::{is_hex64, hex_key, decode_hex_key};
use crate::strutil::str_eq;
use crate::subscribe::{QUERY_LIMIT, ids_only_filter};
use crate::types::OutboundFrame;

verus! {

/// Progress of one reconciliation session.
#[derive(Clone, Copy, PartialEq, Eq, Structural)]
pub enum SessionState {
    NeedLocal,
    NeedRemote,
    HaveLocal,
}

/// One transient reconciliation session.
pub struct ReconSession {
    pub relay_url: String,
    pub sub_id: String,
    pub state: SessionState,
}

/// A reconciliation callback from the transport.
pub enum NegentropyEvent {
    /// The exchange needs local events matching `filter`.
    NeedLocalEvents { relay_url: String, sub_id: String, filter: Filter },
    /// The remote holds events absent locally, named by 64-hex-digit ids.
    NeedEvents { relay_url: String, sub_id: String, event_ids: Vec<String> },
    /// Local holds events the remote lacks; informational only, no
    /// automatic upload.
    HaveEvents { relay_url: String, sub_id: String, event_ids: Vec<String> },
    /// Terminal: the exchange finished.
    SyncComplete { relay_url: String, sub_id: String },
    /// Terminal: the exchange failed.
    Error { relay_url: String, sub_id: String, error: String },
}

/// What the reconciler asks the driver to do.
pub enum NegAction {
    /// Run one bounded store query and hand the results back into the
    /// ongoing exchange on this relay.
    ProvideLocal { relay_url: String, sub_id: String, filter: Filter, limit: u64 },
    /// Fetch the named events with a request scoped to exactly their ids.
    FetchRemote { frame: OutboundFrame },
    /// Nothing to do beyond logging.
    Nothing,
}

/// Whether some session carries this key.
pub open spec fn has_session(ss: Seq<ReconSession>, relay: Seq<char>, sub: Seq<char>) -> bool {
    exists|i: int| 0 <= i < ss.len() && ss[i].relay_url@ == relay && ss[i].sub_id@ == sub
}

/// The sessions without every session carrying this key.
pub open spec fn without_session(ss: Seq<ReconSession>, relay: Seq<char>, sub: Seq<char>) -> Seq<
    ReconSession,
>
    decreases ss.len(),
{
    if ss.len() == 0 {
        Seq::empty()
    } else {
        let rest = without_session(ss.drop_last(), relay, sub);
        if ss.last().relay_url@ == relay && ss.last().sub_id@ == sub {
            rest
        } else {
            rest.push(ss.last())
        }
    }
}

/// Well-formed sessions: no key occurs twice.
pub open spec fn wf_sessions(ss: Seq<ReconSession>) -> bool
    decreases ss.len(),
{
    if ss.len() == 0 {
        true
    } else {
        wf_sessions(ss.drop_last()) && !has_session(
            ss.drop_last(),
            ss.last().relay_url@,
            ss.last().sub_id@,
        )
    }
}

/// Eviction removes exactly the sessions with the given key and keeps the
/// table well formed.
pub proof fn lemma_without_session(ss: Seq<ReconSession>, relay: Seq<char>, sub: Seq<char>)
    ensures
        forall|j: int|
            0 <= j < without_session(ss, relay, sub).len() ==> !(without_session(
                ss,
                relay,
                sub,
            )[j].relay_url@ == relay && without_session(ss, relay, sub)[j].sub_id@ == sub),
        forall|r: Seq<char>, s: Seq<char>|
            #[trigger] has_session(without_session(ss, relay, sub), r, s) ==> has_session(
                ss,
                r,
                s,
            ),
        wf_sessions(ss) ==> wf_sessions(without_session(ss, relay, sub)),
    decreases ss.len(),
{
    if ss.len() > 0 {
        let head = ss.drop_last();
        let e = ss.last();
        lemma_without_session(head, relay, sub);
        let w = without_session(ss, relay, sub);
        assert forall|r: Seq<char>, s: Seq<char>| #[trigger] has_session(w, r, s) implies
        has_session(ss, r, s) by {
            let i = choose|i: int| 0 <= i < w.len() && w[i].relay_url@ == r && w[i].sub_id@ == s;
            let dropped = e.relay_url@ == relay && e.sub_id@ == sub;
            if !dropped && i == w.len() - 1 {
                assert(ss[ss.len() - 1].relay_url@ == r && ss[ss.len() - 1].sub_id@ == s);
            } else {
                if !dropped {
                    assert(w == without_session(head, relay, sub).push(e));
                    assert(w[i] == without_session(head, relay, sub)[i]);
                }
                assert(has_session(without_session(head, relay, sub), r, s));
                let k = choose|k: int|
                    0 <= k < head.len() && head[k].relay_url@ == r && head[k].sub_id@ == s;
                assert(ss[k].relay_url@ == r && ss[k].sub_id@ == s);
            }
        }
        if wf_sessions(ss) {
            if !(e.relay_url@ == relay && e.sub_id@ == sub) {
                if has_session(without_session(head, relay, sub), e.relay_url@, e.sub_id@) {
                    assert(has_session(head, e.relay_url@, e.sub_id@));
                }
                assert(without_session(ss, relay, sub).drop_last() =~= without_session(
                    head,
                    relay,
                    sub,
                ));
            }
        }
    }
}

/// The table of live reconciliation sessions.
pub struct SessionTable {
    pub sessions: Vec<ReconSession>,
}

impl SessionTable {
    /// No key occurs twice.
    pub open spec fn wf(&self) -> bool {
        wf_sessions(self.sessions@)
    }

    /// An empty table.
    pub fn new() -> (r: Self)
        ensures
            r.sessions@ == Seq::<ReconSession>::empty(),
            r.wf(),
    {
        SessionTable { sessions: Vec::new() }
    }

    /// Evict every session with this key.
    fn evict(&mut self, relay_url: &str, sub_id: &str)
        ensures
            final(self).sessions@ == without_session(old(self).sessions@, relay_url@, sub_id@),
    {
        let n = self.sessions.len();
        let mut kept: Vec<ReconSession> = Vec::new();
        let mut i: usize = 0;
        proof {
            assert(self.sessions@.subrange(0, 0) =~= Seq::<ReconSession>::empty());
        }
        while i < n
            invariant
                n == self.sessions@.len(),
                i <= n,
                kept@ == without_session(
                    self.sessions@.subrange(0, i as int),
                    relay_url@,
                    sub_id@,
                ),
            decreases n - i,
        {
            let e = &self.sessions[i];
            if !(str_eq(e.relay_url.as_str(), relay_url) && str_eq(e.sub_id.as_str(), sub_id)) {
                let copied = ReconSession {
                    relay_url: e.relay_url.clone(),
                    sub_id: e.sub_id.clone(),
                    state: e.state,
                };
                assert(copied == self.sessions@[i as int]);
                kept.push(copied);
            }
            proof {
                assert(self.sessions@.subrange(0, i + 1).drop_last() =~= self.sessions@.subrange(
                    0,
                    i as int,
                ));
                assert(self.sessions@.subrange(0, i + 1).last() == self.sessions@[i as int]);
            }
            i = i + 1;
        }
        proof {
            assert(self.sessions@.subrange(0, n as int) =~= self.sessions@);
        }
        self.sessions = kept;
    }

    /// Record this key in the given state, replacing any earlier session
    /// of the same key.
    fn upsert(&mut self, relay_url: &String, sub_id: &String, state: SessionState)
        ensures
            final(self).sessions@ == without_session(old(self).sessions@, relay_url@, sub_id@).push(
                (ReconSession { relay_url: *relay_url, sub_id: *sub_id, state }),
            ),
            old(self).wf() ==> final(self).wf(),
    {
        proof {
            lemma_without_session(self.sessions@, relay_url@, sub_id@);
        }
        self.evict(relay_url.as_str(), sub_id.as_str());
        let ghost evicted = self.sessions@;
        self.sessions.push(
            ReconSession { relay_url: relay_url.clone(), sub_id: sub_id.clone(), state },
        );
        proof {
            let cur = self.sessions@;
            assert(cur.drop_last() =~= evicted);
            if old(self).wf() {
                if has_session(evicted, cur.last().relay_url@, cur.last().sub_id@) {
                    let k = choose|k: int|
                        0 <= k < evicted.len() && evicted[k].relay_url@ == cur.last().relay_url@
                            && evicted[k].sub_id@ == cur.last().sub_id@;
                    assert(false);
                }
            }
        }
    }

    /// Whether a session with this key is live.
    fn has(&self, relay_url: &str, sub_id: &str) -> (r: bool)
        ensures
            r == has_session(self.sessions@, relay_url@, sub_id@),
    {
        let n = self.sessions.len();
        let mut i: usize = 0;
        while i < n
            invariant
                n == self.sessions@.len(),
                i <= n,
                forall|j: int|
                    0 <= j < i ==> !(self.sessions@[j].relay_url@ == relay_url@
                        && self.sessions@[j].sub_id@ == sub_id@),
            decreases n - i,
        {
            let e = &self.sessions[i];
            if str_eq(e.relay_url.as_str(), relay_url) && str_eq(e.sub_id.as_str(), sub_id) {
                return true;
            }
            i = i + 1;
        }
        false
    }
}

/// The keys decoded from the valid 64-hex-digit strings among `ids`, in
/// order; malformed entries are dropped individually.
pub open spec fn valid_keys_of(ids: Seq<Seq<char>>) -> Seq<Seq<u8>>
    decreases ids.len(),
{
    if ids.len() == 0 {
        Seq::empty()
    } else {
        let rest = valid_keys_of(ids.drop_last());
        if is_hex64(ids.last()) {
            rest.push(hex_key(ids.last()))
        } else {
            rest
        }
    }
}

/// Decode the valid hex ids of a list.
fn collect_valid_keys(ids: &Vec<String>) -> (r: Vec<Key>)
    ensures
        r.deep_view() == valid_keys_of(ids.deep_view()),
{
    let n = ids.len();
    let mut out: Vec<Key> = Vec::new();
    let mut i: usize = 0;
    proof {
        assert(ids.deep_view().subrange(0, 0) =~= Seq::<Seq<char>>::empty());
        assert(ids.deep_view().len() == ids@.len());
    }
    while i < n
        invariant
            n == ids@.len(),
            ids.deep_view().len() == n,
            i <= n,
            forall|j: int| 0 <= j < n ==> ids.deep_view()[j] == ids@[j]@,
            out.deep_view() == valid_keys_of(ids.deep_view().subrange(0, i as int)),
        decreases n - i,
    {
        let ghost pre = out.deep_view();
        match decode_hex_key(ids[i].as_str()) {
            Some(k) => {
                let ghost kv = k@;
                proof {
                    assert(k.deep_view() =~= kv);
                }
                out.push(k);
                proof {
                    assert(out.deep_view() =~= pre.push(kv));
                }
            },
            None => {},
        }
        proof {
            assert(ids.deep_view().subrange(0, i + 1).drop_last() =~= ids.deep_view().subrange(
                0,
                i as int,
            ));
            assert(ids.deep_view().subrange(0, i + 1).last() == ids.deep_view()[i as int]);
        }
        i = i + 1;
    }
    proof {
        assert(ids.deep_view().subrange(0, n as int) =~= ids.deep_view());
    }
    out
}

/// Drive one reconciliation callback.
///
/// Need-local opens or refreshes the session and asks for one bounded
/// store query; need-remote opens or refreshes the session and, when any
/// of the named ids is valid, fetches with a request scoped to exactly the
/// valid ids under a derived subscription id; have-local is informational;
/// completion and error discard the session.
pub fn handle_negentropy(sessions: &mut SessionTable, ev: NegentropyEvent) -> (r: NegAction)
    ensures
        old(sessions).wf() ==> final(sessions).wf(),
        (ev matches NegentropyEvent::NeedLocalEvents { relay_url, sub_id, filter }
            ==> final(sessions).sessions@
                == without_session(old(sessions).sessions@, relay_url@, sub_id@).push(
                    (ReconSession { relay_url, sub_id, state: SessionState::NeedLocal }),
                )
            && r == (NegAction::ProvideLocal { relay_url, sub_id, filter, limit: QUERY_LIMIT })),
        (ev matches NegentropyEvent::NeedEvents { relay_url, sub_id, event_ids }
            ==> final(sessions).sessions@
                == without_session(old(sessions).sessions@, relay_url@, sub_id@).push(
                    (ReconSession { relay_url, sub_id, state: SessionState::NeedRemote }),
                )
            && ({
            let ks = valid_keys_of(event_ids.deep_view());
            if ks.len() > 0 {
                r matches NegAction::FetchRemote { frame } && (frame matches OutboundFrame::Req {
                    sub_id: fid,
                    filters,
                } && fid@ == sub_id@ + "-fetch"@ && filters@.len() == 1 && ids_only_filter(
                    filters@[0],
                    ks,
                ))
            } else {
                r is Nothing
            }
        })),
        (ev matches NegentropyEvent::HaveEvents { relay_url, sub_id, event_ids } ==> r is Nothing
            && (if has_session(old(sessions).sessions@, relay_url@, sub_id@) {
            final(sessions).sessions@
                == without_session(old(sessions).sessions@, relay_url@, sub_id@).push(
                (ReconSession { relay_url, sub_id, state: SessionState::HaveLocal }),
            )
        } else {
            final(sessions).sessions@ == old(sessions).sessions@
        })),
        (ev matches NegentropyEvent::SyncComplete { relay_url, sub_id } ==> r is Nothing
            && final(sessions).sessions@
                == without_session(old(sessions).sessions@, relay_url@, sub_id@)),
        (ev matches NegentropyEvent::Error { relay_url, sub_id, error } ==> r is Nothing
            && final(sessions).sessions@
                == without_session(old(sessions).sessions@, relay_url@, sub_id@)),
{
    match ev {
        NegentropyEvent::NeedLocalEvents { relay_url, sub_id, filter } => {
            sessions.upsert(&relay_url, &sub_id, SessionState::NeedLocal);
            NegAction::ProvideLocal { relay_url, sub_id, filter, limit: QUERY_LIMIT }
        },
        NegentropyEvent::NeedEvents { relay_url, sub_id, event_ids } => {
            sessions.upsert(&relay_url, &sub_id, SessionState::NeedRemote);
            let ids = collect_valid_keys(&event_ids);
            if ids.len() > 0 {
                let fetch_filter = Filter {
                    ids: Some(ids),
                    authors: None,
                    kinds: None,
                    events: None,
                    pubkeys: None,
                    tags: Vec::new(),
                    since: None,
                    until: None,
                    limit: None,
                };
                let mut fs: Vec<Filter> = Vec::new();
                fs.push(fetch_filter);
                let fetch_id = sub_id.concat("-fetch");
                NegAction::FetchRemote {
                    frame: OutboundFrame::Req { sub_id: fetch_id, filters: fs },
                }
            } else {
                NegAction::Nothing
            }
        },
        NegentropyEvent::HaveEvents { relay_url, sub_id, event_ids: _ } => {
            if sessions.has(relay_url.as_str(), sub_id.as_str()) {
                sessions.upsert(&relay_url, &sub_id, SessionState::HaveLocal);
            }
            NegAction::Nothing
        },
        NegentropyEvent::SyncComplete { relay_url, sub_id } => {
            proof {
                lemma_without_session(sessions.sessions@, relay_url@, sub_id@);
            }
            sessions.evict(relay_url.as_str(), sub_id.as_str());
            NegAction::Nothing
        },
        NegentropyEvent::Error { relay_url, sub_id, error: _ } => {
            proof {
                lemma_without_session(sessions.sessions@, relay_url@, sub_id@);
            }
            sessions.evict(relay_url.as_str(), sub_id.as_str());
            NegAction::Nothing
        },
    }
}

} // verus!
