//! Subscription resolution: the cache/relay split.
//!
//! A subscribe request is first planned: its wire filters are translated
//! and the first usable filter classifies the request as an id query or a
//! general query.  The driver then runs the planned store work and hands
//! the store's answers back; the resolution functions decide what to emit,
//! whether a live store subscription is owed, and the minimal REQ frame to
//! send, if any.

use vstd::prelude::*;
use crate::Key;
use crate::filter::{Filter, parse_filter, key_field, uint_field, num_field, tag_queries_of,
    tags_view, obj_entries};
use crate::strutil::{contains_str, vec_contains_str, copy_bytes};
use crate::types::{SubscribeOpts, NostrResponse, OutboundFrame};
use crate::wire::{WireEntry, WireFilter};

verus! {

/// Hard cap on results of one bounded cache query.
pub const QUERY_LIMIT: u64 = 1000;

/// Cache-only mode: the caller listed destinations that include the cache
/// and exclude the relay network.
pub open spec fn spec_cache_only(opts: Option<SubscribeOpts>) -> bool {
    match opts {
        Some(o) => match o.destinations {
            Some(d) => contains_str(d.deep_view(), "cache"@) && !contains_str(
                d.deep_view(),
                "relay"@,
            ),
            None => false,
        },
        None => false,
    }
}

/// Index `k` holds the first wire filter that is an object.
pub open spec fn is_first_obj(filters: Seq<WireFilter>, k: int) -> bool {
    &&& 0 <= k < filters.len()
    &&& filters[k] is Obj
    &&& forall|j: int| 0 <= j < k ==> !(filters[j] is Obj)
}

/// `parsed` holds exactly one translation per wire filter that is an
/// object, in order.
pub open spec fn plans_translate(parsed: Seq<Filter>, wire: Seq<WireFilter>) -> bool
    decreases wire.len(),
{
    if wire.len() == 0 {
        parsed.len() == 0
    } else if wire.last() is Obj {
        &&& parsed.len() > 0
        &&& parsed.last().translates(obj_entries(wire.last()))
        &&& plans_translate(parsed.drop_last(), wire.drop_last())
    } else {
        plans_translate(parsed, wire.drop_last())
    }
}

/// The plan for one subscribe request.
pub enum SubscribePlan {
    /// Every supplied filter failed to translate; the request is rejected
    /// with a correlated error and no store or network work is performed.
    Rejected,
    /// The first filter is an id query: the driver looks each id up in the
    /// store and resolves with [`resolve_id_lookup`].
    IdLookup { sub_id: String, ids: Vec<Key>, cache_only: bool },
    /// A general query: the driver runs one bounded cache query over all
    /// translated filters and resolves with [`resolve_general`].
    Query { sub_id: String, filters: Vec<Filter>, cache_only: bool },
}

/// An object whose every constraint reduces to an id set: it translates to
/// ids and to nothing else.
pub open spec fn id_only_entries(entries: Seq<WireEntry>) -> bool {
    &&& key_field(entries, "ids"@) is Some
    &&& key_field(entries, "authors"@) is None
    &&& uint_field(entries, "kinds"@) is None
    &&& key_field(entries, "#e"@) is None
    &&& key_field(entries, "#p"@) is None
    &&& tag_queries_of(entries).len() == 0
    &&& num_field(entries, "since"@) is None
    &&& num_field(entries, "until"@) is None
    &&& num_field(entries, "limit"@) is None
}

/// The planning rule, relating a plan to the request it was made from: the
/// request is rejected exactly when no wire filter is an object; otherwise
/// the first object filter classifies the request, an id query when its
/// every constraint reduces to an id set and a general query otherwise.
pub open spec fn subscribe_plan_ok(
    r: SubscribePlan,
    id: Seq<char>,
    filters: Seq<WireFilter>,
    opts: Option<SubscribeOpts>,
) -> bool {
    &&& ((r is Rejected) <==> (forall|j: int| 0 <= j < filters.len() ==> !(filters[j] is Obj)))
    &&& forall|k: int|
        is_first_obj(filters, k) ==> (if id_only_entries(obj_entries(filters[k])) {
            r matches SubscribePlan::IdLookup { sub_id, ids, cache_only } && sub_id@ == id && Some(
                ids.deep_view(),
            ) == key_field(obj_entries(filters[k]), "ids"@) && cache_only == spec_cache_only(opts)
        } else {
            r matches SubscribePlan::Query { sub_id, filters: parsed, cache_only } && sub_id@ == id
                && plans_translate(parsed@, filters) && cache_only == spec_cache_only(opts)
        })
}

/// Plan a subscribe request from its wire filters and options; see
/// [`subscribe_plan_ok`].
pub fn handle_subscribe(id: String, filters: &Vec<WireFilter>, opts: &Option<SubscribeOpts>) -> (r:
    SubscribePlan)
    ensures
        subscribe_plan_ok(r, id@, filters@, *opts),
{
    let cache_only = compute_cache_only(opts);
    let n = filters.len();
    let mut parsed: Vec<Filter> = Vec::new();
    let ghost mut gfirst: Option<int> = None;
    let mut i: usize = 0;
    proof {
        assert(filters@.subrange(0, 0) =~= Seq::<WireFilter>::empty());
    }
    while i < n
        invariant
            n == filters@.len(),
            i <= n,
            plans_translate(parsed@, filters@.subrange(0, i as int)),
            gfirst is None ==> (forall|j: int| 0 <= j < i ==> !(filters@[j] is Obj)) && parsed@.len()
                == 0,
            gfirst matches Some(k) ==> is_first_obj(filters@, k) && k < i && parsed@.len() > 0
                && parsed@[0].translates(obj_entries(filters@[k])),
        decreases n - i,
    {
        let ghost pre_parsed = parsed@;
        match parse_filter(&filters[i]) {
            Some(f) => {
                proof {
                    if gfirst is None {
                        gfirst = Some(i as int);
                    }
                }
                parsed.push(f);
                proof {
                    assert(parsed@.drop_last() =~= pre_parsed);
                }
            },
            None => {},
        }
        proof {
            assert(filters@.subrange(0, i + 1).drop_last() =~= filters@.subrange(0, i as int));
            assert(filters@.subrange(0, i + 1).last() == filters@[i as int]);
        }
        i = i + 1;
    }
    proof {
        assert(filters@.subrange(0, n as int) =~= filters@);
    }
    if parsed.len() == 0 {
        return SubscribePlan::Rejected;
    }
    proof {
        let gk = gfirst->0;
        assert forall|k: int| is_first_obj(filters@, k) implies k == gk by {
            if k < gk {
                assert(filters@[k] is Obj);
            } else if k > gk {
                assert(filters@[gk] is Obj);
            }
        }
    }
    proof {
        let gk = gfirst->0;
        let e = obj_entries(filters@[gk]);
        let f = parsed@[0];
        assert(f.tags@.len() == tags_view(f.tags@).len());
        assert(f.spec_is_id_query() == id_only_entries(e));
    }
    if parsed[0].is_id_query() {
        let ids = take_first_ids(&mut parsed);
        SubscribePlan::IdLookup { sub_id: id, ids, cache_only }
    } else {
        SubscribePlan::Query { sub_id: id, filters: parsed, cache_only }
    }
}

/// Compute cache-only mode from the options; see [`spec_cache_only`].
fn compute_cache_only(opts: &Option<SubscribeOpts>) -> (r: bool)
    ensures
        r == spec_cache_only(*opts),
{
    match opts {
        Some(o) => match &o.destinations {
            Some(d) => vec_contains_str(d, "cache") && !vec_contains_str(d, "relay"),
            None => false,
        },
        None => false,
    }
}

/// Take the id set out of the first translated filter.
fn take_first_ids(parsed: &mut Vec<Filter>) -> (ids: Vec<Key>)
    requires
        old(parsed)@.len() > 0,
        old(parsed)@[0].ids is Some,
    ensures
        old(parsed)@[0].ids matches Some(v) && v.deep_view() == ids.deep_view(),
{
    let first = &mut parsed[0];
    match first.ids.take() {
        Some(v) => v,
        None => vstd::pervasive::unreached(),
    }
}

/// What one subscribe resolution decided.
pub struct SubscribeOutcome {
    /// Cached events to emit to the caller, each tagged with no relay.
    pub emissions: Vec<NostrResponse>,
    /// The REQ frame to send to the relay transport, if any.
    pub req: Option<OutboundFrame>,
    /// Whether a live store subscription is owed for this request.
    pub register_live: bool,
}

/// The values behind the present answers, in order.
pub open spec fn somes(found: Seq<Option<Seq<char>>>) -> Seq<Seq<char>>
    decreases found.len(),
{
    if found.len() == 0 {
        Seq::empty()
    } else {
        let rest = somes(found.drop_last());
        match found.last() {
            Some(v) => rest.push(v),
            None => rest,
        }
    }
}

/// The ids whose lookups missed, in order.
pub open spec fn miss_ids(ids: Seq<Seq<u8>>, found: Seq<Option<Seq<char>>>) -> Seq<Seq<u8>>
    recommends
        ids.len() == found.len(),
    decreases ids.len(),
{
    if ids.len() == 0 {
        Seq::empty()
    } else {
        let rest = miss_ids(ids.drop_last(), found.drop_last());
        if found[ids.len() - 1] is None {
            rest.push(ids.last())
        } else {
            rest
        }
    }
}

/// A filter constraining exactly the given ids and nothing else.
pub open spec fn ids_only_filter(f: Filter, ks: Seq<Seq<u8>>) -> bool {
    &&& (f.ids matches Some(v) && v.deep_view() == ks)
    &&& f.authors is None
    &&& f.kinds is None
    &&& f.events is None
    &&& f.pubkeys is None
    &&& f.tags@.len() == 0
    &&& f.since is None
    &&& f.until is None
    &&& f.limit is None
}

/// One emitted cached event.
pub open spec fn cached_event(e: NostrResponse, sub_id: Seq<char>, body: Seq<char>) -> bool {
    e matches NostrResponse::Event { sub_id: s, event, relay } && s@ == sub_id && event@ == body
        && relay is None
}

/// Resolve an id query from the store's per-id answers.
///
/// Every hit is emitted immediately, tagged with no relay.  If every id was
/// found, or in cache-only mode, no REQ is sent; a cache response never
/// produces an end-of-stream marker.  Otherwise exactly one REQ goes out,
/// scoped to exactly the missing ids, never to the full original set.  An
/// id query never registers a live store subscription.
pub fn resolve_id_lookup(sub_id: String, ids: Vec<Key>, cache_only: bool, found: &Vec<
    Option<String>,
>) -> (r: SubscribeOutcome)
    requires
        found@.len() == ids@.len(),
    ensures
        r.emissions@.len() == somes(found.deep_view()).len(),
        forall|i: int|
            0 <= i < r.emissions@.len() ==> cached_event(
                r.emissions@[i],
                sub_id@,
                somes(found.deep_view())[i],
            ),
        r.register_live == false,
        cache_only ==> r.req is None,
        !cache_only && miss_ids(ids.deep_view(), found.deep_view()).len() == 0 ==> r.req is None,
        !cache_only && miss_ids(ids.deep_view(), found.deep_view()).len() > 0 ==> (r.req matches
        Some(OutboundFrame::Req { sub_id: s, filters }) && s@ == sub_id@ && filters@.len() == 1
            && ids_only_filter(filters@[0], miss_ids(ids.deep_view(), found.deep_view()))),
{
    let n = ids.len();
    let mut emissions: Vec<NostrResponse> = Vec::new();
    let mut misses: Vec<Key> = Vec::new();
    let mut i: usize = 0;
    proof {
        assert(found.deep_view().subrange(0, 0) =~= Seq::<Option<Seq<char>>>::empty());
        assert(ids.deep_view().subrange(0, 0) =~= Seq::<Seq<u8>>::empty());
        assert(found.deep_view().len() == found@.len());
        assert(ids.deep_view().len() == ids@.len());
    }
    while i < n
        invariant
            n == ids@.len(),
            found@.len() == n,
            found.deep_view().len() == n,
            ids.deep_view().len() == n,
            i <= n,
            emissions@.len() == somes(found.deep_view().subrange(0, i as int)).len(),
            forall|j: int|
                0 <= j < emissions@.len() ==> cached_event(
                    emissions@[j],
                    sub_id@,
                    somes(found.deep_view().subrange(0, i as int))[j],
                ),
            misses.deep_view() == miss_ids(
                ids.deep_view().subrange(0, i as int),
                found.deep_view().subrange(0, i as int),
            ),
        decreases n - i,
    {
        let ghost fprefix = found.deep_view().subrange(0, i as int);
        let ghost iprefix = ids.deep_view().subrange(0, i as int);
        match &found[i] {
            Some(body) => {
                let ghost bodyv = body@;
                emissions.push(
                    NostrResponse::Event {
                        sub_id: sub_id.clone(),
                        event: body.clone(),
                        relay: None,
                    },
                );
                proof {
                    assert(found.deep_view()[i as int] == Some(bodyv));
                }
            },
            None => {
                proof {
                    assert(found.deep_view()[i as int] is None);
                }
                let ghost pre = misses.deep_view();
                let k = copy_bytes(&ids[i]);
                let ghost kv = k@;
                proof {
                    assert(k.deep_view() =~= kv);
                }
                misses.push(k);
                proof {
                    assert(misses.deep_view() =~= pre.push(kv));
                }
            },
        }
        proof {
            assert(found.deep_view().subrange(0, i + 1).drop_last() =~= fprefix);
            assert(found.deep_view().subrange(0, i + 1).last() == found.deep_view()[i as int]);
            assert(ids.deep_view().subrange(0, i + 1).drop_last() =~= iprefix);
            assert(ids.deep_view().subrange(0, i + 1).last() == ids.deep_view()[i as int]);
        }
        i = i + 1;
    }
    proof {
        assert(found.deep_view().subrange(0, n as int) =~= found.deep_view());
        assert(ids.deep_view().subrange(0, n as int) =~= ids.deep_view());
    }
    let req: Option<OutboundFrame> = if cache_only || misses.len() == 0 {
        None
    } else {
        let residual = Filter {
            ids: Some(misses),
            authors: None,
            kinds: None,
            events: None,
            pubkeys: None,
            tags: Vec::new(),
            since: None,
            until: None,
            limit: None,
        };
        let mut fs: Vec<Filter> = Vec::new();
        fs.push(residual);
        Some(OutboundFrame::Req { sub_id: sub_id.clone(), filters: fs })
    };
    SubscribeOutcome { emissions, req, register_live: false }
}

/// Resolve a general query from the store's bounded query results.
///
/// Every cached match is emitted, tagged with no relay.  Unless the request
/// is cache-only, a live store subscription is owed and one REQ carrying
/// the full translated filter set goes to the transport; in cache-only
/// mode the resolution ends after the local emission.
pub fn resolve_general(sub_id: String, filters: Vec<Filter>, cache_only: bool, results: &Vec<
    String,
>) -> (r: SubscribeOutcome)
    ensures
        r.emissions@.len() == results@.len(),
        forall|i: int|
            0 <= i < r.emissions@.len() ==> cached_event(
                r.emissions@[i],
                sub_id@,
                results.deep_view()[i],
            ),
        r.register_live == !cache_only,
        cache_only ==> r.req is None,
        !cache_only ==> (r.req matches Some(OutboundFrame::Req { sub_id: s, filters: fs }) && s@
            == sub_id@ && fs == filters),
{
    let n = results.len();
    let mut emissions: Vec<NostrResponse> = Vec::new();
    let mut i: usize = 0;
    while i < n
        invariant
            n == results@.len(),
            i <= n,
            emissions@.len() == i as int,
            forall|j: int|
                0 <= j < i ==> cached_event(emissions@[j], sub_id@, results.deep_view()[j]),
        decreases n - i,
    {
        let body = results[i].clone();
        emissions.push(NostrResponse::Event { sub_id: sub_id.clone(), event: body, relay: None });
        i = i + 1;
    }
    if cache_only {
        SubscribeOutcome { emissions, req: None, register_live: false }
    } else {
        let req = OutboundFrame::Req { sub_id: sub_id.clone(), filters };
        SubscribeOutcome { emissions, req: Some(req), register_live: true }
    }
}

/// An id query whose ids are all cached emits every event and sends no
/// network request.
pub proof fn lemma_all_cached_no_req(ids: Seq<Seq<u8>>, found: Seq<Option<Seq<char>>>)
    requires
        ids.len() == found.len(),
        forall|i: int| 0 <= i < found.len() ==> found[i] is Some,
    ensures
        miss_ids(ids, found).len() == 0,
        somes(found).len() == found.len(),
    decreases ids.len(),
{
    if ids.len() > 0 {
        assert(forall|i: int|
            0 <= i < found.drop_last().len() ==> found.drop_last()[i] == found[i]);
        lemma_all_cached_no_req(ids.drop_last(), found.drop_last());
    }
}

/// The lookup position behind position `j` of the residual id list, or -1.
pub open spec fn miss_src(ids: Seq<Seq<u8>>, found: Seq<Option<Seq<char>>>, j: int) -> int
    recommends
        ids.len() == found.len(),
    decreases ids.len(),
{
    if ids.len() == 0 {
        -1
    } else {
        let before = miss_ids(ids.drop_last(), found.drop_last()).len();
        if found[ids.len() - 1] is None && j == before {
            ids.len() - 1
        } else {
            miss_src(ids.drop_last(), found.drop_last(), j)
        }
    }
}

/// Each residual id comes from a missed lookup: behind position `j` of
/// `miss_ids` stands the lookup `miss_src(ids, found, j)`, whose answer was
/// `None` and whose id is the residual one.
pub proof fn lemma_residual_source(ids: Seq<Seq<u8>>, found: Seq<Option<Seq<char>>>)
    requires
        ids.len() == found.len(),
    ensures
        forall|j: int|
            0 <= j < miss_ids(ids, found).len() ==> 0 <= #[trigger] miss_src(ids, found, j)
                < ids.len() && found[miss_src(ids, found, j)] is None && ids[miss_src(
                ids,
                found,
                j,
            )] == miss_ids(ids, found)[j],
    decreases ids.len(),
{
    if ids.len() > 0 {
        let ihead = ids.drop_last();
        let fhead = found.drop_last();
        lemma_residual_source(ihead, fhead);
        assert(forall|i: int| 0 <= i < fhead.len() ==> fhead[i] == found[i]);
        assert(forall|i: int| 0 <= i < ihead.len() ==> ihead[i] == ids[i]);
        let m = miss_ids(ids, found);
        let mh = miss_ids(ihead, fhead);
        assert forall|j: int|
            0 <= j < miss_ids(ids, found).len() implies 0 <= #[trigger] miss_src(ids, found, j)
            < ids.len() && found[miss_src(ids, found, j)] is None && ids[miss_src(ids, found, j)]
            == miss_ids(ids, found)[j] by {
            if found[ids.len() - 1] is None && j == mh.len() {
                assert(miss_src(ids, found, j) == ids.len() - 1);
                assert(m[j] == ids[ids.len() - 1]);
            } else {
                assert(miss_src(ids, found, j) == miss_src(ihead, fhead, j));
                assert(j < mh.len());
                assert(m[j] == mh[j]);
                assert(0 <= miss_src(ihead, fhead, j) < ihead.len());
            }
        }
    } else {
        assert(miss_ids(ids, found).len() == 0);
    }
}

/// With `k` of `n` ids missing, the residual request names exactly those
/// `k` ids: one per missed lookup, in order, and none for a hit.
pub proof fn lemma_residual_is_missing(ids: Seq<Seq<u8>>, found: Seq<Option<Seq<char>>>)
    requires
        ids.len() == found.len(),
    ensures
        miss_ids(ids, found).len() == found.len() - somes(found).len(),
        forall|i: int|
            0 <= i < ids.len() && found[i] is None ==> miss_ids(ids, found).contains(ids[i]),
        forall|j: int|
            0 <= j < miss_ids(ids, found).len() ==> 0 <= #[trigger] miss_src(ids, found, j)
                < ids.len() && found[miss_src(ids, found, j)] is None && ids[miss_src(
                ids,
                found,
                j,
            )] == miss_ids(ids, found)[j],
    decreases ids.len(),
{
    lemma_residual_source(ids, found);
    if ids.len() > 0 {
        let ihead = ids.drop_last();
        let fhead = found.drop_last();
        lemma_residual_is_missing(ihead, fhead);
        assert(forall|i: int| 0 <= i < fhead.len() ==> fhead[i] == found[i]);
        assert(forall|i: int| 0 <= i < ihead.len() ==> ihead[i] == ids[i]);
        let m = miss_ids(ids, found);
        let mh = miss_ids(ihead, fhead);
        assert forall|i: int| 0 <= i < ids.len() && found[i] is None implies m.contains(
            ids[i],
        ) by {
            if i < ids.len() - 1 {
                assert(mh.contains(ids[i]));
                let j = choose|j: int| 0 <= j < mh.len() && mh[j] == ids[i];
                assert(m[j] == ids[i]);
            } else {
                assert(m.last() == ids[i]);
            }
        }
    }
}

} // verus!
