//! Relay lifecycle bookkeeping.
//!
//! The engine owns one descriptor per relay URL.  A descriptor's status is
//! changed only by transport callbacks or by explicit lifecycle commands,
//! never inferred; the transport owns the real connection state machine.

use vstd::prelude::*;
use crate::strutil::str_eq;
use crate::types::{PoolNotice, RelayStatusInfo};

verus! {

/// Connection status of one relay.
#[derive(Clone, Copy, PartialEq, Eq, Structural)]
pub enum RelayStatus {
    Disconnected,
    Connecting,
    Connected,
}

/// One registered relay.
pub struct RelayDescriptor {
    pub url: String,
    pub status: RelayStatus,
}

/// The registry of all relays, keyed by URL.
pub struct RelayPool {
    pub relays: Vec<RelayDescriptor>,
}

/// The stable status code reported to the UI for each internal status.
pub open spec fn status_code(s: RelayStatus) -> u8 {
    match s {
        RelayStatus::Connected => 5,
        RelayStatus::Connecting => 4,
        RelayStatus::Disconnected => 1,
    }
}

/// Whether some descriptor carries this URL.
pub open spec fn has_url(relays: Seq<RelayDescriptor>, url: Seq<char>) -> bool {
    exists|i: int| 0 <= i < relays.len() && relays[i].url@ == url
}

/// Index of the first descriptor carrying this URL, or -1.
pub open spec fn find_url(relays: Seq<RelayDescriptor>, url: Seq<char>) -> int
    decreases relays.len(),
{
    if relays.len() == 0 {
        -1
    } else if relays[0].url@ == url {
        0
    } else {
        let r = find_url(relays.drop_first(), url);
        if r == -1 {
            -1
        } else {
            r + 1
        }
    }
}

/// The registry without every descriptor carrying this URL.
pub open spec fn without_url(relays: Seq<RelayDescriptor>, url: Seq<char>) -> Seq<RelayDescriptor>
    decreases relays.len(),
{
    if relays.len() == 0 {
        Seq::empty()
    } else {
        let rest = without_url(relays.drop_last(), url);
        if relays.last().url@ == url {
            rest
        } else {
            rest.push(relays.last())
        }
    }
}

/// The registry after flipping the first descriptor with this URL to the
/// given status; an unknown URL changes nothing.
pub open spec fn set_first(
    relays: Seq<RelayDescriptor>,
    url: Seq<char>,
    status: RelayStatus,
) -> Seq<RelayDescriptor> {
    let i = find_url(relays, url);
    if i >= 0 {
        relays.update(i, (RelayDescriptor { url: relays[i].url, status }))
    } else {
        relays
    }
}

/// The registry after a bulk reconnect: every disconnected relay is set to
/// connecting, every other relay keeps its status.
pub open spec fn reconnect_all(relays: Seq<RelayDescriptor>) -> Seq<RelayDescriptor> {
    relays.map_values(
        |d: RelayDescriptor|
            if d.status is Disconnected {
                (RelayDescriptor { url: d.url, status: RelayStatus::Connecting })
            } else {
                d
            },
    )
}

/// How many relays are disconnected.
pub open spec fn count_disconnected(relays: Seq<RelayDescriptor>) -> int
    decreases relays.len(),
{
    if relays.len() == 0 {
        0
    } else {
        count_disconnected(relays.drop_last()) + if relays.last().status is Disconnected {
            1int
        } else {
            0int
        }
    }
}

/// `find_url` finds an index with the URL exactly when one exists.
pub proof fn lemma_find_url(relays: Seq<RelayDescriptor>, url: Seq<char>)
    ensures
        has_url(relays, url) <==> 0 <= find_url(relays, url) < relays.len(),
        0 <= find_url(relays, url) ==> relays[find_url(relays, url)].url@ == url,
        find_url(relays, url) == -1 || 0 <= find_url(relays, url) < relays.len(),
    decreases relays.len(),
{
    if relays.len() > 0 {
        let rest = relays.drop_first();
        lemma_find_url(rest, url);
        assert(forall|i: int| 0 <= i < rest.len() ==> rest[i] == relays[i + 1]);
        if relays[0].url@ != url {
            if has_url(rest, url) {
                let r0 = find_url(rest, url);
                assert(0 <= r0 < rest.len());
                assert(rest[r0] == relays[r0 + 1]);
                assert(relays[r0 + 1].url@ == url);
            } else {
                assert(find_url(rest, url) == -1);
                assert(find_url(relays, url) == -1);
                if has_url(relays, url) {
                    let i = choose|i: int| 0 <= i < relays.len() && relays[i].url@ == url;
                    assert(i != 0);
                    assert(rest[i - 1].url@ == url);
                }
            }
        }
    }
}

/// Skipping a prefix without the URL shifts `find_url` by the prefix length.
proof fn lemma_find_url_skip(relays: Seq<RelayDescriptor>, url: Seq<char>, i: int)
    requires
        0 <= i <= relays.len(),
        forall|j: int| 0 <= j < i ==> relays[j].url@ != url,
    ensures
        find_url(relays, url) == ({
            let r = find_url(relays.subrange(i, relays.len() as int), url);
            if r == -1 {
                -1int
            } else {
                r + i
            }
        }),
    decreases i,
{
    if i == 0 {
        assert(relays.subrange(0, relays.len() as int) =~= relays);
    } else {
        let rest = relays.drop_first();
        assert(forall|j: int| 0 <= j < rest.len() ==> rest[j] == relays[j + 1]);
        lemma_find_url_skip(rest, url, i - 1);
        assert(rest.subrange(i - 1, rest.len() as int) =~= relays.subrange(
            i,
            relays.len() as int,
        ));
        assert(relays[0].url@ != url);
        assert(find_url(relays, url) == (if find_url(rest, url) == -1 {
            -1int
        } else {
            find_url(rest, url) + 1
        }));
        let sub = relays.subrange(i, relays.len() as int);
        let r = find_url(sub, url);
        assert(find_url(rest.subrange(i - 1, rest.len() as int), url) == r);
        assert(find_url(rest, url) == (if r == -1 {
            -1int
        } else {
            r + (i - 1)
        }));
        if r == -1 {
            assert(find_url(relays, url) == -1);
        } else {
            lemma_find_url(sub, url);
            assert(r >= 0);
            assert(find_url(rest, url) == r + i - 1);
            assert(find_url(relays, url) == r + i);
        }
    }
}

/// Find the first descriptor with this URL.
fn find_relay(pool: &RelayPool, url: &str) -> (r: Option<usize>)
    ensures
        match r {
            Some(i) => find_url(pool.relays@, url@) == i as int && i < pool.relays@.len(),
            None => find_url(pool.relays@, url@) == -1,
        },
{
    let n = pool.relays.len();
    let mut i: usize = 0;
    while i < n
        invariant
            n == pool.relays@.len(),
            i <= n,
            forall|j: int| 0 <= j < i ==> pool.relays@[j].url@ != url@,
        decreases n - i,
    {
        if str_eq(pool.relays[i].url.as_str(), url) {
            proof {
                lemma_find_url_skip(pool.relays@, url@, i as int);
                let pre = pool.relays@.subrange(i as int, n as int);
                assert(pre[0] == pool.relays@[i as int]);
            }
            return Some(i);
        }
        i = i + 1;
    }
    proof {
        lemma_find_url_skip(pool.relays@, url@, n as int);
        assert(pool.relays@.subrange(n as int, n as int).len() == 0);
    }
    None
}

/// Register a relay.
///
/// Registration is idempotent: an already-known URL changes nothing and
/// emits nothing.  A new URL is recorded as connecting, provided the
/// transport adapter accepted it (`transport_ok`), and a "relay added"
/// notice is emitted only then; a transport failure is logged by the driver
/// and leaves the registry unchanged.
pub fn handle_add_relay(pool: &mut RelayPool, url: String, transport_ok: bool) -> (r: Option<
    PoolNotice,
>)
    ensures
        has_url(old(pool).relays@, url@) ==> final(pool).relays@ == old(pool).relays@ && r is None,
        !has_url(old(pool).relays@, url@) && transport_ok ==> final(pool).relays@ == old(
            pool,
        ).relays@.push((RelayDescriptor { url, status: RelayStatus::Connecting })) && (r matches
        Some(PoolNotice::RelayAdded { url: u }) && u@ == url@),
        !has_url(old(pool).relays@, url@) && !transport_ok ==> final(pool).relays@ == old(
            pool,
        ).relays@ && r is None,
{
    proof {
        lemma_find_url(pool.relays@, url@);
    }
    match find_relay(pool, url.as_str()) {
        Some(_) => None,
        None => {
            if transport_ok {
                let notice_url = url.clone();
                pool.relays.push(RelayDescriptor { url, status: RelayStatus::Connecting });
                Some(PoolNotice::RelayAdded { url: notice_url })
            } else {
                None
            }
        },
    }
}

/// Evict every descriptor carrying this URL.
pub fn handle_remove_relay(pool: &mut RelayPool, url: String)
    ensures
        final(pool).relays@ == without_url(old(pool).relays@, url@),
{
    let n = pool.relays.len();
    let mut kept: Vec<RelayDescriptor> = Vec::new();
    let mut i: usize = 0;
    proof {
        assert(pool.relays@.subrange(0, 0) =~= Seq::<RelayDescriptor>::empty());
    }
    while i < n
        invariant
            n == pool.relays@.len(),
            i <= n,
            kept@ == without_url(pool.relays@.subrange(0, i as int), url@),
        decreases n - i,
    {
        let d = &pool.relays[i];
        if !str_eq(d.url.as_str(), url.as_str()) {
            let copied = RelayDescriptor { url: d.url.clone(), status: d.status };
            assert(copied == pool.relays@[i as int]);
            kept.push(copied);
        }
        proof {
            assert(pool.relays@.subrange(0, i + 1).drop_last() =~= pool.relays@.subrange(
                0,
                i as int,
            ));
            assert(pool.relays@.subrange(0, i + 1).last() == pool.relays@[i as int]);
        }
        i = i + 1;
    }
    proof {
        assert(pool.relays@.subrange(0, n as int) =~= pool.relays@);
    }
    pool.relays = kept;
}

/// Flip an existing descriptor's status to connecting; the first descriptor
/// with the URL is affected, an unknown URL changes nothing.
pub fn handle_connect_relay(pool: &mut RelayPool, url: String)
    ensures
        final(pool).relays@ == set_first(old(pool).relays@, url@, RelayStatus::Connecting),
{
    match find_relay(pool, url.as_str()) {
        Some(i) => {
            pool.relays[i].status = RelayStatus::Connecting;
        },
        None => {},
    }
}

/// Flip an existing descriptor's status to disconnected; the first
/// descriptor with the URL is affected, an unknown URL changes nothing.
pub fn handle_disconnect_relay(pool: &mut RelayPool, url: String)
    ensures
        final(pool).relays@ == set_first(old(pool).relays@, url@, RelayStatus::Disconnected),
{
    match find_relay(pool, url.as_str()) {
        Some(i) => {
            pool.relays[i].status = RelayStatus::Disconnected;
        },
        None => {},
    }
}

/// Bulk-transition every disconnected relay to connecting; returns how many
/// were transitioned, for diagnostics.
pub fn handle_reconnect_disconnected(pool: &mut RelayPool) -> (count: usize)
    ensures
        final(pool).relays@ == reconnect_all(old(pool).relays@),
        count as int == count_disconnected(old(pool).relays@),
{
    let n = pool.relays.len();
    let mut count: usize = 0;
    let mut i: usize = 0;
    proof {
        assert(pool.relays@.subrange(0, 0) =~= Seq::<RelayDescriptor>::empty());
    }
    while i < n
        invariant
            n == pool.relays@.len(),
            i <= n,
            count as int == count_disconnected(old(pool).relays@.subrange(0, i as int)),
            count <= i,
            pool.relays@.len() == old(pool).relays@.len(),
            forall|j: int| i <= j < n ==> pool.relays@[j] == old(pool).relays@[j],
            forall|j: int|
                0 <= j < i ==> pool.relays@[j] == reconnect_all(old(pool).relays@)[j],
        decreases n - i,
    {
        proof {
            assert(old(pool).relays@.subrange(0, i + 1).drop_last() =~= old(
                pool,
            ).relays@.subrange(0, i as int));
            assert(old(pool).relays@.subrange(0, i + 1).last() == old(pool).relays@[i as int]);
        }
        if pool.relays[i].status == RelayStatus::Disconnected {
            pool.relays[i].status = RelayStatus::Connecting;
            count = count + 1;
        }
        i = i + 1;
    }
    proof {
        assert(old(pool).relays@.subrange(0, n as int) =~= old(pool).relays@);
        assert(final(pool).relays@ =~= reconnect_all(old(pool).relays@));
    }
    count
}

/// The reporting rule: one entry per descriptor, in registry order, whose
/// code is the fixed mapping of the internal status.  The report is a
/// deterministic function of the registry at the time of the query.
pub open spec fn statuses_ok(infos: Seq<RelayStatusInfo>, relays: Seq<RelayDescriptor>) -> bool {
    &&& infos.len() == relays.len()
    &&& forall|i: int|
        0 <= i < infos.len() ==> infos[i].url@ == relays[i].url@ && infos[i].status == status_code(
            relays[i].status,
        )
}

/// A transport connection callback for one relay.
pub enum ConnEvent {
    /// The connection opened.
    Opened,
    /// The connection closed.
    Closed,
    /// The connection reported an error; logged only.
    Faulted { message: String },
}

/// Apply a transport connection callback to the registry and produce the
/// status-change notification to emit.  Opening marks the relay connected,
/// closing marks it disconnected; an error changes nothing and emits
/// nothing.  The engine never initiates reconnection here.
pub fn handle_conn_event(pool: &mut RelayPool, relay_url: String, ev: ConnEvent) -> (r: Option<
    PoolNotice,
>)
    ensures
        ev is Opened ==> final(pool).relays@ == set_first(
            old(pool).relays@,
            relay_url@,
            RelayStatus::Connected,
        ) && (r matches Some(PoolNotice::RelayConnected { url }) && url@ == relay_url@),
        ev is Closed ==> final(pool).relays@ == set_first(
            old(pool).relays@,
            relay_url@,
            RelayStatus::Disconnected,
        ) && (r matches Some(PoolNotice::RelayDisconnected { url }) && url@ == relay_url@),
        ev is Faulted ==> final(pool).relays@ == old(pool).relays@ && r is None,
{
    match ev {
        ConnEvent::Opened => {
            match find_relay(pool, relay_url.as_str()) {
                Some(i) => {
                    pool.relays[i].status = RelayStatus::Connected;
                },
                None => {},
            }
            Some(PoolNotice::RelayConnected { url: relay_url })
        },
        ConnEvent::Closed => {
            match find_relay(pool, relay_url.as_str()) {
                Some(i) => {
                    pool.relays[i].status = RelayStatus::Disconnected;
                },
                None => {},
            }
            Some(PoolNotice::RelayDisconnected { url: relay_url })
        },
        ConnEvent::Faulted { message: _ } => None,
    }
}

/// The externally reported relay status is a deterministic, stable
/// function of the internal status at the time of the query: any two
/// reports of the same registry agree on every URL and status code.
pub proof fn lemma_status_report_deterministic(
    a: Seq<RelayStatusInfo>,
    b: Seq<RelayStatusInfo>,
    relays: Seq<RelayDescriptor>,
)
    requires
        statuses_ok(a, relays),
        statuses_ok(b, relays),
    ensures
        a.len() == b.len(),
        forall|i: int| 0 <= i < a.len() ==> a[i].url@ == b[i].url@ && a[i].status == b[i].status,
{
}

/// Report every relay's URL with its stable status code; see
/// [`statuses_ok`].
pub fn relay_statuses(pool: &RelayPool) -> (r: Vec<RelayStatusInfo>)
    ensures
        statuses_ok(r@, pool.relays@),
{
    let n = pool.relays.len();
    let mut out: Vec<RelayStatusInfo> = Vec::new();
    let mut i: usize = 0;
    while i < n
        invariant
            n == pool.relays@.len(),
            i <= n,
            out@.len() == i as int,
            forall|j: int|
                0 <= j < i ==> out@[j].url@ == pool.relays@[j].url@ && out@[j].status
                    == status_code(pool.relays@[j].status),
        decreases n - i,
    {
        let d = &pool.relays[i];
        let code: u8 = match d.status {
            RelayStatus::Connected => 5,
            RelayStatus::Connecting => 4,
            RelayStatus::Disconnected => 1,
        };
        out.push(RelayStatusInfo { url: d.url.clone(), status: code });
        i = i + 1;
    }
    out
}

} // verus!
