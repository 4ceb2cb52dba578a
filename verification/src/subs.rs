//! Subscription identity bookkeeping.
//!
//! Each open subscription id may map to one live store-subscription handle.
//! One table holds the bindings, so the id-to-handle and handle-to-id
//! directions can never fall out of step; the table's well-formedness keeps
//! both ids and handles unique, and the two directions are proved inverse.

use vstd::prelude::*;
use crate::strutil::str_eq;
use crate::types::OutboundFrame;

verus! {

/// One open subscription: its caller-supplied id and its numeric store
/// handle.
pub struct SubBinding {
    pub sub_id: String,
    pub handle: u64,
}

/// Whether some binding carries this subscription id.
pub open spec fn has_sub(entries: Seq<SubBinding>, id: Seq<char>) -> bool {
    exists|i: int| 0 <= i < entries.len() && entries[i].sub_id@ == id
}

/// Whether some binding carries this store handle.
pub open spec fn has_handle(entries: Seq<SubBinding>, handle: u64) -> bool {
    exists|i: int| 0 <= i < entries.len() && entries[i].handle == handle
}

/// The handle bound to the first binding with this id, if any.
pub open spec fn lookup_sub(entries: Seq<SubBinding>, id: Seq<char>) -> Option<u64>
    decreases entries.len(),
{
    if entries.len() == 0 {
        None
    } else if entries[0].sub_id@ == id {
        Some(entries[0].handle)
    } else {
        lookup_sub(entries.drop_first(), id)
    }
}

/// The id bound to the first binding with this handle, if any.
pub open spec fn lookup_handle(entries: Seq<SubBinding>, handle: u64) -> Option<String>
    decreases entries.len(),
{
    if entries.len() == 0 {
        None
    } else if entries[0].handle == handle {
        Some(entries[0].sub_id)
    } else {
        lookup_handle(entries.drop_first(), handle)
    }
}

/// Index of the first binding with this id, or -1.
pub open spec fn find_sub(entries: Seq<SubBinding>, id: Seq<char>) -> int
    decreases entries.len(),
{
    if entries.len() == 0 {
        -1
    } else if entries[0].sub_id@ == id {
        0
    } else {
        let r = find_sub(entries.drop_first(), id);
        if r == -1 {
            -1
        } else {
            r + 1
        }
    }
}

/// Index of the first binding with this handle, or -1.
pub open spec fn find_handle(entries: Seq<SubBinding>, handle: u64) -> int
    decreases entries.len(),
{
    if entries.len() == 0 {
        -1
    } else if entries[0].handle == handle {
        0
    } else {
        let r = find_handle(entries.drop_first(), handle);
        if r == -1 {
            -1
        } else {
            r + 1
        }
    }
}

/// The bindings without every binding carrying this id.
pub open spec fn without_sub(entries: Seq<SubBinding>, id: Seq<char>) -> Seq<SubBinding>
    decreases entries.len(),
{
    if entries.len() == 0 {
        Seq::empty()
    } else {
        let rest = without_sub(entries.drop_last(), id);
        if entries.last().sub_id@ == id {
            rest
        } else {
            rest.push(entries.last())
        }
    }
}

/// The bindings without every binding carrying this handle.
pub open spec fn without_handle(entries: Seq<SubBinding>, handle: u64) -> Seq<SubBinding>
    decreases entries.len(),
{
    if entries.len() == 0 {
        Seq::empty()
    } else {
        let rest = without_handle(entries.drop_last(), handle);
        if entries.last().handle == handle {
            rest
        } else {
            rest.push(entries.last())
        }
    }
}

/// Well-formed bindings: no subscription id and no handle occurs twice.
pub open spec fn wf_entries(entries: Seq<SubBinding>) -> bool
    decreases entries.len(),
{
    if entries.len() == 0 {
        true
    } else {
        &&& wf_entries(entries.drop_last())
        &&& !has_sub(entries.drop_last(), entries.last().sub_id@)
        &&& !has_handle(entries.drop_last(), entries.last().handle)
    }
}

/// `find_sub` finds the first binding with the id exactly when one exists,
/// and agrees with `lookup_sub`.
pub proof fn lemma_find_sub(entries: Seq<SubBinding>, id: Seq<char>)
    ensures
        has_sub(entries, id) <==> 0 <= find_sub(entries, id) < entries.len(),
        find_sub(entries, id) == -1 || 0 <= find_sub(entries, id) < entries.len(),
        0 <= find_sub(entries, id) ==> entries[find_sub(entries, id)].sub_id@ == id && lookup_sub(
            entries,
            id,
        ) == Some(entries[find_sub(entries, id)].handle),
        find_sub(entries, id) == -1 ==> lookup_sub(entries, id) is None,
    decreases entries.len(),
{
    if entries.len() > 0 {
        let rest = entries.drop_first();
        lemma_find_sub(rest, id);
        assert(forall|i: int| 0 <= i < rest.len() ==> rest[i] == entries[i + 1]);
        if entries[0].sub_id@ != id {
            if has_sub(rest, id) {
                let r0 = find_sub(rest, id);
                assert(0 <= r0 < rest.len());
                assert(rest[r0] == entries[r0 + 1]);
            } else {
                assert(find_sub(rest, id) == -1);
                if has_sub(entries, id) {
                    let i = choose|i: int| 0 <= i < entries.len() && entries[i].sub_id@ == id;
                    assert(i != 0);
                    assert(rest[i - 1].sub_id@ == id);
                }
            }
        }
    }
}

/// `find_handle` finds the first binding with the handle exactly when one
/// exists, and agrees with `lookup_handle`.
pub proof fn lemma_find_handle(entries: Seq<SubBinding>, handle: u64)
    ensures
        has_handle(entries, handle) <==> 0 <= find_handle(entries, handle) < entries.len(),
        find_handle(entries, handle) == -1 || 0 <= find_handle(entries, handle) < entries.len(),
        0 <= find_handle(entries, handle) ==> entries[find_handle(entries, handle)].handle
            == handle && lookup_handle(entries, handle) == Some(
            entries[find_handle(entries, handle)].sub_id,
        ),
        find_handle(entries, handle) == -1 ==> lookup_handle(entries, handle) is None,
    decreases entries.len(),
{
    if entries.len() > 0 {
        let rest = entries.drop_first();
        lemma_find_handle(rest, handle);
        assert(forall|i: int| 0 <= i < rest.len() ==> rest[i] == entries[i + 1]);
        if entries[0].handle != handle {
            if has_handle(rest, handle) {
                let r0 = find_handle(rest, handle);
                assert(0 <= r0 < rest.len());
                assert(rest[r0] == entries[r0 + 1]);
            } else {
                assert(find_handle(rest, handle) == -1);
                if has_handle(entries, handle) {
                    let i = choose|i: int| 0 <= i < entries.len() && entries[i].handle == handle;
                    assert(i != 0);
                    assert(rest[i - 1].handle == handle);
                }
            }
        }
    }
}

/// In a well-formed table no two bindings share an id or a handle.
pub proof fn lemma_wf_distinct(entries: Seq<SubBinding>)
    requires
        wf_entries(entries),
    ensures
        forall|i: int, j: int|
            0 <= i < j < entries.len() ==> entries[i].sub_id@ != entries[j].sub_id@
                && entries[i].handle != entries[j].handle,
    decreases entries.len(),
{
    if entries.len() > 0 {
        let head = entries.drop_last();
        lemma_wf_distinct(head);
        assert(forall|i: int| 0 <= i < head.len() ==> head[i] == entries[i]);
        assert forall|i: int, j: int|
            0 <= i < j < entries.len() implies entries[i].sub_id@ != entries[j].sub_id@
            && entries[i].handle != entries[j].handle by {
            if j == entries.len() - 1 {
                assert(head[i] == entries[i]);
                if entries[i].sub_id@ == entries[j].sub_id@ {
                    assert(has_sub(head, entries.last().sub_id@));
                }
                if entries[i].handle == entries[j].handle {
                    assert(has_handle(head, entries.last().handle));
                }
            } else {
                assert(head[i] == entries[i] && head[j] == entries[j]);
            }
        }
    }
}

/// The two directions of the table are inverse: in a well-formed table, the
/// handle bound to an id leads back to exactly that id.
pub proof fn lemma_table_reversible(entries: Seq<SubBinding>, id: Seq<char>, handle: u64)
    requires
        wf_entries(entries),
        lookup_sub(entries, id) == Some(handle),
    ensures
        lookup_handle(entries, handle) matches Some(s) && s@ == id,
{
    lemma_wf_distinct(entries);
    lemma_find_sub(entries, id);
    lemma_find_handle(entries, handle);
    let i = find_sub(entries, id);
    assert(lookup_sub(entries, id) is Some);
    assert(0 <= i < entries.len());
    assert(entries[i].handle == handle);
    assert(has_handle(entries, handle));
    let j = find_handle(entries, handle);
    assert(0 <= j < entries.len());
    assert(entries[j].handle == handle);
    if i != j {
        if i < j {
            assert(entries[i].handle != entries[j].handle);
        } else {
            assert(entries[j].handle != entries[i].handle);
        }
    }
    assert(i == j);
    assert(lookup_handle(entries, handle) == Some(entries[i].sub_id));
}

/// Eviction by id removes exactly the bindings with the given id, removes
/// no handle that another id holds, and keeps the table well formed.
pub proof fn lemma_without_sub(entries: Seq<SubBinding>, id: Seq<char>)
    ensures
        forall|j: int|
            0 <= j < without_sub(entries, id).len() ==> without_sub(entries, id)[j].sub_id@ != id,
        forall|s: Seq<char>|
            #[trigger] has_sub(without_sub(entries, id), s) ==> has_sub(entries, s),
        forall|h: u64|
            #[trigger] has_handle(without_sub(entries, id), h) ==> has_handle(entries, h),
        wf_entries(entries) ==> wf_entries(without_sub(entries, id)),
    decreases entries.len(),
{
    if entries.len() > 0 {
        let head = entries.drop_last();
        let e = entries.last();
        lemma_without_sub(head, id);
        let w = without_sub(entries, id);
        let wh = without_sub(head, id);
        assert forall|s: Seq<char>| #[trigger] has_sub(w, s) implies has_sub(entries, s) by {
            let i = choose|i: int| 0 <= i < w.len() && w[i].sub_id@ == s;
            if e.sub_id@ != id && i == w.len() - 1 {
                assert(entries[entries.len() - 1].sub_id@ == s);
            } else {
                if e.sub_id@ != id {
                    assert(w == wh.push(e));
                    assert(w[i] == wh[i]);
                }
                assert(has_sub(wh, s));
                let k = choose|k: int| 0 <= k < head.len() && head[k].sub_id@ == s;
                assert(entries[k].sub_id@ == s);
            }
        }
        assert forall|h: u64| #[trigger] has_handle(w, h) implies has_handle(entries, h) by {
            let i = choose|i: int| 0 <= i < w.len() && w[i].handle == h;
            if e.sub_id@ != id && i == w.len() - 1 {
                assert(entries[entries.len() - 1].handle == h);
            } else {
                if e.sub_id@ != id {
                    assert(w == wh.push(e));
                    assert(w[i] == wh[i]);
                }
                assert(has_handle(wh, h));
                let k = choose|k: int| 0 <= k < head.len() && head[k].handle == h;
                assert(entries[k].handle == h);
            }
        }
        if wf_entries(entries) {
            if e.sub_id@ != id {
                if has_sub(wh, e.sub_id@) {
                    assert(has_sub(head, e.sub_id@));
                }
                if has_handle(wh, e.handle) {
                    assert(has_handle(head, e.handle));
                }
                assert(w.drop_last() =~= wh);
            }
        }
    }
}

/// Eviction by handle removes exactly the bindings with the given handle,
/// removes no id that another handle holds, and keeps the table well
/// formed.
pub proof fn lemma_without_handle(entries: Seq<SubBinding>, handle: u64)
    ensures
        forall|j: int|
            0 <= j < without_handle(entries, handle).len() ==> without_handle(
                entries,
                handle,
            )[j].handle != handle,
        forall|s: Seq<char>|
            #[trigger] has_sub(without_handle(entries, handle), s) ==> has_sub(entries, s),
        forall|h: u64|
            #[trigger] has_handle(without_handle(entries, handle), h) ==> has_handle(entries, h),
        wf_entries(entries) ==> wf_entries(without_handle(entries, handle)),
    decreases entries.len(),
{
    if entries.len() > 0 {
        let head = entries.drop_last();
        let e = entries.last();
        lemma_without_handle(head, handle);
        let w = without_handle(entries, handle);
        let wh = without_handle(head, handle);
        assert forall|s: Seq<char>| #[trigger] has_sub(w, s) implies has_sub(entries, s) by {
            let i = choose|i: int| 0 <= i < w.len() && w[i].sub_id@ == s;
            if e.handle != handle && i == w.len() - 1 {
                assert(entries[entries.len() - 1].sub_id@ == s);
            } else {
                if e.handle != handle {
                    assert(w == wh.push(e));
                    assert(w[i] == wh[i]);
                }
                assert(has_sub(wh, s));
                let k = choose|k: int| 0 <= k < head.len() && head[k].sub_id@ == s;
                assert(entries[k].sub_id@ == s);
            }
        }
        assert forall|h: u64| #[trigger] has_handle(w, h) implies has_handle(entries, h) by {
            let i = choose|i: int| 0 <= i < w.len() && w[i].handle == h;
            if e.handle != handle && i == w.len() - 1 {
                assert(entries[entries.len() - 1].handle == h);
            } else {
                if e.handle != handle {
                    assert(w == wh.push(e));
                    assert(w[i] == wh[i]);
                }
                assert(has_handle(wh, h));
                let k = choose|k: int| 0 <= k < head.len() && head[k].handle == h;
                assert(entries[k].handle == h);
            }
        }
        if wf_entries(entries) {
            if e.handle != handle {
                if has_sub(wh, e.sub_id@) {
                    assert(has_sub(head, e.sub_id@));
                }
                if has_handle(wh, e.handle) {
                    assert(has_handle(head, e.handle));
                }
                assert(w.drop_last() =~= wh);
            }
        }
    }
}

/// The table of open subscriptions.
pub struct SubscriptionTable {
    pub entries: Vec<SubBinding>,
}

impl SubscriptionTable {
    /// No id and no handle occurs twice.
    pub open spec fn wf(&self) -> bool {
        wf_entries(self.entries@)
    }

    /// An empty table.
    pub fn new() -> (r: Self)
        ensures
            r.entries@ == Seq::<SubBinding>::empty(),
            r.wf(),
    {
        SubscriptionTable { entries: Vec::new() }
    }

    /// Evict every binding with this id, keeping the rest in order.
    fn evict(&mut self, sub_id: &str)
        ensures
            final(self).entries@ == without_sub(old(self).entries@, sub_id@),
    {
        let n = self.entries.len();
        let mut kept: Vec<SubBinding> = Vec::new();
        let mut i: usize = 0;
        proof {
            assert(self.entries@.subrange(0, 0) =~= Seq::<SubBinding>::empty());
        }
        while i < n
            invariant
                n == self.entries@.len(),
                i <= n,
                kept@ == without_sub(self.entries@.subrange(0, i as int), sub_id@),
            decreases n - i,
        {
            let e = &self.entries[i];
            if !str_eq(e.sub_id.as_str(), sub_id) {
                let copied = SubBinding { sub_id: e.sub_id.clone(), handle: e.handle };
                assert(copied == self.entries@[i as int]);
                kept.push(copied);
            }
            proof {
                assert(self.entries@.subrange(0, i + 1).drop_last() =~= self.entries@.subrange(
                    0,
                    i as int,
                ));
                assert(self.entries@.subrange(0, i + 1).last() == self.entries@[i as int]);
            }
            i = i + 1;
        }
        proof {
            assert(self.entries@.subrange(0, n as int) =~= self.entries@);
        }
        self.entries = kept;
    }

    /// Evict every binding with this handle, keeping the rest in order.
    fn evict_handle(&mut self, handle: u64)
        ensures
            final(self).entries@ == without_handle(old(self).entries@, handle),
    {
        let n = self.entries.len();
        let mut kept: Vec<SubBinding> = Vec::new();
        let mut i: usize = 0;
        proof {
            assert(self.entries@.subrange(0, 0) =~= Seq::<SubBinding>::empty());
        }
        while i < n
            invariant
                n == self.entries@.len(),
                i <= n,
                kept@ == without_handle(self.entries@.subrange(0, i as int), handle),
            decreases n - i,
        {
            let e = &self.entries[i];
            if e.handle != handle {
                let copied = SubBinding { sub_id: e.sub_id.clone(), handle: e.handle };
                assert(copied == self.entries@[i as int]);
                kept.push(copied);
            }
            proof {
                assert(self.entries@.subrange(0, i + 1).drop_last() =~= self.entries@.subrange(
                    0,
                    i as int,
                ));
                assert(self.entries@.subrange(0, i + 1).last() == self.entries@[i as int]);
            }
            i = i + 1;
        }
        proof {
            assert(self.entries@.subrange(0, n as int) =~= self.entries@);
        }
        self.entries = kept;
    }

    /// Bind a subscription id to a store handle, replacing any earlier
    /// binding of the same id and dropping any stale binding of the same
    /// handle, so both directions stay unique.
    pub fn register(&mut self, sub_id: String, handle: u64)
        ensures
            final(self).entries@ == without_handle(
                without_sub(old(self).entries@, sub_id@),
                handle,
            ).push((SubBinding { sub_id, handle })),
            old(self).wf() ==> final(self).wf(),
    {
        proof {
            lemma_without_sub(self.entries@, sub_id@);
            lemma_without_handle(without_sub(self.entries@, sub_id@), handle);
        }
        self.evict(sub_id.as_str());
        self.evict_handle(handle);
        let ghost evicted = self.entries@;
        let ghost idv = sub_id@;
        self.entries.push(SubBinding { sub_id, handle });
        proof {
            let cur = self.entries@;
            assert(cur.drop_last() =~= evicted);
            if old(self).wf() {
                if has_sub(evicted, cur.last().sub_id@) {
                    assert(has_sub(without_sub(old(self).entries@, idv), idv));
                    let k = choose|k: int|
                        0 <= k < without_sub(old(self).entries@, idv).len() && without_sub(
                            old(self).entries@,
                            idv,
                        )[k].sub_id@ == idv;
                    assert(false);
                }
                if has_handle(evicted, cur.last().handle) {
                    let k = choose|k: int|
                        0 <= k < evicted.len() && evicted[k].handle == cur.last().handle;
                    assert(false);
                }
            }
        }
    }

    /// Remove a subscription's bookkeeping, returning its store handle if
    /// one was bound.
    pub fn remove(&mut self, sub_id: &str) -> (r: Option<u64>)
        ensures
            final(self).entries@ == without_sub(old(self).entries@, sub_id@),
            r == lookup_sub(old(self).entries@, sub_id@),
            old(self).wf() ==> final(self).wf(),
    {
        proof {
            lemma_without_sub(self.entries@, sub_id@);
        }
        let r = self.handle_for(sub_id);
        self.evict(sub_id);
        r
    }

    /// The store handle bound to this id, if any.
    pub fn handle_for(&self, sub_id: &str) -> (r: Option<u64>)
        ensures
            r == lookup_sub(self.entries@, sub_id@),
    {
        let n = self.entries.len();
        let mut i: usize = 0;
        proof {
            assert(self.entries@.subrange(0, n as int) =~= self.entries@);
        }
        while i < n
            invariant
                n == self.entries@.len(),
                i <= n,
                lookup_sub(self.entries@, sub_id@) == lookup_sub(
                    self.entries@.subrange(i as int, n as int),
                    sub_id@,
                ),
            decreases n - i,
        {
            let ghost pre = self.entries@.subrange(i as int, n as int);
            if str_eq(self.entries[i].sub_id.as_str(), sub_id) {
                proof {
                    assert(pre[0] == self.entries@[i as int]);
                }
                return Some(self.entries[i].handle);
            }
            proof {
                assert(pre[0] == self.entries@[i as int]);
                assert(pre.drop_first() =~= self.entries@.subrange(i + 1, n as int));
            }
            i = i + 1;
        }
        proof {
            assert(self.entries@.subrange(n as int, n as int).len() == 0);
        }
        None
    }

    /// The subscription id bound to the first binding with this store
    /// handle, if any: the reverse direction of the same table, inverse to
    /// [`SubscriptionTable::handle_for`] by [`lemma_table_reversible`].
    pub fn sub_id_for(&self, handle: u64) -> (r: Option<&String>)
        ensures
            match r {
                Some(s) => lookup_handle(self.entries@, handle) == Some(*s),
                None => lookup_handle(self.entries@, handle) is None,
            },
    {
        let n = self.entries.len();
        let mut i: usize = 0;
        proof {
            assert(self.entries@.subrange(0, n as int) =~= self.entries@);
        }
        while i < n
            invariant
                n == self.entries@.len(),
                i <= n,
                lookup_handle(self.entries@, handle) == lookup_handle(
                    self.entries@.subrange(i as int, n as int),
                    handle,
                ),
            decreases n - i,
        {
            let ghost pre = self.entries@.subrange(i as int, n as int);
            if self.entries[i].handle == handle {
                proof {
                    assert(pre[0] == self.entries@[i as int]);
                }
                return Some(&self.entries[i].sub_id);
            }
            proof {
                assert(pre[0] == self.entries@[i as int]);
                assert(pre.drop_first() =~= self.entries@.subrange(i + 1, n as int));
            }
            i = i + 1;
        }
        proof {
            assert(self.entries@.subrange(n as int, n as int).len() == 0);
        }
        None
    }
}

/// Tear a subscription down: drop its bookkeeping and produce the CLOSE
/// frame to send to every relay.  Frames already queued for the removed id
/// are dropped downstream once no binding is found; that is not an error.
pub fn handle_unsubscribe(subs: &mut SubscriptionTable, id: String) -> (frame: OutboundFrame)
    ensures
        final(subs).entries@ == without_sub(old(subs).entries@, id@),
        old(subs).wf() ==> final(subs).wf(),
        frame == (OutboundFrame::CloseSub { sub_id: id }),
{
    subs.remove(id.as_str());
    OutboundFrame::CloseSub { sub_id: id }
}

} // verus!
