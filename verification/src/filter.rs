//! Filter translation: from a wire filter object to the engine's normalized
//! query representation.
//!
//! Translation is field-by-field and total over objects: a structurally
//! invalid field (wrong type, wrong-length or non-hex key) is skipped
//! individually and never fails the whole filter.  An object in which no
//! field is recognized still translates, to an empty filter that matches
//! broadly.  Only a wire value that is not an object at all yields no filter.

use vstd::prelude::*;
use crate::Key;
use crate::hexcode::{is_hex64, hex_key, decode_hex_key};
use crate::wire::{WireItem, WireValue, WireEntry, WireFilter, lookup, find_entry};

verus! {

/// One generic tag constraint: a single-character tag name and the set of
/// values the tag must take.
pub struct TagQuery {
    pub tag: char,
    pub values: Vec<String>,
}

/// The engine's normalized query: sets of 32-byte keys, kinds, generic tag
/// values, an optional time window and an optional result-count limit.  A
/// set field is present only when at least one of its wire entries was
/// valid; a filter with no constraints at all is still valid.
pub struct Filter {
    pub ids: Option<Vec<Key>>,
    pub authors: Option<Vec<Key>>,
    pub kinds: Option<Vec<u64>>,
    pub events: Option<Vec<Key>>,
    pub pubkeys: Option<Vec<Key>>,
    pub tags: Vec<TagQuery>,
    pub since: Option<u64>,
    pub until: Option<u64>,
    pub limit: Option<u64>,
}

/// The keys decoded from the valid 64-hex-digit strings among `items`, in
/// order; every other element is dropped.
pub open spec fn hex_keys_of(items: Seq<WireItem>) -> Seq<Seq<u8>>
    decreases items.len(),
{
    if items.len() == 0 {
        Seq::empty()
    } else {
        let rest = hex_keys_of(items.drop_last());
        match items.last() {
            WireItem::Str(s) => if is_hex64(s@) {
                rest.push(hex_key(s@))
            } else {
                rest
            },
            _ => rest,
        }
    }
}

/// The unsigned integers among `items`, in order.
pub open spec fn uints_of(items: Seq<WireItem>) -> Seq<u64>
    decreases items.len(),
{
    if items.len() == 0 {
        Seq::empty()
    } else {
        let rest = uints_of(items.drop_last());
        match items.last() {
            WireItem::UInt(n) => rest.push(n),
            _ => rest,
        }
    }
}

/// The strings among `items`, in order.
pub open spec fn strings_of(items: Seq<WireItem>) -> Seq<Seq<char>>
    decreases items.len(),
{
    if items.len() == 0 {
        Seq::empty()
    } else {
        let rest = strings_of(items.drop_last());
        match items.last() {
            WireItem::Str(s) => rest.push(s@),
            _ => rest,
        }
    }
}

/// A key-set field of the translated filter: present with the decoded keys
/// exactly when the wire object maps `key` to an array holding at least one
/// valid hex key.
pub open spec fn key_field(entries: Seq<WireEntry>, key: Seq<char>) -> Option<Seq<Seq<u8>>> {
    match lookup(entries, key) {
        Some(WireValue::Array(items)) => {
            let ks = hex_keys_of(items@);
            if ks.len() > 0 {
                Some(ks)
            } else {
                None
            }
        },
        _ => None,
    }
}

/// The kinds field: present exactly when the wire object maps `key` to an
/// array holding at least one unsigned integer.
pub open spec fn uint_field(entries: Seq<WireEntry>, key: Seq<char>) -> Option<Seq<u64>> {
    match lookup(entries, key) {
        Some(WireValue::Array(items)) => {
            let ns = uints_of(items@);
            if ns.len() > 0 {
                Some(ns)
            } else {
                None
            }
        },
        _ => None,
    }
}

/// A plain number field (`since`, `until`, `limit`): present exactly when
/// the wire object maps `key` to an unsigned integer.
pub open spec fn num_field(entries: Seq<WireEntry>, key: Seq<char>) -> Option<u64> {
    match lookup(entries, key) {
        Some(WireValue::UInt(n)) => Some(n),
        _ => None,
    }
}

/// A generic tag key: two characters, the first a `#`.  The keys `#e` and
/// `#p` are not generic: they feed only the referenced-event and
/// referenced-pubkey sets.
pub open spec fn is_generic_tag_key(k: Seq<char>) -> bool {
    k.len() == 2 && k[0] == '#' && k[1] != 'e' && k[1] != 'p'
}

/// The generic tag constraints of the wire object, in entry order: one per
/// generic tag key whose value is an array holding at least one string.
pub open spec fn tag_queries_of(entries: Seq<WireEntry>) -> Seq<(char, Seq<Seq<char>>)>
    decreases entries.len(),
{
    if entries.len() == 0 {
        Seq::empty()
    } else {
        let rest = tag_queries_of(entries.drop_last());
        let e = entries.last();
        if is_generic_tag_key(e.key@) {
            match e.value {
                WireValue::Array(items) => {
                    let vs = strings_of(items@);
                    if vs.len() > 0 {
                        rest.push((e.key@[1], vs))
                    } else {
                        rest
                    }
                },
                _ => rest,
            }
        } else {
            rest
        }
    }
}

/// View of an optional key set.
pub open spec fn opt_keys(v: Option<Vec<Key>>) -> Option<Seq<Seq<u8>>> {
    match v {
        Some(ks) => Some(ks.deep_view()),
        None => None,
    }
}

/// View of an optional kind set.
pub open spec fn opt_uints(v: Option<Vec<u64>>) -> Option<Seq<u64>> {
    match v {
        Some(ns) => Some(ns@),
        None => None,
    }
}

/// View of one tag constraint.
pub open spec fn tag_view(t: TagQuery) -> (char, Seq<Seq<char>>) {
    (t.tag, t.values.deep_view())
}

/// View of a tag constraint list.
pub open spec fn tags_view(ts: Seq<TagQuery>) -> Seq<(char, Seq<Seq<char>>)> {
    ts.map_values(|t: TagQuery| tag_view(t))
}

/// The entries of a wire filter that is an object.
pub open spec fn obj_entries(w: WireFilter) -> Seq<WireEntry> {
    match w {
        WireFilter::Obj { entries } => entries@,
        WireFilter::NotObj => Seq::empty(),
    }
}

impl Filter {
    /// An id query: every constraint of the filter reduces to an id set —
    /// ids are present and nothing else is.  Such a query is answered by
    /// point lookups and registers no live store subscription.
    pub open spec fn spec_is_id_query(&self) -> bool {
        &&& self.ids is Some
        &&& self.authors is None
        &&& self.kinds is None
        &&& self.events is None
        &&& self.pubkeys is None
        &&& self.tags@.len() == 0
        &&& self.since is None
        &&& self.until is None
        &&& self.limit is None
    }

    /// Whether this filter is the exact translation of the wire entries.
    pub open spec fn translates(&self, entries: Seq<WireEntry>) -> bool {
        &&& opt_keys(self.authors) == key_field(entries, "authors"@)
        &&& opt_keys(self.ids) == key_field(entries, "ids"@)
        &&& opt_keys(self.events) == key_field(entries, "#e"@)
        &&& opt_keys(self.pubkeys) == key_field(entries, "#p"@)
        &&& opt_uints(self.kinds) == uint_field(entries, "kinds"@)
        &&& tags_view(self.tags@) == tag_queries_of(entries)
        &&& self.since == num_field(entries, "since"@)
        &&& self.until == num_field(entries, "until"@)
        &&& self.limit == num_field(entries, "limit"@)
    }

    /// Classify this filter; see [`Filter::spec_is_id_query`].
    pub fn is_id_query(&self) -> (r: bool)
        ensures
            r == self.spec_is_id_query(),
    {
        self.ids.is_some() && self.authors.is_none() && self.kinds.is_none()
            && self.events.is_none() && self.pubkeys.is_none() && self.tags.len() == 0
            && self.since.is_none() && self.until.is_none() && self.limit.is_none()
    }
}

/// Collect the valid hex keys of a wire array.
fn collect_keys(items: &Vec<WireItem>) -> (r: Vec<Key>)
    ensures
        r.deep_view() == hex_keys_of(items@),
{
    let mut out: Vec<Key> = Vec::new();
    let mut i: usize = 0;
    proof {
        assert(items@.subrange(0, 0) =~= Seq::<WireItem>::empty());
    }
    while i < items.len()
        invariant
            i <= items@.len(),
            out.deep_view() == hex_keys_of(items@.subrange(0, i as int)),
        decreases items@.len() - i,
    {
        let ghost pre = out.deep_view();
        match &items[i] {
            WireItem::Str(s) => {
                match decode_hex_key(s.as_str()) {
                    Some(k) => {
                        let ghost kv = k@;
                        proof {
                            assert(k.deep_view() =~= k@);
                        }
                        out.push(k);
                        proof {
                            assert(out.deep_view() =~= pre.push(kv));
                        }
                    },
                    None => {},
                }
            },
            _ => {},
        }
        proof {
            assert(items@.subrange(0, i + 1).drop_last() =~= items@.subrange(0, i as int));
            assert(items@.subrange(0, i + 1).last() == items@[i as int]);
        }
        i = i + 1;
    }
    proof {
        assert(items@.subrange(0, items@.len() as int) =~= items@);
    }
    out
}

/// Collect the unsigned integers of a wire array.
fn collect_uints(items: &Vec<WireItem>) -> (r: Vec<u64>)
    ensures
        r@ == uints_of(items@),
{
    let mut out: Vec<u64> = Vec::new();
    let mut i: usize = 0;
    proof {
        assert(items@.subrange(0, 0) =~= Seq::<WireItem>::empty());
    }
    while i < items.len()
        invariant
            i <= items@.len(),
            out@ == uints_of(items@.subrange(0, i as int)),
        decreases items@.len() - i,
    {
        match &items[i] {
            WireItem::UInt(n) => {
                out.push(*n);
            },
            _ => {},
        }
        proof {
            assert(items@.subrange(0, i + 1).drop_last() =~= items@.subrange(0, i as int));
            assert(items@.subrange(0, i + 1).last() == items@[i as int]);
        }
        i = i + 1;
    }
    proof {
        assert(items@.subrange(0, items@.len() as int) =~= items@);
    }
    out
}

/// Collect the strings of a wire array.
fn collect_strings(items: &Vec<WireItem>) -> (r: Vec<String>)
    ensures
        r.deep_view() == strings_of(items@),
{
    let mut out: Vec<String> = Vec::new();
    let mut i: usize = 0;
    proof {
        assert(items@.subrange(0, 0) =~= Seq::<WireItem>::empty());
    }
    while i < items.len()
        invariant
            i <= items@.len(),
            out.deep_view() == strings_of(items@.subrange(0, i as int)),
        decreases items@.len() - i,
    {
        let ghost pre = out.deep_view();
        match &items[i] {
            WireItem::Str(s) => {
                let ghost sv = s@;
                out.push(s.clone());
                proof {
                    assert(out.deep_view() =~= pre.push(sv));
                }
            },
            _ => {},
        }
        proof {
            assert(items@.subrange(0, i + 1).drop_last() =~= items@.subrange(0, i as int));
            assert(items@.subrange(0, i + 1).last() == items@[i as int]);
        }
        i = i + 1;
    }
    proof {
        assert(items@.subrange(0, items@.len() as int) =~= items@);
    }
    out
}

/// Translate one key-set field.
fn parse_key_field(entries: &Vec<WireEntry>, key: &str) -> (r: Option<Vec<Key>>)
    ensures
        opt_keys(r) == key_field(entries@, key@),
{
    match find_entry(entries, key) {
        Some(WireValue::Array(items)) => {
            let ks = collect_keys(items);
            if ks.len() > 0 {
                Some(ks)
            } else {
                None
            }
        },
        _ => None,
    }
}

/// Translate the kinds field.
fn parse_uint_field(entries: &Vec<WireEntry>, key: &str) -> (r: Option<Vec<u64>>)
    ensures
        opt_uints(r) == uint_field(entries@, key@),
{
    match find_entry(entries, key) {
        Some(WireValue::Array(items)) => {
            let ns = collect_uints(items);
            if ns.len() > 0 {
                Some(ns)
            } else {
                None
            }
        },
        _ => None,
    }
}

/// Translate one plain number field.
fn parse_num_field(entries: &Vec<WireEntry>, key: &str) -> (r: Option<u64>)
    ensures
        r == num_field(entries@, key@),
{
    match find_entry(entries, key) {
        Some(WireValue::UInt(n)) => Some(*n),
        _ => None,
    }
}

/// Translate the generic tag constraints, walking every entry in order.
fn collect_tags(entries: &Vec<WireEntry>) -> (r: Vec<TagQuery>)
    ensures
        tags_view(r@) == tag_queries_of(entries@),
{
    let mut out: Vec<TagQuery> = Vec::new();
    let mut i: usize = 0;
    proof {
        assert(entries@.subrange(0, 0) =~= Seq::<WireEntry>::empty());
        assert(tags_view(out@) =~= Seq::<(char, Seq<Seq<char>>)>::empty());
    }
    while i < entries.len()
        invariant
            i <= entries@.len(),
            tags_view(out@) == tag_queries_of(entries@.subrange(0, i as int)),
        decreases entries@.len() - i,
    {
        let ghost pre = tags_view(out@);
        let e = &entries[i];
        let klen = e.key.as_str().unicode_len();
        if klen == 2 {
            if e.key.as_str().get_char(0) == '#' {
                let tag = e.key.as_str().get_char(1);
                if tag != 'e' && tag != 'p' {
                    match &e.value {
                        WireValue::Array(items) => {
                            let vs = collect_strings(items);
                            if vs.len() > 0 {
                                let ghost q = (tag, vs.deep_view());
                                out.push(TagQuery { tag, values: vs });
                                proof {
                                    assert(tags_view(out@) =~= pre.push(q));
                                }
                            }
                        },
                        _ => {},
                    }
                }
            }
        }
        proof {
            assert(entries@.subrange(0, i + 1).drop_last() =~= entries@.subrange(0, i as int));
            assert(entries@.subrange(0, i + 1).last() == entries@[i as int]);
        }
        i = i + 1;
    }
    proof {
        assert(entries@.subrange(0, entries@.len() as int) =~= entries@);
    }
    out
}

/// Translate a wire filter object into a normalized filter.
///
/// Translation succeeds for every object; each unrecognized or invalid field
/// is dropped individually.  Only a wire value that is not an object yields
/// `None`.
pub fn parse_filter(json: &WireFilter) -> (r: Option<Filter>)
    ensures
        r is Some <==> *json is Obj,
        r matches Some(f) ==> f.translates(obj_entries(*json)),
{
    match json {
        WireFilter::NotObj => None,
        WireFilter::Obj { entries } => {
            let authors = parse_key_field(entries, "authors");
            let ids = parse_key_field(entries, "ids");
            let events = parse_key_field(entries, "#e");
            let pubkeys = parse_key_field(entries, "#p");
            let kinds = parse_uint_field(entries, "kinds");
            let tags = collect_tags(entries);
            let since = parse_num_field(entries, "since");
            let until = parse_num_field(entries, "until");
            let limit = parse_num_field(entries, "limit");
            Some(Filter { ids, authors, kinds, events, pubkeys, tags, since, until, limit })
        },
    }
}

/// Borrow every element of a slice, in order.
pub fn to_refs<T>(v: &[T]) -> (r: Vec<&T>)
    ensures
        r@.len() == v@.len(),
        forall|i: int| 0 <= i < v@.len() ==> *r@[i] == v@[i],
{
    let mut r: Vec<&T> = Vec::new();
    let mut i: usize = 0;
    while i < v.len()
        invariant
            i <= v@.len(),
            r@.len() == i as int,
            forall|j: int| 0 <= j < i ==> *r@[j] == v@[j],
        decreases v@.len() - i,
    {
        r.push(&v[i]);
        i = i + 1;
    }
    r
}

} // verus!
