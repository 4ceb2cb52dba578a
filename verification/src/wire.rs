//! Model of a wire-format filter object.
//!
//! A subscribe request carries JSON filter objects.  The engine reads only a
//! fixed schema from them: arrays of strings, arrays of numbers, and plain
//! numbers, under known keys.  The driver converts each JSON value into this
//! model one element for one element; everything the schema does not
//! recognize is carried as [`WireItem::Other`] or [`WireValue::Other`] so
//! that the translator can skip it individually.

use vstd::prelude::*;
use crate::strutil::str_eq;

verus! {

/// One element of a wire array: a JSON string, a JSON number that is an
/// unsigned integer, or anything else.
pub enum WireItem {
    Str(String),
    UInt(u64),
    Other,
}

/// The value under one key of a wire filter object.
pub enum WireValue {
    Str(String),
    UInt(u64),
    Array(Vec<WireItem>),
    Other,
}

/// One key of a wire filter object together with its value.
pub struct WireEntry {
    pub key: String,
    pub value: WireValue,
}

/// A wire filter: a JSON object given as its entries in iteration order, or
/// any other JSON value, which yields no filter.
pub enum WireFilter {
    Obj { entries: Vec<WireEntry> },
    NotObj,
}

/// The value under the first entry named `key`, if any.
pub open spec fn lookup(entries: Seq<WireEntry>, key: Seq<char>) -> Option<WireValue>
    decreases entries.len(),
{
    if entries.len() == 0 {
        None
    } else if entries[0].key@ == key {
        Some(entries[0].value)
    } else {
        lookup(entries.drop_first(), key)
    }
}

/// Linear search for the first entry named `key`.
pub fn find_entry<'a>(entries: &'a Vec<WireEntry>, key: &str) -> (r: Option<&'a WireValue>)
    ensures
        match r {
            Some(v) => lookup(entries@, key@) == Some(*v),
            None => lookup(entries@, key@) is None,
        },
{
    let mut i: usize = 0;
    proof {
        assert(entries@.subrange(0, entries@.len() as int) =~= entries@);
    }
    while i < entries.len()
        invariant
            i <= entries@.len(),
            lookup(entries@, key@) == lookup(entries@.subrange(i as int, entries@.len() as int), key@),
            forall|j: int| 0 <= j < i ==> entries@[j].key@ != key@,
        decreases entries@.len() - i,
    {
        let ghost pre = entries@.subrange(i as int, entries@.len() as int);
        if str_eq(entries[i].key.as_str(), key) {
            assert(pre[0] == entries@[i as int]);
            return Some(&entries[i].value);
        }
        proof {
            assert(pre[0] == entries@[i as int]);
            assert(pre.drop_first() =~= entries@.subrange(i + 1, entries@.len() as int));
        }
        i = i + 1;
    }
    proof {
        assert(entries@.subrange(entries@.len() as int, entries@.len() as int).len() == 0);
    }
    None
}

} // verus!
