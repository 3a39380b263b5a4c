//! Requests to the key-value store.
//!
//! The library decides what is written and what a read means; the store itself is driven by
//! the caller. A store is modelled as a map from keys to values.

use crate::byte_image;
use crate::words;
use vstd::prelude::*;

verus! {

/// What a store holds.
pub type Contents = Map<Seq<u8>, Seq<u8>>;

/// A change of one entry of a store.
pub enum Change {
    Put { key: Seq<u8>, value: Seq<u8> },
    Delete { key: Seq<u8> },
}

impl Change {
    /// The entry that the change concerns.
    pub open spec fn key(self) -> Seq<u8> {
        match self {
            Change::Put { key, value } => key,
            Change::Delete { key } => key,
        }
    }

    /// The store after the change.
    pub open spec fn apply(self, store: Contents) -> Contents {
        match self {
            Change::Put { key, value } => store.insert(key, value),
            Change::Delete { key } => store.remove(key),
        }
    }
}

/// The store after `changes`, made in order.
pub open spec fn apply_all(changes: Seq<Change>, store: Contents) -> Contents
    decreases changes.len(),
{
    if changes.len() == 0 {
        store
    } else {
        changes.last().apply(apply_all(changes.drop_last(), store))
    }
}

/// What a read of `key` returns.
pub open spec fn lookup(store: Contents, key: Seq<u8>) -> Option<Seq<u8>> {
    if store.contains_key(key) {
        Some(store[key])
    } else {
        None
    }
}

/// A write that is to be made to a store.
#[derive(Clone, Debug, PartialEq, Eq)]
pub enum StoreOp {
    /// Store `value` under `key`, over what was there.
    Put { key: Vec<u8>, value: Vec<u8> },
    /// Remove the entry of `key`, if there is one.
    Delete { key: Vec<u8> },
}

impl View for StoreOp {
    type V = Change;

    open spec fn view(&self) -> Change {
        match self {
            StoreOp::Put { key, value } => Change::Put { key: key@, value: value@ },
            StoreOp::Delete { key } => Change::Delete { key: key@ },
        }
    }
}

/// The answer to a read, as plain bytes.
pub open spec fn reply_bytes(reply: Option<&[u8]>) -> Option<Seq<u8>> {
    match reply {
        Some(bytes) => Some(bytes@),
        None => None,
    }
}

/// The key of the `i`-th vector: the bytes of `i` as a `usize` of the machine.
pub open spec fn key_of(i: nat) -> Seq<u8> {
    byte_image::native_bytes(i, usize::BITS as nat / 8)
}

/// The key of the `i`-th vector.
pub fn index_key(i: usize) -> (key: Vec<u8>)
    ensures
        key@ == key_of(i as nat),
{
    words::usize_to_bytes(i)
}

/// Different vectors have different keys.
pub proof fn lemma_keys_distinct(i: nat, j: nat)
    requires
        i <= usize::MAX,
        j <= usize::MAX,
    ensures
        key_of(i) == key_of(j) ==> i == j,
{
    reveal_with_fuel(byte_image::byte_range, 9);
    byte_image::lemma_native_value_of_bytes(i, usize::BITS as nat / 8);
    byte_image::lemma_native_value_of_bytes(j, usize::BITS as nat / 8);
}

} // verus!
