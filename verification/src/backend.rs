//! The key-value stores that an index can live in.

use vstd::prelude::*;

verus! {

/// The configuration of a store of one kind.
pub trait StoreConfig {
    /// The name of the store in messages.
    spec fn backend() -> &'static str;

    /// The name of the store in messages.
    fn backend_name() -> (name: &'static str)
        ensures
            name == Self::backend(),
    ;
}

} // verus!
