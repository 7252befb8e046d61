//! What a value offers whose metadata can be replaced.
use crate::symbol::Symbol;
use crate::traits::imeta::IMeta;
use crate::types::List;
use crate::types::PersistentMap;
use crate::types::Vector;
use vstd::prelude::*;

verus! {

/// A value of which a copy with other metadata can be made.
pub trait IObj: IMeta + Sized {
    /// What the copy with metadata `meta` is.
    spec fn with_meta_spec(&self, meta: PersistentMap) -> Self;

    /// A copy of the value with `meta` as its metadata. A collection, which
    /// keeps no metadata, gives a copy of itself.
    fn with_meta(&self, meta: PersistentMap) -> (r: Self)
        ensures
            r == self.with_meta_spec(meta),
    ;
}

impl IObj for List {
    open spec fn with_meta_spec(&self, meta: PersistentMap) -> Self {
        *self
    }

    fn with_meta(&self, meta: PersistentMap) -> (r: Self) {
        self.clone()
    }
}

impl IObj for Vector {
    open spec fn with_meta_spec(&self, meta: PersistentMap) -> Self {
        *self
    }

    fn with_meta(&self, meta: PersistentMap) -> (r: Self) {
        self.clone()
    }
}

impl IObj for PersistentMap {
    open spec fn with_meta_spec(&self, meta: PersistentMap) -> Self {
        *self
    }

    fn with_meta(&self, meta: PersistentMap) -> (r: Self) {
        self.clone()
    }
}

impl IObj for Symbol {
    open spec fn with_meta_spec(&self, meta: PersistentMap) -> Self {
        Symbol { name: self.name, ns: self.ns, meta }
    }

    fn with_meta(&self, meta: PersistentMap) -> (r: Self) {
        Symbol::with_meta(self, meta)
    }
}

} // verus!
