//! What a value with metadata offers.
use crate::symbol::Symbol;
use crate::types::List;
use crate::types::PersistentMap;
use crate::types::Vector;
use crate::value::ValueView;
use crate::var::Var;
use vstd::prelude::*;

verus! {

/// A value that has metadata.
pub trait IMeta {
    /// Whether the value keeps the metadata it is given. The collections do not:
    /// their metadata is always empty.
    spec fn keeps_meta(&self) -> bool;

    /// The metadata that the value keeps.
    spec fn kept_meta(&self) -> PersistentMap;

    /// The value's metadata: what it keeps, or the empty map.
    fn meta(&self) -> (r: PersistentMap)
        ensures
            self.keeps_meta() ==> r == self.kept_meta(),
            !self.keeps_meta() ==> r@ == Map::<ValueView, ValueView>::empty() && r.size() == 0,
    ;
}

impl IMeta for List {
    open spec fn keeps_meta(&self) -> bool {
        false
    }

    open spec fn kept_meta(&self) -> PersistentMap {
        arbitrary()
    }

    fn meta(&self) -> (r: PersistentMap) {
        PersistentMap::empty()
    }
}

impl IMeta for Vector {
    open spec fn keeps_meta(&self) -> bool {
        false
    }

    open spec fn kept_meta(&self) -> PersistentMap {
        arbitrary()
    }

    fn meta(&self) -> (r: PersistentMap) {
        PersistentMap::empty()
    }
}

impl IMeta for PersistentMap {
    open spec fn keeps_meta(&self) -> bool {
        false
    }

    open spec fn kept_meta(&self) -> PersistentMap {
        arbitrary()
    }

    fn meta(&self) -> (r: PersistentMap) {
        PersistentMap::empty()
    }
}

impl IMeta for Symbol {
    open spec fn keeps_meta(&self) -> bool {
        true
    }

    open spec fn kept_meta(&self) -> PersistentMap {
        self.meta
    }

    fn meta(&self) -> (r: PersistentMap) {
        self.meta.clone()
    }
}

impl IMeta for Var {
    open spec fn keeps_meta(&self) -> bool {
        true
    }

    open spec fn kept_meta(&self) -> PersistentMap {
        self.meta
    }

    fn meta(&self) -> (r: PersistentMap) {
        self.meta.clone()
    }
}

} // verus!
