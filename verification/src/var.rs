//! Vars: the cells that hold a namespace's bindings.
use crate::symbol::Symbol;
use crate::symbol::SymbolView;
use crate::types::rc_clone;
use crate::types::PersistentMap;
use crate::value::Value;
use crate::value::ValueView;
use std::hash::Hash;
use std::hash::Hasher;
use std::rc::Rc;
use vstd::prelude::*;
use vstd::std_specs::cmp::PartialEqSpecImpl;

verus! {

/// What identifies a var: the namespace it lives in and its symbol.
pub struct VarView {
    pub ns: SymbolView,
    pub sym: SymbolView,
}

/// A storage cell for one binding of a namespace. Its namespace and symbol never
/// change; its root value and its metadata can be set anew.
#[derive(Debug)]
pub struct Var {
    pub ns: Symbol,
    pub sym: Symbol,
    pub meta: PersistentMap,
    pub root: Rc<Value>,
}

impl View for Var {
    type V = VarView;

    open spec fn view(&self) -> VarView {
        VarView { ns: self.ns@, sym: self.sym@ }
    }
}

impl Var {
    /// The metadata of the var.
    pub open spec fn meta_spec(&self) -> PersistentMap {
        self.meta
    }

    /// A new var of namespace `ns` and symbol `sym`: bound to nil, with empty
    /// metadata.
    pub fn intern(ns: Symbol, sym: Symbol) -> (r: Var)
        ensures
            r.ns == ns,
            r.sym == sym,
            *r.root == Value::Nil,
            r.meta_spec()@ == Map::<ValueView, ValueView>::empty(),
            r.meta_spec().size() == 0,
    {
        Var { ns, sym, meta: PersistentMap::empty(), root: Rc::new(Value::Nil) }
    }

    /// The value that the var is bound to.
    pub fn deref(&self) -> (r: Rc<Value>)
        ensures
            r == self.root,
    {
        rc_clone(&self.root)
    }

    /// Binds the var to `root`. Namespace, symbol and metadata stay.
    pub fn bind_root(&mut self, root: Rc<Value>)
        ensures
            final(self).root == root,
            final(self).ns == old(self).ns,
            final(self).sym == old(self).sym,
            final(self).meta_spec() == old(self).meta_spec(),
    {
        self.root = root;
    }

    /// Sets the var's metadata to `meta`. Namespace, symbol and root stay.
    pub fn set_meta(&mut self, meta: PersistentMap)
        ensures
            final(self).meta_spec() == meta,
            final(self).ns == old(self).ns,
            final(self).sym == old(self).sym,
            final(self).root == old(self).root,
    {
        self.meta = meta;
    }

    /// The var's metadata.
    pub fn meta(&self) -> (r: PersistentMap)
        ensures
            r == self.meta_spec(),
    {
        self.meta.clone()
    }

    /// Takes what a transformation of the metadata returned: a map becomes the
    /// var's metadata, anything else leaves the metadata as it was. Returns the
    /// metadata that the var has afterwards.
    pub fn alter_meta(&mut self, altered: &Value) -> (r: PersistentMap)
        ensures
            final(self).meta_spec() == (match *altered {
                Value::PersistentMap(m) => m,
                _ => old(self).meta_spec(),
            }),
            r == final(self).meta_spec(),
            final(self).ns == old(self).ns,
            final(self).sym == old(self).sym,
            final(self).root == old(self).root,
    {
        match altered {
            Value::PersistentMap(m) => {
                self.meta = m.clone();
            },
            _ => {},
        }
        self.meta.clone()
    }

    /// How the var is written: `#'` before its symbol.
    pub fn to_string(&self) -> (r: String)
        ensures
            r@ == "#'"@ + crate::symbol::symbol_text(self.sym@),
    {
        let mut out = String::from_str("#'");
        let sym = self.sym.to_string();
        out.append(sym.as_str());
        out
    }
}

impl Clone for Var {
    fn clone(&self) -> (r: Self)
        ensures
            r == *self,
    {
        Var {
            ns: self.ns.clone(),
            sym: self.sym.clone(),
            meta: self.meta.clone(),
            root: rc_clone(&self.root),
        }
    }
}

impl PartialEq for Var {
    /// Two vars are equal when namespace and symbol are; neither root nor
    /// metadata is looked at.
    fn eq(&self, other: &Self) -> (r: bool) {
        self.ns == other.ns && self.sym == other.sym
    }
}

impl PartialEqSpecImpl for Var {
    open spec fn obeys_eq_spec() -> bool {
        true
    }

    open spec fn eq_spec(&self, other: &Self) -> bool {
        self@ == other@
    }
}

impl Eq for Var {

}

impl Hash for Var {
    /// Trusted: the body is `Hash::hash` of the standard library on the pair of
    /// namespace and symbol, so that equal vars hash alike. Nothing is claimed of
    /// it.
    #[verifier::external_body]
    fn hash<H: Hasher>(&self, state: &mut H) {
        (&self.ns, &self.sym).hash(state);
    }
}

} // verus!
