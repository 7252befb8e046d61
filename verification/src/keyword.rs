//! Keywords: self-evaluating identifiers, written with a leading `:`.
use crate::symbol::interned;
use crate::symbol::interned_with_ns;
use crate::symbol::symbol_text;
use crate::symbol::Symbol;
use crate::symbol::SymbolView;
use vstd::prelude::*;
use vstd::std_specs::cmp::PartialEqSpecImpl;

verus! {

/// A keyword wraps a symbol and shares its rules for names and namespaces.
#[derive(Debug, Hash)]
pub struct Keyword {
    pub sym: Symbol,
}

impl View for Keyword {
    type V = SymbolView;

    open spec fn view(&self) -> SymbolView {
        self.sym@
    }
}

impl Keyword {
    /// The keyword's name.
    pub fn name(&self) -> (r: &str)
        ensures
            r@ == self@.name,
    {
        self.sym.name()
    }

    /// The keyword's namespace, if it has one.
    pub fn namespace(&self) -> (r: Option<&str>)
        ensures
            r is Some <==> self@.ns is Some,
            r is Some ==> r->0@ == self@.ns->0,
    {
        self.sym.namespace()
    }

    /// The keyword that `name` names; the text is split as for a symbol.
    pub fn intern(name: &str) -> (r: Keyword)
        ensures
            r@ == interned(name@),
    {
        Keyword { sym: Symbol::intern(name) }
    }

    /// The keyword of namespace `ns` and name `name`; an empty `ns` gives a
    /// keyword without namespace.
    pub fn intern_with_ns(ns: &str, name: &str) -> (r: Keyword)
        ensures
            r@ == interned_with_ns(ns@, name@),
    {
        Keyword { sym: Symbol::intern_with_ns(ns, name) }
    }

    /// How the keyword is written: a `:` before its symbol.
    pub fn to_string(&self) -> (r: String)
        ensures
            r@ == seq![':'] + symbol_text(self@),
    {
        let mut out = String::from_str(":");
        let sym = self.sym.to_string();
        out.append(sym.as_str());
        proof {
            reveal_strlit(":");
            assert(":"@ =~= seq![':']);
        }
        out
    }
}

impl Clone for Keyword {
    fn clone(&self) -> (r: Self)
        ensures
            r == *self,
    {
        Keyword { sym: self.sym.clone() }
    }
}

impl PartialEq for Keyword {
    fn eq(&self, other: &Self) -> (r: bool) {
        self.sym == other.sym
    }
}

impl PartialEqSpecImpl for Keyword {
    open spec fn obeys_eq_spec() -> bool {
        true
    }

    open spec fn eq_spec(&self, other: &Self) -> bool {
        self@ == other@
    }
}

impl Eq for Keyword {

}

} // verus!
