//! Namespaces and their registry.
//!
//! A namespace binds symbols to vars. Besides its own bindings it knows symbols
//! and whole namespaces that were referred into it: they are looked at only when
//! an unqualified symbol is not bound in the namespace itself.
use crate::error_message::undefined_namespace;
use crate::error_message::undefined_namespace_text;
use crate::error_message::undefined_symbol;
use crate::error_message::undefined_symbol_text;
use crate::lambda::clone_symbols;
use crate::named::has_name;
use crate::named::lemma_index_of;
use crate::named::lemma_lookup_push;
use crate::named::lemma_lookup_update;
use crate::named::lookup;
use crate::named::position;
use crate::named::Named;
use crate::symbol::interned;
use crate::symbol::Symbol;
use crate::symbol::SymbolView;
use crate::text::str_eq;
use crate::types::rc_clone;
use crate::value::Value;
use crate::value::ValueView;
use crate::var::Var;
use std::rc::Rc;
use vstd::prelude::*;

verus! {

impl Named for Var {
    open spec fn key(&self) -> Seq<char> {
        self.sym@.name
    }

    fn named(&self, name: &str) -> (r: bool) {
        str_eq(self.sym.name.as_str(), name)
    }
}

/// The symbols that were referred from one namespace.
#[derive(Debug)]
pub struct ReferredSyms {
    pub ns: Symbol,
    pub syms: Vec<Symbol>,
}

impl Named for ReferredSyms {
    open spec fn key(&self) -> Seq<char> {
        self.ns@.name
    }

    fn named(&self, name: &str) -> (r: bool) {
        str_eq(self.ns.name.as_str(), name)
    }
}

impl Clone for ReferredSyms {
    fn clone(&self) -> (r: Self)
        ensures
            r.ns == self.ns,
            r.syms@ == self.syms@,
    {
        ReferredSyms { ns: self.ns.clone(), syms: clone_symbols(&self.syms) }
    }
}

/// What a namespace falls back on: single symbols referred from other
/// namespaces, and namespaces referred as a whole, each in the order in which
/// they were added.
#[derive(Debug)]
pub struct Refers {
    pub syms: Vec<ReferredSyms>,
    pub namespaces: Vec<Symbol>,
}

/// A named set of bindings from symbols to vars.
#[derive(Debug)]
pub struct Namespace {
    pub name: Symbol,
    pub mappings: Vec<Var>,
    pub refers: Refers,
}

impl Named for Namespace {
    open spec fn key(&self) -> Seq<char> {
        self.name@.name
    }

    fn named(&self, name: &str) -> (r: bool) {
        str_eq(self.name.name.as_str(), name)
    }
}

/// Whether `var` is as a namespace named `ns` makes it for `sym`: it carries the
/// namespace's name and the symbol without its qualifier, and has no metadata.
pub open spec fn fresh_var(var: Var, ns: Symbol, sym: Symbol) -> bool {
    &&& var.ns.name == ns.name
    &&& var.ns.ns is None
    &&& var.ns.meta == ns.meta
    &&& var.sym.name == sym.name
    &&& var.sym.ns is None
    &&& var.sym.meta == sym.meta
    &&& var.meta@ == Map::<ValueView, ValueView>::empty()
    &&& var.meta.size() == 0
}

/// Whether one of `syms` has the name `name`.
pub open spec fn names_symbol(syms: Seq<Symbol>, name: Seq<char>) -> bool {
    exists|i: int| 0 <= i < syms.len() && (#[trigger] syms[i])@.name == name
}

fn has_symbol_named(syms: &Vec<Symbol>, name: &str) -> (r: bool)
    ensures
        r == names_symbol(syms@, name@),
{
    let mut i: usize = 0;
    while i < syms.len()
        invariant
            i <= syms.len(),
            forall|j: int| 0 <= j < i ==> (#[trigger] syms@[j])@.name != name@,
        decreases syms.len() - i,
    {
        if str_eq(syms[i].name.as_str(), name) {
            return true;
        }
        i += 1;
    }
    false
}

impl Namespace {
    /// The var that the namespace hands out for the cell `stored`: the cell's
    /// root and metadata, under the identity that the namespace vouches for,
    /// which is its own name and the cell's name, neither with a qualifier.
    pub open spec fn var_of(&self, stored: Var) -> Var {
        Var {
            ns: Symbol { name: self.name.name, ns: None, meta: self.name.meta },
            sym: Symbol { name: stored.sym.name, ns: None, meta: stored.sym.meta },
            meta: stored.meta,
            root: stored.root,
        }
    }

    /// The var that the namespace itself binds `name` to, if any.
    pub open spec fn binding(&self, name: Seq<char>) -> Option<Var> {
        match lookup(self.mappings@, name) {
            Some(stored) => Some(self.var_of(stored)),
            None => None,
        }
    }

    /// The var that the namespace hands out for the cell at position `j`.
    fn var_at(&self, j: usize) -> (r: Var)
        requires
            j < self.mappings@.len(),
        ensures
            r == self.var_of(self.mappings@[j as int]),
    {
        let stored = &self.mappings[j];
        Var {
            ns: self.name.unqualified(),
            sym: stored.sym.unqualified(),
            meta: stored.meta.clone(),
            root: rc_clone(&stored.root),
        }
    }

    /// A namespace named by `name` without its qualifier, with no bindings and
    /// nothing referred.
    pub fn from_sym(name: &Symbol) -> (r: Namespace)
        ensures
            r.name@ == (SymbolView { name: name@.name, ns: None }),
            r.mappings@.len() == 0,
            r.refers.syms@.len() == 0,
            r.refers.namespaces@.len() == 0,
    {
        Namespace {
            name: name.unqualified(),
            mappings: Vec::new(),
            refers: Refers { syms: Vec::new(), namespaces: Vec::new() },
        }
    }

    /// Binds the symbol named as `sym` to `val`: the var that the namespace has
    /// for the name gets `val` as its root, or a new var is made for it.
    pub fn insert(&mut self, sym: &Symbol, val: Rc<Value>)
        ensures
            final(self).name == old(self).name,
            final(self).refers == old(self).refers,
            final(self).binding(sym@.name) is Some,
            final(self).binding(sym@.name)->0.root == val,
            old(self).binding(sym@.name) matches Some(v) ==> final(self).binding(sym@.name)
                == Some(Var { root: val, ..v }),
            old(self).binding(sym@.name) is None ==> fresh_var(
                final(self).binding(sym@.name)->0,
                old(self).name,
                *sym,
            ),
            forall|other: Seq<char>|
                other != sym@.name ==> final(self).binding(other) == old(self).binding(other),
    {
        match position(&self.mappings, sym.name.as_str()) {
            Some(i) => {
                let ghost before = self.mappings@;
                let var = &mut self.mappings[i];
                var.bind_root(val);
                proof {
                    let after = self.mappings@;
                    let updated = after[i as int];
                    lemma_index_of(before, sym@.name);
                    assert(after =~= before.update(i as int, updated));
                    assert forall|other: Seq<char>|
                        lookup(after, other) == if other == sym@.name {
                            Some(updated)
                        } else {
                            lookup(before, other)
                        } by {
                        lemma_lookup_update(before, i as int, updated, other);
                    }
                }
            },
            None => {
                let ghost before = self.mappings@;
                let mut var = Var::intern(self.name.clone(), sym.unqualified());
                var.bind_root(val);
                self.mappings.push(var);
                proof {
                    assert forall|other: Seq<char>|
                        lookup(before.push(var), other) == if other == sym@.name {
                            Some(var)
                        } else {
                            lookup(before, other)
                        } by {
                        lemma_lookup_push(before, var, other);
                    }
                }
            },
        }
    }

    /// Adds `syms` to the symbols that were referred from the namespace `ns`.
    pub fn add_referred_syms(&mut self, ns: &Symbol, syms: Vec<Symbol>)
        ensures
            final(self).name == old(self).name,
            final(self).mappings == old(self).mappings,
            final(self).refers.namespaces == old(self).refers.namespaces,
            lookup(final(self).refers.syms@, ns@.name) is Some,
            lookup(final(self).refers.syms@, ns@.name)->0.syms@ == (match lookup(
                old(self).refers.syms@,
                ns@.name,
            ) {
                Some(e) => e.syms@ + syms@,
                None => syms@,
            }),
            forall|other: Seq<char>|
                other != ns@.name ==> lookup(final(self).refers.syms@, other) == lookup(
                    old(self).refers.syms@,
                    other,
                ),
    {
        match position(&self.refers.syms, ns.name.as_str()) {
            Some(i) => {
                let ghost before = self.refers.syms@;
                let mut syms = syms;
                let entry = &mut self.refers.syms[i];
                entry.syms.append(&mut syms);
                proof {
                    let after = self.refers.syms@;
                    let updated = after[i as int];
                    lemma_index_of(before, ns@.name);
                    assert(after =~= before.update(i as int, updated));
                    assert forall|other: Seq<char>|
                        lookup(after, other) == if other == ns@.name {
                            Some(updated)
                        } else {
                            lookup(before, other)
                        } by {
                        lemma_lookup_update(before, i as int, updated, other);
                    }
                }
            },
            None => {
                let ghost before = self.refers.syms@;
                let entry = ReferredSyms { ns: ns.unqualified(), syms };
                self.refers.syms.push(entry);
                proof {
                    assert forall|other: Seq<char>|
                        lookup(before.push(entry), other) == if other == ns@.name {
                            Some(entry)
                        } else {
                            lookup(before, other)
                        } by {
                        lemma_lookup_push(before, entry, other);
                    }
                }
            },
        }
    }

    /// Adds `ns` to the namespaces that were referred as a whole, unless it is
    /// among them already.
    pub fn add_referred_namespace(&mut self, ns: &Symbol)
        ensures
            final(self).name == old(self).name,
            final(self).mappings == old(self).mappings,
            final(self).refers.syms == old(self).refers.syms,
            names_symbol(final(self).refers.namespaces@, ns@.name),
            final(self).refers.namespaces@ == if names_symbol(
                old(self).refers.namespaces@,
                ns@.name,
            ) {
                old(self).refers.namespaces@
            } else {
                old(self).refers.namespaces@.push(final(self).refers.namespaces@.last())
            },
    {
        if !has_symbol_named(&self.refers.namespaces, ns.name.as_str()) {
            let added = ns.unqualified();
            self.refers.namespaces.push(added);
            assert(self.refers.namespaces@[self.refers.namespaces@.len() - 1]@.name == ns@.name);
        }
    }
}

/// What the search for a symbol ends in.
pub enum Resolution {
    /// The var that the symbol resolves to.
    Found(Var),
    /// The namespace exists and the symbol resolves to nothing in it.
    NoVar,
    /// The namespace to look in does not exist.
    NoNamespace,
}

/// The name of the namespace in which `sym` is looked up or bound, for a caller
/// whose namespace is `ns`: the symbol's own namespace if it has one, else
/// `ns`. A qualifier of `ns` is not looked at.
pub open spec fn target_ns(ns: SymbolView, sym: SymbolView) -> Seq<char> {
    match sym.ns {
        Some(n) => interned(n).name,
        None => ns.name,
    }
}

fn target_name(ns: &Symbol, sym: &Symbol) -> (r: Symbol)
    ensures
        r@ == (SymbolView { name: target_ns(ns@, sym@), ns: None }),
{
    match &sym.ns {
        Some(n) => Symbol::intern(n.as_str()).unqualified(),
        None => ns.unqualified(),
    }
}

/// The registry of all namespaces.
#[derive(Debug)]
pub struct Namespaces {
    pub spaces: Vec<Namespace>,
}

impl Namespaces {
    /// Whether a namespace named `name` exists.
    pub open spec fn has(&self, name: Seq<char>) -> bool {
        has_name(self.spaces@, name)
    }

    /// The namespace named `name`, if it exists.
    pub open spec fn space(&self, name: Seq<char>) -> Option<Namespace> {
        lookup(self.spaces@, name)
    }

    /// The var that the namespace `ns` itself binds `name` to, if any.
    pub open spec fn direct(&self, ns: Seq<char>, name: Seq<char>) -> Option<Var> {
        match self.space(ns) {
            Some(space) => space.binding(name),
            None => None,
        }
    }

    /// The first var found for `name` through the referred symbols `entries`,
    /// from entry `i` on: an entry counts where it names the symbol and the
    /// namespace it was referred from binds it.
    pub open spec fn via_referred_syms(
        &self,
        entries: Seq<ReferredSyms>,
        name: Seq<char>,
        i: int,
    ) -> Option<Var>
        decreases entries.len() - i,
    {
        if i < 0 || i >= entries.len() {
            None
        } else if names_symbol(entries[i].syms@, name) && self.direct(entries[i].key(), name)
            is Some {
            self.direct(entries[i].key(), name)
        } else {
            self.via_referred_syms(entries, name, i + 1)
        }
    }

    /// The first var found for `name` in the referred namespaces `spaces`, from
    /// position `i` on.
    pub open spec fn via_referred_namespaces(
        &self,
        spaces: Seq<Symbol>,
        name: Seq<char>,
        i: int,
    ) -> Option<Var>
        decreases spaces.len() - i,
    {
        if i < 0 || i >= spaces.len() {
            None
        } else if self.direct(spaces[i]@.name, name) is Some {
            self.direct(spaces[i]@.name, name)
        } else {
            self.via_referred_namespaces(spaces, name, i + 1)
        }
    }

    /// What `sym` resolves to for a caller whose namespace is `ns`. The binding
    /// of the target namespace itself comes first. For an unqualified symbol the
    /// referred symbols come next, and then the referred namespaces.
    pub open spec fn resolve(&self, ns: SymbolView, sym: SymbolView) -> Resolution {
        match self.space(target_ns(ns, sym)) {
            None => Resolution::NoNamespace,
            Some(space) => match space.binding(sym.name) {
                Some(var) => Resolution::Found(var),
                None => if sym.ns is Some {
                    Resolution::NoVar
                } else {
                    match self.via_referred_syms(space.refers.syms@, sym.name, 0) {
                        Some(var) => Resolution::Found(var),
                        None => match self.via_referred_namespaces(
                            space.refers.namespaces@,
                            sym.name,
                            0,
                        ) {
                            Some(var) => Resolution::Found(var),
                            None => Resolution::NoVar,
                        },
                    }
                },
            },
        }
    }

    /// The registry without namespaces.
    pub fn new() -> (r: Namespaces)
        ensures
            r.spaces@.len() == 0,
            forall|name: Seq<char>| !r.has(name),
    {
        Namespaces { spaces: Vec::new() }
    }

    /// Whether the namespace that `sym` names exists.
    pub fn has_namespace(&self, sym: &Symbol) -> (r: bool)
        ensures
            r == self.has(sym@.name),
    {
        position(&self.spaces, sym.name.as_str()).is_some()
    }

    /// Makes the namespace that `sym` names, empty, unless it exists: then
    /// nothing changes.
    pub fn create_namespace(&mut self, sym: &Symbol)
        ensures
            created(*old(self), *final(self), sym@.name),
    {
        if position(&self.spaces, sym.name.as_str()).is_none() {
            let ghost before = self.spaces@;
            let made = Namespace::from_sym(sym);
            self.spaces.push(made);
            proof {
                assert forall|other: Seq<char>|
                    lookup(before.push(made), other) == if other == sym@.name {
                        Some(made)
                    } else {
                        lookup(before, other)
                    } by {
                    lemma_lookup_push(before, made, other);
                }
                assert forall|other: Seq<char>| #[trigger]
                    self.has(other) == (old(self).has(other) || other == sym@.name) by {
                    assert(lookup(before.push(made), other) == if other == sym@.name {
                        Some(made)
                    } else {
                        lookup(before, other)
                    });
                }
                assert forall|space: Seq<char>, bound: Seq<char>| #[trigger]
                    self.direct(space, bound) == old(self).direct(space, bound) by {
                    assert(lookup(before.push(made), space) == if space == sym@.name {
                        Some(made)
                    } else {
                        lookup(before, space)
                    });
                    assert(lookup(Seq::<Var>::empty(), bound) is None);
                    assert(made.mappings@ =~= Seq::<Var>::empty());
                }
            }
        }
    }

    /// Binds `sym` to `val` in its target namespace (see `target_ns`), which is
    /// made if it does not exist. Nothing else changes.
    pub fn insert_into_namespace(&mut self, ns: &Symbol, sym: &Symbol, val: Rc<Value>)
        ensures
            inserted(*old(self), *final(self), ns@, sym@, val),
    {
        let target = target_name(ns, sym);
        let ghost t = target_ns(ns@, sym@);
        let ghost before = self.spaces@;
        match position(&self.spaces, target.name.as_str()) {
            Some(i) => {
                let space = &mut self.spaces[i];
                space.insert(sym, val);
                proof {
                    let after = self.spaces@;
                    let updated = after[i as int];
                    lemma_index_of(before, t);
                    assert(after =~= before.update(i as int, updated));
                    assert forall|other: Seq<char>|
                        lookup(after, other) == if other == t {
                            Some(updated)
                        } else {
                            lookup(before, other)
                        } by {
                        lemma_lookup_update(before, i as int, updated, other);
                    }
                    assert forall|space: Seq<char>, name: Seq<char>|
                        space != t || name != sym@.name implies #[trigger] self.direct(
                        space,
                        name,
                    ) == old(self).direct(space, name) by {
                        assert(lookup(after, space) == if space == t {
                            Some(updated)
                        } else {
                            lookup(before, space)
                        });
                    }
                    assert forall|space: Seq<char>| #[trigger]
                        self.has(space) == (old(self).has(space) || space == t) by {
                        assert(lookup(after, space) == if space == t {
                            Some(updated)
                        } else {
                            lookup(before, space)
                        });
                    }
                    assert forall|space: Seq<char>| #[trigger]
                        old(self).has(space) implies self.space(space)->0.refers
                        == old(self).space(space)->0.refers by {
                        assert(lookup(after, space) == if space == t {
                            Some(updated)
                        } else {
                            lookup(before, space)
                        });
                    }
                }
            },
            None => {
                let mut made = Namespace::from_sym(&target);
                made.insert(sym, val);
                self.spaces.push(made);
                proof {
                    assert forall|other: Seq<char>|
                        lookup(before.push(made), other) == if other == t {
                            Some(made)
                        } else {
                            lookup(before, other)
                        } by {
                        lemma_lookup_push(before, made, other);
                    }
                    assert forall|space: Seq<char>, name: Seq<char>|
                        space != t || name != sym@.name implies #[trigger] self.direct(
                        space,
                        name,
                    ) == old(self).direct(space, name) by {
                        assert(lookup(before.push(made), space) == if space == t {
                            Some(made)
                        } else {
                            lookup(before, space)
                        });
                        if space == t {
                            assert(old(self).direct(space, name) is None);
                            assert(lookup(Seq::<Var>::empty(), name) is None);
                        }
                    }
                    assert forall|space: Seq<char>| #[trigger]
                        self.has(space) == (old(self).has(space) || space == t) by {
                        assert(lookup(before.push(made), space) == if space == t {
                            Some(made)
                        } else {
                            lookup(before, space)
                        });
                    }
                    assert forall|space: Seq<char>| #[trigger]
                        old(self).has(space) implies self.space(space)->0.refers
                        == old(self).space(space)->0.refers by {
                        assert(lookup(before.push(made), space) == if space == t {
                            Some(made)
                        } else {
                            lookup(before, space)
                        });
                    }
                }
            },
        }
    }

    /// The var that the registry hands out for the cell at position `at.1` of
    /// the namespace at position `at.0`.
    pub open spec fn handed_out(&self, at: (usize, usize)) -> Var {
        self.spaces@[at.0 as int].var_of(self.spaces@[at.0 as int].mappings@[at.1 as int])
    }

    /// Whether `at` is the position of a cell of the registry.
    pub open spec fn holds(&self, at: (usize, usize)) -> bool {
        at.0 < self.spaces@.len() && at.1 < self.spaces@[at.0 as int].mappings@.len()
    }

    fn direct_at(&self, space: &str, name: &str) -> (r: Option<(usize, usize)>)
        ensures
            r is Some <==> self.direct(space@, name@) is Some,
            r is Some ==> self.holds(r->0) && self.handed_out(r->0) == self.direct(
                space@,
                name@,
            )->0,
    {
        match position(&self.spaces, space) {
            Some(i) => {
                match position(&self.spaces[i].mappings, name) {
                    Some(j) => Some((i, j)),
                    None => None,
                }
            },
            None => None,
        }
    }

    /// The var that the registry now holds under the identity of `var`, if there
    /// is one. A var that was looked up earlier can be brought up to date with
    /// it: a binding that was made since then shows in its root.
    pub fn current(&self, var: &Var) -> (r: Option<Var>)
        ensures
            r == self.direct(var.ns@.name, var.sym@.name),
    {
        match self.direct_at(var.ns.name.as_str(), var.sym.name.as_str()) {
            Some(at) => Some(self.spaces[at.0].var_at(at.1)),
            None => None,
        }
    }

    /// Where the cell of the var stands that `sym` resolves to for a caller
    /// whose namespace is `ns`, or why there is none.
    fn try_find(&self, ns: &Symbol, sym: &Symbol) -> (r: Result<(usize, usize), Value>)
        ensures
            match self.resolve(ns@, sym@) {
                Resolution::Found(var) => r is Ok && self.holds(r->Ok_0) && self.handed_out(
                    r->Ok_0,
                ) == var,
                Resolution::NoVar => r is Err && r->Err_0@ == ValueView::Condition(
                    undefined_symbol_text(sym@.name),
                ),
                Resolution::NoNamespace => r is Err && r->Err_0@ == ValueView::Condition(
                    undefined_namespace_text(target_ns(ns@, sym@)),
                ),
            },
    {
        let target = target_name(ns, sym);
        let name = sym.name.as_str();
        let i = match position(&self.spaces, target.name.as_str()) {
            Some(i) => i,
            None => {
                return Err(undefined_namespace(target.name.as_str()));
            },
        };
        let space = &self.spaces[i];
        match position(&space.mappings, name) {
            Some(j) => {
                return Ok((i, j));
            },
            None => {},
        }
        if sym.has_ns() {
            return Err(undefined_symbol(name));
        }
        let ghost entries = space.refers.syms@;
        let ghost referred = space.refers.namespaces@;
        assert(self.space(target_ns(ns@, sym@)) == Some(*space));
        assert(space.binding(name@) is None);
        let mut k: usize = 0;
        while k < space.refers.syms.len()
            invariant
                k <= space.refers.syms.len(),
                entries == space.refers.syms@,
                name@ == sym@.name,
                sym@.ns is None,
                self.space(target_ns(ns@, sym@)) == Some(*space),
                space.binding(name@) is None,
                self.via_referred_syms(entries, name@, 0) == self.via_referred_syms(
                    entries,
                    name@,
                    k as int,
                ),
            decreases space.refers.syms.len() - k,
        {
            let entry = &space.refers.syms[k];
            if has_symbol_named(&entry.syms, name) {
                match self.direct_at(entry.ns.name.as_str(), name) {
                    Some(at) => {
                        assert(self.via_referred_syms(entries, name@, 0) == Some(
                            self.handed_out(at),
                        ));
                        return Ok(at);
                    },
                    None => {},
                }
            }
            k += 1;
        }
        assert(self.via_referred_syms(entries, name@, 0) is None);
        let mut k: usize = 0;
        while k < space.refers.namespaces.len()
            invariant
                k <= space.refers.namespaces.len(),
                referred == space.refers.namespaces@,
                entries == space.refers.syms@,
                name@ == sym@.name,
                sym@.ns is None,
                self.space(target_ns(ns@, sym@)) == Some(*space),
                space.binding(name@) is None,
                self.via_referred_syms(entries, name@, 0) is None,
                self.via_referred_namespaces(referred, name@, 0) == self.via_referred_namespaces(
                    referred,
                    name@,
                    k as int,
                ),
            decreases space.refers.namespaces.len() - k,
        {
            match self.direct_at(space.refers.namespaces[k].name.as_str(), name) {
                Some(at) => {
                    assert(self.via_referred_namespaces(referred, name@, 0) == Some(
                        self.handed_out(at),
                    ));
                    return Ok(at);
                },
                None => {},
            }
            k += 1;
        }
        assert(self.via_referred_namespaces(referred, name@, 0) is None);
        Err(undefined_symbol(name))
    }

    /// The var that `sym` resolves to for a caller whose namespace is `ns`, or
    /// why there is none.
    pub fn try_get_var(&self, ns: &Symbol, sym: &Symbol) -> (r: Result<Var, Value>)
        ensures
            match self.resolve(ns@, sym@) {
                Resolution::Found(var) => r is Ok && r->Ok_0 == var,
                Resolution::NoVar => r is Err && r->Err_0@ == ValueView::Condition(
                    undefined_symbol_text(sym@.name),
                ),
                Resolution::NoNamespace => r is Err && r->Err_0@ == ValueView::Condition(
                    undefined_namespace_text(target_ns(ns@, sym@)),
                ),
            },
    {
        match self.try_find(ns, sym) {
            Ok(at) => Ok(self.spaces[at.0].var_at(at.1)),
            Err(condition) => Err(condition),
        }
    }

    /// The var that `sym` resolves to, as a value; a condition where it resolves
    /// to none.
    pub fn get_var(&self, ns: &Symbol, sym: &Symbol) -> (r: Rc<Value>)
        ensures
            match self.resolve(ns@, sym@) {
                Resolution::Found(var) => *r == Value::Var(var),
                Resolution::NoVar => r@ == ValueView::Condition(
                    undefined_symbol_text(sym@.name),
                ),
                Resolution::NoNamespace => r@ == ValueView::Condition(
                    undefined_namespace_text(target_ns(ns@, sym@)),
                ),
            },
    {
        match self.try_get_var(ns, sym) {
            Ok(var) => Rc::new(Value::Var(var)),
            Err(condition) => Rc::new(condition),
        }
    }

    /// The value that `sym` is bound to: the root of the var it resolves to; a
    /// condition where it resolves to none.
    pub fn get(&self, ns: &Symbol, sym: &Symbol) -> (r: Rc<Value>)
        ensures
            match self.resolve(ns@, sym@) {
                Resolution::Found(var) => r == var.root,
                Resolution::NoVar => r@ == ValueView::Condition(
                    undefined_symbol_text(sym@.name),
                ),
                Resolution::NoNamespace => r@ == ValueView::Condition(
                    undefined_namespace_text(target_ns(ns@, sym@)),
                ),
            },
    {
        match self.try_find(ns, sym) {
            Ok(at) => self.spaces[at.0].mappings[at.1].deref(),
            Err(condition) => Rc::new(condition),
        }
    }

    /// Adds `syms` to the symbols that the namespace named by `ns` has referred
    /// from the namespace named by `from`. The namespace `ns` is made if it does
    /// not exist.
    pub fn add_referred_syms(&mut self, ns: &Symbol, from: &Symbol, syms: Vec<Symbol>)
        ensures
            refers_symbols(*old(self), *final(self), ns@.name, from@.name, syms@),
    {
        self.create_namespace(ns);
        let ghost before = self.spaces@;
        let ghost created = *self;
        match position(&self.spaces, ns.name.as_str()) {
            Some(i) => {
                let ghost was = self.spaces@[i as int];
                let space = &mut self.spaces[i];
                space.add_referred_syms(from, syms);
                proof {
                    let after = self.spaces@;
                    let updated = after[i as int];
                    lemma_index_of(before, ns@.name);
                    assert(created.space(ns@.name) == Some(was));
                    assert(after =~= before.update(i as int, updated));
                    assert forall|other: Seq<char>|
                        lookup(after, other) == if other == ns@.name {
                            Some(updated)
                        } else {
                            lookup(before, other)
                        } by {
                        lemma_lookup_update(before, i as int, updated, other);
                    }
                    assert(self.space(ns@.name) == Some(updated));
                    assert forall|other: Seq<char>| other != ns@.name implies #[trigger] self.space(
                        other,
                    ) == old(self).space(other) by {
                        assert(lookup(after, other) == lookup(before, other));
                        assert(created.space(other) == old(self).space(other));
                    }
                    assert forall|space: Seq<char>, name: Seq<char>| #[trigger]
                        self.direct(space, name) == old(self).direct(space, name) by {
                        assert(lookup(after, space) == if space == ns@.name {
                            Some(updated)
                        } else {
                            lookup(before, space)
                        });
                        if space == ns@.name && !old(self).has(space) {
                            assert(lookup(Seq::<Var>::empty(), name) is None);
                        }
                    }
                    if !old(self).has(ns@.name) {
                        assert forall|other: Seq<char>|
                            lookup(Seq::<ReferredSyms>::empty(), other) is None by {}
                        assert(was.refers.syms@ =~= Seq::<ReferredSyms>::empty());
                        assert(was.refers.namespaces@ =~= Seq::<Symbol>::empty());
                    }
                }
            },
            None => {},
        }
    }

    /// Adds the namespace named by `referred` to those that the namespace named
    /// by `ns` has referred as a whole. Either namespace is made if it does not
    /// exist.
    pub fn add_referred_namespace(&mut self, ns: &Symbol, referred: &Symbol)
        ensures
            refers_namespace(*old(self), *final(self), ns@.name, referred@.name),
    {
        self.create_namespace(ns);
        let ghost middle = *self;
        self.create_namespace(referred);
        let ghost before = self.spaces@;
        let ghost created = *self;
        proof {
            assert forall|space: Seq<char>, name: Seq<char>| #[trigger]
                created.direct(space, name) == old(self).direct(space, name) by {
                assert(lookup(Seq::<Var>::empty(), name) is None);
                assert(middle.space(space) == old(self).space(space) || space == ns@.name);
                assert(created.space(space) == middle.space(space) || space == referred@.name);
                assert(middle.direct(space, name) == old(self).direct(space, name));
                assert(created.direct(space, name) == middle.direct(space, name));
            }
            assert forall|other: Seq<char>| #[trigger]
                created.has(other) == (old(self).has(other) || other == ns@.name || other
                    == referred@.name) by {
                assert(middle.has(other) == (old(self).has(other) || other == ns@.name));
                assert(created.has(other) == (middle.has(other) || other == referred@.name));
            }
            assert forall|other: Seq<char>| old(self).has(other) implies #[trigger] created.space(
                other,
            ) == old(self).space(other) by {
                assert(middle.has(other));
                if other != ns@.name {
                    assert(middle.space(other) == old(self).space(other));
                }
                if other != referred@.name {
                    assert(created.space(other) == middle.space(other));
                }
            }
            if !old(self).has(ns@.name) {
                assert(refers_nothing(middle.space(ns@.name)->0));
                assert(refers_nothing(created.space(ns@.name)->0));
            }
            if referred@.name != ns@.name && !old(self).has(referred@.name) {
                assert(!middle.has(referred@.name));
                assert(refers_nothing(created.space(referred@.name)->0));
            }
        }
        match position(&self.spaces, ns.name.as_str()) {
            Some(i) => {
                let ghost was = self.spaces@[i as int];
                let space = &mut self.spaces[i];
                space.add_referred_namespace(referred);
                proof {
                    let after = self.spaces@;
                    let updated = after[i as int];
                    lemma_index_of(before, ns@.name);
                    assert(created.space(ns@.name) == Some(was));
                    assert(after =~= before.update(i as int, updated));
                    assert forall|other: Seq<char>|
                        lookup(after, other) == if other == ns@.name {
                            Some(updated)
                        } else {
                            lookup(before, other)
                        } by {
                        lemma_lookup_update(before, i as int, updated, other);
                    }
                    assert(self.space(ns@.name) == Some(updated));
                    assert forall|space: Seq<char>, name: Seq<char>| #[trigger]
                        self.direct(space, name) == old(self).direct(space, name) by {
                        assert(lookup(after, space) == if space == ns@.name {
                            Some(updated)
                        } else {
                            lookup(before, space)
                        });
                        assert(created.direct(space, name) == old(self).direct(space, name));
                    }
                    assert forall|other: Seq<char>| #[trigger]
                        self.has(other) == (old(self).has(other) || other == ns@.name || other
                            == referred@.name) by {
                        assert(lookup(after, other) == if other == ns@.name {
                            Some(updated)
                        } else {
                            lookup(before, other)
                        });
                        assert(created.has(other) == (old(self).has(other) || other == ns@.name
                            || other == referred@.name));
                    }
                    assert forall|other: Seq<char>|
                        other != ns@.name && old(self).has(other) implies #[trigger] self.space(
                        other,
                    ) == old(self).space(other) by {
                        assert(lookup(after, other) == lookup(before, other));
                        assert(created.space(other) == old(self).space(other));
                    }
                    if referred@.name != ns@.name && !old(self).has(referred@.name) {
                        assert(lookup(after, referred@.name) == lookup(before, referred@.name));
                    }
                    if !old(self).has(ns@.name) {
                        assert(was.refers.syms@ =~= Seq::<ReferredSyms>::empty());
                        assert(was.refers.namespaces@ =~= Seq::<Symbol>::empty());
                    }
                }
            },
            None => {},
        }
    }
}

/// What holds of the registry `after` binding `sym` to `val` in the registry
/// `before`, for a caller whose namespace is `ns`: the target namespace exists and
/// binds the symbol's name to a var whose root is `val`. A var that was there is
/// the same var but for its root. No other binding changes, no other namespace is
/// made, and nothing that was referred changes.
pub open spec fn inserted(
    before: Namespaces,
    after: Namespaces,
    ns: SymbolView,
    sym: SymbolView,
    val: Rc<Value>,
) -> bool {
    let target = target_ns(ns, sym);
    &&& after.direct(target, sym.name) is Some
    &&& after.direct(target, sym.name)->0.root == val
    &&& before.direct(target, sym.name) matches Some(v) ==> after.direct(target, sym.name)
        == Some(Var { root: val, ..v })
    &&& before.direct(target, sym.name) is None ==> ({
        let made = after.direct(target, sym.name)->0;
        &&& made.ns@.name == target
        &&& made.sym@ == (SymbolView { name: sym.name, ns: None })
        &&& made.meta.size() == 0
    })
    &&& forall|space: Seq<char>, name: Seq<char>|
        space != target || name != sym.name ==> #[trigger] after.direct(space, name)
            == before.direct(space, name)
    &&& forall|space: Seq<char>| #[trigger]
        after.has(space) == (before.has(space) || space == target)
    &&& forall|space: Seq<char>| #[trigger]
        before.has(space) ==> after.space(space)->0.refers == before.space(space)->0.refers
    &&& !before.has(target) ==> ({
        let made = after.space(target)->0;
        made.refers.syms@.len() == 0 && made.refers.namespaces@.len() == 0
    })
}

/// What holds of the registry `after` the namespace named `name` is made in the
/// registry `before`. If it was there, nothing changes. Else it is there with
/// no bindings and nothing referred, and no other namespace and no binding
/// changes.
pub open spec fn created(before: Namespaces, after: Namespaces, name: Seq<char>) -> bool {
    &&& before.has(name) ==> after == before
    &&& after.has(name)
    &&& forall|other: Seq<char>| #[trigger]
        after.has(other) == (before.has(other) || other == name)
    &&& forall|other: Seq<char>|
        other != name ==> #[trigger] after.space(other) == before.space(other)
    &&& forall|space: Seq<char>, bound: Seq<char>| #[trigger]
        after.direct(space, bound) == before.direct(space, bound)
    &&& !before.has(name) ==> {
        let made = after.space(name)->0;
        &&& made.name@ == (SymbolView { name, ns: None })
        &&& made.mappings@.len() == 0
        &&& refers_nothing(made)
    }
}

/// What a namespace that has just been made refers to: nothing.
pub open spec fn refers_nothing(space: Namespace) -> bool {
    space.refers.syms@.len() == 0 && space.refers.namespaces@.len() == 0
}

/// What holds of the registry `after` the namespace named `ns` has referred the
/// symbols `syms` from the namespace named `from`, in the registry `before`. The
/// namespace `ns` exists. Its symbols referred from `from` are those it had
/// referred from there before, and then `syms`. What it has referred from
/// elsewhere, and the namespaces it has referred as a whole, are as they were.
/// No binding and no other namespace changes.
pub open spec fn refers_symbols(
    before: Namespaces,
    after: Namespaces,
    ns: Seq<char>,
    from: Seq<char>,
    syms: Seq<Symbol>,
) -> bool {
    let then = before.space(ns);
    &&& after.has(ns)
    &&& forall|other: Seq<char>|
        other != ns ==> #[trigger] after.space(other) == before.space(other)
    &&& forall|space: Seq<char>, name: Seq<char>| #[trigger]
        after.direct(space, name) == before.direct(space, name)
    &&& lookup(after.space(ns)->0.refers.syms@, from) is Some
    &&& lookup(after.space(ns)->0.refers.syms@, from)->0.syms@ == (match then {
        Some(space) => match lookup(space.refers.syms@, from) {
            Some(e) => e.syms@ + syms,
            None => syms,
        },
        None => syms,
    })
    &&& forall|other: Seq<char>|
        other != from ==> #[trigger] lookup(after.space(ns)->0.refers.syms@, other) == (
        match then {
            Some(space) => lookup(space.refers.syms@, other),
            None => None,
        })
    &&& after.space(ns)->0.refers.namespaces@ == (match then {
        Some(space) => space.refers.namespaces@,
        None => Seq::empty(),
    })
}

/// What holds of the registry `after` the namespace named `ns` has referred the
/// namespace named `referred` as a whole, in the registry `before`. Both
/// namespaces exist, and no other namespace is made. The namespace `referred` is
/// among those that `ns` has referred: at the end of them, if it was not among
/// them before, and else they are as they were. The symbols that `ns` has
/// referred are as they were. No binding and no other namespace changes.
pub open spec fn refers_namespace(
    before: Namespaces,
    after: Namespaces,
    ns: Seq<char>,
    referred: Seq<char>,
) -> bool {
    let then = before.space(ns);
    let now = after.space(ns)->0;
    let listed = match then {
        Some(space) => space.refers.namespaces@,
        None => Seq::empty(),
    };
    &&& forall|other: Seq<char>| #[trigger]
        after.has(other) == (before.has(other) || other == ns || other == referred)
    &&& forall|space: Seq<char>, name: Seq<char>| #[trigger]
        after.direct(space, name) == before.direct(space, name)
    &&& forall|other: Seq<char>|
        other != ns && before.has(other) ==> #[trigger] after.space(other) == before.space(
            other,
        )
    &&& referred != ns && !before.has(referred) ==> refers_nothing(after.space(referred)->0)
    &&& names_symbol(now.refers.namespaces@, referred)
    &&& now.refers.namespaces@ == (if names_symbol(listed, referred) {
        listed
    } else {
        listed.push(now.refers.namespaces@.last())
    })
    &&& now.refers.syms@ == (match then {
        Some(space) => space.refers.syms@,
        None => Seq::empty(),
    })
}

/// A var that the registry hands out for the name `name` of the namespace `ns`
/// carries that identity: its namespace is `ns` and its symbol is `name`,
/// neither with a qualifier. So the var is found again under its own identity.
pub proof fn lemma_handed_out_identity(registry: Namespaces, ns: Seq<char>, name: Seq<char>)
    requires
        registry.direct(ns, name) is Some,
    ensures
        registry.direct(ns, name)->0.ns@ == (SymbolView { name: ns, ns: None }),
        registry.direct(ns, name)->0.sym@ == (SymbolView { name, ns: None }),
        registry.direct(
            registry.direct(ns, name)->0.ns@.name,
            registry.direct(ns, name)->0.sym@.name,
        ) == registry.direct(ns, name),
{
    lemma_index_of(registry.spaces@, ns);
    let space = registry.space(ns)->0;
    lemma_index_of(space.mappings@, name);
}

/// A var found through referred symbols is the var of the name in some
/// namespace: its symbol is the name, and neither it nor its namespace has a
/// qualifier.
pub proof fn lemma_referred_syms_identity(
    registry: Namespaces,
    entries: Seq<ReferredSyms>,
    name: Seq<char>,
    i: int,
)
    requires
        registry.via_referred_syms(entries, name, i) is Some,
    ensures
        registry.via_referred_syms(entries, name, i)->0.sym@ == (SymbolView { name, ns: None }),
        registry.via_referred_syms(entries, name, i)->0.ns@.ns is None,
    decreases entries.len() - i,
{
    if 0 <= i < entries.len() {
        if names_symbol(entries[i].syms@, name) && registry.direct(entries[i].key(), name)
            is Some {
            lemma_handed_out_identity(registry, entries[i].key(), name);
        } else {
            lemma_referred_syms_identity(registry, entries, name, i + 1);
        }
    }
}

/// A var found through referred namespaces is the var of the name in one of
/// them: its symbol is the name, and neither it nor its namespace has a
/// qualifier.
pub proof fn lemma_referred_namespaces_identity(
    registry: Namespaces,
    spaces: Seq<Symbol>,
    name: Seq<char>,
    i: int,
)
    requires
        registry.via_referred_namespaces(spaces, name, i) is Some,
    ensures
        registry.via_referred_namespaces(spaces, name, i)->0.sym@ == (SymbolView {
            name,
            ns: None,
        }),
        registry.via_referred_namespaces(spaces, name, i)->0.ns@.ns is None,
    decreases spaces.len() - i,
{
    if 0 <= i < spaces.len() {
        if registry.direct(spaces[i]@.name, name) is Some {
            lemma_handed_out_identity(registry, spaces[i]@.name, name);
        } else {
            lemma_referred_namespaces_identity(registry, spaces, name, i + 1);
        }
    }
}

/// The var that a symbol resolves to carries the symbol's name, without
/// qualifier, under a namespace without qualifier. Where the target namespace
/// itself binds the name, the symbol resolves to that binding, and the var's
/// namespace is the target namespace.
pub proof fn lemma_resolved_identity(registry: Namespaces, ns: SymbolView, sym: SymbolView)
    ensures
        registry.resolve(ns, sym) matches Resolution::Found(var) ==> var.sym@ == (SymbolView {
            name: sym.name,
            ns: None,
        }) && var.ns@.ns is None,
        registry.direct(target_ns(ns, sym), sym.name) matches Some(own) ==> registry.resolve(
            ns,
            sym,
        ) == Resolution::Found(own) && own.ns@.name == target_ns(ns, sym),
{
    let target = target_ns(ns, sym);
    if registry.direct(target, sym.name) is Some {
        lemma_handed_out_identity(registry, target, sym.name);
    } else if registry.space(target) is Some {
        let space = registry.space(target)->0;
        if sym.ns is None {
            if registry.via_referred_syms(space.refers.syms@, sym.name, 0) is Some {
                lemma_referred_syms_identity(registry, space.refers.syms@, sym.name, 0);
            } else if registry.via_referred_namespaces(space.refers.namespaces@, sym.name, 0)
                is Some {
                lemma_referred_namespaces_identity(
                    registry,
                    space.refers.namespaces@,
                    sym.name,
                    0,
                );
            }
        }
    }
}

/// A var that was looked up keeps finding its cell: after a value is bound under
/// the var's own namespace and name, the registry hands out, under the var's
/// identity, the same var with that value as its root.
pub proof fn lemma_var_shows_later_binding(
    before: Namespaces,
    after: Namespaces,
    ns: SymbolView,
    sym: SymbolView,
    val: Rc<Value>,
)
    requires
        before.direct(target_ns(ns, sym), sym.name) is Some,
        inserted(before, after, ns, sym, val),
    ensures
        ({
            let looked_up = before.direct(target_ns(ns, sym), sym.name)->0;
            after.direct(looked_up.ns@.name, looked_up.sym@.name) == Some(
                Var { root: val, ..looked_up },
            )
        }),
{
    lemma_handed_out_identity(before, target_ns(ns, sym), sym.name);
}

} // verus!
