//! The environment: what symbols mean "right here".
//!
//! A main environment holds the namespaces and the current namespace. A local
//! environment, as `let` and a function call make it, holds one frame of
//! bindings on top of its parent.
use crate::error_message::undefined_namespace_text;
use crate::error_message::undefined_symbol_text;
use crate::maps::MapEntry;
use crate::namespace::created;
use crate::namespace::inserted;
use crate::namespace::refers_namespace;
use crate::namespace::refers_symbols;
use crate::namespace::target_ns;
use crate::namespace::Namespaces;
use crate::namespace::Resolution;
use crate::symbol::Symbol;
use crate::symbol::SymbolView;
use crate::types::PersistentMap;
use crate::value::Value;
use crate::value::ValueView;
use crate::var::Var;
use std::rc::Rc;
use vstd::prelude::*;

verus! {

/// The state of a main environment: the registry of namespaces and the symbol
/// of the current one.
#[derive(Debug)]
pub struct EnvironmentVal {
    pub curr_ns_sym: Symbol,
    pub namespaces: Namespaces,
}

impl EnvironmentVal {
    /// Makes `name` the current namespace, whether it exists or not.
    pub fn change_namespace(&mut self, name: Symbol)
        ensures
            final(self).curr_ns_sym == name,
            final(self).namespaces == old(self).namespaces,
    {
        self.curr_ns_sym = name;
    }

    /// Makes the namespace that `symbol` names the current one, after making it
    /// if it does not exist. An existing namespace keeps what it holds.
    pub fn change_or_create_namespace(&mut self, symbol: &Symbol)
        ensures
            final(self).curr_ns_sym@ == (SymbolView { name: symbol@.name, ns: None }),
            created(old(self).namespaces, final(self).namespaces, symbol@.name),
    {
        self.namespaces.create_namespace(symbol);
        self.curr_ns_sym = symbol.unqualified();
    }

    /// Adds `syms` to the symbols that the namespace named by `namespace_sym` has
    /// referred from the namespace named by `from`.
    pub fn add_referred_syms(&mut self, namespace_sym: &Symbol, from: &Symbol, syms: Vec<Symbol>)
        ensures
            final(self).curr_ns_sym == old(self).curr_ns_sym,
            refers_symbols(
                old(self).namespaces,
                final(self).namespaces,
                namespace_sym@.name,
                from@.name,
                syms@,
            ),
    {
        self.namespaces.add_referred_syms(namespace_sym, from, syms);
    }

    /// Adds the namespace named by `referred_namespace_sym` to those that the
    /// namespace named by `namespace_sym` has referred as a whole.
    pub fn add_referred_namespace(
        &mut self,
        namespace_sym: &Symbol,
        referred_namespace_sym: &Symbol,
    )
        ensures
            final(self).curr_ns_sym == old(self).curr_ns_sym,
            refers_namespace(
                old(self).namespaces,
                final(self).namespaces,
                namespace_sym@.name,
                referred_namespace_sym@.name,
            ),
    {
        self.namespaces.add_referred_namespace(namespace_sym, referred_namespace_sym);
    }

    /// Binds `sym` to `val` in the namespace named by `namespace_sym`, or in the
    /// symbol's own namespace where it has one.
    pub fn insert_into_namespace(&mut self, namespace_sym: &Symbol, sym: Symbol, val: Rc<Value>)
        ensures
            final(self).curr_ns_sym == old(self).curr_ns_sym,
            inserted(old(self).namespaces, final(self).namespaces, namespace_sym@, sym@, val),
    {
        self.namespaces.insert_into_namespace(namespace_sym, &sym, val);
    }

    /// Binds `sym` to `val` in the current namespace, or in the symbol's own
    /// namespace where it has one.
    pub fn insert_into_current_namespace(&mut self, sym: Symbol, val: Rc<Value>)
        ensures
            final(self).curr_ns_sym == old(self).curr_ns_sym,
            inserted(
                old(self).namespaces,
                final(self).namespaces,
                old(self).curr_ns_sym@,
                sym@,
                val,
            ),
    {
        self.namespaces.insert_into_namespace(&self.curr_ns_sym, &sym, val);
    }

    /// Whether the namespace that `namespace` names exists.
    pub fn has_namespace(&self, namespace: &Symbol) -> (r: bool)
        ensures
            r == self.namespaces.has(namespace@.name),
    {
        self.namespaces.has_namespace(namespace)
    }

    /// The var that `sym` resolves to from `namespace`, as a value; a condition
    /// where it resolves to none.
    pub fn get_var_from_namespace(&self, namespace: &Symbol, sym: &Symbol) -> (r: Rc<Value>)
        ensures
            match self.namespaces.resolve(namespace@, sym@) {
                Resolution::Found(var) => *r == Value::Var(var),
                Resolution::NoVar => r@ == ValueView::Condition(
                    undefined_symbol_text(sym@.name),
                ),
                Resolution::NoNamespace => r@ == ValueView::Condition(
                    undefined_namespace_text(target_ns(namespace@, sym@)),
                ),
            },
    {
        self.namespaces.get_var(namespace, sym)
    }

    /// The value that `sym` is bound to as seen from `namespace`; a condition
    /// where it resolves to none.
    pub fn get_from_namespace(&self, namespace: &Symbol, sym: &Symbol) -> (r: Rc<Value>)
        ensures
            match self.namespaces.resolve(namespace@, sym@) {
                Resolution::Found(var) => r == var.root,
                Resolution::NoVar => r@ == ValueView::Condition(
                    undefined_symbol_text(sym@.name),
                ),
                Resolution::NoNamespace => r@ == ValueView::Condition(
                    undefined_namespace_text(target_ns(namespace@, sym@)),
                ),
            },
    {
        self.namespaces.get(namespace, sym)
    }

    /// The symbol of the current namespace.
    pub fn get_current_namespace(&self) -> (r: Symbol)
        ensures
            r == self.curr_ns_sym,
    {
        self.curr_ns_sym.clone()
    }

    /// Makes the namespace that `symbol` names, unless it exists.
    pub fn create_namespace(&mut self, symbol: &Symbol)
        ensures
            final(self).curr_ns_sym == old(self).curr_ns_sym,
            created(old(self).namespaces, final(self).namespaces, symbol@.name),
    {
        self.namespaces.create_namespace(symbol);
    }

    /// The state that an interpreter starts in: the one namespace `user`, empty
    /// and current.
    pub fn new_main_val() -> (r: EnvironmentVal)
        ensures
            r.curr_ns_sym@ == (SymbolView { name: "user"@, ns: None }),
            forall|other: Seq<char>| #[trigger] r.namespaces.has(other) == (other == "user"@),
            forall|space: Seq<char>, name: Seq<char>| #[trigger]
                r.namespaces.direct(space, name) is None,
            crate::namespace::refers_nothing(r.namespaces.space("user"@)->0),
    {
        let curr_ns_sym = Symbol::intern("user");
        proof {
            reveal_strlit("user");
            assert(crate::symbol::slash_from("user"@, 0) == 4) by {
                reveal_with_fuel(crate::symbol::slash_from, 6);
            }
        }
        let mut namespaces = Namespaces::new();
        namespaces.create_namespace(&curr_ns_sym);
        proof {
            assert forall|space: Seq<char>, name: Seq<char>| #[trigger]
                namespaces.direct(space, name) is None by {
                assert(crate::named::lookup(Seq::<crate::var::Var>::empty(), name) is None);
                if space != "user"@ {
                    assert(!namespaces.has(space));
                }
            }
        }
        EnvironmentVal { curr_ns_sym, namespaces }
    }
}

/// What symbols mean at one place of a program.
#[derive(Debug)]
pub enum Environment {
    /// The top level: the namespaces and the current namespace.
    MainEnvironment(EnvironmentVal),
    /// One frame of local bindings on top of a parent environment.
    LocalEnvironment(Box<Environment>, PersistentMap),
}

/// Where the search for a symbol ends.
pub enum Bound {
    /// In a local frame, at a value with this view.
    Local(ValueView),
    /// In the namespaces.
    Global(Resolution),
}

/// The key under which a frame binds a symbol.
pub open spec fn frame_key(sym: SymbolView) -> ValueView {
    ValueView::Symbol(sym)
}

impl Environment {
    /// The main environment's state, which stands at the end of every chain of
    /// parents.
    pub open spec fn main_val(self) -> EnvironmentVal
        decreases self,
    {
        match self {
            Environment::MainEnvironment(val) => val,
            Environment::LocalEnvironment(parent, _) => parent.main_val(),
        }
    }

    /// The local frames, innermost first.
    pub open spec fn frames(self) -> Seq<PersistentMap>
        decreases self,
    {
        match self {
            Environment::MainEnvironment(_) => Seq::empty(),
            Environment::LocalEnvironment(parent, frame) => seq![frame] + parent.frames(),
        }
    }

    /// Where the search for `sym` ends: at the innermost frame that binds it, if
    /// it has no namespace and a frame binds it; else in the namespaces, as
    /// seen from the current namespace.
    pub open spec fn find(self, sym: SymbolView) -> Bound
        decreases self,
    {
        match self {
            Environment::MainEnvironment(val) => Bound::Global(
                val.namespaces.resolve(val.curr_ns_sym@, sym),
            ),
            Environment::LocalEnvironment(parent, frame) => if sym.ns is None
                && frame@.contains_key(frame_key(sym)) {
                Bound::Local(frame@[frame_key(sym)])
            } else {
                parent.find(sym)
            },
        }
    }

    /// Whether the value `r` answers a search for `sym` that ends at `bound`:
    /// it is the bound value, or the condition that says why there is none.
    pub open spec fn answers(self, sym: SymbolView, bound: Bound, r: Rc<Value>) -> bool {
        match bound {
            Bound::Local(v) => r@ == v,
            Bound::Global(Resolution::Found(var)) => r == var.root,
            Bound::Global(Resolution::NoVar) => r@ == ValueView::Condition(
                undefined_symbol_text(sym.name),
            ),
            Bound::Global(Resolution::NoNamespace) => r@ == ValueView::Condition(
                undefined_namespace_text(target_ns(self.main_val().curr_ns_sym@, sym)),
            ),
        }
    }

    /// As `answers`, with the var itself in place of its root.
    pub open spec fn answers_var(self, sym: SymbolView, bound: Bound, r: Rc<Value>) -> bool {
        match bound {
            Bound::Local(v) => r@ == v,
            Bound::Global(Resolution::Found(var)) => *r == Value::Var(var),
            Bound::Global(Resolution::NoVar) => r@ == ValueView::Condition(
                undefined_symbol_text(sym.name),
            ),
            Bound::Global(Resolution::NoNamespace) => r@ == ValueView::Condition(
                undefined_namespace_text(target_ns(self.main_val().curr_ns_sym@, sym)),
            ),
        }
    }

    /// The state of the main environment at the end of the chain.
    pub fn get_main_environment(&self) -> (r: &EnvironmentVal)
        ensures
            *r == self.main_val(),
        decreases self,
    {
        match self {
            Environment::MainEnvironment(val) => val,
            Environment::LocalEnvironment(parent, _) => parent.get_main_environment(),
        }
    }

    /// The state of the main environment at the end of the chain, to be changed
    /// in place. No frame changes with it.
    pub(crate) fn main_mut(&mut self) -> (r: &mut EnvironmentVal)
        ensures
            *r == old(self).main_val(),
            final(self).main_val() == *final(r),
            final(self).frames() == old(self).frames(),
        decreases *old(self),
    {
        match self {
            Environment::MainEnvironment(val) => val,
            Environment::LocalEnvironment(parent, _) => parent.main_mut(),
        }
    }

    /// Whether the namespace that `symbol` names exists.
    pub fn has_namespace(&self, symbol: &Symbol) -> (r: bool)
        ensures
            r == self.main_val().namespaces.has(symbol@.name),
    {
        self.get_main_environment().has_namespace(symbol)
    }

    /// Adds `syms` to the symbols that the namespace named by `namespace_sym` has
    /// referred from the namespace named by `from`. No frame changes.
    pub fn add_referred_syms(&mut self, namespace_sym: &Symbol, from: &Symbol, syms: Vec<Symbol>)
        ensures
            final(self).frames() == old(self).frames(),
            final(self).main_val().curr_ns_sym == old(self).main_val().curr_ns_sym,
            refers_symbols(
                old(self).main_val().namespaces,
                final(self).main_val().namespaces,
                namespace_sym@.name,
                from@.name,
                syms@,
            ),
    {
        self.main_mut().add_referred_syms(namespace_sym, from, syms);
    }

    /// Adds `syms` to the symbols that the current namespace has referred from
    /// the namespace named by `from`. No frame changes.
    pub fn add_referred_syms_to_curr_namespace(&mut self, from: &Symbol, syms: Vec<Symbol>)
        ensures
            final(self).frames() == old(self).frames(),
            final(self).main_val().curr_ns_sym == old(self).main_val().curr_ns_sym,
            refers_symbols(
                old(self).main_val().namespaces,
                final(self).main_val().namespaces,
                old(self).main_val().curr_ns_sym@.name,
                from@.name,
                syms@,
            ),
    {
        let namespace_sym = self.get_current_namespace();
        self.main_mut().add_referred_syms(&namespace_sym, from, syms);
    }

    /// Adds the namespace named by `referred_namespace_sym` to those that the
    /// current namespace has referred as a whole; it is made if it does not
    /// exist. No frame and no binding changes.
    pub fn add_referred_namespace_to_curr_namespace(&mut self, referred_namespace_sym: &Symbol)
        ensures
            final(self).frames() == old(self).frames(),
            final(self).main_val().curr_ns_sym == old(self).main_val().curr_ns_sym,
            refers_namespace(
                old(self).main_val().namespaces,
                final(self).main_val().namespaces,
                old(self).main_val().curr_ns_sym@.name,
                referred_namespace_sym@.name,
            ),
    {
        let namespace_sym = self.get_current_namespace();
        self.main_mut().add_referred_namespace(&namespace_sym, referred_namespace_sym);
    }

    /// Makes the namespace that `symbol` names the current one, after making it
    /// if it does not exist. No frame and no binding changes.
    pub fn change_or_create_namespace(&mut self, symbol: &Symbol)
        ensures
            final(self).frames() == old(self).frames(),
            final(self).main_val().curr_ns_sym@ == (SymbolView { name: symbol@.name, ns: None }),
            created(
                old(self).main_val().namespaces,
                final(self).main_val().namespaces,
                symbol@.name,
            ),
    {
        self.main_mut().change_or_create_namespace(symbol);
    }

    /// The symbol of the current namespace.
    pub fn get_current_namespace(&self) -> (r: Symbol)
        ensures
            r == self.main_val().curr_ns_sym,
    {
        self.get_main_environment().get_current_namespace()
    }

    /// The name of the current namespace.
    pub fn get_current_namespace_name(&self) -> (r: String)
        ensures
            r@ == self.main_val().curr_ns_sym@.name,
    {
        self.get_main_environment().curr_ns_sym.name.clone()
    }

    /// The environment that an interpreter starts in: a main environment with
    /// the one namespace `user`, empty and current.
    pub fn new_main_environment() -> (r: Environment)
        ensures
            r is MainEnvironment,
            r.frames().len() == 0,
            r.main_val().curr_ns_sym@ == (SymbolView { name: "user"@, ns: None }),
            forall|other: Seq<char>| #[trigger]
                r.main_val().namespaces.has(other) == (other == "user"@),
            forall|space: Seq<char>, name: Seq<char>| #[trigger]
                r.main_val().namespaces.direct(space, name) is None,
            crate::namespace::refers_nothing(r.main_val().namespaces.space("user"@)->0),
    {
        Environment::MainEnvironment(EnvironmentVal::new_main_val())
    }

    /// A local environment with an empty frame on top of `outer_environment`.
    pub fn new_local_environment(outer_environment: Environment) -> (r: Environment)
        ensures
            r matches Environment::LocalEnvironment(parent, frame) && *parent
                == outer_environment && frame@ == Map::<ValueView, ValueView>::empty(),
            r.main_val() == outer_environment.main_val(),
            r.frames().len() == outer_environment.frames().len() + 1,
            r.frames().subrange(1, r.frames().len() as int) == outer_environment.frames(),
    {
        let r = Environment::LocalEnvironment(Box::new(outer_environment), PersistentMap::empty());
        assert(r.frames().subrange(1, r.frames().len() as int) =~= outer_environment.frames());
        r
    }

    /// A main environment without namespaces, to stand where one was taken out.
    pub(crate) fn placeholder() -> (r: Environment)
        ensures
            r is MainEnvironment,
            r.frames().len() == 0,
            r.main_val().namespaces.spaces@.len() == 0,
            forall|name: Seq<char>| !r.main_val().namespaces.has(name),
            r.main_val().curr_ns_sym@ == (SymbolView { name: Seq::<char>::empty(), ns: None }),
            r.main_val().curr_ns_sym.meta@ == Map::<ValueView, ValueView>::empty(),
            r.main_val().curr_ns_sym.meta.size() == 0,
    {
        proof {
            reveal_strlit("");
            assert(""@ =~= Seq::<char>::empty());
        }
        Environment::MainEnvironment(
            EnvironmentVal { curr_ns_sym: Symbol::intern(""), namespaces: Namespaces::new() },
        )
    }

    /// Puts the frame `frame` on top of the environment.
    pub fn enter(&mut self, frame: PersistentMap)
        ensures
            *final(self) == Environment::LocalEnvironment(Box::new(*old(self)), frame),
            final(self).main_val() == old(self).main_val(),
            final(self).frames() == seq![frame] + old(self).frames(),
    {
        let mut outer = Environment::placeholder();
        core::mem::swap(self, &mut outer);
        *self = Environment::LocalEnvironment(Box::new(outer), frame);
    }

    /// Takes the innermost frame off a local environment.
    pub fn leave(&mut self)
        requires
            *old(self) is LocalEnvironment,
        ensures
            *final(self) == *(*old(self))->LocalEnvironment_0,
            final(self).main_val() == old(self).main_val(),
            seq![(*old(self))->LocalEnvironment_1] + final(self).frames() == old(self).frames(),
    {
        let mut inner = Environment::placeholder();
        core::mem::swap(self, &mut inner);
        match inner {
            Environment::LocalEnvironment(parent, _) => {
                *self = *parent;
            },
            Environment::MainEnvironment(_) => {},
        }
    }

    /// Takes the main environment's state out of the chain and leaves one
    /// without namespaces in its place. No frame changes.
    pub(crate) fn take_main(&mut self) -> (r: EnvironmentVal)
        ensures
            r == old(self).main_val(),
            final(self).frames() == old(self).frames(),
            final(self).main_val().namespaces.spaces@.len() == 0,
    {
        let mut taken = EnvironmentVal {
            curr_ns_sym: Symbol::intern(""),
            namespaces: Namespaces::new(),
        };
        core::mem::swap(self.main_mut(), &mut taken);
        taken
    }

    /// Puts `val` in the place of the main environment's state. No frame
    /// changes.
    pub(crate) fn put_main(&mut self, val: EnvironmentVal)
        ensures
            final(self).main_val() == val,
            final(self).frames() == old(self).frames(),
    {
        let mut given = val;
        core::mem::swap(self.main_mut(), &mut given);
    }

    /// The main environment's state, given up by an environment that is no
    /// longer needed.
    pub fn into_main(self) -> (r: EnvironmentVal)
        ensures
            r == self.main_val(),
        decreases self,
    {
        match self {
            Environment::MainEnvironment(val) => val,
            Environment::LocalEnvironment(parent, _) => (*parent).into_main(),
        }
    }

    /// The local frames, outermost first, each shared and none copied.
    pub fn capture(&self) -> (r: Vec<PersistentMap>)
        ensures
            r@ == self.frames().reverse(),
        decreases self,
    {
        match self {
            Environment::MainEnvironment(_) => {
                assert(self.frames().reverse() =~= Seq::<PersistentMap>::empty());
                Vec::new()
            },
            Environment::LocalEnvironment(parent, frame) => {
                let mut outer = parent.capture();
                outer.push(frame.clone());
                assert(self.frames().reverse() =~= parent.frames().reverse().push(*frame));
                outer
            },
        }
    }

    /// Gives up the innermost frame: the parent of a local environment, and a
    /// main environment as it is.
    pub fn into_outer(self) -> (r: Environment)
        ensures
            r == (match self {
                Environment::MainEnvironment(_) => self,
                Environment::LocalEnvironment(parent, _) => *parent,
            }),
    {
        match self {
            Environment::MainEnvironment(val) => Environment::MainEnvironment(val),
            Environment::LocalEnvironment(parent, _) => *parent,
        }
    }

    /// Binds `sym` to `val` in the namespace named by `namespace`, or in the
    /// symbol's own namespace where it has one. No frame changes.
    pub fn insert_into_namespace(&mut self, namespace: &Symbol, sym: Symbol, val: Rc<Value>)
        ensures
            final(self).frames() == old(self).frames(),
            final(self).main_val().curr_ns_sym == old(self).main_val().curr_ns_sym,
            inserted(
                old(self).main_val().namespaces,
                final(self).main_val().namespaces,
                namespace@,
                sym@,
                val,
            ),
    {
        self.main_mut().insert_into_namespace(namespace, sym, val);
    }

    /// Binds `sym` to `val` in the current namespace, or in the symbol's own
    /// namespace where it has one, however many local frames lie on top of the
    /// main environment. No frame changes.
    pub fn insert_into_current_namespace(&mut self, sym: Symbol, val: Rc<Value>)
        ensures
            final(self).frames() == old(self).frames(),
            final(self).main_val().curr_ns_sym == old(self).main_val().curr_ns_sym,
            inserted(
                old(self).main_val().namespaces,
                final(self).main_val().namespaces,
                old(self).main_val().curr_ns_sym@,
                sym@,
                val,
            ),
    {
        self.main_mut().insert_into_current_namespace(sym, val);
    }

    /// What holds of the environment `after` an `insert` of `val` under `sym`
    /// into the environment `before`: a main environment has the binding in its
    /// namespaces, a local one in its own frame, and the parent is untouched.
    pub open spec fn after_insert(
        before: Environment,
        after: Environment,
        sym: SymbolView,
        val: Rc<Value>,
    ) -> bool {
        match before {
            Environment::MainEnvironment(old_val) => {
                &&& after is MainEnvironment
                &&& after.main_val().curr_ns_sym == old_val.curr_ns_sym
                &&& inserted(
                    old_val.namespaces,
                    after.main_val().namespaces,
                    old_val.curr_ns_sym@,
                    sym,
                    val,
                )
            },
            Environment::LocalEnvironment(old_parent, old_frame) => {
                &&& after matches Environment::LocalEnvironment(parent, frame)
                &&& parent == old_parent
                &&& frame@ == old_frame@.insert(frame_key(sym), val@)
            },
        }
    }

    /// Binds `sym` to `val` in the environment around you: in the own frame of a
    /// local environment, where a later binding of a symbol takes the place of
    /// an earlier one, and in the current namespace at the top level.
    pub fn insert(&mut self, sym: Symbol, val: Rc<Value>)
        ensures
            Environment::after_insert(*old(self), *final(self), sym@, val),
    {
        match self {
            Environment::MainEnvironment(env_val) => {
                env_val.insert_into_current_namespace(sym, val);
            },
            Environment::LocalEnvironment(_, frame) => {
                let key = Rc::new(Value::Symbol(sym));
                let bound = frame.conj(MapEntry::new(key, val));
                *frame = bound;
            },
        }
    }

    /// The var that `sym` resolves to, as a value. A symbol with a namespace is
    /// looked up in the namespaces, whatever the frames hold. A symbol without
    /// one is looked up in the frames from the innermost outwards, where it
    /// resolves to the bound value itself, and then in the namespaces. Where it
    /// resolves to nothing the result is a condition.
    pub fn get_var(&self, sym: &Symbol) -> (r: Rc<Value>)
        ensures
            self.answers_var(sym@, self.find(sym@), r),
        decreases self,
    {
        match self {
            Environment::MainEnvironment(env_val) => {
                match sym.namespace() {
                    Some(ns) => env_val.get_var_from_namespace(&Symbol::intern(ns), sym),
                    None => env_val.get_var_from_namespace(&env_val.curr_ns_sym, sym),
                }
            },
            Environment::LocalEnvironment(parent_env, mappings) => {
                if sym.has_ns() {
                    proof {
                        lemma_qualified_lookup_bypasses_frames(*self, sym@);
                        lemma_qualified_lookup_bypasses_frames(**parent_env, sym@);
                    }
                    parent_env.get_var(sym)
                } else {
                    let key = Rc::new(Value::Symbol(sym.clone()));
                    match mappings.lookup(&key) {
                        Some(val) => val,
                        None => parent_env.get_var(sym),
                    }
                }
            },
        }
    }

    /// The value that `var` is bound to now: the root of the var that the
    /// namespaces hold under its identity, whatever the root was when `var` was
    /// looked up; and the root of `var` itself where the namespaces hold no such
    /// var.
    pub fn deref_var(&self, var: &Var) -> (r: Rc<Value>)
        ensures
            r == (match self.main_val().namespaces.direct(var.ns@.name, var.sym@.name) {
                Some(live) => live.root,
                None => var.root,
            }),
    {
        match self.get_main_environment().namespaces.current(var) {
            Some(live) => live.deref(),
            None => var.deref(),
        }
    }

    /// The value that `sym` is bound to, closest around you. A symbol with a
    /// namespace is looked up in the namespaces, whatever the frames hold. A
    /// symbol without one is looked up in the frames from the innermost
    /// outwards, and then in the namespaces. Where it resolves to nothing the
    /// result is a condition.
    pub fn get(&self, sym: &Symbol) -> (r: Rc<Value>)
        ensures
            self.answers(sym@, self.find(sym@), r),
        decreases self,
    {
        match self {
            Environment::MainEnvironment(env_val) => {
                match sym.namespace() {
                    Some(ns) => env_val.get_from_namespace(&Symbol::intern(ns), sym),
                    None => env_val.get_from_namespace(&env_val.curr_ns_sym, sym),
                }
            },
            Environment::LocalEnvironment(parent_env, mappings) => {
                if sym.has_ns() {
                    proof {
                        lemma_qualified_lookup_bypasses_frames(*self, sym@);
                    }
                    self.get_main_environment().get_from_namespace(
                        &self.get_main_environment().curr_ns_sym,
                        sym,
                    )
                } else {
                    let key = Rc::new(Value::Symbol(sym.clone()));
                    match mappings.lookup(&key) {
                        Some(val) => val,
                        None => parent_env.get(sym),
                    }
                }
            },
        }
    }
}

/// A symbol with a namespace resolves through the namespaces, whatever the local
/// frames bind: its search ends where it would end at the main environment.
pub proof fn lemma_qualified_lookup_bypasses_frames(env: Environment, sym: SymbolView)
    requires
        sym.ns is Some,
    ensures
        env.find(sym) == Bound::Global(
            env.main_val().namespaces.resolve(env.main_val().curr_ns_sym@, sym),
        ),
    decreases env,
{
    match env {
        Environment::MainEnvironment(_) => {},
        Environment::LocalEnvironment(parent, _) => {
            lemma_qualified_lookup_bypasses_frames(*parent, sym);
        },
    }
}

/// After `insert` binds a symbol to a value, the search for the symbol ends at
/// that value: in the frame of a local environment for a symbol without
/// namespace, and in the namespaces of a main environment, at the var of the
/// symbol's name in the namespace that the symbol was bound in.
pub proof fn lemma_insert_then_get(
    before: Environment,
    after: Environment,
    sym: SymbolView,
    val: Rc<Value>,
)
    requires
        Environment::after_insert(before, after, sym, val),
        before is LocalEnvironment ==> sym.ns is None,
    ensures
        match after.find(sym) {
            Bound::Local(v) => v == val@,
            Bound::Global(Resolution::Found(var)) => var.root == val && var.sym@ == (SymbolView {
                name: sym.name,
                ns: None,
            }) && var.ns@ == (SymbolView {
                name: target_ns(after.main_val().curr_ns_sym@, sym),
                ns: None,
            }),
            Bound::Global(_) => false,
        },
        forall|r: Rc<Value>|
            after.answers(sym, after.find(sym), r) ==> r@ == val@,
{
    if before is MainEnvironment {
        crate::namespace::lemma_resolved_identity(
            after.main_val().namespaces,
            after.main_val().curr_ns_sym@,
            sym,
        );
    }
}

/// A binding made in the namespaces is found from under any number of local
/// frames, as long as none of them binds the symbol itself.
pub proof fn lemma_find_through_frames(env: Environment, sym: SymbolView)
    requires
        forall|i: int|
            0 <= i < env.frames().len() ==> !(#[trigger] env.frames()[i])@.contains_key(
                frame_key(sym),
            ),
    ensures
        env.find(sym) == Bound::Global(
            env.main_val().namespaces.resolve(env.main_val().curr_ns_sym@, sym),
        ),
    decreases env,
{
    match env {
        Environment::MainEnvironment(_) => {},
        Environment::LocalEnvironment(parent, frame) => {
            assert(env.frames()[0] == frame);
            assert forall|i: int| 0 <= i < parent.frames().len() implies !(
            #[trigger] parent.frames()[i])@.contains_key(frame_key(sym)) by {
                assert(env.frames()[i + 1] == parent.frames()[i]);
            }
            lemma_find_through_frames(*parent, sym);
        },
    }
}

/// One entry of the table of core bindings: a namespace, a name, and the value to
/// bind the name to.
pub struct CoreBinding {
    pub ns: &'static str,
    pub name: &'static str,
    pub value: Value,
}

/// What one entry of the table of core bindings says.
pub struct CoreEntry {
    pub ns: Seq<char>,
    pub name: Seq<char>,
    pub value: ValueView,
}

/// The entry for a function of the library.
pub open spec fn builtin_entry(name: Seq<char>, b: crate::value::Builtin) -> CoreEntry {
    CoreEntry {
        ns: "clojure.core"@,
        name,
        value: ValueView::IFn(crate::value::CallableView::Builtin(b)),
    }
}

/// The entry for a macro of the library.
pub open spec fn macro_entry(name: Seq<char>, b: crate::value::Builtin) -> CoreEntry {
    CoreEntry {
        ns: "clojure.core"@,
        name,
        value: ValueView::Macro(crate::value::CallableView::Builtin(b)),
    }
}

/// The entry for a special form.
pub open spec fn special_entry(name: Seq<char>, value: ValueView) -> CoreEntry {
    CoreEntry { ns: "clojure.core"@, name, value }
}

/// The entry for a function that is left to the host, which knows it as
/// `ns/name`.
pub open spec fn hosted_entry(ns: Seq<char>, name: Seq<char>) -> CoreEntry {
    CoreEntry {
        ns,
        name,
        value: ValueView::IFn(crate::value::CallableView::Host(ns + seq!['/'] + name)),
    }
}

/// What the core environment binds, in the order in which it is bound: the
/// primitives, macros and special forms of the library under their names in
/// `clojure.core`, and the names of the primitives that are left to the host,
/// in `clojure.core`, `Thread`, `System` and `clojure.string`.
pub open spec fn core_table() -> Seq<CoreEntry> {
    seq![
        builtin_entry("+"@, crate::value::Builtin::AddFn),
        special_entry("let"@, ValueView::LetMacro),
        special_entry("quote"@, ValueView::QuoteMacro),
        special_entry("def"@, ValueView::DefMacro),
        special_entry("fn"@, ValueView::FnMacro),
        special_entry("defmacro"@, ValueView::DefmacroMacro),
        builtin_entry("eval"@, crate::value::Builtin::EvalFn),
        builtin_entry("with-meta"@, crate::value::Builtin::WithMetaFn),
        builtin_entry("do-fn*"@, crate::value::Builtin::DoFn),
        macro_entry("do"@, crate::value::Builtin::DoMacro),
        special_entry("if"@, ValueView::IfMacro),
        macro_entry("ns"@, crate::value::Builtin::NsMacro),
        special_entry("lexical-eval"@, ValueView::LexicalEvalFn),
        builtin_entry("load-file"@, crate::value::Builtin::LoadFileFn),
        builtin_entry("nth"@, crate::value::Builtin::NthFn),
        builtin_entry("assoc"@, crate::value::Builtin::AssocFn),
        builtin_entry("get"@, crate::value::Builtin::GetFn),
        builtin_entry("map"@, crate::value::Builtin::MapFn),
        builtin_entry("concat"@, crate::value::Builtin::ConcatFn),
        builtin_entry("="@, crate::value::Builtin::EqualsFn),
        builtin_entry("type"@, crate::value::Builtin::TypeFn),
        hosted_entry("clojure.core"@, "rand"@),
        hosted_entry("clojure.core"@, "rand-int"@),
        hosted_entry("clojure.core"@, "system-newline"@),
        hosted_entry("clojure.core"@, "flush-stdout"@),
        hosted_entry("clojure.core"@, "print-string"@),
        hosted_entry("clojure.core"@, "read-line"@),
        hosted_entry("clojure.core"@, "rust-slurp"@),
        hosted_entry("Thread"@, "sleep"@),
        hosted_entry("System"@, "nanoTime"@),
        hosted_entry("System"@, "getenv"@),
        hosted_entry("clojure.core"@, "-"@),
        hosted_entry("clojure.core"@, "*"@),
        hosted_entry("clojure.core"@, "/"@),
        hosted_entry("clojure.core"@, "rem"@),
        hosted_entry("clojure.core"@, "str"@),
        hosted_entry("clojure.core"@, "meta"@),
        hosted_entry("clojure.core"@, "var-fn*"@),
        hosted_entry("clojure.core"@, "count"@),
        hosted_entry("clojure.core"@, "more"@),
        hosted_entry("clojure.core"@, "first"@),
        hosted_entry("clojure.core"@, "second"@),
        hosted_entry("clojure.core"@, "refer"@),
        hosted_entry("clojure.core"@, "lt"@),
        hosted_entry("clojure.core"@, "gt"@),
        hosted_entry("clojure.core"@, "lte"@),
        hosted_entry("clojure.core"@, "gte"@),
        hosted_entry("clojure.string"@, "reverse"@),
        hosted_entry("clojure.string"@, "join"@),
        hosted_entry("clojure.string"@, "blank?"@),
        hosted_entry("clojure.string"@, "upper-case"@),
        hosted_entry("clojure.string"@, "lower-case"@),
        hosted_entry("clojure.string"@, "starts-with?"@),
        hosted_entry("clojure.string"@, "ends-with?"@),
        hosted_entry("clojure.string"@, "includes?"@),
        hosted_entry("clojure.string"@, "trim"@),
        hosted_entry("clojure.string"@, "triml"@),
        hosted_entry("clojure.string"@, "trimr"@),
        hosted_entry("clojure.string"@, "trim-newline"@),
        hosted_entry("clojure.string"@, "split"@),
    ]
}

/// What an entry of the table says.
pub open spec fn entry_of(b: CoreBinding) -> CoreEntry {
    CoreEntry { ns: b.ns@, name: b.name@, value: b.value@ }
}

/// What the entries of a table say.
pub open spec fn entries_of(table: Seq<CoreBinding>) -> Seq<CoreEntry> {
    table.map_values(|b: CoreBinding| entry_of(b))
}

/// A function of the library.
fn builtin(name: &'static str, b: crate::value::Builtin) -> (r: CoreBinding)
    ensures
        entry_of(r) == builtin_entry(name@, b),
{
    CoreBinding { ns: "clojure.core", name, value: Value::IFn(crate::value::Callable::Builtin(b)) }
}

/// A macro of the library.
fn builtin_macro(name: &'static str, b: crate::value::Builtin) -> (r: CoreBinding)
    ensures
        entry_of(r) == macro_entry(name@, b),
{
    CoreBinding {
        ns: "clojure.core",
        name,
        value: Value::Macro(crate::value::Callable::Builtin(b)),
    }
}

/// A special form.
fn special(name: &'static str, value: Value) -> (r: CoreBinding)
    ensures
        entry_of(r) == special_entry(name@, value@),
{
    CoreBinding { ns: "clojure.core", name, value }
}

/// A function that is left to the host.
fn hosted(ns: &'static str, name: &'static str) -> (r: CoreBinding)
    ensures
        entry_of(r) == hosted_entry(ns@, name@),
{
    let mut full = String::from_str(ns);
    full.append("/");
    full.append(name);
    proof {
        reveal_strlit("/");
        assert("/"@ =~= seq!['/']);
    }
    CoreBinding { ns, name, value: Value::IFn(crate::value::Callable::Host(full)) }
}

/// The table of core bindings: what `core_table` says, entry by entry.
pub fn core_bindings() -> (r: Vec<CoreBinding>)
    ensures
        entries_of(r@) == core_table(),
{
    let mut table: Vec<CoreBinding> = Vec::new();
    table.push(builtin("+", crate::value::Builtin::AddFn));
    table.push(special("let", Value::LetMacro));
    table.push(special("quote", Value::QuoteMacro));
    table.push(special("def", Value::DefMacro));
    table.push(special("fn", Value::FnMacro));
    table.push(special("defmacro", Value::DefmacroMacro));
    table.push(builtin("eval", crate::value::Builtin::EvalFn));
    table.push(builtin("with-meta", crate::value::Builtin::WithMetaFn));
    table.push(builtin("do-fn*", crate::value::Builtin::DoFn));
    table.push(builtin_macro("do", crate::value::Builtin::DoMacro));
    table.push(special("if", Value::IfMacro));
    table.push(builtin_macro("ns", crate::value::Builtin::NsMacro));
    table.push(special("lexical-eval", Value::LexicalEvalFn));
    table.push(builtin("load-file", crate::value::Builtin::LoadFileFn));
    table.push(builtin("nth", crate::value::Builtin::NthFn));
    table.push(builtin("assoc", crate::value::Builtin::AssocFn));
    table.push(builtin("get", crate::value::Builtin::GetFn));
    table.push(builtin("map", crate::value::Builtin::MapFn));
    table.push(builtin("concat", crate::value::Builtin::ConcatFn));
    table.push(builtin("=", crate::value::Builtin::EqualsFn));
    table.push(builtin("type", crate::value::Builtin::TypeFn));
    table.push(hosted("clojure.core", "rand"));
    table.push(hosted("clojure.core", "rand-int"));
    table.push(hosted("clojure.core", "system-newline"));
    table.push(hosted("clojure.core", "flush-stdout"));
    table.push(hosted("clojure.core", "print-string"));
    table.push(hosted("clojure.core", "read-line"));
    table.push(hosted("clojure.core", "rust-slurp"));
    table.push(hosted("Thread", "sleep"));
    table.push(hosted("System", "nanoTime"));
    table.push(hosted("System", "getenv"));
    table.push(hosted("clojure.core", "-"));
    table.push(hosted("clojure.core", "*"));
    table.push(hosted("clojure.core", "/"));
    table.push(hosted("clojure.core", "rem"));
    table.push(hosted("clojure.core", "str"));
    table.push(hosted("clojure.core", "meta"));
    table.push(hosted("clojure.core", "var-fn*"));
    table.push(hosted("clojure.core", "count"));
    table.push(hosted("clojure.core", "more"));
    table.push(hosted("clojure.core", "first"));
    table.push(hosted("clojure.core", "second"));
    table.push(hosted("clojure.core", "refer"));
    table.push(hosted("clojure.core", "lt"));
    table.push(hosted("clojure.core", "gt"));
    table.push(hosted("clojure.core", "lte"));
    table.push(hosted("clojure.core", "gte"));
    table.push(hosted("clojure.string", "reverse"));
    table.push(hosted("clojure.string", "join"));
    table.push(hosted("clojure.string", "blank?"));
    table.push(hosted("clojure.string", "upper-case"));
    table.push(hosted("clojure.string", "lower-case"));
    table.push(hosted("clojure.string", "starts-with?"));
    table.push(hosted("clojure.string", "ends-with?"));
    table.push(hosted("clojure.string", "includes?"));
    table.push(hosted("clojure.string", "trim"));
    table.push(hosted("clojure.string", "triml"));
    table.push(hosted("clojure.string", "trimr"));
    table.push(hosted("clojure.string", "trim-newline"));
    table.push(hosted("clojure.string", "split"));
    assert(entries_of(table@) =~= core_table());
    table
}

/// Whether no entry of `table` after position `i` binds the name that the entry
/// at `i` binds.
pub open spec fn last_of_its_name(table: Seq<CoreEntry>, i: int) -> bool {
    forall|j: int| i < j < table.len() ==> !(#[trigger] binds_same(table[i], table[j]))
}

/// Whether two entries bind the same name of the same namespace.
pub open spec fn binds_same(a: CoreEntry, b: CoreEntry) -> bool {
    binding_space(a) == binding_space(b) && binding_name(a) == binding_name(b)
}

/// The name that an entry binds.
pub open spec fn binding_name(e: CoreEntry) -> Seq<char> {
    crate::symbol::interned(e.name).name
}

/// The name of the namespace that an entry binds in.
pub open spec fn binding_space(e: CoreEntry) -> Seq<char> {
    target_ns(crate::symbol::interned(e.ns), crate::symbol::interned(e.name))
}

/// Whether the namespaces bind what the entry at position `i` of `table` says,
/// if no later entry binds the same name.
pub open spec fn installed(namespaces: Namespaces, table: Seq<CoreEntry>, i: int) -> bool {
    last_of_its_name(table, i) ==> ({
        let bound = namespaces.direct(binding_space(table[i]), binding_name(table[i]));
        bound is Some && bound->0.root@ == table[i].value
    })
}

impl Environment {
    /// Binds every entry of `table`, in order, so that a later entry of a name
    /// takes the place of an earlier one. Each namespace that an entry names is
    /// made if it does not exist. No frame changes, and the current namespace
    /// stays.
    pub fn install(&mut self, table: Vec<CoreBinding>)
        ensures
            final(self).frames() == old(self).frames(),
            final(self).main_val().curr_ns_sym == old(self).main_val().curr_ns_sym,
            forall|i: int|
                0 <= i < table@.len() ==> #[trigger] installed(
                    final(self).main_val().namespaces,
                    entries_of(table@),
                    i,
                ),
            forall|space: Seq<char>| #[trigger]
                old(self).main_val().namespaces.has(space)
                    ==> final(self).main_val().namespaces.has(space),
    {
        let ghost entries = entries_of(table@);
        let mut k: usize = 0;
        while k < table.len()
            invariant
                k <= table@.len(),
                entries == entries_of(table@),
                self.frames() == old(self).frames(),
                self.main_val().curr_ns_sym == old(self).main_val().curr_ns_sym,
                forall|i: int|
                    0 <= i < k ==> #[trigger] installed(
                        self.main_val().namespaces,
                        entries.subrange(0, k as int),
                        i,
                    ),
                forall|space: Seq<char>| #[trigger]
                    old(self).main_val().namespaces.has(space) ==> self.main_val().namespaces.has(
                        space,
                    ),
            decreases table.len() - k,
        {
            let entry = &table[k];
            let ghost before = self.main_val().namespaces;
            self.insert_into_namespace(
                &Symbol::intern(entry.ns),
                Symbol::intern(entry.name),
                Rc::new(entry.value.clone()),
            );
            proof {
                let after = self.main_val().namespaces;
                let shorter = entries.subrange(0, k as int);
                let longer = entries.subrange(0, k + 1);
                assert(longer[k as int] == entry_of(*entry));
                assert forall|i: int| 0 <= i < k + 1 implies #[trigger] installed(
                    after,
                    longer,
                    i,
                ) by {
                    if i < k && last_of_its_name(longer, i) {
                        assert(longer[i] == shorter[i]);
                        assert(!binds_same(longer[i], longer[k as int]));
                        assert forall|j: int| i < j < shorter.len() implies !(
                        #[trigger] binds_same(shorter[i], shorter[j])) by {
                            assert(shorter[j] == longer[j]);
                            assert(!binds_same(longer[i], longer[j]));
                        }
                        assert(installed(before, shorter, i));
                        assert(after.direct(binding_space(longer[i]), binding_name(longer[i]))
                            == before.direct(binding_space(longer[i]), binding_name(longer[i])));
                    }
                }
            }
            k += 1;
        }
        assert(entries.subrange(0, table@.len() as int) =~= entries);
    }

    /// Makes `clojure.core` the current namespace and binds what `core_table`
    /// lists: each name to its value, in its namespace, unless a later entry of
    /// the table binds the same name. No frame changes.
    pub fn populate_with_clojure_core(env: &mut Environment)
        ensures
            final(env).frames() == old(env).frames(),
            final(env).main_val().curr_ns_sym@ == (SymbolView {
                name: "clojure.core"@,
                ns: None,
            }),
            forall|space: Seq<char>| #[trigger]
                old(env).main_val().namespaces.has(space)
                    ==> final(env).main_val().namespaces.has(space),
            final(env).main_val().namespaces.has("clojure.core"@),
            forall|i: int|
                0 <= i < core_table().len() ==> #[trigger] installed(
                    final(env).main_val().namespaces,
                    core_table(),
                    i,
                ),
    {
        let core = Symbol::intern("clojure.core");
        proof {
            reveal_strlit("clojure.core");
            assert(crate::symbol::slash_from("clojure.core"@, 0) == 12) by {
                reveal_with_fuel(crate::symbol::slash_from, 14);
            }
        }
        env.change_or_create_namespace(&core);
        let ghost mid = *env;
        env.install(core_bindings());
        proof {
            assert forall|space: Seq<char>| #[trigger]
                old(env).main_val().namespaces.has(space) implies env.main_val().namespaces.has(
                space,
            ) by {
                assert(mid.main_val().namespaces.has(space));
            }
            assert(mid.main_val().namespaces.has("clojure.core"@));
        }
    }

    /// The environment of a fresh interpreter: a main environment with the core
    /// bindings, in which `clojure.core` is the current namespace.
    pub fn clojure_core_environment() -> (r: Environment)
        ensures
            r.frames().len() == 0,
            r.main_val().curr_ns_sym@ == (SymbolView { name: "clojure.core"@, ns: None }),
            r.main_val().namespaces.has("clojure.core"@),
            r.main_val().namespaces.has("user"@),
            forall|i: int|
                0 <= i < core_table().len() ==> #[trigger] installed(
                    r.main_val().namespaces,
                    core_table(),
                    i,
                ),
    {
        let mut env = Environment::new_main_environment();
        assert(env.main_val().namespaces.has("user"@));
        Environment::populate_with_clojure_core(&mut env);
        env
    }
}

} // verus!
