//! Symbols: identifiers with an optional namespace, and with metadata that takes
//! no part in their identity.
use crate::text::chars_of;
use crate::types::PersistentMap;
use crate::value::ValueView;
use std::hash::Hash;
use std::hash::Hasher;
use vstd::prelude::*;
use vstd::std_specs::cmp::PartialEqSpecImpl;

verus! {

/// What identifies a symbol: its name and its namespace.
pub struct SymbolView {
    pub name: Seq<char>,
    pub ns: Option<Seq<char>>,
}

/// An identifier, qualified by a namespace or not, that carries metadata.
#[derive(Debug)]
pub struct Symbol {
    pub name: String,
    pub ns: Option<String>,
    pub meta: PersistentMap,
}

/// The position of the first `/` of `s` at or after `i`, or the length of `s`
/// where there is none.
pub open spec fn slash_from(s: Seq<char>, i: int) -> int
    decreases s.len() - i,
{
    if i < 0 || i >= s.len() {
        s.len() as int
    } else if s[i] == '/' {
        i
    } else {
        slash_from(s, i + 1)
    }
}

/// The symbol that a text names. The text is split at its first `/`: what stands
/// before it is the namespace, unless that is empty, and what follows is the
/// name. A text without `/`, and the text `/` itself, is a name without
/// namespace.
pub open spec fn interned(s: Seq<char>) -> SymbolView {
    let i = slash_from(s, 0);
    if i >= s.len() || s.len() == 1 {
        SymbolView { name: s, ns: None }
    } else if i == 0 {
        SymbolView { name: s.subrange(1, s.len() as int), ns: None }
    } else {
        SymbolView { name: s.subrange(i + 1, s.len() as int), ns: Some(s.subrange(0, i)) }
    }
}

/// The symbol of the given namespace and name; an empty namespace is none.
pub open spec fn interned_with_ns(ns: Seq<char>, name: Seq<char>) -> SymbolView {
    SymbolView {
        name,
        ns: if ns.len() == 0 {
            None
        } else {
            Some(ns)
        },
    }
}

/// How a symbol is written: its name, after the namespace and a `/` where it has
/// one.
pub open spec fn symbol_text(s: SymbolView) -> Seq<char> {
    match s.ns {
        Some(ns) => ns + seq!['/'] + s.name,
        None => s.name,
    }
}

impl View for Symbol {
    type V = SymbolView;

    open spec fn view(&self) -> SymbolView {
        SymbolView {
            name: self.name@,
            ns: match self.ns {
                Some(ns) => Some(ns@),
                None => None,
            },
        }
    }
}

impl Symbol {
    /// The symbol that `name` names, without metadata.
    pub fn intern(name: &str) -> (r: Symbol)
        ensures
            r@ == interned(name@),
            r.meta@ == Map::<ValueView, ValueView>::empty(),
            r.meta.size() == 0,
    {
        let chars = chars_of(name);
        let n = chars.len();
        let mut i: usize = 0;
        while i < n && chars[i] != '/'
            invariant
                i <= n,
                n == chars@.len(),
                chars@ == name@,
                slash_from(name@, 0) == slash_from(name@, i as int),
            decreases n - i,
        {
            i += 1;
        }
        if i >= n || n == 1 {
            Symbol::intern_(name)
        } else if i == 0 {
            Symbol::intern_(name.substring_char(1, n))
        } else {
            Symbol::intern_with_ns(name.substring_char(0, i), name.substring_char(i + 1, n))
        }
    }

    /// The symbol of namespace `ns` and name `name`, without metadata. An empty
    /// `ns` gives a symbol without namespace.
    pub fn intern_with_ns(ns: &str, name: &str) -> (r: Symbol)
        ensures
            r@ == interned_with_ns(ns@, name@),
            r.meta@ == Map::<ValueView, ValueView>::empty(),
            r.meta.size() == 0,
    {
        let namespace = if ns.unicode_len() == 0 {
            None
        } else {
            Some(String::from_str(ns))
        };
        Symbol { name: String::from_str(name), ns: namespace, meta: PersistentMap::empty() }
    }

    /// The same symbol without its namespace; the metadata stays.
    pub fn unqualified(&self) -> (r: Symbol)
        ensures
            r.name == self.name,
            r.ns is None,
            r.meta == self.meta,
    {
        Symbol { name: self.name.clone(), ns: None, meta: self.meta.clone() }
    }

    /// Whether the symbol has a namespace.
    pub fn has_ns(&self) -> (r: bool)
        ensures
            r == (self@.ns is Some),
    {
        self.ns.is_some()
    }

    /// The symbol's name.
    pub fn name(&self) -> (r: &str)
        ensures
            r@ == self@.name,
    {
        self.name.as_str()
    }

    /// The symbol's namespace, if it has one.
    pub fn namespace(&self) -> (r: Option<&str>)
        ensures
            r is Some <==> self@.ns is Some,
            r is Some ==> r->0@ == self@.ns->0,
    {
        match &self.ns {
            Some(ns) => Some(ns.as_str()),
            None => None,
        }
    }

    /// The symbol's metadata.
    pub fn meta(&self) -> (r: PersistentMap)
        ensures
            r == self.meta,
    {
        self.meta.clone()
    }

    /// The same symbol with `meta` as its metadata. Its identity is unchanged.
    pub fn with_meta(&self, meta: PersistentMap) -> (r: Symbol)
        ensures
            r.name == self.name,
            r.ns == self.ns,
            r.meta == meta,
            r@ == self@,
    {
        Symbol { name: self.name.clone(), ns: self.ns.clone(), meta }
    }

    fn intern_(name: &str) -> (r: Symbol)
        ensures
            r@ == (SymbolView { name: name@, ns: None }),
            r.meta@ == Map::<ValueView, ValueView>::empty(),
            r.meta.size() == 0,
    {
        Symbol { name: String::from_str(name), ns: None, meta: PersistentMap::empty() }
    }

    /// How the symbol is written.
    pub fn to_string(&self) -> (r: String)
        ensures
            r@ == symbol_text(self@),
    {
        match &self.ns {
            Some(ns) => {
                let mut out = ns.clone();
                out.append("/");
                out.append(self.name.as_str());
                proof {
                    reveal_strlit("/");
                    assert("/"@ =~= seq!['/']);
                }
                out
            },
            None => self.name.clone(),
        }
    }
}

impl Clone for Symbol {
    fn clone(&self) -> (r: Self)
        ensures
            r == *self,
    {
        Symbol { name: self.name.clone(), ns: self.ns.clone(), meta: self.meta.clone() }
    }
}

impl PartialEq for Symbol {
    /// Two symbols are equal when name and namespace are; metadata is not looked
    /// at.
    fn eq(&self, other: &Self) -> (r: bool) {
        let same_ns = match (&self.ns, &other.ns) {
            (Some(a), Some(b)) => *a == *b,
            (None, None) => true,
            _ => false,
        };
        assert(same_ns == (self@.ns == other@.ns));
        let same_name = self.name == other.name;
        assert(same_name == (self@.name == other@.name));
        same_name && same_ns
    }
}

impl PartialEqSpecImpl for Symbol {
    open spec fn obeys_eq_spec() -> bool {
        true
    }

    open spec fn eq_spec(&self, other: &Self) -> bool {
        self@ == other@
    }
}

impl Eq for Symbol {

}

impl Hash for Symbol {
    /// Trusted: the body is `Hash::hash` of the standard library on the pair of
    /// name and namespace, so that equal symbols hash alike whatever their
    /// metadata. Nothing is claimed of it.
    #[verifier::external_body]
    fn hash<H: Hasher>(&self, state: &mut H) {
        (&self.name, self.ns.as_ref()).hash(state);
    }
}

/// Symbols that agree in name and namespace are equal, whatever metadata each
/// carries.
pub proof fn lemma_symbol_equality_ignores_meta(a: Symbol, b: Symbol)
    requires
        a.name@ == b.name@,
        a@.ns == b@.ns,
    ensures
        vstd::std_specs::cmp::PartialEqSpec::eq_spec(&a, &b),
        a@ == b@,
{
}

} // verus!
