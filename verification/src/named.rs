//! Sequences whose items are found by name: the first item of a name is the one
//! that counts. Namespaces keep their vars this way, and the registry its
//! namespaces.
use vstd::prelude::*;

verus! {

/// An item that is known by a name.
pub trait Named {
    /// The name of the item.
    spec fn key(&self) -> Seq<char>;

    /// Whether the item's name is `name`.
    fn named(&self, name: &str) -> (r: bool)
        ensures
            r == (self.key() == name@),
    ;
}

/// The position of the first item of `s` named `name`, or the length of `s` where
/// there is none.
pub open spec fn index_of<T: Named>(s: Seq<T>, name: Seq<char>) -> int
    decreases s.len(),
{
    if s.len() == 0 {
        0
    } else if s[0].key() == name {
        0
    } else {
        1 + index_of(s.drop_first(), name)
    }
}

/// Whether `s` has an item named `name`.
pub open spec fn has_name<T: Named>(s: Seq<T>, name: Seq<char>) -> bool {
    index_of(s, name) < s.len()
}

/// The first item of `s` named `name`, if there is one.
pub open spec fn lookup<T: Named>(s: Seq<T>, name: Seq<char>) -> Option<T> {
    if has_name(s, name) {
        Some(s[index_of(s, name)])
    } else {
        None
    }
}

/// `index_of` is the least position of an item of that name.
pub proof fn lemma_index_of<T: Named>(s: Seq<T>, name: Seq<char>)
    ensures
        0 <= index_of(s, name) <= s.len(),
        index_of(s, name) < s.len() ==> s[index_of(s, name)].key() == name,
        forall|j: int| 0 <= j < index_of(s, name) ==> (#[trigger] s[j]).key() != name,
    decreases s.len(),
{
    if s.len() > 0 && s[0].key() != name {
        let rest = s.drop_first();
        lemma_index_of(rest, name);
        assert forall|j: int| 0 <= j < index_of(s, name) implies (#[trigger] s[j]).key()
            != name by {
            if j > 0 {
                assert(s[j] == rest[j - 1]);
            }
        }
    }
}

/// A position that holds an item of that name, with none before it, is
/// `index_of`; so is the length where no item has the name.
pub proof fn lemma_index_of_is<T: Named>(s: Seq<T>, name: Seq<char>, i: int)
    requires
        0 <= i <= s.len(),
        i < s.len() ==> s[i].key() == name,
        forall|j: int| 0 <= j < i ==> (#[trigger] s[j]).key() != name,
    ensures
        index_of(s, name) == i,
{
    lemma_index_of(s, name);
    let k = index_of(s, name);
    if k < i {
        assert(s[k].key() != name);
    }
}

/// Putting a new item at the end binds its name where the name was free, and
/// changes what no other name finds.
pub proof fn lemma_lookup_push<T: Named>(s: Seq<T>, x: T, name: Seq<char>)
    requires
        !has_name(s, x.key()),
    ensures
        lookup(s.push(x), name) == if name == x.key() {
            Some(x)
        } else {
            lookup(s, name)
        },
{
    lemma_index_of(s, name);
    let t = s.push(x);
    let i = index_of(s, name);
    if name == x.key() {
        assert forall|j: int| 0 <= j < s.len() implies (#[trigger] t[j]).key() != name by {
            assert(t[j] == s[j]);
        }
        lemma_index_of_is(t, name, s.len() as int);
    } else if i < s.len() {
        assert(t[i] == s[i]);
        assert forall|j: int| 0 <= j < i implies (#[trigger] t[j]).key() != name by {
            assert(t[j] == s[j]);
        }
        lemma_index_of_is(t, name, i);
    } else {
        assert forall|j: int| 0 <= j < t.len() implies (#[trigger] t[j]).key() != name by {
            if j < s.len() {
                assert(t[j] == s[j]);
            }
        }
        lemma_index_of_is(t, name, t.len() as int);
    }
}

/// Putting an item in the place of one of the same name changes what that name
/// finds, and nothing else.
pub proof fn lemma_lookup_update<T: Named>(s: Seq<T>, i: int, x: T, name: Seq<char>)
    requires
        0 <= i < s.len(),
        i == index_of(s, x.key()),
    ensures
        lookup(s.update(i, x), name) == if name == x.key() {
            Some(x)
        } else {
            lookup(s, name)
        },
{
    lemma_index_of(s, name);
    lemma_index_of(s, x.key());
    let t = s.update(i, x);
    let k = index_of(s, name);
    if name == x.key() {
        assert forall|j: int| 0 <= j < i implies (#[trigger] t[j]).key() != name by {
            assert(t[j] == s[j]);
        }
        lemma_index_of_is(t, name, i);
    } else if k < s.len() {
        assert(k != i);
        assert(t[k] == s[k]);
        assert forall|j: int| 0 <= j < k implies (#[trigger] t[j]).key() != name by {
            if j != i {
                assert(t[j] == s[j]);
            }
        }
        lemma_index_of_is(t, name, k);
    } else {
        assert forall|j: int| 0 <= j < t.len() implies (#[trigger] t[j]).key() != name by {
            if j != i {
                assert(t[j] == s[j]);
            }
        }
        lemma_index_of_is(t, name, t.len() as int);
    }
}

/// The position of the first item of `v` named `name`, if there is one.
pub fn position<T: Named>(v: &Vec<T>, name: &str) -> (r: Option<usize>)
    ensures
        r is Some <==> has_name(v@, name@),
        r is Some ==> r->0 == index_of(v@, name@),
        r is None ==> index_of(v@, name@) == v@.len(),
{
    let mut i: usize = 0;
    while i < v.len()
        invariant
            i <= v.len(),
            forall|j: int| 0 <= j < i ==> (#[trigger] v@[j]).key() != name@,
        decreases v.len() - i,
    {
        if v[i].named(name) {
            proof {
                lemma_index_of_is(v@, name@, i as int);
            }
            return Some(i);
        }
        i += 1;
    }
    proof {
        lemma_index_of_is(v@, name@, v@.len() as int);
    }
    None
}

} // verus!
