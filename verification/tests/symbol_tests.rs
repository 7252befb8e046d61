use rust_clojure::keyword::Keyword;
use rust_clojure::maps::MapEntry;
use rust_clojure::symbol::Symbol;
use rust_clojure::types::PersistentMap;
use rust_clojure::value::ToValue;
use std::collections::HashMap;

fn entry(key: &str, value: &str) -> MapEntry {
    MapEntry::new(Keyword::intern(key).to_rc_value(), value.to_rc_value())
}

#[test]
fn test_intern() {
    assert_eq!(
        Symbol::intern("a"),
        Symbol {
            ns: None,
            name: String::from("a"),
            meta: PersistentMap::empty(),
        }
    );
}

#[test]
fn test_intern_with_ns() {
    assert_eq!(
        Symbol::intern_with_ns("clojure.core", "a"),
        Symbol {
            ns: String::from("clojure.core").into(),
            name: String::from("a"),
            meta: PersistentMap::empty()
        }
    );
    assert_eq!(
        Symbol::intern("a"),
        Symbol {
            ns: None,
            name: String::from("a"),
            meta: PersistentMap::empty()
        }
    );
    assert_eq!(
        Symbol::intern("clojure.core/a"),
        Symbol {
            ns: String::from("clojure.core").into(),
            name: String::from("a"),
            meta: PersistentMap::empty()
        }
    );
    assert_eq!(
        Symbol::intern("clojure/a"),
        Symbol {
            ns: String::from("clojure").into(),
            name: String::from("a"),
            meta: PersistentMap::empty(),
        }
    );
    assert_eq!(
        Symbol::intern("/a"),
        Symbol {
            ns: None,
            name: String::from("a"),
            meta: PersistentMap::empty(),
        }
    );
}

#[test]
fn test_with_meta() {
    assert_eq!(
        Symbol::intern_with_ns("namespace", "name")
            .with_meta(PersistentMap::empty().conj(entry("key", "value"))),
        Symbol {
            ns: String::from("namespace").into(),
            name: String::from("name"),
            meta: PersistentMap::empty().conj(entry("key", "value"))
        }
    );
    let with_meta = Symbol::intern_with_ns("namespace", "name")
        .with_meta(PersistentMap::empty().conj(entry("key", "value")));
    assert_eq!(
        with_meta.meta(),
        PersistentMap::empty().conj(entry("key", "value"))
    );
    assert_eq!(with_meta.meta().len(), 1);
}

#[test]
fn test_work_with_hashmap() {
    let mut hashmap = HashMap::new();
    hashmap.insert(Symbol::intern("+"), 1_i32);
    hashmap.insert(Symbol::intern("-"), 2_i32);

    assert_eq!(1_i32, *hashmap.get(&Symbol::intern("+")).unwrap());
    assert_eq!(2_i32, *hashmap.get(&Symbol::intern("-")).unwrap());
    assert_eq!(None, hashmap.get(&Symbol::intern("*")));
}

#[test]
fn intern_splits_at_the_first_slash_only() {
    let s = Symbol::intern("a/b/c");
    assert_eq!(s.namespace(), Some("a"));
    assert_eq!(s.name(), "b/c");
    let t = Symbol::intern("ns/name");
    assert_eq!(t.namespace(), Some("ns"));
    assert_eq!(t.name(), "name");
    assert!(t.has_ns());
}

#[test]
fn intern_of_a_lone_slash_is_the_division_symbol() {
    let s = Symbol::intern("/");
    assert_eq!(s.namespace(), None);
    assert_eq!(s.name(), "/");
    assert!(!s.has_ns());
    assert_eq!(Symbol::intern("name").namespace(), None);
}

#[test]
fn intern_counts_characters_not_bytes() {
    let s = Symbol::intern("é/ü");
    assert_eq!(s.namespace(), Some("é"));
    assert_eq!(s.name(), "ü");
}

#[test]
fn symbols_that_differ_in_metadata_alone_are_equal_and_hash_alike() {
    let plain = Symbol::intern("ns/x");
    let tagged = plain.with_meta(PersistentMap::empty().conj(entry("doc", "text")));
    assert_eq!(plain, tagged);
    let mut hashmap = HashMap::new();
    hashmap.insert(plain, 1_i32);
    assert_eq!(Some(&1_i32), hashmap.get(&tagged));
    assert_ne!(Symbol::intern("ns/x"), Symbol::intern("x"));
    assert_ne!(Symbol::intern("ns/x"), Symbol::intern("ns/y"));
}

#[test]
fn unqualified_drops_the_namespace_and_keeps_the_metadata() {
    let meta = PersistentMap::empty().conj(entry("k", "v"));
    let s = Symbol::intern("ns/x").with_meta(meta.clone()).unqualified();
    assert_eq!(s.namespace(), None);
    assert_eq!(s.name(), "x");
    assert_eq!(s.meta(), meta);
}

#[test]
fn symbols_and_keywords_are_written_with_their_namespace() {
    assert_eq!(Symbol::intern("ns/x").to_string(), "ns/x");
    assert_eq!(Symbol::intern("x").to_string(), "x");
    assert_eq!(Keyword::intern("ns/x").to_string(), ":ns/x");
    assert_eq!(Keyword::intern("k").to_string(), ":k");
    assert_eq!(Keyword::intern_with_ns("", "k").namespace(), None);
    assert_eq!(Keyword::intern_with_ns("n", "k").namespace(), Some("n"));
    assert_eq!(Keyword::intern("n/k").name(), "k");
}
