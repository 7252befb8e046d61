use rust_clojure::keyword::Keyword;
use rust_clojure::maps::MapEntry;
use rust_clojure::symbol::Symbol;
use rust_clojure::types::PersistentMap;
use rust_clojure::value::ToValue;
use rust_clojure::value::Value;
use rust_clojure::var::Var;
use std::rc::Rc;

#[test]
fn deref() {
    let a = Symbol::intern("clojure");
    assert!(a == Symbol::intern("clojure"));

    let mut v = Var::intern(Symbol::intern("clojure.core"), Symbol::intern("+"));
    v.bind_root(Rc::new(Value::I32(12)));

    assert!(*v.deref() == Value::I32(12));

    v.bind_root(Rc::new(Value::I32(25)));

    assert!(*v.deref() == Value::I32(25));
}

#[test]
fn a_new_var_is_bound_to_nil_and_has_no_metadata() {
    let v = Var::intern(Symbol::intern("ns"), Symbol::intern("x"));
    assert_eq!(*v.deref(), Value::Nil);
    assert!(v.meta().is_empty());
    assert_eq!(v.to_string(), "#'x");
}

#[test]
fn vars_are_equal_by_namespace_and_symbol_alone() {
    let mut a = Var::intern(Symbol::intern("ns"), Symbol::intern("x"));
    let b = Var::intern(Symbol::intern("ns"), Symbol::intern("x"));
    a.bind_root(1.to_rc_value());
    assert_eq!(a, b);
    assert_ne!(a, Var::intern(Symbol::intern("ns"), Symbol::intern("y")));
    assert_ne!(a, Var::intern(Symbol::intern("other"), Symbol::intern("x")));
}

#[test]
fn alter_meta_keeps_the_metadata_unless_it_is_given_a_map() {
    let meta = PersistentMap::empty().conj(MapEntry::new(
        Keyword::intern("doc").to_rc_value(),
        "text".to_rc_value(),
    ));
    let mut v = Var::intern(Symbol::intern("ns"), Symbol::intern("x"));
    v.bind_root(7.to_rc_value());
    assert_eq!(v.alter_meta(&Value::PersistentMap(meta.clone())), meta);
    assert_eq!(v.meta(), meta);
    assert_eq!(v.alter_meta(&Value::I32(1)), meta);
    assert_eq!(v.alter_meta(&Value::Nil), meta);
    assert_eq!(v.meta(), meta);
    assert_eq!(v.deref(), 7.to_rc_value());
    v.set_meta(PersistentMap::empty());
    assert!(v.meta().is_empty());
}
