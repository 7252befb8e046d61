use rust_clojure::keyword::Keyword;
use rust_clojure::maps::MapEntry;
use rust_clojure::symbol::Symbol;
use rust_clojure::types::List;
use rust_clojure::types::PersistentMap;
use rust_clojure::types::Vector;
use rust_clojure::value::ToValue;
use rust_clojure::value::Value;
use rust_clojure::var::Var;
use std::rc::Rc;

fn ints(items: &[i32]) -> Vec<Rc<Value>> {
    items.iter().map(|i| i.to_rc_value()).collect()
}

#[test]
fn values_that_are_no_collections_are_written_as_themselves() {
    assert_eq!(Value::Nil.to_string(), "nil");
    assert_eq!(Value::Boolean(true).to_string(), "true");
    assert_eq!(Value::Boolean(false).to_string(), "false");
    assert_eq!(Value::I32(0).to_string(), "0");
    assert_eq!(Value::I32(1905).to_string(), "1905");
    assert_eq!(Value::I32(-42).to_string(), "-42");
    assert_eq!(Value::I32(i32::MIN).to_string(), "-2147483648");
    assert_eq!(Value::I32(i32::MAX).to_string(), "2147483647");
    assert_eq!(Value::Symbol(Symbol::intern("ns/s")).to_string(), "ns/s");
    assert_eq!(Value::Keyword(Keyword::intern("k")).to_string(), ":k");
    assert_eq!(
        Value::Var(Var::intern(Symbol::intern("ns"), Symbol::intern("v"))).to_string(),
        "#'v"
    );
    assert_eq!(Value::IfMacro.to_string(), "#macro[if*]");
    assert_eq!(Value::LexicalEvalFn.to_string(), "#function[lexical-eval*]");
}

#[test]
fn a_condition_is_written_as_its_message() {
    assert_eq!(
        Value::Condition(String::from("Undefined symbol x")).to_string(),
        "Undefined symbol x"
    );
}

#[test]
fn a_string_is_quoted_in_the_explicit_form_only() {
    let s = Value::String(String::from("hi"));
    assert_eq!(s.to_string(), "hi");
    assert_eq!(s.to_string_explicit(), "\"hi\"");
    assert_eq!(Value::Char('a').to_string(), "a");
    assert_eq!(Value::Char('a').to_string_explicit(), "\\a");
    assert_eq!(Value::I32(3).to_string_explicit(), "3");
    let list = Value::List(List::from_vec(vec![
        "hi".to_rc_value(),
        1.to_rc_value(),
        Rc::new(Value::Char('c')),
    ]));
    assert_eq!(list.to_string(), "(\"hi\" 1 \\c)");
}

#[test]
fn collections_are_written_with_their_values_in_order() {
    assert_eq!(Value::List(List::empty()).to_string(), "()");
    assert_eq!(Value::Vector(Vector::empty()).to_string(), "[]");
    assert_eq!(Value::PersistentMap(PersistentMap::empty()).to_string(), "{}");
    let inner = Vector::from_vec(ints(&[2, 3])).to_rc_value();
    let list = Value::List(List::from_vec(vec![
        1.to_rc_value(),
        inner,
        List::empty().to_rc_value(),
    ]));
    assert_eq!(list.to_string(), "(1 [2 3] ())");
    assert_eq!(list.to_string_explicit(), "(1 [2 3] ())");
    let map = PersistentMap::empty().conj(MapEntry::new(
        Keyword::intern("k").to_rc_value(),
        "v".to_rc_value(),
    ));
    assert_eq!(Value::PersistentMap(map).to_string(), "{:k \"v\"}");
}

#[test]
fn a_collection_beyond_the_level_is_written_as_a_hash_sign() {
    let inner = Vector::from_vec(ints(&[2, 3])).to_rc_value();
    let list = Value::List(List::from_vec(vec![1.to_rc_value(), inner]));
    assert_eq!(list.show(false, 2), "(1 [2 3])");
    assert_eq!(list.show(false, 1), "(1 #)");
    assert_eq!(list.show(false, 0), "#");
    assert_eq!(Value::List(List::empty()).show(false, 0), "()");
}

#[test]
fn the_bindings_of_a_map_are_written_between_braces_in_some_order() {
    let map = PersistentMap::empty()
        .conj(MapEntry::new(Keyword::intern("a").to_rc_value(), 1.to_rc_value()))
        .conj(MapEntry::new(Keyword::intern("b").to_rc_value(), 2.to_rc_value()));
    let written = Value::PersistentMap(map).to_string();
    assert!(
        written == "{:a 1, :b 2}" || written == "{:b 2, :a 1}",
        "written as {}",
        written
    );
}
