use rust_clojure::environment::Environment;
use rust_clojure::keyword::Keyword;
use rust_clojure::maps::MapEntry;
use rust_clojure::rust_core::add::AddFn;
use rust_clojure::rust_core::assoc::AssocFn;
use rust_clojure::rust_core::concat::ConcatFn;
use rust_clojure::rust_core::do_fn::DoFn;
use rust_clojure::rust_core::do_fn::DoMacro;
use rust_clojure::rust_core::equals::EqualsFn;
use rust_clojure::rust_core::get::GetFn;
use rust_clojure::rust_core::ns::NsMacro;
use rust_clojure::rust_core::nth::NthFn;
use rust_clojure::rust_core::type_fn::TypeFn;
use rust_clojure::rust_core::with_meta::WithMetaFn;
use rust_clojure::symbol::Symbol;
use rust_clojure::traits::imap::IMap;
use rust_clojure::types::List;
use rust_clojure::types::PersistentMap;
use rust_clojure::types::Vector;
use rust_clojure::value::ToValue;
use rust_clojure::value::Value;
use std::rc::Rc;

fn entry(key: &str, value: &str) -> MapEntry {
    MapEntry::new(Keyword::intern(key).to_rc_value(), value.to_rc_value())
}

fn map_of(key: &str, value: &str) -> PersistentMap {
    PersistentMap::empty().conj(entry(key, value))
}

fn condition(msg: &str) -> Value {
    Value::Condition(String::from(msg))
}

fn ints(items: &[i32]) -> Vec<Rc<Value>> {
    items.iter().map(|i| i.to_rc_value()).collect()
}

#[test]
fn too_few_args_0() {
    let args = vec![];
    let val = GetFn {}.invoke(args);
    match val {
        Value::Condition(msg) => assert_eq!(
            msg,
            "Wrong number of arguments given to function (Given: 0, Expected: [2, 3])".to_owned()
        ),
        _ => panic!("expected to error"),
    }
}

#[test]
fn too_few_args_1() {
    let haystack = PersistentMap::empty().to_rc_value();

    let args = vec![haystack];
    let val = GetFn {}.invoke(args);
    match val {
        Value::Condition(msg) => assert_eq!(
            msg,
            "Wrong number of arguments given to function (Given: 1, Expected: [2, 3])".to_owned()
        ),
        _ => panic!("expected to error"),
    }
}

#[test]
fn too_many_args_4() {
    let haystack = map_of("k", "v").to_rc_value();
    let needle = Value::Keyword(Keyword::intern("k")).to_rc_value();

    let args = vec![haystack, needle, Rc::new(Value::Nil), Rc::new(Value::Nil)];
    let val = GetFn {}.invoke(args);
    match val {
        Value::Condition(msg) => assert_eq!(
            msg,
            "Wrong number of arguments given to function (Given: 4, Expected: [2, 3])".to_owned()
        ),
        _ => panic!("expected to error"),
    }
}

#[test]
fn get_returns_associated_val_when_key_found() {
    let haystack = map_of("k", "v").to_rc_value();
    let needle = Value::Keyword(Keyword::intern("k")).to_rc_value();

    let args = vec![haystack, needle.clone()];
    let val = GetFn {}.invoke(args);
    assert_eq!(val, Value::String("v".to_string()));
}

#[test]
fn returns_nil_when_key_not_found() {
    let haystack = map_of("x", "v").to_rc_value();
    let needle = Value::Keyword(Keyword::intern("k")).to_rc_value();

    let args = vec![haystack, needle.clone()];
    let val = GetFn {}.invoke(args);
    assert_eq!(val, Value::Nil);
}

#[test]
fn returns_nil_when_key_not_found_in_empty() {
    let haystack = PersistentMap::empty().to_rc_value();
    let needle = Value::Keyword(Keyword::intern("k")).to_rc_value();

    let args = vec![haystack, needle.clone()];
    let val = GetFn {}.invoke(args);
    assert_eq!(val, Value::Nil);
}

#[test]
fn returns_associated_val_when_key_found() {
    let haystack = map_of("k", "v").to_rc_value();
    let needle = Value::Keyword(Keyword::intern("k")).to_rc_value();

    let args = vec![haystack, needle.clone(), Rc::new(Value::Nil)];
    let val = GetFn {}.invoke(args);
    assert_eq!(val, Value::String("v".to_string()));
}

#[test]
fn returns_not_found_val_when_key_not_found() {
    let haystack = map_of("x", "v").to_rc_value();
    let needle = Value::Keyword(Keyword::intern("k")).to_rc_value();
    let if_needle_not_found = Value::Keyword(Keyword::intern("not-found")).to_rc_value();

    let args = vec![haystack, needle, if_needle_not_found.clone()];
    let val = GetFn {}.invoke(args);
    assert_eq!(&val, if_needle_not_found.as_ref());
}

#[test]
fn returns_not_found_val_when_key_not_found_in_empty() {
    let haystack = PersistentMap::empty().to_rc_value();
    let needle = Value::Keyword(Keyword::intern("k")).to_rc_value();
    let if_needle_not_found = Value::Keyword(Keyword::intern("not-found")).to_rc_value();

    let args = vec![haystack, needle, if_needle_not_found.clone()];
    let val = GetFn {}.invoke(args);
    assert_eq!(&val, if_needle_not_found.as_ref());
}

#[test]
fn get_on_what_is_no_map_returns_nil() {
    let args = vec![5.to_rc_value(), 1.to_rc_value()];
    assert_eq!(GetFn {}.invoke(args), Value::Nil);
}

#[test]
fn ns_with_require() {
    let mut env = Environment::clojure_core_environment();
    assert!(env.get_current_namespace_name() != "my.ns".to_owned());
    let ns_macro = NsMacro::new();
    let require = List::from_vec(vec![
        Keyword::intern("require").to_rc_value(),
        Vector::from_vec(vec![Symbol::intern("some-ns").to_rc_value()]).to_rc_value(),
    ]);
    let args = vec![
        Symbol::intern("my.ns").to_rc_value(),
        require.to_rc_value(),
    ];
    assert!(env.get_current_namespace_name() != "my.ns".to_owned());
    let _ = ns_macro.invoke(&mut env, args);
    assert_eq!(env.get_current_namespace_name(), "my.ns".to_owned());
    assert!(env.has_namespace(&Symbol::intern("some-ns")));
}

#[test]
fn ns_reports_a_wrong_number_of_arguments_and_a_name_that_is_no_symbol() {
    let mut env = Environment::new_main_environment();
    assert_eq!(
        NsMacro::new().invoke(&mut env, vec![]),
        condition("Wrong number of arguments given to function (Given: 0, Expected: [1, 2])")
    );
    assert_eq!(
        NsMacro::new().invoke(&mut env, ints(&[1])),
        condition(
            "Type mismatch; Expected instance of clojure.lang.Symbol, Recieved type rust.std.i32"
        )
    );
    assert_eq!(env.get_current_namespace_name(), "user");
    assert_eq!(
        NsMacro::new().invoke(&mut env, vec![Symbol::intern("fresh").to_rc_value()]),
        Value::Nil
    );
    assert_eq!(env.get_current_namespace_name(), "fresh");
}

#[test]
fn assoc_binds_every_pair_and_leaves_the_map_as_it_was() {
    let m1 = map_of("a", "1");
    let args = vec![
        m1.to_rc_value(),
        Keyword::intern("b").to_rc_value(),
        2.to_rc_value(),
        Keyword::intern("a").to_rc_value(),
        3.to_rc_value(),
    ];
    let m2 = match (AssocFn {}).invoke(args) {
        Value::PersistentMap(m) => m,
        other => panic!("expected a map, got {:?}", other),
    };
    assert_eq!(m2.len(), 2);
    assert_eq!(m2.get(&Keyword::intern("a").to_rc_value()), 3.to_rc_value());
    assert_eq!(m2.get(&Keyword::intern("b").to_rc_value()), 2.to_rc_value());
    assert_eq!(m1.len(), 1);
    assert_eq!(m1.get(&Keyword::intern("a").to_rc_value()), "1".to_rc_value());
    assert!(!m1.contains_key(&Keyword::intern("b").to_rc_value()));
}

#[test]
fn assoc_reports_a_wrong_number_of_arguments() {
    assert_eq!(
        AssocFn {}.invoke(vec![PersistentMap::empty().to_rc_value(), 1.to_rc_value()]),
        condition("Wrong number of arguments given to function (Given: 2, Expected: 3 | 5 | 7 | ..)")
    );
    assert_eq!(
        AssocFn {}.invoke(vec![
            PersistentMap::empty().to_rc_value(),
            1.to_rc_value(),
            2.to_rc_value(),
            3.to_rc_value()
        ]),
        condition("Wrong number of arguments given to function (Given: 4, Expected: 3 | 5 | 7 | ..)")
    );
    assert_eq!(AssocFn {}.invoke(ints(&[1, 2, 3])), Value::Nil);
}

#[test]
fn map_immutability() {
    let k = Keyword::intern("k").to_rc_value();
    let m1 = PersistentMap::empty();
    let m2 = m1.assoc(k.clone(), 1.to_rc_value());
    assert!(!m1.contains_key(&k));
    assert_eq!(m1.get(&k), Rc::new(Value::Nil));
    assert_eq!(m2.get(&k), 1.to_rc_value());
    assert_eq!(m2.len(), 1);
    let m3 = m2.assoc(k.clone(), 2.to_rc_value());
    assert_eq!(m3.len(), 1);
    assert_eq!(m3.get(&k), 2.to_rc_value());
    assert_eq!(m2.get(&k), 1.to_rc_value());
    assert_eq!(
        m3.get_with_default(&Keyword::intern("other").to_rc_value(), &9.to_rc_value()),
        9.to_rc_value()
    );
    assert_ne!(m2, m3);
    assert_eq!(m3, PersistentMap::empty().assoc(k, 2.to_rc_value()));
}

#[test]
fn nth_returns_the_value_at_the_index() {
    let list = List::from_vec(ints(&[10, 20, 30])).to_rc_value();
    let vector = Vector::from_vec(ints(&[10, 20, 30])).to_rc_value();
    assert_eq!(NthFn {}.invoke(vec![list.clone(), 0.to_rc_value()]), Value::I32(10));
    assert_eq!(NthFn {}.invoke(vec![list, 2.to_rc_value()]), Value::I32(30));
    assert_eq!(NthFn {}.invoke(vec![vector, 1.to_rc_value()]), Value::I32(20));
}

#[test]
fn nth_reports_every_misuse() {
    let list = List::from_vec(ints(&[10, 20, 30])).to_rc_value();
    assert_eq!(
        NthFn {}.invoke(vec![list.clone()]),
        condition("Wrong number of arguments given to function (Given: 1, Expected: 2)")
    );
    assert_eq!(
        NthFn {}.invoke(vec![list.clone(), 0.to_rc_value(), 1.to_rc_value()]),
        condition("Wrong number of arguments given to function (Given: 3, Expected: 2)")
    );
    assert_eq!(
        NthFn {}.invoke(vec![list.clone(), 3.to_rc_value()]),
        condition("Index out of bounds: Index (3), Length: (3)")
    );
    assert_eq!(
        NthFn {}.invoke(vec![list.clone(), (-1).to_rc_value()]),
        condition("Index cannot be negative; Index (-1)")
    );
    assert_eq!(
        NthFn {}.invoke(vec![list, "one".to_rc_value()]),
        condition(
            "Type mismatch; Expected instance of clojure.lang.Integer, Recieved type rust.std.string.String"
        )
    );
    assert_eq!(
        NthFn {}.invoke(vec![5.to_rc_value(), 0.to_rc_value()]),
        condition("Type mismatch; Expected instance of clojure.lang.ISeq, Recieved type rust.std.i32")
    );
}

#[test]
fn concat_joins_lists_and_vectors_in_order() {
    let args = vec![
        List::from_vec(ints(&[1, 2])).to_rc_value(),
        5.to_rc_value(),
        Vector::from_vec(ints(&[3])).to_rc_value(),
        List::empty().to_rc_value(),
        Vector::from_vec(ints(&[4, 5])).to_rc_value(),
    ];
    assert_eq!(
        ConcatFn {}.invoke(args),
        Value::List(List::from_vec(ints(&[1, 2, 3, 4, 5])))
    );
    assert_eq!(ConcatFn {}.invoke(vec![]), Value::List(List::empty()));
}

#[test]
fn type_names_the_kind_of_a_value() {
    assert_eq!(
        TypeFn {}.invoke(vec![Symbol::intern("foo").to_rc_value()]),
        Value::String(String::from("clojure.lang.Symbol"))
    );
    assert_eq!(
        TypeFn {}.invoke(ints(&[1])),
        Value::String(String::from("rust.std.i32"))
    );
    assert_eq!(
        TypeFn {}.invoke(vec![List::empty().to_rc_value()]),
        Value::String(String::from("clojure.lang.PersistentList"))
    );
    assert_eq!(
        TypeFn {}.invoke(vec![]),
        condition("Wrong number of arguments given to function (Given: 0, Expected: 1)")
    );
}

#[test]
fn with_meta_gives_a_symbol_its_metadata() {
    let meta = map_of("doc", "text");
    let val = WithMetaFn::new().invoke(vec![
        Symbol::intern("s").to_rc_value(),
        meta.to_rc_value(),
    ]);
    match val {
        Value::Symbol(sym) => {
            assert_eq!(sym, Symbol::intern("s"));
            assert_eq!(sym.meta(), meta);
            assert_eq!(sym.meta().len(), 1);
        }
        other => panic!("expected a symbol, got {:?}", other),
    }
    let list = List::from_vec(ints(&[1]));
    assert_eq!(
        WithMetaFn::new().invoke(vec![list.to_rc_value(), meta.to_rc_value()]),
        Value::List(list)
    );
}

#[test]
fn with_meta_reports_every_misuse() {
    assert_eq!(
        WithMetaFn::new().invoke(ints(&[1])),
        condition("Wrong number of arguments given to function (Given: 1, Expected: 2)")
    );
    assert_eq!(
        WithMetaFn::new().invoke(vec![1.to_rc_value(), PersistentMap::empty().to_rc_value()]),
        condition(
            "In with-meta: first argument is supposed to be of instance IObj, but its type rust.std.i32 is not"
        )
    );
    assert_eq!(
        WithMetaFn::new().invoke(vec![Symbol::intern("s").to_rc_value(), 1.to_rc_value()]),
        condition(
            "Type mismatch; Expected instance of clojure.lang.PersistentListMap, Recieved type rust.std.i32"
        )
    );
}

#[test]
fn add_sums_integers_and_reports_what_is_no_integer() {
    assert_eq!(AddFn {}.invoke(vec![]), Value::I32(0));
    assert_eq!(AddFn {}.invoke(ints(&[1, 2, 3, -10])), Value::I32(-4));
    assert_eq!(
        AddFn {}.invoke(vec![1.to_rc_value(), "x".to_rc_value(), 2.to_rc_value()]),
        condition(
            "Type mismatch; Expecting: (i32 | i64 | f32 | f64), Found: rust.std.string.String"
        )
    );
    assert_eq!(
        AddFn {}.invoke(ints(&[i32::MAX, 1])),
        condition("Integer overflow")
    );
    assert_eq!(
        AddFn {}.invoke(ints(&[i32::MAX, 0, -1])),
        Value::I32(i32::MAX - 1)
    );
}

#[test]
fn equals_does_not_look_at_metadata() {
    let plain = Symbol::intern("s");
    let tagged = plain.with_meta(map_of("k", "v"));
    assert_eq!(
        EqualsFn {}.invoke(vec![plain.to_rc_value(), tagged.to_rc_value()]),
        Value::Boolean(true)
    );
    assert_eq!(
        EqualsFn {}.invoke(vec![
            List::from_vec(vec![plain.to_rc_value()]).to_rc_value(),
            List::from_vec(vec![tagged.to_rc_value()]).to_rc_value()
        ]),
        Value::Boolean(true)
    );
    assert_eq!(EqualsFn {}.invoke(ints(&[1, 2])), Value::Boolean(false));
    assert_eq!(
        EqualsFn {}.invoke(vec![
            List::from_vec(ints(&[1])).to_rc_value(),
            Vector::from_vec(ints(&[1])).to_rc_value()
        ]),
        Value::Boolean(false)
    );
    assert_eq!(
        EqualsFn {}.invoke(ints(&[1])),
        condition("Wrong number of arguments given to function (Given: 1, Expected: 2)")
    );
}

#[test]
fn do_returns_the_last_argument() {
    assert_eq!(DoFn {}.invoke(vec![]), Value::Nil);
    assert_eq!(DoFn {}.invoke(ints(&[1, 2, 3])), Value::I32(3));
    let mut expanded = vec![Symbol::intern("do-fn*").to_rc_value()];
    expanded.extend(ints(&[1, 2]));
    assert_eq!(
        DoMacro {}.invoke(ints(&[1, 2])),
        Value::List(List::from_vec(expanded))
    );
}

#[test]
fn a_map_is_keyed_by_collections_and_closures_too() {
    let vector_key = Vector::from_vec(ints(&[1, 2])).to_rc_value();
    let list_key = List::from_vec(ints(&[1, 2])).to_rc_value();
    let map_key = map_of("a", "1").to_rc_value();
    let nested_key = Vector::from_vec(vec![map_of("a", "1").to_rc_value()]).to_rc_value();
    let m1 = PersistentMap::empty();
    let m2 = m1
        .assoc(vector_key.clone(), 1.to_rc_value())
        .assoc(list_key.clone(), 2.to_rc_value())
        .assoc(map_key.clone(), 3.to_rc_value())
        .assoc(nested_key.clone(), 4.to_rc_value());
    assert_eq!(m2.len(), 4);
    assert_eq!(m1.len(), 0);
    assert!(!m1.contains_key(&vector_key));

    // Keys that are built anew, apart from the ones that were bound.
    let same_vector = Vector::empty().conj(1).conj(2).to_rc_value();
    let same_map = PersistentMap::empty()
        .conj(entry("a", "1"))
        .to_rc_value();
    let same_nested = Vector::empty()
        .conj(PersistentMap::empty().conj(entry("a", "1")))
        .to_rc_value();
    assert_eq!(m2.get(&same_vector), 1.to_rc_value());
    assert_eq!(m2.get(&list_key), 2.to_rc_value());
    assert_eq!(m2.get(&same_map), 3.to_rc_value());
    assert_eq!(m2.get(&same_nested), 4.to_rc_value());
    assert!(m2.contains_key(&same_map));
    assert_eq!(
        m2.get(&map_of("a", "2").to_rc_value()),
        Rc::new(Value::Nil)
    );

    let m3 = m2.assoc(same_map.clone(), 30.to_rc_value());
    assert_eq!(m3.len(), 4);
    assert_eq!(m3.get(&map_key), 30.to_rc_value());
    assert_eq!(m2.get(&map_key), 3.to_rc_value());
    assert_eq!(m3.get(&same_vector), 1.to_rc_value());
    assert_eq!(
        GetFn {}.invoke(vec![m3.to_rc_value(), same_nested, 0.to_rc_value()]),
        Value::I32(4)
    );
}

#[test]
fn assoc_with_five_arguments_binds_both_pairs_whatever_the_keys() {
    let m = map_of("kept", "k");
    let k1 = Vector::from_vec(ints(&[1])).to_rc_value();
    let k2 = map_of("x", "y").to_rc_value();
    let r = match (AssocFn {}).invoke(vec![
        m.to_rc_value(),
        k1.clone(),
        1.to_rc_value(),
        k2.clone(),
        2.to_rc_value(),
    ]) {
        Value::PersistentMap(r) => r,
        other => panic!("expected a map, got {:?}", other),
    };
    assert_eq!(r.len(), 3);
    assert_eq!(r.get(&k1), 1.to_rc_value());
    assert_eq!(r.get(&k2), 2.to_rc_value());
    assert_eq!(
        r.get(&Keyword::intern("kept").to_rc_value()),
        "k".to_rc_value()
    );
    assert_eq!(m.len(), 1);
    assert!(!m.contains_key(&k1));
}

#[test]
fn equal_maps_are_equal_however_they_were_built() {
    let a = PersistentMap::empty()
        .assoc(1.to_rc_value(), 10.to_rc_value())
        .assoc(2.to_rc_value(), 20.to_rc_value());
    let b = PersistentMap::empty()
        .assoc(2.to_rc_value(), 20.to_rc_value())
        .assoc(1.to_rc_value(), 0.to_rc_value())
        .assoc(1.to_rc_value(), 10.to_rc_value());
    assert_eq!(a, b);
    let outer_a = PersistentMap::empty().assoc(a.to_rc_value(), 1.to_rc_value());
    let outer_b = PersistentMap::empty().assoc(b.to_rc_value(), 1.to_rc_value());
    assert_eq!(outer_a, outer_b);
    assert_eq!(outer_a.get(&b.to_rc_value()), 1.to_rc_value());
}
