use rust_clojure::iterable::Iterable;
use rust_clojure::keyword::Keyword;
use rust_clojure::maps::MapEntry;
use rust_clojure::protocol::as_protocol;
use rust_clojure::protocol::try_as_protocol;
use rust_clojure::protocol::Protocol;
use rust_clojure::protocols::imeta::base_meta;
use rust_clojure::protocols::imeta::IMeta;
use rust_clojure::protocols::iobj::IObj;
use rust_clojure::protocols::ipersistent_map::IPersistentMap;
use rust_clojure::symbol::Symbol;
use rust_clojure::traits::imap::IMap;
use rust_clojure::traits::imeta::IMeta as HasMeta;
use rust_clojure::traits::iobj::IObj as HasObj;
use rust_clojure::types::List;
use rust_clojure::types::PersistentMap;
use rust_clojure::types::Vector;
use rust_clojure::value::ToValue;
use rust_clojure::value::Value;
use rust_clojure::var::Var;
use std::rc::Rc;

fn ints(items: &[i32]) -> Vec<Rc<Value>> {
    items.iter().map(|i| i.to_rc_value()).collect()
}

#[test]
fn a_list_takes_a_new_value_at_the_front_and_stays_as_it_was() {
    let empty = List::empty();
    assert!(empty.is_empty());
    let one = List::unit(1);
    assert_eq!(one.len(), 1);
    let two = one.conj(2);
    assert_eq!(two.to_vec(), ints(&[2, 1]));
    assert_eq!(one.to_vec(), ints(&[1]));
    assert_eq!(two.get(0), Some(&2.to_rc_value()));
    assert_eq!(two.get(1), Some(&1.to_rc_value()));
    assert_eq!(two.get(2), None);
    assert_eq!(two, List::from_vec(ints(&[2, 1])));
    assert_ne!(two, List::from_vec(ints(&[1, 2])));
    assert_eq!(two.clone(), two);
}

#[test]
fn a_vector_takes_a_new_value_at_the_back_and_stays_as_it_was() {
    let empty = Vector::empty();
    assert!(empty.is_empty());
    let one = empty.conj(1);
    let two = one.conj(2);
    assert_eq!(two.to_vec(), ints(&[1, 2]));
    assert_eq!(one.to_vec(), ints(&[1]));
    assert_eq!(empty.len(), 0);
    assert_eq!(two.get(1), Some(&2.to_rc_value()));
    assert_eq!(two.get(2), None);
    assert_eq!(two, Vector::from_vec(ints(&[1, 2])));
    assert_ne!(two, one);
}

#[test]
fn a_map_is_keyed_by_any_value_that_is_no_collection() {
    let map = PersistentMap::empty()
        .assoc(1.to_rc_value(), "int".to_rc_value())
        .assoc("1".to_rc_value(), "string".to_rc_value())
        .assoc(Rc::new(Value::Nil), "nil".to_rc_value())
        .assoc(Symbol::intern("s").to_rc_value(), "symbol".to_rc_value())
        .assoc(true.to_rc_value(), "bool".to_rc_value());
    assert_eq!(map.len(), 5);
    assert_eq!(map.get(&1.to_rc_value()), "int".to_rc_value());
    assert_eq!(map.get(&"1".to_rc_value()), "string".to_rc_value());
    assert_eq!(map.get(&Rc::new(Value::Nil)), "nil".to_rc_value());
    assert_eq!(map.get(&true.to_rc_value()), "bool".to_rc_value());
    let tagged = Symbol::intern("s").with_meta(PersistentMap::empty().conj(MapEntry::new(
        Keyword::intern("k").to_rc_value(),
        1.to_rc_value(),
    )));
    assert_eq!(map.get(&tagged.to_rc_value()), "symbol".to_rc_value());
    assert!(map.contains_key(&tagged.to_rc_value()));
    assert!(!map.contains_key(&2.to_rc_value()));
    assert_eq!(map.lookup(&2.to_rc_value()), None);
    assert!(map.has_key(&1.to_rc_value()));
    assert_eq!(map.pairs().len(), 5);
}

#[test]
fn the_pairs_of_a_map_are_its_bindings() {
    let map = PersistentMap::empty()
        .assoc(1.to_rc_value(), 10.to_rc_value())
        .assoc(2.to_rc_value(), 20.to_rc_value());
    let mut pairs = map.pairs();
    pairs.sort_by_key(|pair| match &*pair.0 {
        Value::I32(i) => *i,
        _ => 0,
    });
    assert_eq!(
        pairs,
        vec![
            (1.to_rc_value(), 10.to_rc_value()),
            (2.to_rc_value(), 20.to_rc_value())
        ]
    );
    let entry = MapEntry::new(3.to_rc_value(), 30.to_rc_value());
    assert_eq!(entry.clone().into_pair(), (3.to_rc_value(), 30.to_rc_value()));
}

#[test]
fn equality_of_values_is_structural() {
    assert_eq!(Value::I32(1), Value::I32(1));
    assert_ne!(Value::I32(1), Value::I32(2));
    assert_ne!(Value::I32(1), Value::String(String::from("1")));
    assert_eq!(
        Value::List(List::from_vec(ints(&[1, 2]))),
        Value::List(List::from_vec(ints(&[1, 2])))
    );
    assert_ne!(
        Value::List(List::from_vec(ints(&[1, 2]))),
        Value::Vector(Vector::from_vec(ints(&[1, 2])))
    );
    let nested = |n: i32| {
        Value::Vector(Vector::from_vec(vec![
            List::from_vec(ints(&[n])).to_rc_value(),
            "s".to_rc_value(),
        ]))
    };
    assert_eq!(nested(1), nested(1));
    assert_ne!(nested(1), nested(2));
    assert_eq!(nested(1).clone(), nested(1));
}

#[test]
fn a_protocol_admits_only_the_kinds_it_is_declared_for() {
    let map = PersistentMap::empty().to_rc_value();
    let list = List::from_vec(ints(&[1, 2])).to_rc_value();
    let vector = Vector::empty().to_rc_value();
    let symbol = Symbol::intern("s").to_rc_value();
    let var = Var::intern(Symbol::intern("ns"), Symbol::intern("v")).to_rc_value();
    let int = 1.to_rc_value();

    assert!(IPersistentMap::instanceof(&map));
    assert!(!IPersistentMap::instanceof(&list));
    assert!(try_as_protocol::<IPersistentMap>(&int).is_none());
    let wrapped = try_as_protocol::<IPersistentMap>(&map).unwrap();
    assert_eq!(wrapped.raw_unwrap(), map);
    assert_eq!(wrapped.to_map(), PersistentMap::empty());

    assert!(Iterable::instanceof(&list));
    assert!(!Iterable::instanceof(&vector));
    assert!(!Iterable::instanceof(&map));
    assert_eq!(as_protocol::<Iterable>(&list).iter(), ints(&[1, 2]));

    for admitted in [&map, &list, &vector, &symbol, &var] {
        assert!(IMeta::instanceof(admitted));
    }
    assert!(!IMeta::instanceof(&int));
    for admitted in [&map, &list, &vector, &symbol] {
        assert!(IObj::instanceof(admitted));
    }
    assert!(!IObj::instanceof(&var));
    assert!(!IObj::instanceof(&int));
}

#[test]
fn metadata_is_kept_by_symbols_and_vars_and_not_by_collections() {
    let meta = PersistentMap::empty().conj(MapEntry::new(
        Keyword::intern("doc").to_rc_value(),
        "text".to_rc_value(),
    ));
    let symbol = Symbol::intern("s").with_meta(meta.clone()).to_rc_value();
    assert_eq!(as_protocol::<IMeta>(&symbol).meta(), meta);
    let list = List::from_vec(ints(&[1])).to_rc_value();
    assert!(as_protocol::<IMeta>(&list).meta().is_empty());

    let with = as_protocol::<IObj>(&Symbol::intern("t").to_rc_value()).with_meta(meta.clone());
    assert_eq!(with.meta(), meta);
    match &*with.raw_unwrap() {
        Value::Symbol(sym) => assert_eq!(sym.name(), "t"),
        other => panic!("expected a symbol, got {:?}", other),
    }
    let same = as_protocol::<IObj>(&list).with_meta(meta.clone());
    assert_eq!(same.raw_unwrap(), list);
    assert!(same.meta().is_empty());

    let mut var = Var::intern(Symbol::intern("ns"), Symbol::intern("v"));
    var.set_meta(meta.clone());
    assert_eq!(as_protocol::<IMeta>(&var.to_rc_value()).meta(), meta);
}

#[test]
fn the_base_metadata_names_line_column_file_namespace_and_name() {
    let meta = base_meta("my.ns", "f");
    assert_eq!(meta.len(), 5);
    assert_eq!(meta.get(&Symbol::intern("line").to_rc_value()), 1.to_rc_value());
    assert_eq!(meta.get(&Symbol::intern("column").to_rc_value()), 1.to_rc_value());
    assert_eq!(
        meta.get(&Symbol::intern("file").to_rc_value()),
        "NO_SOURCE_PATH".to_rc_value()
    );
    assert_eq!(meta.get(&Symbol::intern("ns").to_rc_value()), "my.ns".to_rc_value());
    assert_eq!(meta.get(&Symbol::intern("name").to_rc_value()), "f".to_rc_value());
}
