use rust_clojure::environment::Environment;
use rust_clojure::evaluator::eval_text;
use rust_clojure::evaluator::Host;
use rust_clojure::maps::MapEntry;
use rust_clojure::repl::Repl;
use rust_clojure::rust_core::load_file::LoadFileFn;
use rust_clojure::rust_core::map::MapFn;
use rust_clojure::symbol::Symbol;
use rust_clojure::types::List;
use rust_clojure::types::PersistentMap;
use rust_clojure::value::ToValue;
use rust_clojure::value::Value;
use std::rc::Rc;

/// A host that records what was printed and serves one file.
struct Recorder {
    printed: Vec<String>,
}

impl Host for Recorder {
    fn invoke(&mut self, name: &str, args: Vec<Rc<Value>>) -> Value {
        match (name, args.as_slice()) {
            ("clojure.core/print-string", [text]) => {
                self.printed.push(text.to_string());
                Value::Nil
            }
            ("System/nanoTime", []) => Value::I32(42),
            _ => Value::Condition(format!("unknown {}", name)),
        }
    }

    fn read_file(&mut self, path: &str) -> Result<String, String> {
        if path == "lib.clj" {
            Ok(String::from("(def loaded 1) (print-string \"in file\") (+ loaded 1)"))
        } else if path == "empty.clj" {
            Ok(String::from(" ; nothing here"))
        } else if path == "broken.clj" {
            Ok(String::from("(def before-the-break 1) (+ 1"))
        } else {
            Err(format!("{}: no such file", path))
        }
    }
}

fn repl() -> Repl<Recorder> {
    Repl::new(
        Environment::clojure_core_environment(),
        Recorder { printed: vec![] },
    )
}

fn ints(items: &[i32]) -> Vec<Rc<Value>> {
    items.iter().map(|i| i.to_rc_value()).collect()
}

#[test]
fn a_host_primitive_gets_the_evaluated_arguments() {
    let mut repl = repl();
    assert_eq!(
        repl.eval_readable("(def x \"hello\") (print-string x) (System/nanoTime)"),
        Some(Value::I32(42))
    );
    assert_eq!(repl.host.printed, vec![String::from("hello")]);
    assert_eq!(
        repl.eval_readable("(Thread/sleep 1)"),
        Some(Value::Condition(String::from("unknown Thread/sleep")))
    );
}

#[test]
fn load_file_evaluates_the_text_that_the_host_reads() {
    let mut repl = repl();
    assert_eq!(
        repl.eval_readable("(load-file \"lib.clj\")"),
        Some(Value::I32(2))
    );
    assert_eq!(repl.eval_readable("loaded"), Some(Value::I32(1)));
    assert_eq!(repl.host.printed, vec![String::from("in file")]);
    assert_eq!(
        repl.eval_readable("(load-file \"empty.clj\")"),
        Some(Value::Nil)
    );
    assert_eq!(
        repl.eval_readable("(load-file \"missing.clj\")"),
        Some(Value::Condition(String::from("missing.clj: no such file")))
    );
    assert_eq!(
        repl.eval_readable("(load-file \"broken.clj\")"),
        Some(Value::Condition(String::from("Unexpected end of input")))
    );
    assert_eq!(repl.eval_readable("before-the-break"), Some(Value::I32(1)));
}

#[test]
fn eval_file_gives_the_outcome_or_the_hosts_message() {
    let mut repl = repl();
    assert_eq!(repl.eval_file("lib.clj"), Some(Value::I32(2)));
    assert_eq!(repl.eval_file("empty.clj"), None);
    assert_eq!(
        repl.eval_file("missing.clj"),
        Some(Value::Condition(String::from("missing.clj: no such file")))
    );
    assert_eq!(repl.try_eval_file("lib.clj"), Ok(Some(Value::I32(2))));
    assert_eq!(
        repl.try_eval_file("missing.clj"),
        Err(String::from("missing.clj: no such file"))
    );
    assert_eq!(
        Repl::<Recorder>::file_outcome(Err(String::from("no"))),
        Some(Value::Condition(String::from("no")))
    );
    assert_eq!(Repl::<Recorder>::file_outcome(Ok(None)), None);
    assert_eq!(LoadFileFn::finish(None), Value::Nil);
    assert_eq!(LoadFileFn::finish(Some(Value::I32(1))), Value::I32(1));
    assert_eq!(LoadFileFn::new().to_value(), LoadFileFn {}.to_value());
}

#[test]
fn eval_text_threads_the_environment_through_the_forms() {
    let mut host = Recorder { printed: vec![] };
    let mut env = Environment::clojure_core_environment();
    let text: Vec<char> = "(def a 2) (def b (+ a a)) b".chars().collect();
    assert_eq!(eval_text(&mut host, &mut env, &text, 50), Some(Value::I32(4)));
    assert_eq!(env.get(&Symbol::intern("a")), 2.to_rc_value());
    let mut local = Environment::new_local_environment(env);
    let text: Vec<char> = "(def c 3)".chars().collect();
    eval_text(&mut host, &mut local, &text, 50);
    assert!(matches!(local, Environment::LocalEnvironment(_, _)));
    assert_eq!(local.into_outer().get(&Symbol::intern("c")), 3.to_rc_value());
}

#[test]
fn map_collects_the_outcomes_in_a_list() {
    assert_eq!(
        MapFn::collect(ints(&[1, 2])),
        Value::List(List::from_vec(ints(&[1, 2])))
    );
    let mut repl = repl();
    assert_eq!(
        repl.eval_readable("(map (fn [x] (print-string x)) '(\"a\" \"b\"))"),
        Some(Value::List(List::from_vec(vec![
            Rc::new(Value::Nil),
            Rc::new(Value::Nil)
        ])))
    );
    assert_eq!(
        repl.host.printed,
        vec![String::from("a"), String::from("b")]
    );
    assert_eq!(
        repl.eval_readable("(map +)"),
        Some(Value::Condition(String::from(
            "Wrong number of arguments given to function (Given: 1, Expected: 2)"
        )))
    );
}

#[test]
fn a_map_is_made_of_entries_with_the_later_binding_of_a_key() {
    let map = PersistentMap::from_entries(vec![
        MapEntry::new(1.to_rc_value(), 10.to_rc_value()),
        MapEntry::new(2.to_rc_value(), 20.to_rc_value()),
        MapEntry::new(1.to_rc_value(), 30.to_rc_value()),
    ]);
    assert_eq!(map.len(), 2);
    assert_eq!(map.lookup(&1.to_rc_value()), Some(30.to_rc_value()));
    assert_eq!(map.lookup(&2.to_rc_value()), Some(20.to_rc_value()));
    assert!(PersistentMap::from_entries(vec![]).is_empty());
}

#[test]
fn a_var_that_was_looked_up_earlier_shows_a_later_binding_through_the_environment() {
    let mut env = Environment::new_main_environment();
    env.insert(Symbol::intern("x"), 1.to_rc_value());
    let looked_up = match &*env.get_var(&Symbol::intern("x")) {
        Value::Var(var) => var.clone(),
        other => panic!("expected a var, got {:?}", other),
    };
    env.insert(Symbol::intern("x"), 2.to_rc_value());
    assert_eq!(looked_up.deref(), 1.to_rc_value());
    assert_eq!(env.deref_var(&looked_up), 2.to_rc_value());
    let mut free = rust_clojure::var::Var::intern(Symbol::intern("nowhere"), Symbol::intern("y"));
    free.bind_root(5.to_rc_value());
    assert_eq!(env.deref_var(&free), 5.to_rc_value());
}

#[test]
fn alter_meta_applies_the_function_to_the_metadata_and_the_arguments() {
    let mut repl = repl();
    let assoc = match repl.eval_readable("(fn [m k v] (assoc m k v))") {
        Some(Value::IFn(callable)) => callable,
        other => panic!("expected a function, got {:?}", other),
    };
    let constant = match repl.eval_readable("(fn [m] 1)") {
        Some(Value::IFn(callable)) => callable,
        other => panic!("expected a function, got {:?}", other),
    };
    let mut var = rust_clojure::var::Var::intern(Symbol::intern("ns"), Symbol::intern("v"));
    let doc = rust_clojure::keyword::Keyword::intern("doc").to_rc_value();
    let altered = rust_clojure::evaluator::alter_meta(
        &mut repl.host,
        &mut repl.environment,
        &mut var,
        &assoc,
        &vec![doc.clone(), "text".to_rc_value()],
        50,
    );
    assert_eq!(altered.len(), 1);
    assert_eq!(altered.lookup(&doc), Some("text".to_rc_value()));
    assert_eq!(var.meta(), altered);
    let kept = rust_clojure::evaluator::alter_meta(
        &mut repl.host,
        &mut repl.environment,
        &mut var,
        &constant,
        &vec![],
        50,
    );
    assert_eq!(kept, altered);
    assert_eq!(var.meta(), altered);
}

#[test]
fn arguments_are_evaluated_from_left_to_right() {
    let mut repl = repl();
    assert_eq!(
        repl.eval_readable(
            "(+ (do (print-string \"a\") 1) (do (print-string \"b\") 2) (do (print-string \"c\") 3))"
        ),
        Some(Value::I32(6))
    );
    assert_eq!(
        repl.host.printed,
        vec![String::from("a"), String::from("b"), String::from("c")]
    );
    assert_eq!(
        repl.eval_readable("[(print-string \"d\") (print-string \"e\")]"),
        Some(Value::Vector(rust_clojure::types::Vector::from_vec(vec![
            Rc::new(Value::Nil),
            Rc::new(Value::Nil)
        ])))
    );
    assert_eq!(repl.host.printed.len(), 5);
    assert_eq!(repl.host.printed[3], "d");
    assert_eq!(repl.host.printed[4], "e");
}

#[test]
fn a_macro_does_not_evaluate_what_it_is_given() {
    let mut repl = repl();
    assert_eq!(
        repl.eval_readable("(defmacro ignore [x] nil) (ignore (print-string \"never\"))"),
        Some(Value::Nil)
    );
    assert!(repl.host.printed.is_empty());
}

#[test]
fn what_a_macro_returns_is_expanded_until_no_macro_is_left() {
    let mut repl = repl();
    assert_eq!(
        repl.eval_readable(
            "(defmacro inner [x] x) \
             (defmacro middle [x] (concat '(inner) [x])) \
             (defmacro outer [x] (concat '(middle) [x])) \
             (outer (+ 2 3))"
        ),
        Some(Value::I32(5))
    );
}

#[test]
fn eval_read_evaluates_the_text_or_hands_the_message_on() {
    let mut repl = repl();
    assert_eq!(
        repl.eval_read(Ok(String::from("(def read-in 3) (+ read-in 1)"))),
        Ok(Some(Value::I32(4)))
    );
    assert_eq!(repl.eval_readable("read-in"), Some(Value::I32(3)));
    assert_eq!(repl.eval_read(Ok(String::new())), Ok(None));
    assert_eq!(
        repl.eval_read(Err(String::from("cannot open"))),
        Err(String::from("cannot open"))
    );
    assert_eq!(repl.eval_readable("read-in"), Some(Value::I32(3)));
}

#[test]
fn load_file_hands_the_path_to_the_host_and_loads_what_it_read() {
    assert_eq!(
        LoadFileFn::path(&vec!["lib.clj".to_rc_value()], 3),
        Ok(String::from("lib.clj"))
    );
    assert_eq!(
        LoadFileFn::path(&vec!["lib.clj".to_rc_value()], 0),
        Err(Value::Condition(String::from(
            "Evaluation is nested too deeply"
        )))
    );
    assert_eq!(
        LoadFileFn::path(&vec![], 3),
        Err(Value::Condition(String::from(
            "Wrong number of arguments given to function (Given: 0, Expected: 1)"
        )))
    );
    assert_eq!(
        LoadFileFn::path(&ints(&[1]), 3),
        Err(Value::Condition(String::from(
            "Type mismatch; Expected instance of rust.std.string.String, Recieved type rust.std.i32"
        )))
    );

    let mut host = Recorder { printed: vec![] };
    let mut env = Environment::clojure_core_environment();
    assert_eq!(
        LoadFileFn::load(
            &mut host,
            &mut env,
            Err(String::from("disk on fire")),
            10
        ),
        Rc::new(Value::Condition(String::from("disk on fire")))
    );
    assert_eq!(
        LoadFileFn::load(
            &mut host,
            &mut env,
            Ok(String::from("(def from-text 7) from-text")),
            10
        ),
        7.to_rc_value()
    );
    assert_eq!(env.get(&Symbol::intern("from-text")), 7.to_rc_value());
    assert_eq!(
        LoadFileFn::load(&mut host, &mut env, Ok(String::new()), 10),
        Rc::new(Value::Nil)
    );
}

#[test]
fn the_driver_knows_when_a_text_breaks_off_inside_a_form() {
    assert!(Repl::breaks_off("(def a"));
    assert!(Repl::breaks_off("(def a 1) [1 2"));
    assert!(Repl::breaks_off("\"abc"));
    assert!(Repl::breaks_off("'"));
    assert!(!Repl::breaks_off("(def a 1)"));
    assert!(!Repl::breaks_off(""));
    assert!(!Repl::breaks_off("a b ; (c"));
    assert!(!Repl::breaks_off(")"));
    assert!(!Repl::breaks_off("(1 2] (3"));
    assert!(!Repl::breaks_off("12ab ("));
}
