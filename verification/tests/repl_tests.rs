use rust_clojure::environment::Environment;
use rust_clojure::evaluator::NoHost;
use rust_clojure::keyword::Keyword;
use rust_clojure::repl::Repl;
use rust_clojure::symbol::Symbol;
use rust_clojure::types::List;
use rust_clojure::types::Vector;
use rust_clojure::value::ToValue;
use rust_clojure::value::Value;
use std::rc::Rc;

fn condition(msg: &str) -> Option<Value> {
    Some(Value::Condition(String::from(msg)))
}

fn ints(items: &[i32]) -> Vec<Rc<Value>> {
    items.iter().map(|i| i.to_rc_value()).collect()
}

#[test]
fn read_string() {
    let num = Repl::read_string("1");
    match num {
        Some(Value::I32(_)) => {}
        _ => panic!("Reading of integer should have returned Value::I32"),
    }
    let list = Repl::read_string("(+ 1 2)");
    match list {
        Some(Value::List(_)) => {}
        _ => panic!("Reading of integer should have returned Value::PersistentList"),
    }

    let vector = Repl::read_string("[1 2 a]");
    match vector {
        Some(Value::Vector(_)) => {}
        _ => panic!("Reading of integer should have returned Value::PersistentVector"),
    }

    let symbol = Repl::read_string("abc");
    match symbol {
        Some(Value::Symbol(_)) => {}
        _ => panic!("Reading of integer should have returned Value::Symbol"),
    }
}

#[test]
fn eval_readable_string_as_bytes_keyword_literal() {
    let evaled = Repl::default().eval_readable(":k");
    assert!(
        matches!(evaled, Some(Value::Keyword(_))),
        "read & eval of :k should have returned Some(Value::Keyword(_)), instead got {:?}",
        evaled,
    );
    assert_eq!(evaled, Some(Value::Keyword(Keyword::intern("k"))));
}

#[test]
fn eval_readable_string_as_bytes_vector_literal() {
    let evaled = Repl::default().eval_readable("[some quoted vec]");
    assert!(
        matches!(evaled, Some(Value::Vector(_))),
        "read & eval of [some quoted vec] should have returned Some(Value::PersistentVector(_)), instead got {:?}",
        evaled,
    );
}

#[test]
fn the_reader_reads_every_kind_of_form() {
    assert_eq!(Repl::read_string("42"), Some(Value::I32(42)));
    assert_eq!(Repl::read_string("-17"), Some(Value::I32(-17)));
    assert_eq!(Repl::read_string("+5"), Some(Value::I32(5)));
    assert_eq!(Repl::read_string("2147483647"), Some(Value::I32(i32::MAX)));
    assert_eq!(Repl::read_string("-2147483648"), Some(Value::I32(i32::MIN)));
    assert_eq!(Repl::read_string("nil"), Some(Value::Nil));
    assert_eq!(Repl::read_string("true"), Some(Value::Boolean(true)));
    assert_eq!(Repl::read_string("false"), Some(Value::Boolean(false)));
    assert_eq!(
        Repl::read_string("\"a\\n\\\"b\\\\\""),
        Some(Value::String(String::from("a\n\"b\\")))
    );
    assert_eq!(
        Repl::read_string(":ns/k"),
        Some(Value::Keyword(Keyword::intern_with_ns("ns", "k")))
    );
    assert_eq!(
        Repl::read_string("a/b"),
        Some(Value::Symbol(Symbol::intern_with_ns("a", "b")))
    );
    assert_eq!(Repl::read_string("-"), Some(Value::Symbol(Symbol::intern("-"))));
    assert_eq!(Repl::read_string("\\a"), Some(Value::Char('a')));
    assert_eq!(Repl::read_string("\\newline"), Some(Value::Char('\n')));
    assert_eq!(
        Repl::read_string(" ; a comment\n ,, (1 [2] ()) rest"),
        Some(Value::List(List::from_vec(vec![
            1.to_rc_value(),
            Vector::from_vec(ints(&[2])).to_rc_value(),
            List::empty().to_rc_value()
        ])))
    );
    assert_eq!(
        Repl::read_string("'x"),
        Some(Value::List(List::from_vec(vec![
            Symbol::intern("quote").to_rc_value(),
            Symbol::intern("x").to_rc_value()
        ])))
    );
    assert_eq!(Repl::read_string(""), None);
    assert_eq!(Repl::read_string("  ; only a comment"), None);
}

#[test]
fn the_reader_reads_a_map_with_the_later_binding_of_a_key() {
    match Repl::read_string("{:a 1, :b 2, :a 3}") {
        Some(Value::PersistentMap(map)) => {
            assert_eq!(map.len(), 2);
            assert_eq!(
                map.lookup(&Keyword::intern("a").to_rc_value()),
                Some(3.to_rc_value())
            );
            assert_eq!(
                map.lookup(&Keyword::intern("b").to_rc_value()),
                Some(2.to_rc_value())
            );
        }
        other => panic!("expected a map, got {:?}", other),
    }
}

#[test]
fn the_reader_reports_text_that_is_not_well_formed() {
    assert_eq!(Repl::read_string("(1 2"), condition("Unexpected end of input"));
    assert_eq!(Repl::read_string(")"), condition("Unexpected closing delimiter"));
    assert_eq!(Repl::read_string("(1 ]"), condition("Unexpected closing delimiter"));
    assert_eq!(Repl::read_string("\"abc"), condition("Unterminated string"));
    assert_eq!(Repl::read_string("\"a\\"), condition("Unterminated string"));
    assert_eq!(
        Repl::read_string("\"a\\q\""),
        condition("Unsupported escape in string")
    );
    assert_eq!(Repl::read_string("12ab"), condition("Invalid number"));
    assert_eq!(Repl::read_string("2147483648"), condition("Number out of range"));
    assert_eq!(Repl::read_string("-2147483649"), condition("Number out of range"));
    assert_eq!(
        Repl::read_string("99999999999999999999999999"),
        condition("Number out of range")
    );
    assert_eq!(Repl::read_string(":"), condition("Invalid keyword"));
    assert_eq!(Repl::read_string("\\abc"), condition("Invalid character literal"));
    assert_eq!(
        Repl::read_string("{:a}"),
        condition("Map literal must contain an even number of forms")
    );
    assert_eq!(Repl::read_string("'"), condition("Unexpected end of input"));
    let deep = "(".repeat(200);
    assert_eq!(Repl::read_string(&deep), condition("Input is nested too deeply"));
}

#[test]
fn read_gives_the_position_after_the_form() {
    let chars: Vec<char> = "(a) b".chars().collect();
    let (first, end) = Repl::read(&chars, 0);
    assert!(matches!(first, Some(Value::List(_))));
    assert_eq!(end, 3);
    let (second, end) = Repl::read(&chars, end);
    assert_eq!(second, Some(Value::Symbol(Symbol::intern("b"))));
    assert_eq!(end, 5);
    assert_eq!(Repl::read(&chars, end), (None, 5));
}

#[test]
fn eval_readable_returns_the_value_of_the_last_form() {
    let mut repl = Repl::default();
    assert_eq!(
        repl.eval_readable("(def a 1) (def b 2) (+ a b)"),
        Some(Value::I32(3))
    );
    assert_eq!(
        repl.eval_readable("[1 2 3]"),
        Some(Value::Vector(Vector::from_vec(ints(&[1, 2, 3]))))
    );
    assert_eq!(repl.eval_readable(""), None);
    assert_eq!(
        repl.eval_readable("(def c 5) (+ c"),
        condition("Unexpected end of input")
    );
    assert_eq!(repl.eval_readable("c"), Some(Value::I32(5)));
}

#[test]
fn def_inside_let_lands_in_the_namespace() {
    let mut repl = Repl::default();
    assert_eq!(
        repl.eval_readable("(let [x 1] (def y 2))"),
        Some(Value::Symbol(Symbol::intern("y")))
    );
    assert_eq!(repl.eval_readable("y"), Some(Value::I32(2)));
    assert_eq!(
        repl.eval_readable("(let [x 1] (let [z 2] (def w (+ x z))))"),
        Some(Value::Symbol(Symbol::intern("w")))
    );
    assert_eq!(repl.eval_readable("w"), Some(Value::I32(3)));
    assert_eq!(repl.eval_readable("x"), condition("Undefined symbol x"));
    assert_eq!(
        repl.eval_readable("((fn [a] (def inside (+ a 1))) 4) inside"),
        Some(Value::I32(5))
    );
}

#[test]
fn a_macro_gets_its_arguments_unevaluated_and_a_function_gets_them_evaluated() {
    let mut repl = Repl::default();
    assert_eq!(
        repl.eval_readable("(defmacro my-macro [x] (type x)) (my-macro (+ 1 2))"),
        Some(Value::String(String::from("clojure.lang.PersistentList")))
    );
    assert_eq!(
        repl.eval_readable("(def my-fn (fn [x] (type x))) (my-fn (+ 1 2))"),
        Some(Value::String(String::from("rust.std.i32")))
    );
    assert_eq!(
        repl.eval_readable("((fn [x] x) (+ 1 2))"),
        Some(Value::I32(3))
    );
    assert_eq!(
        repl.eval_readable("(defmacro twice [x] (concat '(+) (concat [x] [x]))) (twice (+ 1 2))"),
        Some(Value::I32(6))
    );
}

#[test]
fn let_binds_in_sequence_and_gives_up_its_frame() {
    let mut repl = Repl::default();
    assert_eq!(
        repl.eval_readable("(let [x 1 y (+ x 1) x (+ y 10)] x y (+ x y))"),
        Some(Value::I32(14))
    );
    assert_eq!(repl.eval_readable("(let [])"), Some(Value::Nil));
    assert_eq!(
        repl.eval_readable("(let [x 1] ((fn [] x)))"),
        Some(Value::I32(1))
    );
    assert_eq!(
        repl.eval_readable("(def x 5) (let [x 1] clojure.core/x)"),
        Some(Value::I32(5))
    );
    assert_eq!(
        repl.eval_readable("(let)"),
        condition("Wrong number of arguments given to let (Given: 0, Expected: 1 or more)")
    );
    assert_eq!(
        repl.eval_readable("(let (x 1) x)"),
        condition("Bindings to let should be a vector")
    );
    assert_eq!(
        repl.eval_readable("(let [x] x)"),
        condition("Bindings to let should be an even number of forms")
    );
}

#[test]
fn closures_capture_the_frames_in_scope() {
    let mut repl = Repl::default();
    assert_eq!(
        repl.eval_readable("(def make (fn [n] (fn [m] (+ n m)))) (def add5 (make 5)) (add5 3)"),
        Some(Value::I32(8))
    );
    assert_eq!(
        repl.eval_readable("(def n 100) (add5 1)"),
        Some(Value::I32(6))
    );
    assert_eq!(
        repl.eval_readable("((fn [a & more] more) 1 2 3)"),
        Some(Value::List(List::from_vec(ints(&[2, 3]))))
    );
    assert_eq!(
        repl.eval_readable("((fn [a & more] more) 1)"),
        Some(Value::Nil)
    );
    assert_eq!(
        repl.eval_readable("((fn [a b] a) 1)"),
        condition("Wrong number of arguments given to function (Given: 1, Expected: 2)")
    );
    assert_eq!(
        repl.eval_readable("((fn [& a b] a) 1 2 3)"),
        condition("Invalid function argument '&' in non-variable-argument function definition")
    );
    assert_eq!(repl.eval_readable("((fn []))"), Some(Value::Nil));
}

#[test]
fn if_counts_only_nil_and_false_as_false() {
    let mut repl = Repl::default();
    assert_eq!(repl.eval_readable("(if nil 1 2)"), Some(Value::I32(2)));
    assert_eq!(repl.eval_readable("(if false 1 2)"), Some(Value::I32(2)));
    assert_eq!(repl.eval_readable("(if 0 1 2)"), Some(Value::I32(1)));
    assert_eq!(repl.eval_readable("(if () 1 2)"), Some(Value::I32(1)));
    assert_eq!(repl.eval_readable("(if [] 1 2)"), Some(Value::I32(1)));
    assert_eq!(repl.eval_readable("(if \"\" 1 2)"), Some(Value::I32(1)));
    assert_eq!(repl.eval_readable("(if false 1)"), Some(Value::Nil));
    assert_eq!(
        repl.eval_readable("(if true (def taken 1) (def not-taken 2)) not-taken"),
        condition("Undefined symbol not-taken")
    );
    assert_eq!(
        repl.eval_readable("(if 1)"),
        condition("Wrong number of arguments (Given: 1, Expected: 2 or 3)")
    );
}

#[test]
fn quote_and_do_and_the_other_forms() {
    let mut repl = Repl::default();
    assert_eq!(
        repl.eval_readable("(quote (+ 1 2))"),
        Some(Value::List(List::from_vec(vec![
            Symbol::intern("+").to_rc_value(),
            1.to_rc_value(),
            2.to_rc_value()
        ])))
    );
    assert_eq!(
        repl.eval_readable("(quote)"),
        condition("Wrong number of arguments (Given: 0, Expected: 1)")
    );
    assert_eq!(repl.eval_readable("(do)"), Some(Value::Nil));
    assert_eq!(
        repl.eval_readable("(do (def d1 1) (def d2 (+ d1 1)) d2)"),
        Some(Value::I32(2))
    );
    assert_eq!(repl.eval_readable("(eval '(+ 1 2))"), Some(Value::I32(3)));
    assert_eq!(repl.eval_readable("(lexical-eval '(+ 1 2))"), Some(Value::I32(3)));
    assert_eq!(
        repl.eval_readable("(map (fn [x] (+ x 1)) '(1 2 3))"),
        Some(Value::List(List::from_vec(ints(&[2, 3, 4]))))
    );
    assert_eq!(
        repl.eval_readable("(map (fn [x] x) [1 2])"),
        condition("Type mismatch; Expected iterable type, Recieved type clojure.lang.PersistentVector")
    );
    assert_eq!(
        repl.eval_readable("(map 1 '(1))"),
        condition("Type mismatch; Expected instance of clojure.lang.Function, Recieved type rust.std.i32")
    );
    assert_eq!(repl.eval_readable("()"), Some(Value::List(List::empty())));
    assert_eq!(
        repl.eval_readable("(1 2)"),
        condition("Execution Error: rust.std.i32 cannot be cast to clojure.lang.IFn")
    );
    assert_eq!(
        repl.eval_readable("(def)"),
        condition("Wrong number of arguments given to function (Given: 0, Expected: 1-2)")
    );
    assert_eq!(
        repl.eval_readable("(def 1 2)"),
        condition("First argument to def must be a symbol")
    );
    assert_eq!(repl.eval_readable("(def unbound) unbound"), Some(Value::Nil));
    assert_eq!(
        repl.eval_readable("(fn)"),
        condition("Wrong number of arguments given to function (Given: 0, Expected: 1 or more)")
    );
    assert_eq!(
        repl.eval_readable("(defmacro m)"),
        condition("Wrong number of arguments given to function (Given: 1, Expected: >=2)")
    );
    assert_eq!(
        repl.eval_readable("(+ 1 (nth '(1) 5))"),
        condition(
            "Type mismatch; Expecting: (i32 | i64 | f32 | f64), Found: clojure.lang.Condition"
        )
    );
}

#[test]
fn the_ns_macro_switches_the_namespace_that_def_binds_in() {
    let mut repl = Repl::default();
    assert_eq!(
        repl.eval_readable("(ns my.ns (:require [some-ns])) (clojure.core/def here 1)"),
        Some(Value::Symbol(Symbol::intern("here")))
    );
    assert_eq!(repl.environment.get_current_namespace_name(), "my.ns");
    assert!(repl.environment.has_namespace(&Symbol::intern("some-ns")));
    assert_eq!(
        repl.environment.get(&Symbol::intern("my.ns/here")),
        1.to_rc_value()
    );
    assert_eq!(
        repl.eval_readable("(clojure.core/ns clojure.core) here"),
        condition("Undefined symbol here")
    );
}

#[test]
fn an_evaluation_that_nests_too_deeply_ends_in_a_condition() {
    let mut repl = Repl::default();
    assert_eq!(
        repl.eval_readable("(def forever (fn [n] (forever n))) (forever 1)"),
        condition("Evaluation is nested too deeply")
    );
    assert_eq!(repl.eval_readable("(+ 1 2)"), Some(Value::I32(3)));
    repl.depth = 0;
    assert_eq!(
        repl.eval_readable("(+ 1 2)"),
        condition("Evaluation is nested too deeply")
    );
    assert_eq!(repl.eval_readable("7"), Some(Value::I32(7)));
}

#[test]
fn eval_evaluates_a_value_and_leaves_literals_as_they_are() {
    let mut repl = Repl::new(Environment::clojure_core_environment(), NoHost {});
    assert_eq!(repl.eval(&Value::I32(4)), Value::I32(4));
    assert_eq!(
        repl.eval(&Value::String(String::from("s"))),
        Value::String(String::from("s"))
    );
    let form = Repl::read_string("(+ 1 2)").unwrap();
    assert_eq!(repl.eval(&form), Value::I32(3));
    assert_eq!(
        repl.eval(&Value::Symbol(Symbol::intern("missing"))),
        Value::Condition(String::from("Undefined symbol missing"))
    );
    let plus = repl.environment.get(&Symbol::intern("+"));
    assert_eq!(repl.call(&plus, &ints(&[3, 5])), Value::I32(8));
}

#[test]
fn without_a_host_the_host_primitives_and_files_are_reported_as_missing() {
    let mut repl = Repl::default();
    assert_eq!(
        repl.eval_readable("(print-string \"x\")"),
        condition("No host primitive named clojure.core/print-string")
    );
    assert_eq!(
        repl.eval_readable("(load-file \"core.clj\")"),
        condition("No host to read the file core.clj")
    );
    assert_eq!(
        repl.eval_file("core.clj"),
        condition("No host to read the file core.clj")
    );
    assert_eq!(
        repl.eval_readable("(load-file 1)"),
        condition(
            "Type mismatch; Expected instance of rust.std.string.String, Recieved type rust.std.i32"
        )
    );
    assert_eq!(
        repl.eval_readable("(load-file)"),
        condition("Wrong number of arguments given to function (Given: 0, Expected: 1)")
    );
}

#[test]
fn the_quit_keyword_is_recognised() {
    assert!(Repl::is_quit(&Value::Keyword(Keyword::intern("repl/quit"))));
    assert!(!Repl::is_quit(&Value::Keyword(Keyword::intern("quit"))));
    assert!(!Repl::is_quit(&Value::Keyword(Keyword::intern("repl/other"))));
    assert!(!Repl::is_quit(&Value::Symbol(Symbol::intern("repl/quit"))));
}
