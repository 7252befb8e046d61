use rust_clojure::environment::Environment;
use rust_clojure::environment::EnvironmentVal;
use rust_clojure::evaluator::apply;
use rust_clojure::evaluator::NoHost;
use rust_clojure::rust_core::add::AddFn;
use rust_clojure::symbol::Symbol;
use rust_clojure::value::ToValue;
use rust_clojure::value::Value;
use std::rc::Rc;

#[test]
fn get_current_namespace() {
    let mut env_val = EnvironmentVal::new_main_val();

    assert_eq!(Symbol::intern("user"), env_val.get_current_namespace());

    env_val.change_or_create_namespace(&Symbol::intern("core"));
    assert_eq!(Symbol::intern("core"), env_val.get_current_namespace());
}

#[test]
fn get_from_namespace() {
    let mut env_val = EnvironmentVal::new_main_val();

    env_val.insert_into_namespace(
        &Symbol::intern("core"),
        Symbol::intern("+"),
        Rc::new(Value::Nil),
    );
    env_val.insert_into_namespace(
        &Symbol::intern_with_ns("dragon", "core"),
        Symbol::intern("+2"),
        Rc::new(Value::Nil),
    );
    env_val.insert_into_namespace(
        &Symbol::intern_with_ns("dragon", "core"),
        Symbol::intern_with_ns("override", "+3"),
        Rc::new(Value::Nil),
    );

    assert_eq!(
        Rc::new(Value::Nil),
        env_val.get_from_namespace(&Symbol::intern("core"), &Symbol::intern("+"))
    );

    assert_eq!(
        Rc::new(Value::Nil),
        env_val.get_from_namespace(&Symbol::intern("core"), &Symbol::intern("+2"))
    );

    assert_eq!(
        Rc::new(Value::Nil),
        env_val.get_from_namespace(&Symbol::intern("override"), &Symbol::intern("+3"))
    );
}

#[test]
fn get_plus() {
    let add_fn = AddFn {};

    let mut environment = Environment::new_main_environment();
    environment.insert(Symbol::intern("+"), add_fn.to_rc_value());

    let plus = environment.get(&Symbol::intern("+"));

    assert_eq!(
        8.to_value(),
        add_fn.invoke(vec![3_i32.to_rc_value(), 5_i32.to_rc_value()])
    );

    if let Value::IFn(add_ifn) = &*plus {
        assert_eq!(
            8.to_rc_value(),
            apply(
                &mut NoHost {},
                &mut environment,
                add_ifn,
                vec![3_i32.to_rc_value(), 5_i32.to_rc_value()],
                8
            )
        );
        return;
    }
    panic!("get_plus: plus is: {:#?}", plus);
}

#[test]
fn insert_plus() {
    let add_fn = AddFn {};

    let mut environment = Environment::new_main_environment();
    environment.insert(Symbol::intern("+"), add_fn.to_rc_value());

    let plus: Rc<Value> = match &environment {
        Environment::MainEnvironment(EnvironmentVal {
            curr_ns_sym: _,
            namespaces,
        }) => namespaces.get(&Symbol::intern("user"), &Symbol::intern("+")),
        _ => panic!("new_main_environment() should return Main"),
    };

    assert_eq!(
        8.to_value(),
        add_fn.invoke(vec![3_i32.to_rc_value(), 5_i32.to_rc_value()])
    );

    if let Value::IFn(add_ifn) = &*plus {
        assert_eq!(
            8.to_rc_value(),
            apply(
                &mut NoHost {},
                &mut environment,
                add_ifn,
                vec![3_i32.to_rc_value(), 5_i32.to_rc_value()],
                8
            )
        );
        return;
    }
    panic!("plus should be IFn, is: {:#?}", plus);
}

fn condition(msg: &str) -> Rc<Value> {
    Rc::new(Value::Condition(String::from(msg)))
}

#[test]
fn insert_then_get_returns_the_value_at_the_top_level() {
    let mut env = Environment::new_main_environment();
    env.insert(Symbol::intern("a"), 7.to_rc_value());
    assert_eq!(env.get(&Symbol::intern("a")), 7.to_rc_value());
    env.insert(Symbol::intern("a"), 8.to_rc_value());
    assert_eq!(env.get(&Symbol::intern("a")), 8.to_rc_value());
    env.insert(Symbol::intern("other/b"), 9.to_rc_value());
    assert_eq!(env.get(&Symbol::intern("other/b")), 9.to_rc_value());
    assert!(env.has_namespace(&Symbol::intern("other")));
    assert_eq!(env.get(&Symbol::intern("b")), condition("Undefined symbol b"));
}

#[test]
fn insert_then_get_returns_the_value_in_a_local_frame() {
    let mut env = Environment::new_local_environment(Environment::new_main_environment());
    env.insert(Symbol::intern("x"), 1.to_rc_value());
    assert_eq!(env.get(&Symbol::intern("x")), 1.to_rc_value());
    env.insert(Symbol::intern("x"), 2.to_rc_value());
    assert_eq!(env.get(&Symbol::intern("x")), 2.to_rc_value());
    let outer = env.into_outer();
    assert_eq!(
        outer.get(&Symbol::intern("x")),
        condition("Undefined symbol x")
    );
}

#[test]
fn a_local_frame_shadows_the_namespace_and_the_parent_frame() {
    let mut env = Environment::new_main_environment();
    env.insert(Symbol::intern("x"), 1.to_rc_value());
    env.insert(Symbol::intern("y"), 10.to_rc_value());
    let mut inner = Environment::new_local_environment(env);
    inner.insert(Symbol::intern("x"), 2.to_rc_value());
    let mut innermost = Environment::new_local_environment(inner);
    assert_eq!(innermost.get(&Symbol::intern("x")), 2.to_rc_value());
    innermost.insert(Symbol::intern("x"), 3.to_rc_value());
    assert_eq!(innermost.get(&Symbol::intern("x")), 3.to_rc_value());
    assert_eq!(innermost.get(&Symbol::intern("y")), 10.to_rc_value());
    let inner = innermost.into_outer();
    assert_eq!(inner.get(&Symbol::intern("x")), 2.to_rc_value());
}

#[test]
fn a_qualified_symbol_bypasses_the_local_frames() {
    let mut env = Environment::new_main_environment();
    env.insert(Symbol::intern("x"), 1.to_rc_value());
    let mut local = Environment::new_local_environment(env);
    local.insert(Symbol::intern("x"), 2.to_rc_value());
    assert_eq!(local.get(&Symbol::intern("x")), 2.to_rc_value());
    assert_eq!(local.get(&Symbol::intern("user/x")), 1.to_rc_value());
    assert_eq!(
        local.get(&Symbol::intern("nowhere/x")),
        condition("Undefined namespace nowhere")
    );
    local.insert(Symbol::intern("user/z"), 5.to_rc_value());
    assert_eq!(
        local.get(&Symbol::intern("user/z")),
        condition("Undefined symbol z")
    );
}

#[test]
fn insert_into_the_current_namespace_from_under_local_frames_lands_in_the_namespace() {
    let env = Environment::new_main_environment();
    let mut local =
        Environment::new_local_environment(Environment::new_local_environment(env));
    local.insert_into_current_namespace(Symbol::intern("y"), 2.to_rc_value());
    assert_eq!(local.get(&Symbol::intern("y")), 2.to_rc_value());
    let main = local.into_outer().into_outer();
    assert!(matches!(main, Environment::MainEnvironment(_)));
    assert_eq!(main.get(&Symbol::intern("y")), 2.to_rc_value());
}

#[test]
fn get_var_returns_the_var_with_its_identity() {
    let mut env = Environment::new_main_environment();
    env.insert(Symbol::intern("v"), 4.to_rc_value());
    let var = env.get_var(&Symbol::intern("v"));
    match &*var {
        Value::Var(var) => {
            assert_eq!(var.sym, Symbol::intern("v"));
            assert_eq!(var.ns, Symbol::intern("user"));
            assert_eq!(var.deref(), 4.to_rc_value());
        }
        other => panic!("expected a var, got {:?}", other),
    }
    assert_eq!(
        env.get_var(&Symbol::intern("w")),
        condition("Undefined symbol w")
    );
}

#[test]
fn create_namespace_does_not_reset_an_existing_namespace() {
    let mut env_val = EnvironmentVal::new_main_val();
    env_val.insert_into_current_namespace(Symbol::intern("kept"), 1.to_rc_value());
    env_val.create_namespace(&Symbol::intern("user"));
    env_val.change_or_create_namespace(&Symbol::intern("other"));
    env_val.change_or_create_namespace(&Symbol::intern("user"));
    assert_eq!(
        env_val.get_from_namespace(&Symbol::intern("user"), &Symbol::intern("kept")),
        1.to_rc_value()
    );
    assert!(env_val.has_namespace(&Symbol::intern("other")));
    assert!(!env_val.has_namespace(&Symbol::intern("missing")));
}

#[test]
fn referred_symbols_and_namespaces_are_fallbacks_in_that_order() {
    let mut env = Environment::new_main_environment();
    let user = Symbol::intern("user");
    env.insert_into_namespace(&Symbol::intern("a"), Symbol::intern("f"), 1.to_rc_value());
    env.insert_into_namespace(&Symbol::intern("b"), Symbol::intern("f"), 2.to_rc_value());
    env.insert_into_namespace(&Symbol::intern("b"), Symbol::intern("g"), 3.to_rc_value());
    assert_eq!(env.get(&Symbol::intern("f")), condition("Undefined symbol f"));

    env.add_referred_namespace_to_curr_namespace(&Symbol::intern("b"));
    assert_eq!(env.get(&Symbol::intern("f")), 2.to_rc_value());
    assert_eq!(env.get(&Symbol::intern("g")), 3.to_rc_value());

    env.add_referred_syms(&user, &Symbol::intern("a"), vec![Symbol::intern("f")]);
    assert_eq!(env.get(&Symbol::intern("f")), 1.to_rc_value());
    assert_eq!(env.get(&Symbol::intern("g")), 3.to_rc_value());

    env.insert(Symbol::intern("f"), 0.to_rc_value());
    assert_eq!(env.get(&Symbol::intern("f")), 0.to_rc_value());

    env.add_referred_syms_to_curr_namespace(&Symbol::intern("b"), vec![Symbol::intern("h")]);
    assert_eq!(env.get(&Symbol::intern("h")), condition("Undefined symbol h"));
    assert_eq!(env.get(&Symbol::intern("user/g")), condition("Undefined symbol g"));
}

#[test]
fn the_core_environment_binds_the_primitives_in_clojure_core() {
    let env = Environment::clojure_core_environment();
    assert_eq!(env.get_current_namespace_name(), "clojure.core");
    assert_eq!(env.get_current_namespace(), Symbol::intern("clojure.core"));
    assert!(env.has_namespace(&Symbol::intern("user")));
    assert!(env.has_namespace(&Symbol::intern("Thread")));
    assert!(env.has_namespace(&Symbol::intern("System")));
    assert_eq!(env.get(&Symbol::intern("+")), AddFn {}.to_rc_value());
    assert_eq!(env.get(&Symbol::intern("if")), Rc::new(Value::IfMacro));
    assert_eq!(
        env.get(&Symbol::intern("clojure.core/quote")),
        Rc::new(Value::QuoteMacro)
    );
    assert!(matches!(
        &*env.get(&Symbol::intern("Thread/sleep")),
        Value::IFn(_)
    ));
}

#[test]
fn a_var_that_is_handed_out_carries_its_namespace_and_symbol() {
    let mut env = Environment::new_main_environment();
    env.insert(Symbol::intern("s"), 1.to_rc_value());
    let a = match &*env.get_var(&Symbol::intern("s")) {
        Value::Var(a) => a.clone(),
        other => panic!("expected a var, got {:?}", other),
    };
    assert_eq!(a.sym, Symbol::intern("s"));
    assert_eq!(a.ns, env.get_current_namespace());
    assert_eq!(a.deref(), 1.to_rc_value());

    let ns = Symbol::intern("other");
    env.insert_into_namespace(&ns, Symbol::intern("t"), 1.to_rc_value());
    let q = Symbol::intern("other/t");
    let b = match &*env.get_var(&q) {
        Value::Var(b) => b.clone(),
        other => panic!("expected a var, got {:?}", other),
    };
    assert_eq!(b.sym, Symbol::intern("t"));
    assert_eq!(b.ns, Symbol::intern("other"));
    env.insert_into_namespace(&ns, Symbol::intern("t"), 2.to_rc_value());
    assert_eq!(env.get(&q), 2.to_rc_value());
    assert_eq!(env.deref_var(&b), 2.to_rc_value());
    assert_eq!(env.get_current_namespace(), Symbol::intern("user"));
    let c = match &*env.get_var(&q) {
        Value::Var(c) => c.clone(),
        other => panic!("expected a var, got {:?}", other),
    };
    assert_eq!(c, b);
    assert_eq!(c.deref(), 2.to_rc_value());
}

#[test]
fn the_core_environment_names_the_primitives_that_are_left_to_the_host() {
    let env = Environment::clojure_core_environment();
    assert!(env.has_namespace(&Symbol::intern("clojure.string")));
    for name in ["-", "*", "/", "str", "count", "first", "clojure.string/join"] {
        assert!(
            matches!(&*env.get(&Symbol::intern(name)), Value::IFn(_)),
            "{} is not bound to a function",
            name
        );
    }
}
