//! The evaluator: what a value evaluates to in an environment.
//!
//! A symbol evaluates to what the environment binds it to, a vector to the vector
//! of what its values evaluate to, and a list to the outcome of a call: its head
//! is evaluated, and what the head turns out to be decides how the rest is
//! treated. Everything else evaluates to itself.
//!
//! Evaluation is recursive, and `depth` bounds how deeply it may nest: where the
//! bound is used up the outcome is a condition, not a crash.
use crate::environment::Environment;
use crate::error_message::custom;
use crate::lambda::Lambda;
use crate::rust_core::add::AddFn;
use crate::rust_core::assoc::AssocFn;
use crate::rust_core::concat::ConcatFn;
use crate::rust_core::do_fn::DoFn;
use crate::rust_core::do_fn::DoMacro;
use crate::rust_core::equals::EqualsFn;
use crate::rust_core::get::GetFn;
use crate::rust_core::load_file::LoadFileFn;
use crate::rust_core::map::MapFn;
use crate::rust_core::ns::NsMacro;
use crate::rust_core::nth::NthFn;
use crate::rust_core::type_fn::TypeFn;
use crate::rust_core::with_meta::WithMetaFn;
use crate::semantics::applies_to_list;
use crate::semantics::arity_text;
use crate::semantics::binds_each;
use crate::semantics::calls;
use crate::semantics::chosen;
use crate::semantics::chooses;
use crate::semantics::closes;
use crate::semantics::def_value;
use crate::semantics::defines;
use crate::semantics::defines_macro;
use crate::semantics::entered;
use crate::semantics::evaluates;
use crate::semantics::evaluates_each;
use crate::semantics::evaluates_last;
use crate::semantics::evaluates_text;
use crate::semantics::fails_with;
use crate::semantics::invokes;
use crate::semantics::lets;
use crate::semantics::param_symbols;
use crate::semantics::quotes;
use crate::semantics::reads_forms;
use crate::semantics::scoped;
use crate::semantics::too_deep_text;
use crate::symbol::Symbol;
use crate::text::decimal_string;
use crate::types::rc_clone;
use crate::types::views;
use crate::types::List;
use crate::types::PersistentMap;
use crate::types::Vector;
use crate::value::Builtin;
use crate::value::Callable;
use crate::value::Value;
use crate::value::ValueView;
use crate::var::Var;
use std::rc::Rc;
use vstd::prelude::*;

verus! {

/// What the program around the library provides: the primitives that need the
/// outside world, and the text of files.
pub trait Host {
    /// Performs the primitive named `name` on `args`.
    fn invoke(&mut self, name: &str, args: Vec<Rc<Value>>) -> Value;

    /// The text of the file at `path`, or why it cannot be had.
    fn read_file(&mut self, path: &str) -> Result<String, String>;
}

/// The message for a primitive named `name` that the host does not provide.
pub open spec fn no_primitive_text(name: Seq<char>) -> Seq<char> {
    "No host primitive named "@ + name
}

/// The message for a file that the host does not provide.
pub open spec fn no_file_text(path: Seq<char>) -> Seq<char> {
    "No host to read the file "@ + path
}

/// A host that provides nothing: every primitive and every file is reported as
/// missing.
#[derive(Debug)]
pub struct NoHost {}

impl Host for NoHost {
    fn invoke(&mut self, name: &str, args: Vec<Rc<Value>>) -> (r: Value)
        ensures
            r@ == ValueView::Condition(no_primitive_text(name@)),
    {
        let mut msg = String::from_str("No host primitive named ");
        msg.append(name);
        Value::Condition(msg)
    }

    fn read_file(&mut self, path: &str) -> (r: Result<String, String>)
        ensures
            r is Err && r->Err_0@ == no_file_text(path@),
    {
        let mut msg = String::from_str("No host to read the file ");
        msg.append(path);
        Err(msg)
    }
}

fn arity_condition(start: &str, got: usize, expected: &str) -> (r: Rc<Value>)
    ensures
        fails_with(r, arity_text(start@, got as nat, expected@)),
{
    let mut msg = String::from_str(start);
    msg.append(decimal_string(got).as_str());
    msg.append(", Expected: ");
    msg.append(expected);
    msg.append(")");
    Rc::new(Value::Condition(msg))
}

fn too_deep() -> (r: Rc<Value>)
    ensures
        fails_with(r, too_deep_text()),
{
    Rc::new(custom("Evaluation is nested too deeply"))
}

/// The values of `v` from position `from` on, shared and not copied.
fn tail_of(v: &Vec<Rc<Value>>, from: usize) -> (r: Vec<Rc<Value>>)
    requires
        from <= v@.len(),
    ensures
        r@ == v@.subrange(from as int, v@.len() as int),
{
    let mut out: Vec<Rc<Value>> = Vec::new();
    let mut j: usize = from;
    while j < v.len()
        invariant
            from <= j <= v@.len(),
            out@ == v@.subrange(from as int, j as int),
        decreases v.len() - j,
    {
        out.push(rc_clone(&v[j]));
        assert(v@.subrange(from as int, j as int).push(v@[j as int]) =~= v@.subrange(
            from as int,
            j + 1,
        ));
        j += 1;
    }
    out
}

/// Whether a value evaluates to itself whatever the environment: it is neither
/// symbol nor vector nor list.
pub open spec fn self_evaluating(v: ValueView) -> bool {
    !(v is Symbol) && !(v is Vector) && !(v is List)
}

/// Evaluates the forms `forms` from position `from` on, in order, and returns
/// what the last evaluates to, or nil where there is none. No frame of `env`
/// changes.
pub fn eval_forms<H: Host>(
    host: &mut H,
    env: &mut Environment,
    forms: &Vec<Rc<Value>>,
    from: usize,
    depth: usize,
) -> (r: Rc<Value>)
    ensures
        evaluates_last(*old(env), forms@, from as int, depth as nat, *final(env), r),
        final(env).frames() == old(env).frames(),
    decreases depth, 1nat,
{
    let mut last = Rc::new(Value::Nil);
    let ghost mut results: Seq<Rc<Value>> = Seq::empty();
    let mut i: usize = from;
    while i < forms.len()
        invariant
            from <= i,
            env.frames() == old(env).frames(),
            from >= forms@.len() ==> *env == *old(env) && *last == Value::Nil,
            from < forms@.len() ==> i <= forms@.len() && evaluates_each(
                *old(env),
                forms@,
                from as int,
                (i - from) as nat,
                depth as nat,
                *env,
                results,
            ),
            i > from ==> last == results.last(),
        decreases forms.len() - i,
    {
        let ghost before = *env;
        let ghost so_far = results;
        last = eval(host, env, &forms[i], depth);
        proof {
            results = so_far.push(last);
            crate::semantics::lemma_evaluates_one_more(
                *old(env),
                forms@,
                from as int,
                (i - from) as nat,
                depth as nat,
                before,
                so_far,
                *env,
                last,
            );
        }
        i += 1;
    }
    proof {
        if from < forms@.len() {
            assert(chosen(results));
        }
    }
    last
}

/// Evaluates the forms `forms` from position `from` on, from left to right, and
/// returns what they evaluate to, in that order. No frame of `env` changes.
pub fn eval_args<H: Host>(
    host: &mut H,
    env: &mut Environment,
    forms: &Vec<Rc<Value>>,
    from: usize,
    depth: usize,
) -> (r: Vec<Rc<Value>>)
    ensures
        evaluates_each(
            *old(env),
            forms@,
            from as int,
            (if from <= forms@.len() {
                forms@.len() - from
            } else {
                0
            }) as nat,
            depth as nat,
            *final(env),
            r@,
        ),
        final(env).frames() == old(env).frames(),
        r@.len() == (if from <= forms@.len() {
            forms@.len() - from
        } else {
            0
        }),
    decreases depth, 1nat,
{
    let mut evaled: Vec<Rc<Value>> = Vec::new();
    let mut i: usize = from;
    while i < forms.len()
        invariant
            from <= i,
            env.frames() == old(env).frames(),
            from <= forms@.len() ==> i <= forms@.len(),
            from > forms@.len() ==> *env == *old(env),
            evaled@.len() == (if from <= forms@.len() {
                i - from
            } else {
                0
            }),
            evaluates_each(
                *old(env),
                forms@,
                from as int,
                evaled@.len(),
                depth as nat,
                *env,
                evaled@,
            ),
        decreases forms.len() - i,
    {
        let ghost before = *env;
        let ghost so_far = evaled@;
        let val = eval(host, env, &forms[i], depth);
        evaled.push(val);
        proof {
            crate::semantics::lemma_evaluates_one_more(
                *old(env),
                forms@,
                from as int,
                so_far.len(),
                depth as nat,
                before,
                so_far,
                *env,
                val,
            );
        }
        i += 1;
    }
    evaled
}

/// Calls the closure `lambda` on the arguments `args`: its body is evaluated in
/// a frame that binds the parameters, on top of the frames that the closure
/// captured, on top of the main environment of `env`. Arguments that do not fit
/// the parameters give a condition and change nothing. No frame of `env`
/// changes.
pub fn invoke_lambda<H: Host>(
    host: &mut H,
    env: &mut Environment,
    lambda: &Lambda,
    args: Vec<Rc<Value>>,
    depth: usize,
) -> (r: Rc<Value>)
    ensures
        invokes(*old(env), *lambda, args@, depth as nat, *final(env), r),
        final(env).frames() == old(env).frames(),
    decreases depth, 2nat,
{
    let bound = lambda.bind(&args);
    assert(chosen(bound));
    let frame = match bound {
        Ok(frame) => frame,
        Err(condition) => {
            return Rc::new(condition);
        },
    };
    let ghost main = env.main_val();
    let mut call_env = Environment::MainEnvironment(env.take_main());
    let mut i: usize = 0;
    while i < lambda.scope.len()
        invariant
            i <= lambda.scope.len(),
            call_env == scoped(main, lambda.scope@, i as nat),
        decreases lambda.scope.len() - i,
    {
        call_env.enter(lambda.scope[i].clone());
        i += 1;
    }
    call_env.enter(frame);
    let ghost entry = call_env;
    assert(entry == entered(scoped(main, lambda.scope@, lambda.scope@.len()), frame));
    let body = lambda.body.to_vec();
    let result = eval_forms(host, &mut call_env, &body, 0, depth);
    let ghost left = call_env;
    env.put_main(call_env.into_main());
    assert(evaluates_last(entry, body@, 0, depth as nat, left, result));
    assert(chosen((body@, left)));
    result
}

/// Calls `callable` on the arguments `args`, which are handed over as they are.
/// A pure primitive gives the outcome that its own contract states and leaves
/// the environment as it is. No frame of `env` changes.
pub fn apply<H: Host>(
    host: &mut H,
    env: &mut Environment,
    callable: &Callable,
    args: Vec<Rc<Value>>,
    depth: usize,
) -> (r: Rc<Value>)
    ensures
        calls(*old(env), *callable, args@, depth as nat, *final(env), r),
        final(env).frames() == old(env).frames(),
    decreases depth, 3nat,
{
    match callable {
        Callable::Builtin(b) => {
            match b {
                Builtin::AddFn => Rc::new(AddFn {  }.invoke(args)),
                Builtin::EqualsFn => Rc::new(EqualsFn {  }.invoke(args)),
                Builtin::NthFn => Rc::new(NthFn {  }.invoke(args)),
                Builtin::ConcatFn => Rc::new(ConcatFn {  }.invoke(args)),
                Builtin::AssocFn => Rc::new(AssocFn {  }.invoke(args)),
                Builtin::GetFn => Rc::new(GetFn {  }.invoke(args)),
                Builtin::TypeFn => Rc::new(TypeFn {  }.invoke(args)),
                Builtin::WithMetaFn => Rc::new(WithMetaFn {  }.invoke(args)),
                Builtin::DoFn => Rc::new(DoFn {  }.invoke(args)),
                Builtin::DoMacro => Rc::new(DoMacro {  }.invoke(args)),
                Builtin::NsMacro => Rc::new(NsMacro {  }.invoke(env, args)),
                Builtin::MapFn => MapFn {  }.invoke(host, env, args, depth),
                Builtin::LoadFileFn => LoadFileFn {  }.invoke(host, env, args, depth),
                Builtin::EvalFn => {
                    if args.len() != 1 {
                        Rc::new(crate::error_message::wrong_arg_count(1, args.len()))
                    } else if depth == 0 {
                        too_deep()
                    } else {
                        eval(host, env, &args[0], depth - 1)
                    }
                },
            }
        },
        Callable::Host(name) => Rc::new(host.invoke(name.as_str(), args)),
        Callable::Lambda(lambda) => invoke_lambda(host, env, &**lambda, args, depth),
    }
}

/// Alters the metadata of `var`: the function `alter` is called on the metadata
/// and `args`, and what it returns becomes the var's metadata if it is a map.
/// Anything else leaves the metadata as it was. Returns the metadata that the
/// var has afterwards. No frame of `env` changes.
pub fn alter_meta<H: Host>(
    host: &mut H,
    env: &mut Environment,
    var: &mut Var,
    alter: &Callable,
    args: &Vec<Rc<Value>>,
    depth: usize,
) -> (r: PersistentMap)
    ensures
        crate::semantics::alters_meta(
            *old(env),
            *old(var),
            *alter,
            args@,
            depth as nat,
            *final(env),
            *final(var),
            r,
        ),
        final(env).frames() == old(env).frames(),
{
    let mut called: Vec<Rc<Value>> = Vec::new();
    called.push(Rc::new(Value::PersistentMap(var.meta())));
    let mut rest = tail_of(args, 0);
    called.append(&mut rest);
    let ghost handed = called@;
    assert(handed.subrange(1, handed.len() as int) =~= args@);
    let returned = apply(host, env, alter, called, depth);
    assert(chosen((handed, returned)));
    var.alter_meta(&*returned)
}

/// `(quote form)`: the form itself, unevaluated.
pub fn eval_quote(args: &Vec<Rc<Value>>) -> (r: Rc<Value>)
    ensures
        quotes(args@, r),
{
    if args.len() != 1 {
        arity_condition("Wrong number of arguments (Given: ", args.len(), "1")
    } else {
        rc_clone(&args[0])
    }
}

/// `(if test then)` and `(if test then else)`: the test is evaluated, and then
/// `then` where it counts as true, else `else`, or nil without one. Only nil and
/// false count as false. No frame of `env` changes.
pub fn eval_if<H: Host>(
    host: &mut H,
    env: &mut Environment,
    args: &Vec<Rc<Value>>,
    depth: usize,
) -> (r: Rc<Value>)
    ensures
        chooses(*old(env), args@, depth as nat, *final(env), r),
        final(env).frames() == old(env).frames(),
    decreases depth, 4nat,
{
    if args.len() != 2 && args.len() != 3 {
        return arity_condition("Wrong number of arguments (Given: ", args.len(), "2 or 3");
    }
    let condition = eval(host, env, &args[0], depth);
    assert(chosen((*env, condition)));
    if condition.is_truthy() {
        eval(host, env, &args[1], depth)
    } else if args.len() == 3 {
        eval(host, env, &args[2], depth)
    } else {
        Rc::new(Value::Nil)
    }
}

/// `(def name)` and `(def name form)`: the form is evaluated, and the symbol
/// `name` is bound to the outcome, or to nil without a form, in the current
/// namespace (or in the symbol's own, where it has one), however many local
/// frames are in scope. Returns the symbol. No frame of `env` changes.
pub fn eval_def<H: Host>(
    host: &mut H,
    env: &mut Environment,
    args: &Vec<Rc<Value>>,
    depth: usize,
) -> (r: Rc<Value>)
    ensures
        defines(*old(env), args@, depth as nat, *final(env), r),
        final(env).frames() == old(env).frames(),
    decreases depth, 4nat,
{
    if args.len() != 1 && args.len() != 2 {
        return arity_condition(
            "Wrong number of arguments given to function (Given: ",
            args.len(),
            "1-2",
        );
    }
    let defval = if args.len() == 2 {
        eval(host, env, &args[1], depth)
    } else {
        Rc::new(Value::Nil)
    };
    assert(def_value(*old(env), args@, depth as nat, *env, defval));
    assert(chosen((*env, defval)));
    match &*args[0] {
        Value::Symbol(sym) => {
            env.insert_into_current_namespace(sym.clone(), rc_clone(&defval));
            rc_clone(&args[0])
        },
        _ => Rc::new(custom("First argument to def must be a symbol")),
    }
}

/// `(fn [params] body...)`: a closure over the frames that are in scope. The
/// environment does not change.
pub fn eval_fn(env: &Environment, args: &Vec<Rc<Value>>) -> (r: Rc<Value>)
    ensures
        closes(*env, args@, r),
{
    if args.len() == 0 {
        return arity_condition(
            "Wrong number of arguments given to function (Given: ",
            0,
            "1 or more",
        );
    }
    match &*args[0] {
        Value::Vector(vector) => {
            let given = vector.to_vec();
            let mut params: Vec<Symbol> = Vec::new();
            let mut i: usize = 0;
            while i < given.len()
                invariant
                    i <= given.len(),
                    param_symbols(views(given@).subrange(0, i as int), params@),
                decreases given.len() - i,
            {
                let ghost before = params@;
                match &*given[i] {
                    Value::Symbol(sym) => {
                        params.push(sym.clone());
                    },
                    _ => {},
                }
                proof {
                    let upto = views(given@).subrange(0, i + 1);
                    assert(upto.drop_last() =~= views(given@).subrange(0, i as int));
                    assert(upto.last() == given@[i as int]@);
                    if given@[i as int]@ is Symbol {
                        assert(params@.drop_last() =~= before);
                    }
                }
                i += 1;
            }
            assert(views(given@).subrange(0, given.len() as int) =~= views(given@));
            let body = tail_of(args, 1);
            let lambda = Lambda { params, body: List::from_vec(body), scope: env.capture() };
            Rc::new(Value::IFn(Callable::Lambda(Rc::new(lambda))))
        },
        _ => Rc::new(custom("First argument to fn must be a vector of parameters")),
    }
}

/// `(defmacro name [params] body...)`: the closure `(fn [params] body...)` is
/// made and bound to `name` as a macro, as `def` binds. No frame of `env`
/// changes.
pub fn eval_defmacro(env: &mut Environment, args: &Vec<Rc<Value>>) -> (r: Rc<Value>)
    ensures
        defines_macro(*old(env), args@, *final(env), r),
        final(env).frames() == old(env).frames(),
{
    if args.len() < 2 {
        return arity_condition(
            "Wrong number of arguments given to function (Given: ",
            args.len(),
            ">=2",
        );
    }
    let fn_args = tail_of(args, 1);
    let made = eval_fn(env, &fn_args);
    assert(chosen(made));
    let macro_value = match &*made {
        Value::IFn(callable) => Rc::new(Value::Macro(callable.clone())),
        _ => {
            return made;
        },
    };
    match &*args[0] {
        Value::Symbol(sym) => {
            env.insert_into_current_namespace(sym.clone(), rc_clone(&macro_value));
            assert(crate::semantics::defined(*old(env), sym@, macro_value, *env));
            assert(chosen(macro_value));
            rc_clone(&args[0])
        },
        _ => Rc::new(custom("First argument to def must be a symbol")),
    }
}

/// `(let [name form ...] body...)`: one new frame is put on top of the
/// environment. Each form is evaluated in the frame as it then is, and its name
/// bound there, so that a later form sees the earlier names; a name that is no
/// symbol binds nothing. Then the body's forms are evaluated in that frame, and
/// the last outcome is returned, or nil without a body. The frame is given up at
/// the end: no frame of `env` changes.
pub fn eval_let<H: Host>(
    host: &mut H,
    env: &mut Environment,
    args: &Vec<Rc<Value>>,
    depth: usize,
) -> (r: Rc<Value>)
    ensures
        lets(*old(env), args@, depth as nat, *final(env), r),
        final(env).frames() == old(env).frames(),
    decreases depth, 4nat,
{
    if args.len() == 0 {
        return arity_condition("Wrong number of arguments given to let (Given: ", 0, "1 or more");
    }
    let bindings = match &*args[0] {
        Value::Vector(vector) => vector.to_vec(),
        _ => {
            return Rc::new(custom("Bindings to let should be a vector"));
        },
    };
    assert(views(bindings@).len() == bindings@.len());
    if bindings.len() % 2 == 1 {
        return Rc::new(custom("Bindings to let should be an even number of forms"));
    }
    let ghost outer = env.frames();
    let frame = PersistentMap::empty();
    env.enter(frame);
    let ghost entry = *env;
    assert(entry == entered(*old(env), frame));
    let mut i: usize = 0;
    while i < bindings.len()
        invariant
            i <= bindings.len(),
            i % 2 == 0,
            bindings.len() % 2 == 0,
            *env is LocalEnvironment,
            env.frames().len() == outer.len() + 1,
            env.frames().subrange(1, env.frames().len() as int) == outer,
            binds_each(entry, bindings@, (i / 2) as nat, depth as nat, *env),
        decreases bindings.len() - i,
    {
        let ghost at = *env;
        let ghost before = env.frames();
        let val = eval(host, env, &bindings[i + 1], depth);
        let ghost evaled = *env;
        assert(env.frames() == before);
        match env {
            Environment::MainEnvironment(_) => {},
            Environment::LocalEnvironment(_, _) => {},
        }
        match &*bindings[i] {
            Value::Symbol(sym) => {
                env.insert(sym.clone(), rc_clone(&val));
                assert(env.frames().subrange(1, env.frames().len() as int) =~= before.subrange(
                    1,
                    before.len() as int,
                ));
            },
            _ => {},
        }
        proof {
            let count = (i / 2) as nat;
            assert(2 * count as int == i);
            crate::semantics::lemma_binds_one_more(
                entry,
                bindings@,
                count,
                depth as nat,
                at,
                evaled,
                val,
                *env,
            );
            assert(((i + 2) / 2) as nat == count + 1);
        }
        i += 2;
    }
    let ghost bound = *env;
    let ghost before = env.frames();
    let result = eval_forms(host, env, args, 1, depth);
    let ghost left = *env;
    assert(env.frames() == before);
    match env {
        Environment::MainEnvironment(_) => {},
        Environment::LocalEnvironment(_, _) => {},
    }
    env.leave();
    assert(env.frames() =~= before.subrange(1, before.len() as int));
    proof {
        assert(bindings@.len() / 2 == (i / 2) as nat);
        assert(binds_each(entry, bindings@, bindings@.len() / 2, depth as nat, bound));
        assert(evaluates_last(bound, args@, 1, depth as nat, left, result));
        assert(chosen((bindings@, frame, bound, left)));
    }
    result
}

/// The call of the evaluated head `head` on the forms `args`, which are not
/// evaluated yet. A function gets what they evaluate to, from left to right. A
/// macro gets the forms themselves, and what it returns is evaluated in turn. A
/// special form treats them by its own rules. Anything else cannot be called,
/// which gives a condition and changes nothing. No frame of `env` changes.
pub fn apply_to_list<H: Host>(
    host: &mut H,
    env: &mut Environment,
    head: &Rc<Value>,
    args: &Vec<Rc<Value>>,
    depth: usize,
) -> (r: Rc<Value>)
    ensures
        applies_to_list(*old(env), *head, args@, depth as nat, *final(env), r),
        final(env).frames() == old(env).frames(),
    decreases depth, 5nat,
{
    match &**head {
        Value::IFn(callable) => {
            let evaled = eval_args(host, env, args, 0, depth);
            assert(chosen((*env, evaled@)));
            apply(host, env, callable, evaled, depth)
        },
        Value::LexicalEvalFn => {
            if args.len() != 1 {
                return arity_condition("Wrong number of arguments (Given: ", args.len(), "1");
            }
            let form = eval(host, env, &args[0], depth);
            assert(chosen((*env, form)));
            eval(host, env, &form, depth)
        },
        Value::Macro(callable) => {
            let forms = tail_of(args, 0);
            assert(forms@ =~= args@);
            let expansion = apply(host, env, callable, forms, depth);
            assert(chosen((*env, expansion)));
            eval(host, env, &expansion, depth)
        },
        Value::DefMacro => eval_def(host, env, args, depth),
        Value::DefmacroMacro => eval_defmacro(env, args),
        Value::FnMacro => eval_fn(env, args),
        Value::LetMacro => eval_let(host, env, args, depth),
        Value::QuoteMacro => eval_quote(args),
        Value::IfMacro => eval_if(host, env, args, depth),
        other => {
            let mut msg = String::from_str("Execution Error: ");
            msg.append(other.type_tag().name());
            msg.append(" cannot be cast to clojure.lang.IFn");
            Rc::new(Value::Condition(msg))
        },
    }
}

/// What `value` evaluates to in `env`: `evaluates` says what that is. A value
/// that is neither symbol nor vector nor list evaluates to itself and leaves
/// `env` as it is. No frame of `env` changes in any case: what an evaluation
/// binds lastingly, it binds in the namespaces.
pub fn eval<H: Host>(host: &mut H, env: &mut Environment, value: &Rc<Value>, depth: usize) -> (r:
    Rc<Value>)
    ensures
        evaluates(*old(env), *value, depth as nat, *final(env), r),
        final(env).frames() == old(env).frames(),
        self_evaluating(value@) ==> *final(env) == *old(env) && r == *value,
    decreases depth, 0nat,
{
    match &**value {
        Value::Symbol(symbol) => env.get(symbol),
        Value::Vector(vector) => {
            if depth == 0 {
                return too_deep();
            }
            let forms = vector.to_vec();
            let evaled = eval_args(host, env, &forms, 0, depth - 1);
            assert(chosen((forms@, evaled@)));
            Rc::new(Value::Vector(Vector::from_vec(evaled)))
        },
        Value::List(list) => {
            if list.len() == 0 {
                return rc_clone(value);
            }
            if depth == 0 {
                return too_deep();
            }
            let forms = list.to_vec();
            assert(views(forms@).len() == forms@.len());
            let head = eval(host, env, &forms[0], depth - 1);
            assert(chosen((forms@, *env, head)));
            let rest = tail_of(&forms, 1);
            apply_to_list(host, env, &head, &rest, depth - 1)
        },
        _ => rc_clone(value),
    }
}

/// Reads the forms of the text `chars` one after the other and evaluates each
/// in `env`. Returns what the last form evaluates to, or nothing where the text
/// holds no form. A text that is not well formed at some form ends the reading
/// there, with the reader's condition as the result. No frame of `env`
/// changes.
pub fn eval_text<H: Host>(
    host: &mut H,
    env: &mut Environment,
    chars: &Vec<char>,
    depth: usize,
) -> (r: Option<Value>)
    ensures
        evaluates_text(*old(env), chars@, depth as nat, *final(env), r),
        final(env).frames() == old(env).frames(),
    decreases depth, 6nat,
{
    let mut prev: Option<Value> = None;
    let mut pos: usize = 0;
    let ghost mut n: nat = 0;
    loop
        invariant
            pos <= chars@.len(),
            env.frames() == old(env).frames(),
            reads_forms(*old(env), chars@, n, depth as nat, pos as int, *env, prev),
        decreases chars@.len() - pos,
    {
        let (just_read, end) = crate::reader::read(chars, pos);
        assert(chosen((n, pos as int, prev)));
        match just_read {
            None => {
                return prev;
            },
            Some(form) => {
                proof {
                    crate::reader::lemma_forms_are_no_conditions(
                        chars@,
                        pos as int,
                        crate::reader::MAX_NESTING as nat,
                    );
                }
                if form.is_condition() {
                    return Some(form);
                }
                let ghost mid = *env;
                let ghost before = prev;
                let form = Rc::new(form);
                let evaled = eval(host, env, &form, depth);
                prev = Some((*evaled).clone());
                proof {
                    crate::semantics::lemma_reads_one_more(
                        *old(env),
                        chars@,
                        n,
                        depth as nat,
                        pos as int,
                        mid,
                        before,
                        form,
                        *env,
                        evaled,
                    );
                    n = n + 1;
                }
                pos = end;
            },
        }
    }
}

} // verus!
