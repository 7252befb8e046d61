//! What evaluation means.
//!
//! `evaluates(before, value, depth, after, r)` says that evaluating `value` in
//! the environment `before`, nested at most `depth` deep, may leave the
//! environment `after` and return `r`. The relations beside it say the same of
//! the steps that an evaluation is made of. The evaluator is proved to compute
//! nothing but what they allow.
//!
//! Two things are left open, and only these. What a primitive of the host
//! returns and what a file holds is the host's business. And a list or vector
//! hands out its values as far as equality can tell them apart, which does not
//! look at the metadata of a symbol.
use crate::environment::Environment;
use crate::environment::EnvironmentVal;
use crate::error_message::wrong_arg_count_text;
use crate::iterable::Iterable;
use crate::lambda::binds;
use crate::lambda::symbol_views;
use crate::lambda::Lambda;
use crate::namespace::inserted;
use crate::protocol::Protocol;
use crate::reader::denotes;
use crate::reader::parse_form;
use crate::reader::Parsed;
use crate::reader::MAX_NESTING;
use crate::rust_core::add::sum_of;
use crate::rust_core::assoc::assoc_outcome;
use crate::rust_core::concat::concat_all;
use crate::rust_core::equals::equals_result;
use crate::rust_core::get::get_result;
use crate::rust_core::ns::ns_outcome;
use crate::rust_core::nth::nth_result;
use crate::rust_core::type_fn::type_result;
use crate::rust_core::with_meta::with_meta_outcome;
use crate::symbol::interned;
use crate::symbol::Symbol;
use crate::text::decimal;
use crate::type_tag::tag_name;
use crate::type_tag::TypeTag;
use crate::types::views;
use crate::types::PersistentMap;
use crate::value::type_tag_of;
use crate::value::Builtin;
use crate::value::Callable;
use crate::value::Value;
use crate::value::ValueView;
use crate::var::Var;
use std::rc::Rc;
use vstd::prelude::*;

verus! {

/// The message for an evaluation that nests deeper than its bound.
pub open spec fn too_deep_text() -> Seq<char> {
    "Evaluation is nested too deeply"@
}

/// The message for a head of a call that is neither function nor macro.
pub open spec fn not_callable_text(got: TypeTag) -> Seq<char> {
    "Execution Error: "@ + tag_name(got) + " cannot be cast to clojure.lang.IFn"@
}

/// A message that starts with `start` and gives `got` as the number of
/// arguments, before what was expected.
pub open spec fn arity_text(start: Seq<char>, got: nat, expected: Seq<char>) -> Seq<char> {
    start + decimal(got) + ", Expected: "@ + expected + ")"@
}

/// The message for a second argument of `map` of kind `got`, which cannot be
/// walked through.
pub open spec fn not_iterable_text(got: TypeTag) -> Seq<char> {
    "Type mismatch; Expected iterable type, Recieved type "@ + tag_name(got)
}

/// The message for a first argument of `map` of kind `got`, which is no
/// function.
pub open spec fn not_a_function_text(got: TypeTag) -> Seq<char> {
    "Type mismatch; Expected instance of "@ + tag_name(TypeTag::IFn) + ", Recieved type "@
        + tag_name(got)
}

/// Holds of everything. It marks the values that a step of an evaluation passes
/// through, so that a proof can name them.
pub open spec fn chosen<A>(a: A) -> bool {
    true
}

/// Whether `r` is the condition with the message `msg`.
pub open spec fn fails_with(r: Rc<Value>, msg: Seq<char>) -> bool {
    r@ == ValueView::Condition(msg)
}

/// The environment with `frame` on top of `outer`.
pub open spec fn entered(outer: Environment, frame: PersistentMap) -> Environment {
    Environment::LocalEnvironment(Box::new(outer), frame)
}

/// The main environment of state `main` under the first `k` frames of `scope`,
/// outermost first.
pub open spec fn scoped(main: EnvironmentVal, scope: Seq<PersistentMap>, k: nat) -> Environment
    decreases k,
{
    if k == 0 || k > scope.len() {
        Environment::MainEnvironment(main)
    } else {
        entered(scoped(main, scope, (k - 1) as nat), scope[k - 1])
    }
}

/// Whether `after` is `before` with the state `main` in place of the main
/// environment's.
pub open spec fn with_main(before: Environment, main: EnvironmentVal, after: Environment) -> bool {
    after.frames() == before.frames() && after.main_val() == main
}

/// The primitives whose outcome depends on their arguments alone.
pub open spec fn is_pure(b: Builtin) -> bool {
    b != Builtin::NsMacro && b != Builtin::MapFn && b != Builtin::EvalFn && b
        != Builtin::LoadFileFn
}

/// Whether `r` is what the pure primitive `b` returns on `args`.
pub open spec fn pure_outcome(b: Builtin, args: Seq<Rc<Value>>, r: Value) -> bool {
    match b {
        Builtin::AddFn => r@ == sum_of(views(args)),
        Builtin::EqualsFn => r@ == equals_result(views(args)),
        Builtin::NthFn => r@ == nth_result(views(args)),
        Builtin::ConcatFn => r@ matches ValueView::List(list) && list@ == concat_all(
            views(args),
        ),
        Builtin::AssocFn => assoc_outcome(views(args), r@),
        Builtin::GetFn => r@ == get_result(views(args)),
        Builtin::TypeFn => r@ == type_result(views(args)),
        Builtin::WithMetaFn => with_meta_outcome(args, r),
        Builtin::DoFn => r == (if args.len() == 0 {
            Value::Nil
        } else {
            *args.last()
        }),
        Builtin::DoMacro => r@ matches ValueView::List(list) && list@ == seq![
            ValueView::Symbol(interned("do-fn*"@)),
        ] + views(args),
        _ => false,
    }
}

/// Whether a value can stand at the head of a call: it is a function, a macro or
/// a special form.
pub open spec fn callable_kind(v: ValueView) -> bool {
    v is IFn || v is Macro || v is LexicalEvalFn || v is DefMacro || v is DefmacroMacro || v
        is FnMacro || v is LetMacro || v is QuoteMacro || v is IfMacro
}

/// Whether `params` are the symbols among `given`, in order: what is no symbol
/// is passed over.
pub open spec fn param_symbols(given: Seq<ValueView>, params: Seq<Symbol>) -> bool
    decreases given.len(),
{
    if given.len() == 0 {
        params.len() == 0
    } else {
        match given.last() {
            ValueView::Symbol(sym) => params.len() > 0 && params.last()@ == sym && param_symbols(
                given.drop_last(),
                params.drop_last(),
            ),
            _ => param_symbols(given.drop_last(), params),
        }
    }
}

/// Whether `r` is what `(quote ...)` gives on the forms `args`: the one form
/// itself, or a condition for any other number of forms.
pub open spec fn quotes(args: Seq<Rc<Value>>, r: Rc<Value>) -> bool {
    if args.len() == 1 {
        r == args[0]
    } else {
        fails_with(r, arity_text("Wrong number of arguments (Given: "@, args.len(), "1"@))
    }
}

/// Whether `r` is what `(fn ...)` gives on the forms `args` in `env`: a closure
/// over the frames of `env`, whose parameters are the symbols of the vector
/// `args[0]` and whose body is the further forms; or a condition where there is
/// no form, or the first is no vector.
pub open spec fn closes(env: Environment, args: Seq<Rc<Value>>, r: Rc<Value>) -> bool {
    if args.len() == 0 {
        fails_with(
            r,
            arity_text("Wrong number of arguments given to function (Given: "@, 0, "1 or more"@),
        )
    } else {
        match args[0]@ {
            ValueView::Vector(given) => *r matches Value::IFn(Callable::Lambda(lambda)) && (
            lambda.scope@ == env.frames().reverse() && lambda.body@ == views(
                args.subrange(1, args.len() as int),
            ) && param_symbols(given@, lambda.params@)),
            _ => fails_with(r, "First argument to fn must be a vector of parameters"@),
        }
    }
}

/// Whether `after` is what binding `sym` to `val` in the namespaces leaves of
/// `before`: the frames and the current namespace stay, and the namespaces are
/// as `inserted` says.
pub open spec fn defined(
    before: Environment,
    sym: crate::symbol::SymbolView,
    val: Rc<Value>,
    after: Environment,
) -> bool {
    &&& after.frames() == before.frames()
    &&& after.main_val().curr_ns_sym == before.main_val().curr_ns_sym
    &&& inserted(
        before.main_val().namespaces,
        after.main_val().namespaces,
        before.main_val().curr_ns_sym@,
        sym,
        val,
    )
}

/// Whether evaluating `value` in `before`, nested at most `depth` deep, may
/// leave `after` and return `r`.
///
/// A symbol evaluates to what the environment binds it to. A vector evaluates
/// to the vector of what its values evaluate to, from left to right. A list
/// that is not empty stands for a call: its first value is evaluated, and the
/// outcome is applied to the further values. Anything else, and the empty list,
/// evaluates to itself. A vector, and a list that is not empty, gives a
/// condition where `depth` is zero.
pub open spec fn evaluates(
    before: Environment,
    value: Rc<Value>,
    depth: nat,
    after: Environment,
    r: Rc<Value>,
) -> bool
    decreases depth, 0nat, 0nat,
{
    match *value {
        Value::Symbol(sym) => after == before && before.answers(sym@, before.find(sym@), r),
        Value::Vector(vector) => if depth == 0 {
            after == before && fails_with(r, too_deep_text())
        } else {
            exists|forms: Seq<Rc<Value>>, evaled: Seq<Rc<Value>>| #[trigger]
                chosen((forms, evaled)) && evaluates_each(
                    before,
                    forms,
                    0,
                    forms.len(),
                    (depth - 1) as nat,
                    after,
                    evaled,
                ) && views(forms) == vector@ && (r@ matches ValueView::Vector(out) && out@
                    == views(evaled))
        },
        Value::List(list) => if list@.len() == 0 {
            after == before && r == value
        } else if depth == 0 {
            after == before && fails_with(r, too_deep_text())
        } else {
            exists|forms: Seq<Rc<Value>>, mid: Environment, head: Rc<Value>| #[trigger]
                chosen((forms, mid, head)) && evaluates(
                    before,
                    forms[0],
                    (depth - 1) as nat,
                    mid,
                    head,
                ) && views(forms)
                    == list@ && applies_to_list(
                    mid,
                    head,
                    forms.subrange(1, forms.len() as int),
                    (depth - 1) as nat,
                    after,
                    r,
                )
        },
        _ => after == before && r == value,
    }
}

/// Whether evaluating the `count` forms of `forms` from position `from` on,
/// from left to right, may leave `after` and give `results`, in that order.
pub open spec fn evaluates_each(
    before: Environment,
    forms: Seq<Rc<Value>>,
    from: int,
    count: nat,
    depth: nat,
    after: Environment,
    results: Seq<Rc<Value>>,
) -> bool
    decreases depth, 1nat, count,
{
    if count == 0 {
        after == before && results.len() == 0
    } else {
        results.len() == count && exists|mid: Environment| #[trigger]
            chosen(mid) && evaluates_each(
                before,
                forms,
                from,
                (count - 1) as nat,
                depth,
                mid,
                results.drop_last(),
            ) && evaluates(mid, forms[from + count - 1], depth, after, results.last())
    }
}

/// Whether evaluating the forms of `forms` from position `from` on, in order,
/// may leave `after` and return `r`: what the last form evaluates to, or nil
/// where there is no form.
pub open spec fn evaluates_last(
    before: Environment,
    forms: Seq<Rc<Value>>,
    from: int,
    depth: nat,
    after: Environment,
    r: Rc<Value>,
) -> bool
    decreases depth, 2nat, 0nat,
{
    if from < 0 || from >= forms.len() {
        after == before && *r == Value::Nil
    } else {
        exists|results: Seq<Rc<Value>>| #[trigger]
            chosen(results) && evaluates_each(
                before,
                forms,
                from,
                (forms.len() - from) as nat,
                depth,
                after,
                results,
            ) && r == results.last()
    }
}

/// Whether calling the closure `lambda` on `args` in `before` may leave `after`
/// and return `r`. Arguments that do not fit the parameters give the condition
/// that says so and change nothing. Else the forms of the body are evaluated in
/// a frame that binds the parameters, on top of the frames that the closure
/// captured, on top of the main environment of `before`; `after` is `before`
/// with the main environment as that evaluation leaves it.
pub open spec fn invokes(
    before: Environment,
    lambda: Lambda,
    args: Seq<Rc<Value>>,
    depth: nat,
    after: Environment,
    r: Rc<Value>,
) -> bool
    decreases depth, 3nat, 0nat,
{
    exists|bound: Result<PersistentMap, Value>| #[trigger]
        chosen(bound) && binds(symbol_views(lambda.params@), views(args), bound) && (match bound {
            Err(condition) => after == before && *r == condition,
            Ok(frame) => exists|body: Seq<Rc<Value>>, left: Environment| #[trigger]
                chosen((body, left)) && evaluates_last(
                    entered(
                        scoped(before.main_val(), lambda.scope@, lambda.scope@.len()),
                        frame,
                    ),
                    body,
                    0,
                    depth,
                    left,
                    r,
                ) && views(body) == lambda.body@ && with_main(before, left.main_val(), after),
        })
}

/// Whether calling `f` on each of the first `count` values of `items`, in
/// order, may leave `after` and give `results`.
pub open spec fn calls_each(
    before: Environment,
    f: Callable,
    items: Seq<Rc<Value>>,
    count: nat,
    depth: nat,
    after: Environment,
    results: Seq<Rc<Value>>,
) -> bool
    decreases depth, 13nat, count,
{
    if count == 0 {
        after == before && results.len() == 0
    } else {
        results.len() == count && exists|mid: Environment| #[trigger]
            chosen(mid) && calls_each(
                before,
                f,
                items,
                (count - 1) as nat,
                depth,
                mid,
                results.drop_last(),
            )
                && calls(mid, f, seq![items[count - 1]], depth, after, results.last())
    }
}

/// Whether `(map f coll)` on `args` in `before` may leave `after` and return
/// `r`. Other than two arguments, a second that is no list and a first that is
/// no function give a condition and change nothing; so does a `depth` of zero.
/// Else the function is called on each value of the list, first to last, and
/// `r` is the list of the outcomes.
pub open spec fn maps(
    before: Environment,
    args: Seq<Rc<Value>>,
    depth: nat,
    after: Environment,
    r: Rc<Value>,
) -> bool
    decreases depth, 5nat, 0nat,
{
    if args.len() != 2 {
        after == before && fails_with(r, wrong_arg_count_text(2, args.len()))
    } else if !Iterable::admits(args[1]@) {
        after == before && fails_with(r, not_iterable_text(type_tag_of(args[1]@)))
    } else {
        match *args[0] {
            Value::IFn(f) => if depth == 0 {
                after == before && fails_with(r, too_deep_text())
            } else {
                exists|items: Seq<Rc<Value>>, results: Seq<Rc<Value>>| #[trigger]
                    chosen((items, results)) && calls_each(
                        before,
                        f,
                        items,
                        items.len(),
                        (depth - 1) as nat,
                        after,
                        results,
                    ) && views(items) == args[1]@->List_0@ && (r@ matches ValueView::List(out)
                        && out@ == views(results))
            },
            _ => after == before && fails_with(r, not_a_function_text(type_tag_of(args[0]@))),
        }
    }
}

/// Whether reading and evaluating the first `n` forms of the text `chars` in
/// `before` may lead to the position `pos`, the environment `now` and the
/// outcome `last` of the latest form.
pub open spec fn reads_forms(
    before: Environment,
    chars: Seq<char>,
    n: nat,
    depth: nat,
    pos: int,
    now: Environment,
    last: Option<Value>,
) -> bool
    decreases depth, 6nat, n,
{
    if n == 0 {
        pos == 0 && now == before && last is None
    } else {
        exists|at: int, mid: Environment, prev: Option<Value>, form: Rc<Value>, val: Rc<Value>|
            #[trigger] chosen((at, mid, prev, form, val)) && reads_forms(
                before,
                chars,
                (n - 1) as nat,
                depth,
                at,
                mid,
                prev,
            ) && evaluates(
                mid,
                form,
                depth,
                now,
                val,
            ) && (parse_form(chars, at, MAX_NESTING as nat) matches Parsed::Form(written, end)
                && end == pos && denotes(written, form@)) && last == Some(*val)
    }
}

/// Whether reading the forms of the text `chars` one after the other and
/// evaluating each in `before` may leave `after` and return `r`: the outcome of
/// the last form, or nothing for a text without forms. Text that is not well
/// formed at some form ends the reading there, with the reader's condition as
/// the outcome.
pub open spec fn evaluates_text(
    before: Environment,
    chars: Seq<char>,
    depth: nat,
    after: Environment,
    r: Option<Value>,
) -> bool
    decreases depth, 7nat, 0nat,
{
    exists|n: nat, pos: int, last: Option<Value>| #[trigger]
        chosen((n, pos, last)) && reads_forms(before, chars, n, depth, pos, after, last) && (
        match parse_form(
            chars,
            pos,
            MAX_NESTING as nat,
        ) {
            Parsed::End => r == last,
            Parsed::Bad(msg) => r is Some && r->0@ == ValueView::Condition(msg),
            Parsed::Form(_, _) => false,
        })
}

/// The path that `(load-file path)` asks the host for on `args`, or the message
/// of the condition that it gives without asking: for other than one argument,
/// for a path that is no string, and for a `depth` of zero.
pub open spec fn asked_path(args: Seq<Rc<Value>>, depth: nat) -> Result<Seq<char>, Seq<char>> {
    if args.len() != 1 {
        Err(wrong_arg_count_text(1, args.len()))
    } else {
        match args[0]@ {
            ValueView::String(path) => if depth == 0 {
                Err(too_deep_text())
            } else {
                Ok(path)
            },
            _ => Err(
                crate::error_message::type_mismatch_text(TypeTag::String, type_tag_of(args[0]@)),
            ),
        }
    }
}

/// Whether loading what the host read of a file in `before` may leave `after`
/// and return `r`. Where the host read no text, `r` is the condition with the
/// host's message and nothing changes. Where it read one, the text is
/// evaluated, and `r` is the outcome of its last form, or nil for a text
/// without forms.
pub open spec fn loaded(
    before: Environment,
    read: Result<String, String>,
    depth: nat,
    after: Environment,
    r: Rc<Value>,
) -> bool
    decreases depth, 8nat, 0nat,
{
    match read {
        Err(msg) => after == before && fails_with(r, msg@),
        Ok(text) => exists|outcome: Option<Value>| #[trigger]
            chosen(outcome) && evaluates_text(before, text@, depth, after, outcome) && *r == (
            match outcome {
                Some(val) => val,
                None => Value::Nil,
            }),
    }
}

/// Whether `(load-file path)` on `args` in `before` may leave `after` and
/// return `r`. Where `asked_path` gives a message, `r` is the condition with
/// that message and nothing changes. Else the host is asked for the file at
/// that path, and what it read is loaded as `loaded` says, one level deeper.
pub open spec fn loads(
    before: Environment,
    args: Seq<Rc<Value>>,
    depth: nat,
    after: Environment,
    r: Rc<Value>,
) -> bool
    decreases depth, 8nat, 1nat,
{
    match asked_path(args, depth) {
        Err(msg) => after == before && fails_with(r, msg),
        Ok(_) => exists|read: Result<String, String>| #[trigger]
            chosen(read) && loaded(before, read, (depth - 1) as nat, after, r),
    }
}

/// Whether calling `callable` on `args` in `before` may leave `after` and
/// return `r`. A pure primitive changes nothing and returns what its own
/// contract states. A primitive of the host changes nothing; what it returns
/// is the host's business.
pub open spec fn calls(
    before: Environment,
    callable: Callable,
    args: Seq<Rc<Value>>,
    depth: nat,
    after: Environment,
    r: Rc<Value>,
) -> bool
    decreases depth, 9nat, 0nat,
{
    match callable {
        Callable::Builtin(b) => if is_pure(b) {
            after == before && pure_outcome(b, args, *r)
        } else if b == Builtin::NsMacro {
            ns_outcome(before, args, after, *r)
        } else if b == Builtin::MapFn {
            maps(before, args, depth, after, r)
        } else if b == Builtin::LoadFileFn {
            loads(before, args, depth, after, r)
        } else if args.len() != 1 {
            after == before && fails_with(r, wrong_arg_count_text(1, args.len()))
        } else if depth == 0 {
            after == before && fails_with(r, too_deep_text())
        } else {
            evaluates(before, args[0], (depth - 1) as nat, after, r)
        },
        Callable::Host(_) => after == before,
        Callable::Lambda(lambda) => invokes(before, *lambda, args, depth, after, r),
    }
}

/// Whether `(if ...)` on the forms `args` in `before` may leave `after` and
/// return `r`. The first form is evaluated; where the outcome counts as true
/// the second form is evaluated, else the third, and without a third the result
/// is nil. Only nil and false count as false.
pub open spec fn chooses(
    before: Environment,
    args: Seq<Rc<Value>>,
    depth: nat,
    after: Environment,
    r: Rc<Value>,
) -> bool
    decreases depth, 10nat, 0nat,
{
    if args.len() != 2 && args.len() != 3 {
        after == before && fails_with(
            r,
            arity_text("Wrong number of arguments (Given: "@, args.len(), "2 or 3"@),
        )
    } else {
        exists|mid: Environment, test: Rc<Value>| #[trigger]
            chosen((mid, test)) && evaluates(before, args[0], depth, mid, test) && (if !(test@
                is Nil || test@
                == ValueView::Boolean(false)) {
                evaluates(mid, args[1], depth, after, r)
            } else if args.len() == 3 {
                evaluates(mid, args[2], depth, after, r)
            } else {
                after == mid && *r == Value::Nil
            })
    }
}

/// Whether `(def ...)` on the forms `args` in `before` may leave `after` and
/// return `r`. The second form is evaluated, and the symbol that is the first
/// form is bound to the outcome, or to nil without a second form, in the
/// namespaces: in the current namespace, or in the symbol's own where it has
/// one. The result is the symbol.
pub open spec fn defines(
    before: Environment,
    args: Seq<Rc<Value>>,
    depth: nat,
    after: Environment,
    r: Rc<Value>,
) -> bool
    decreases depth, 10nat, 0nat,
{
    if args.len() != 1 && args.len() != 2 {
        after == before && fails_with(
            r,
            arity_text("Wrong number of arguments given to function (Given: "@, args.len(), "1-2"@),
        )
    } else {
        exists|mid: Environment, val: Rc<Value>| #[trigger]
            chosen((mid, val)) && def_value(before, args, depth, mid, val) && (match *args[0] {
                Value::Symbol(sym) => defined(mid, sym@, val, after) && r == args[0],
                _ => after == mid && fails_with(r, "First argument to def must be a symbol"@),
            })
    }
}

/// Whether `val` is the value that `(def ...)` on the forms `args` binds, and
/// `mid` the environment that evaluating it leaves of `before`.
pub open spec fn def_value(
    before: Environment,
    args: Seq<Rc<Value>>,
    depth: nat,
    mid: Environment,
    val: Rc<Value>,
) -> bool
    decreases depth, 9nat, 1nat,
{
    if args.len() == 2 {
        evaluates(before, args[1], depth, mid, val)
    } else {
        mid == before && *val == Value::Nil
    }
}

/// Whether `(defmacro ...)` on the forms `args` in `before` may leave `after`
/// and return `r`. The closure that `fn` makes of the forms after the first is
/// bound, as a macro, to the symbol that is the first form, as `def` binds.
pub open spec fn defines_macro(
    before: Environment,
    args: Seq<Rc<Value>>,
    after: Environment,
    r: Rc<Value>,
) -> bool {
    if args.len() < 2 {
        after == before && fails_with(
            r,
            arity_text("Wrong number of arguments given to function (Given: "@, args.len(), ">=2"@),
        )
    } else {
        exists|made: Rc<Value>| #[trigger]
            chosen(made) && closes(before, args.subrange(1, args.len() as int), made) && (
            match *made {
                Value::IFn(callable) => match *args[0] {
                    Value::Symbol(sym) => exists|bound: Rc<Value>| #[trigger]
                        chosen(bound) && defined(before, sym@, bound, after) && *bound
                            == Value::Macro(callable)
                            && r == args[0],
                    _ => after == before && fails_with(
                        r,
                        "First argument to def must be a symbol"@,
                    ),
                },
                _ => after == before && r == made,
            })
    }
}

/// Whether evaluating the first `count` pairs of the bindings `bindings` of a
/// `let`, in order, may lead from `before` to `now`. Each form is evaluated in
/// the environment as it then is, and its name is bound in the innermost frame;
/// a name that is no symbol binds nothing.
pub open spec fn binds_each(
    before: Environment,
    bindings: Seq<Rc<Value>>,
    count: nat,
    depth: nat,
    now: Environment,
) -> bool
    decreases depth, 10nat, count,
{
    if count == 0 {
        now == before
    } else {
        exists|mid: Environment, evaled: Environment, val: Rc<Value>| #[trigger]
            chosen((mid, evaled, val)) && binds_each(
                before,
                bindings,
                (count - 1) as nat,
                depth,
                mid,
            ) && evaluates(
                mid,
                bindings[2 * count - 1],
                depth,
                evaled,
                val,
            ) && (match bindings[2 * count - 2]@ {
                ValueView::Symbol(sym) => Environment::after_insert(evaled, now, sym, val),
                _ => now == evaled,
            })
    }
}

/// Whether `(let ...)` on the forms `args` in `before` may leave `after` and
/// return `r`. One new frame is put on top of `before`. The bindings of the
/// vector `args[0]` are made in it in sequence, the further forms are evaluated
/// in it, and the frame is given up: `after` is what lies under it at the end.
pub open spec fn lets(
    before: Environment,
    args: Seq<Rc<Value>>,
    depth: nat,
    after: Environment,
    r: Rc<Value>,
) -> bool
    decreases depth, 11nat, 0nat,
{
    if args.len() == 0 {
        after == before && fails_with(
            r,
            arity_text("Wrong number of arguments given to let (Given: "@, 0, "1 or more"@),
        )
    } else {
        match args[0]@ {
            ValueView::Vector(vector) => if vector@.len() % 2 == 1 {
                after == before && fails_with(
                    r,
                    "Bindings to let should be an even number of forms"@,
                )
            } else {
                exists|
                    bindings: Seq<Rc<Value>>,
                    frame: PersistentMap,
                    bound: Environment,
                    left: Environment,
                | #[trigger]
                    chosen((bindings, frame, bound, left)) && binds_each(
                        entered(before, frame),
                        bindings,
                        bindings.len() / 2,
                        depth,
                        bound,
                    ) && evaluates_last(bound, args, 1, depth, left, r) && views(bindings)
                        == vector@ && frame@ == Map::<ValueView, ValueView>::empty() && (
                    left matches Environment::LocalEnvironment(under, _) && after == *under)
            },
            _ => after == before && fails_with(r, "Bindings to let should be a vector"@),
        }
    }
}

/// Whether applying the evaluated head `head` to the forms `args`, which are
/// not evaluated yet, in `before` may leave `after` and return `r`. A function
/// is called on what the forms evaluate to, from left to right. A macro is
/// called on the forms themselves, and what it returns is evaluated in turn. A
/// special form treats the forms by its own rules. Anything else cannot be
/// called, which gives a condition and changes nothing.
pub open spec fn applies_to_list(
    before: Environment,
    head: Rc<Value>,
    args: Seq<Rc<Value>>,
    depth: nat,
    after: Environment,
    r: Rc<Value>,
) -> bool
    decreases depth, 12nat, 0nat,
{
    match *head {
        Value::IFn(callable) => exists|mid: Environment, evaled: Seq<Rc<Value>>| #[trigger]
            chosen((mid, evaled)) && evaluates_each(
                before,
                args,
                0,
                args.len(),
                depth,
                mid,
                evaled,
            ) && calls(
                mid,
                callable,
                evaled,
                depth,
                after,
                r,
            ),
        Value::LexicalEvalFn => if args.len() != 1 {
            after == before && fails_with(
                r,
                arity_text("Wrong number of arguments (Given: "@, args.len(), "1"@),
            )
        } else {
            exists|mid: Environment, form: Rc<Value>| #[trigger]
                chosen((mid, form)) && evaluates(before, args[0], depth, mid, form) && evaluates(
                    mid,
                    form,
                    depth,
                    after,
                    r,
                )
        },
        Value::Macro(callable) => exists|mid: Environment, expansion: Rc<Value>| #[trigger]
            chosen((mid, expansion)) && calls(before, callable, args, depth, mid, expansion)
                && evaluates(
                mid,
                expansion,
                depth,
                after,
                r,
            ),
        Value::DefMacro => defines(before, args, depth, after, r),
        Value::DefmacroMacro => defines_macro(before, args, after, r),
        Value::FnMacro => after == before && closes(before, args, r),
        Value::LetMacro => lets(before, args, depth, after, r),
        Value::QuoteMacro => after == before && quotes(args, r),
        Value::IfMacro => chooses(before, args, depth, after, r),
        _ => after == before && fails_with(r, not_callable_text(type_tag_of(head@))),
    }
}

/// Whether evaluating the text of a file, as far as the host can read it, in
/// `before` may leave `after` and give `r`: the outcome of evaluating the text
/// that the host read, or the host's message and no change.
pub open spec fn evaluates_file(
    before: Environment,
    depth: nat,
    after: Environment,
    r: Result<Option<Value>, String>,
) -> bool {
    match r {
        Ok(outcome) => exists|chars: Seq<char>| #[trigger]
            chosen(chars) && evaluates_text(before, chars, depth, after, outcome),
        Err(_) => after == before,
    }
}

/// Whether altering the metadata of `var` by the function `alter` on `args` in
/// `before` may leave `after`, the var `altered` and the result `r`. The
/// function is called on the var's metadata and `args`. Where it returns a map,
/// that map is the var's metadata from then on; anything else leaves the
/// metadata as it was. The result is the metadata that the var then has.
pub open spec fn alters_meta(
    before: Environment,
    var: Var,
    alter: Callable,
    args: Seq<Rc<Value>>,
    depth: nat,
    after: Environment,
    altered: Var,
    r: PersistentMap,
) -> bool {
    exists|called: Seq<Rc<Value>>, returned: Rc<Value>| #[trigger]
        chosen((called, returned)) && calls(before, alter, called, depth, after, returned)
            && called.len() == args.len() + 1 && *called[0] == Value::PersistentMap(var.meta)
            && called.subrange(1, called.len() as int) == args && altered == (Var {
            meta: match *returned {
                Value::PersistentMap(m) => m,
                _ => var.meta,
            },
            ..var
        }) && r == altered.meta
}

/// One more form that is evaluated extends what `evaluates_each` holds of.
pub proof fn lemma_evaluates_one_more(
    before: Environment,
    forms: Seq<Rc<Value>>,
    from: int,
    count: nat,
    depth: nat,
    mid: Environment,
    so_far: Seq<Rc<Value>>,
    after: Environment,
    val: Rc<Value>,
)
    requires
        evaluates_each(before, forms, from, count, depth, mid, so_far),
        evaluates(mid, forms[from + count], depth, after, val),
    ensures
        evaluates_each(before, forms, from, count + 1, depth, after, so_far.push(val)),
{
    let results = so_far.push(val);
    assert(so_far.len() == count);
    assert(results.drop_last() =~= so_far);
    assert(chosen(mid));
}

/// One more call extends what `calls_each` holds of.
pub proof fn lemma_calls_one_more(
    before: Environment,
    f: Callable,
    items: Seq<Rc<Value>>,
    count: nat,
    depth: nat,
    mid: Environment,
    so_far: Seq<Rc<Value>>,
    after: Environment,
    val: Rc<Value>,
)
    requires
        calls_each(before, f, items, count, depth, mid, so_far),
        calls(mid, f, seq![items[count as int]], depth, after, val),
    ensures
        calls_each(before, f, items, count + 1, depth, after, so_far.push(val)),
{
    let results = so_far.push(val);
    assert(so_far.len() == count);
    assert(results.drop_last() =~= so_far);
    assert(chosen(mid));
}

/// One more binding extends what `binds_each` holds of.
pub proof fn lemma_binds_one_more(
    before: Environment,
    bindings: Seq<Rc<Value>>,
    count: nat,
    depth: nat,
    mid: Environment,
    evaled: Environment,
    val: Rc<Value>,
    now: Environment,
)
    requires
        binds_each(before, bindings, count, depth, mid),
        evaluates(mid, bindings[2 * count as int + 1], depth, evaled, val),
        match bindings[2 * count as int]@ {
            ValueView::Symbol(sym) => Environment::after_insert(evaled, now, sym, val),
            _ => now == evaled,
        },
    ensures
        binds_each(before, bindings, count + 1, depth, now),
{
    assert(chosen((mid, evaled, val)));
}

/// One more form that is read and evaluated extends what `reads_forms` holds
/// of.
pub proof fn lemma_reads_one_more(
    before: Environment,
    chars: Seq<char>,
    n: nat,
    depth: nat,
    at: int,
    mid: Environment,
    prev: Option<Value>,
    form: Rc<Value>,
    now: Environment,
    val: Rc<Value>,
)
    requires
        reads_forms(before, chars, n, depth, at, mid, prev),
        evaluates(mid, form, depth, now, val),
        parse_form(chars, at, MAX_NESTING as nat) matches Parsed::Form(written, end) && denotes(
            written,
            form@,
        ),
    ensures
        reads_forms(
            before,
            chars,
            n + 1,
            depth,
            parse_form(chars, at, MAX_NESTING as nat)->Form_1,
            now,
            Some(*val),
        ),
{
    assert(chosen((at, mid, prev, form, val)));
}

} // verus!
