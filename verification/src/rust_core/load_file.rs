//! `(load-file path)`: read a file and evaluate what it holds.
use crate::environment::Environment;
use crate::error_message::type_mismatch;
use crate::error_message::wrong_arg_count;
use crate::evaluator::eval_text;
use crate::evaluator::Host;
use crate::semantics::asked_path;
use crate::semantics::loaded;
use crate::semantics::loads;
use crate::text::chars_of;
use crate::type_tag::TypeTag;
use crate::value::Builtin;
use crate::value::Callable;
use crate::value::CallableView;
use crate::value::ToValue;
use crate::value::Value;
use crate::value::ValueView;
use std::rc::Rc;
use vstd::prelude::*;

verus! {

/// The primitive `load-file`.
#[derive(Debug, Clone)]
pub struct LoadFileFn {}

impl ToValue for LoadFileFn {
    open spec fn value_view(&self) -> ValueView {
        ValueView::IFn(CallableView::Builtin(Builtin::LoadFileFn))
    }

    fn to_value(&self) -> (r: Value) {
        Value::IFn(Callable::Builtin(Builtin::LoadFileFn))
    }

    fn to_rc_value(&self) -> (r: Rc<Value>) {
        Rc::new(Value::IFn(Callable::Builtin(Builtin::LoadFileFn)))
    }
}

impl LoadFileFn {
    /// The primitive itself.
    pub fn new() -> (r: LoadFileFn) {
        LoadFileFn {  }
    }

    /// What `load-file` returns for what the file's text evaluated to: the
    /// outcome of its last form, or nil for a file without forms.
    pub fn finish(outcome: Option<Value>) -> (r: Value)
        ensures
            r == (match outcome {
                Some(val) => val,
                None => Value::Nil,
            }),
    {
        match outcome {
            Some(val) => val,
            None => Value::Nil,
        }
    }

    /// The path that `load-file` asks the host for on `args`, or the condition
    /// that it gives without asking: for other than one argument, for a path
    /// that is no string, and for a `depth` of zero.
    pub fn path(args: &Vec<Rc<Value>>, depth: usize) -> (r: Result<String, Value>)
        ensures
            match asked_path(args@, depth as nat) {
                Ok(path) => r is Ok && r->Ok_0@ == path,
                Err(msg) => r is Err && r->Err_0@ == ValueView::Condition(msg),
            },
    {
        if args.len() != 1 {
            return Err(wrong_arg_count(1, args.len()));
        }
        match &*args[0] {
            Value::String(file) => {
                if depth == 0 {
                    Err(crate::error_message::custom("Evaluation is nested too deeply"))
                } else {
                    Ok(file.clone())
                }
            },
            other => Err(type_mismatch(TypeTag::String, other)),
        }
    }

    /// Loads what the host read of a file. Where it read no text, the result is
    /// the condition with the host's message, and `env` stays as it is. Where
    /// it read one, the forms of the text are evaluated one after the other,
    /// and the result is the outcome of the last, or nil for a text without
    /// forms. No frame of `env` changes.
    pub fn load<H: Host>(
        host: &mut H,
        env: &mut Environment,
        read: Result<String, String>,
        depth: usize,
    ) -> (r: Rc<Value>)
        ensures
            loaded(*old(env), read, depth as nat, *final(env), r),
            final(env).frames() == old(env).frames(),
        decreases depth, 7nat,
    {
        match read {
            Ok(text) => {
                let chars = chars_of(text.as_str());
                let outcome = eval_text(host, env, &chars, depth);
                assert(crate::semantics::chosen(outcome));
                Rc::new(LoadFileFn::finish(outcome))
            },
            Err(msg) => Rc::new(Value::Condition(msg)),
        }
    }

    /// Evaluates the forms of the file whose path is the string `args[0]`, one
    /// after the other, and returns the outcome of the last. Other than one
    /// argument, a path that is no string and a `depth` of zero give a
    /// condition and change nothing, and the host is not asked. Else the host
    /// is asked for the file at that path, and what it read is loaded as `load`
    /// does. No frame of `env` changes.
    pub fn invoke<H: Host>(
        &self,
        host: &mut H,
        env: &mut Environment,
        args: Vec<Rc<Value>>,
        depth: usize,
    ) -> (r: Rc<Value>)
        ensures
            loads(*old(env), args@, depth as nat, *final(env), r),
            final(env).frames() == old(env).frames(),
        decreases depth, 2nat,
    {
        match LoadFileFn::path(&args, depth) {
            Err(condition) => Rc::new(condition),
            Ok(path) => {
                let read = host.read_file(path.as_str());
                assert(crate::semantics::chosen(read));
                LoadFileFn::load(host, env, read, depth - 1)
            },
        }
    }
}

} // verus!
