//! The driver's two entry points: read and evaluate.
use crate::environment::Environment;
use crate::evaluator::apply_to_list as apply_head;
use crate::semantics::applies_to_list;
use crate::semantics::evaluates;
use crate::semantics::evaluates_file;
use crate::semantics::evaluates_text;
use crate::evaluator::eval;
use crate::evaluator::eval_text;
use crate::evaluator::Host;
use crate::evaluator::NoHost;
use crate::reader::denotes;
use crate::reader::parse_form;
use crate::reader::Parsed;
use crate::reader::MAX_NESTING;
use crate::symbol::SymbolView;
use crate::text::chars_of;
use crate::text::str_eq;
use crate::value::Value;
use crate::value::ValueView;
use std::rc::Rc;
use vstd::prelude::*;

verus! {

/// How deeply an evaluation may nest unless the driver says otherwise. Each level
/// takes its share of the stack, so a driver that raises the bound must have the
/// stack for it.
pub const DEFAULT_DEPTH: usize = 160;

/// An interpreter: an environment, the host that serves it, and the bound on how
/// deeply an evaluation may nest.
pub struct Repl<H: Host> {
    pub environment: Environment,
    pub host: H,
    pub depth: usize,
}

impl Repl<NoHost> {
    /// Reads one form of the text `chars` from position `pos` on: the value that
    /// the form writes and the position after it; a condition where the text is
    /// not well formed; and no value where nothing but blanks and comments is
    /// left.
    pub fn read(chars: &Vec<char>, pos: usize) -> (r: (Option<Value>, usize))
        ensures
            match parse_form(chars@, pos as int, MAX_NESTING as nat) {
                Parsed::Form(form, end) => r.0 is Some && denotes(form, r.0->0@) && r.1 == end
                    && pos < end <= chars@.len(),
                Parsed::End => r.0 is None && r.1 == chars@.len(),
                Parsed::Bad(msg) => r.0 is Some && r.0->0@ == ValueView::Condition(msg) && r.1
                    == chars@.len(),
            },
    {
        crate::reader::read(chars, pos)
    }

    /// Reads the first form of `string`.
    pub fn read_string(string: &str) -> (r: Option<Value>)
        ensures
            match parse_form(string@, 0, MAX_NESTING as nat) {
                Parsed::Form(form, end) => r is Some && denotes(form, r->0@),
                Parsed::End => r is None,
                Parsed::Bad(msg) => r is Some && r->0@ == ValueView::Condition(msg),
            },
    {
        let chars = chars_of(string);
        crate::reader::read(&chars, 0).0
    }

    /// Whether `text` breaks off inside a form, so that a driver that reads by
    /// lines is to read on before it hands the text over.
    pub fn breaks_off(text: &str) -> (r: bool)
        ensures
            r == crate::reader::breaks_off_from(text@, 0),
    {
        let chars = chars_of(text);
        crate::reader::breaks_off(&chars)
    }

    /// Whether a value that was read asks the driver to stop: it is the keyword
    /// `:repl/quit`.
    pub fn is_quit(value: &Value) -> (r: bool)
        ensures
            r == (value@ == ValueView::Keyword(
                SymbolView { name: "quit"@, ns: Some("repl"@) },
            )),
    {
        match value {
            Value::Keyword(kw) => match kw.namespace() {
                Some(ns) => str_eq(ns, "repl") && str_eq(kw.name(), "quit"),
                None => false,
            },
            _ => false,
        }
    }
}

impl<H: Host> Repl<H> {
    /// An interpreter over `environment`, served by `host`.
    pub fn new(environment: Environment, host: H) -> (r: Repl<H>)
        ensures
            r.environment == environment,
            r.host == host,
            r.depth == DEFAULT_DEPTH,
    {
        Repl { environment, host, depth: DEFAULT_DEPTH }
    }

    /// What `value` evaluates to. No frame of the environment changes; a value
    /// that is neither symbol nor vector nor list evaluates to itself and
    /// changes nothing.
    pub fn eval(&mut self, value: &Value) -> (r: Value)
        ensures
            final(self).environment.frames() == old(self).environment.frames(),
            final(self).depth == old(self).depth,
            evaluates(
                old(self).environment,
                Rc::new(*value),
                old(self).depth as nat,
                final(self).environment,
                Rc::new(r),
            ),
            crate::evaluator::self_evaluating(value@) ==> final(self).environment
                == old(self).environment && r == *value,
    {
        let form = Rc::new(value.clone());
        let evaled = eval(&mut self.host, &mut self.environment, &form, self.depth);
        (*evaled).clone()
    }

    /// Calls the function, macro or special form `head` on `args`, as a list
    /// headed by it would: a function gets what `args` evaluate to.
    pub fn call(&mut self, head: &Rc<Value>, args: &Vec<Rc<Value>>) -> (r: Value)
        ensures
            applies_to_list(
                old(self).environment,
                *head,
                args@,
                old(self).depth as nat,
                final(self).environment,
                Rc::new(r),
            ),
            final(self).environment.frames() == old(self).environment.frames(),
            final(self).depth == old(self).depth,
    {
        let evaled = apply_head(
            &mut self.host,
            &mut self.environment,
            head,
            args,
            self.depth,
        );
        (*evaled).clone()
    }

    /// Reads the forms of `text` one after the other and evaluates each. Returns
    /// what the last form evaluates to, or nothing where the text holds no form;
    /// text that is not well formed ends the reading with the reader's
    /// condition. No frame of the environment changes.
    pub fn eval_readable(&mut self, text: &str) -> (r: Option<Value>)
        ensures
            evaluates_text(
                old(self).environment,
                text@,
                old(self).depth as nat,
                final(self).environment,
                r,
            ),
            final(self).environment.frames() == old(self).environment.frames(),
            final(self).depth == old(self).depth,
    {
        let chars = chars_of(text);
        eval_text(&mut self.host, &mut self.environment, &chars, self.depth)
    }

    /// What the forms of the file at `filepath` evaluate to, as `eval_readable`
    /// gives it for the file's text; the host's message where the host cannot
    /// read the file.
    pub fn try_eval_file(&mut self, filepath: &str) -> (r: Result<Option<Value>, String>)
        ensures
            evaluates_file(
                old(self).environment,
                old(self).depth as nat,
                final(self).environment,
                r,
            ),
            final(self).environment.frames() == old(self).environment.frames(),
            final(self).depth == old(self).depth,
    {
        let read = self.host.read_file(filepath);
        proof {
            if read is Ok {
                assert(crate::semantics::chosen(read->Ok_0@));
            }
        }
        self.eval_read(read)
    }

    /// What `eval_file` returns for the outcome of `try_eval_file`: the outcome
    /// itself, and the message as a condition.
    pub fn file_outcome(outcome: Result<Option<Value>, String>) -> (r: Option<Value>)
        ensures
            r == (match outcome {
                Ok(found) => found,
                Err(msg) => Some(Value::Condition(msg)),
            }),
    {
        match outcome {
            Ok(Some(v)) => Some(v),
            Ok(None) => None,
            Err(msg) => Some(Value::Condition(msg)),
        }
    }

    /// What the forms of the file at `filepath` evaluate to, or a condition with
    /// the host's message where the host cannot read the file.
    pub fn eval_file(&mut self, filepath: &str) -> (r: Option<Value>)
        ensures
            exists|outcome: Result<Option<Value>, String>| #[trigger]
                evaluates_file(
                    old(self).environment,
                    old(self).depth as nat,
                    final(self).environment,
                    outcome,
                ) && r == (match outcome {
                    Ok(found) => found,
                    Err(msg) => Some(Value::Condition(msg)),
                }),
            final(self).environment.frames() == old(self).environment.frames(),
            final(self).depth == old(self).depth,
    {
        let outcome = self.try_eval_file(filepath);
        Self::file_outcome(outcome)
    }
    /// What `try_eval_file` gives for what the host read of the file: the
    /// outcome of evaluating the text, as `eval_readable` gives it, where the
    /// host read one; and the host's message, with nothing evaluated and the
    /// environment as it was, where it read none.
    pub fn eval_read(&mut self, read: Result<String, String>) -> (r: Result<
        Option<Value>,
        String,
    >)
        ensures
            match read {
                Ok(text) => r is Ok && evaluates_text(
                    old(self).environment,
                    text@,
                    old(self).depth as nat,
                    final(self).environment,
                    r->Ok_0,
                ),
                Err(msg) => r == Err::<Option<Value>, String>(msg) && final(self).environment
                    == old(self).environment,
            },
            final(self).environment.frames() == old(self).environment.frames(),
            final(self).depth == old(self).depth,
    {
        match read {
            Ok(text) => Ok(self.eval_readable(text.as_str())),
            Err(msg) => Err(msg),
        }
    }
}

impl Default for Repl<NoHost> {
    /// An interpreter over the core environment, with no host.
    fn default() -> (r: Repl<NoHost>)
        ensures
            r.depth == DEFAULT_DEPTH,
            r.environment.frames().len() == 0,
            r.environment.main_val().curr_ns_sym@ == (SymbolView {
                name: "clojure.core"@,
                ns: None,
            }),
            forall|i: int|
                0 <= i < crate::environment::core_table().len()
                    ==> #[trigger] crate::environment::installed(
                    r.environment.main_val().namespaces,
                    crate::environment::core_table(),
                    i,
                ),
    {
        Repl {
            environment: Environment::clojure_core_environment(),
            host: NoHost {  },
            depth: DEFAULT_DEPTH,
        }
    }
}

} // verus!
