//! An evaluation engine for a Lisp of the Clojure family.
//!
//! The values of the language are in `value`, with symbols and keywords in
//! `symbol` and `keyword`, the persistent collections in `types`, and vars in
//! `var`. `namespace` holds the registry of namespaces, and `environment` the
//! two-level environment over it: the namespaces at the top, and local frames
//! on top of them. `protocol` and `protocols` give the capabilities that only
//! some kinds of value have.
//!
//! `semantics` says what evaluation means, `evaluator` computes it, and
//! `scoping` proves what an evaluation cannot change. `reader` turns text into
//! values, `display` values into text, and `repl` offers the two entry points of
//! a driver: read and evaluate. The primitives are in `rust_core`; those that
//! need the outside world are left to a `Host`.
pub mod display;
pub mod environment;
pub mod error_message;
pub mod evaluator;
pub mod iterable;
pub mod keyword;
pub mod lambda;
pub mod maps;
pub mod named;
pub mod namespace;
pub mod protocol;
pub mod protocols;
pub mod reader;
pub mod repl;
pub mod rust_core;
pub mod scoping;
pub mod semantics;
pub mod symbol;
pub mod text;
pub mod traits;
pub mod type_tag;
pub mod types;
pub mod value;
pub mod var;
