//! The primitives that the library itself implements.
pub mod add;
pub mod assoc;
pub mod concat;
pub mod do_fn;
pub mod equals;
pub mod get;
pub mod load_file;
pub mod map;
pub mod ns;
pub mod nth;
pub mod type_fn;
pub mod with_meta;
