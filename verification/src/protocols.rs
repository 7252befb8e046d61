//! The protocols of the library.
pub mod imeta;
pub mod iobj;
pub mod ipersistent_map;
