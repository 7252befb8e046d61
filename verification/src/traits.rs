//! The traits that the collections and the other values with metadata share.
pub mod imap;
pub mod imeta;
pub mod iobj;
