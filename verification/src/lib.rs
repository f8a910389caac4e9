//! A record store for chat sessions, kept as one JSON document per session.
//!
//! The library holds the rules of the store: how a session gets its
//! identifier, under which file name and with which content it is written,
//! which files of a directory are records, how a listed record is repaired,
//! and in which order records are listed. Reading and writing the files is
//! left to the caller, who hands over what was read as plain values.
//!
//! - [`store`] holds the four operations: save, list, load and delete.
//! - [`ident`] makes and resolves identifiers, [`names`] turns them into file
//!   names and back, [`order`] sorts a listing.
//! - [`json`] says what is taken on trust from `serde_json`, which reads and
//!   writes the documents.
//! - [`error`] names the failures.

pub mod error;
pub mod ident;
pub mod json;
pub mod names;
pub mod order;
pub mod store;
