//! A personal task-list manager: named todo lists of numbered items, kept in
//! memory during a session and synchronized on demand against a SQLite store.
//!
//! The in-memory model (items, lists, users) and the reconciliation logic of
//! the push/pull protocol are verified; the SQLite statements themselves run
//! behind small trusted wrappers in `db`.

pub mod cli;
pub mod db;
pub mod laws;
pub mod model;
pub mod sync;
pub mod todo;
