//! A minimal in-process, in-memory tabular store: tables with typed columns,
//! schema-validated row insertion, and single-predicate row selection.
//!
//! The store is driven through structured [`sql::Command`] values; the
//! executor [`sql::execute`] applies a command to a [`db::Database`] and
//! returns a [`sql::QueryResult`]. Every operation is specified against a
//! mathematical model of the store and proved to follow it.

pub mod db;
pub mod sql;
pub mod text;
