//! A relational-schema compiler: it translates a structural type model
//! (structs, tagged unions, plain enumerations, tuple wrappers, lists,
//! bounded integers, strings) into a normalized SQL schema model with
//! surrogate keys, join tables, indexes, integrity-maintenance functions
//! and a dependency-consistent declaration order.

pub mod convert;
pub mod ident;
pub mod laws;
pub mod model;
pub mod order;
pub mod rust;
pub mod sql;

pub use sql::{Action, SqlType};
