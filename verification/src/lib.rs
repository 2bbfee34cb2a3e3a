//! Planning and fan-out of SQL-shaped queries over Kubernetes clusters.
//!
//! A statement `SELECT ns.. FROM ctx.. WHERE kind.a.b = 'v' [AND|OR ..]` is
//! resolved into namespaces, contexts and an ordered chain of field
//! conditions; the chain is evaluated against every (context, namespace)
//! pair and the matches are laid out as a table.

pub mod codec;
pub mod kind;
pub mod planner;
pub mod parser;
pub mod sql;
pub mod api_builder;
pub mod printer;
pub mod executor;
