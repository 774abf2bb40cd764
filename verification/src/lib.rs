//! A schema-migration core for SQL databases.
//!
//! Given two generations of a table (or database) schema, the differ computes
//! the ordered set of DDL actions that transforms the old schema into the new
//! one, and the renderer turns those actions (and fresh schema definitions)
//! into SQL text. The whole crate is pure: no I/O, no connections, no shared
//! state; every public operation is specified as a mathematical function of
//! its arguments.

use vstd::prelude::*;

pub mod alter_table;
pub mod create_table;
pub mod differ;
pub mod identifier;
pub mod laws;
pub mod migration;
pub mod table_definition;

verus! {

/// The single failure class of this crate: a SQL name is empty or contains a
/// character outside `[a-zA-Z0-9_]`. Raised when an `Identifier` is
/// constructed and re-checked defensively when DDL is rendered.
#[derive(Clone, Copy, PartialEq, Eq, Structural, Debug)]
pub enum SchemaError {
    InvalidIdentifier,
}

/// Rendering a structural node into SQL text. Rendering is a pure function of
/// the node: each implementation fixes, through `sql_spec`, the exact text
/// (or the error) that `as_sql` returns.
pub trait AsSql {
    /// The SQL text this node renders to, or the error rendering stops on.
    spec fn sql_spec(&self) -> Result<Seq<char>, SchemaError>;

    /// Renders this node as SQL text; fails only on an invalid identifier.
    fn as_sql(&self) -> (r: Result<String, SchemaError>)
        ensures
            match r {
                Ok(s) => (self.sql_spec() matches Ok(t) && s@ == t),
                Err(e) => (self.sql_spec() matches Err(e2) && e == e2),
            },
    ;
}

} // verus!
