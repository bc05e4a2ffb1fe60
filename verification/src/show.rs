//! Statements that show what a relational database holds.

use vstd::prelude::*;

verus! {

/// A statement that lists the tables of the database, all of them or those whose name is
/// like a pattern.
#[derive(Debug, PartialEq, Eq)]
pub struct SQLShowTablesStatement {
    pub like: Option<String>,
}

/// A statement that lists the indices of a table.
#[derive(Debug, PartialEq, Eq)]
pub struct SQLShowIndexFromStatement {
    pub table: String,
}

/// The builder of the statements that show something.
#[derive(Debug, PartialEq, Eq)]
pub struct SQLShowStatement {}

impl SQLShowStatement {
    /// A statement that lists all tables.
    pub fn tables(&self) -> (r: SQLShowTablesStatement)
        ensures
            r.like.is_none(),
    {
        SQLShowTablesStatement { like: None }
    }

    /// A statement that lists the indices of `table`.
    pub fn index_from(&self, table: &str) -> (r: SQLShowIndexFromStatement)
        ensures
            r.table@ == table@,
    {
        SQLShowIndexFromStatement { table: table.to_owned() }
    }
}

impl SQLShowTablesStatement {
    /// The statement restricted to the tables whose name is like `pattern`.
    pub fn like(self, pattern: &str) -> (r: SQLShowTablesStatement)
        ensures
            r.like.is_some(),
            r.like.unwrap()@ == pattern@,
    {
        SQLShowTablesStatement { like: Some(pattern.to_owned()) }
    }
}

} // verus!
