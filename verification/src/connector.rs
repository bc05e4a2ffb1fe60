//! The connector block of a schema, as the parser leaves it.

use vstd::prelude::*;

verus! {

/// A stretch of a source file, by the positions of its first character and of the one after
/// its last.
#[derive(Clone, Copy, Debug, PartialEq, Eq, Structural)]
pub struct Span {
    pub start: usize,
    pub end: usize,
}

/// The database that a connector names.
#[derive(Clone, Copy, Debug, PartialEq, Eq, Structural)]
pub enum DatabaseName {
    MySQL,
    PostgreSQL,
    SQLite,
    MongoDB,
}

/// One entry of a block: an identifier and the text of its expression.
#[derive(Clone, Debug, PartialEq, Eq)]
pub struct Item {
    pub identifier: String,
    pub expression: String,
}

/// A connector block. The provider and the URL are absent until the block is resolved.
#[derive(Clone, Debug, PartialEq, Eq)]
pub struct Connector {
    pub items: Vec<Item>,
    pub span: Span,
    pub source_id: usize,
    pub provider: Option<DatabaseName>,
    pub url: Option<String>,
}

impl Connector {
    /// A connector block as parsed: with its items and place, not resolved yet.
    pub fn new(items: Vec<Item>, span: Span, source_id: usize) -> (r: Connector)
        ensures
            r.items == items,
            r.span == span,
            r.source_id == source_id,
            r.provider.is_none(),
            r.url.is_none(),
    {
        Connector { items, span, source_id, provider: None, url: None }
    }
}

} // verus!
