//! The names that the stages of a plan read and write.
//!
//! A name is kept as a structure, not as text: names of different make are different names,
//! whatever the fields of a model are called.

use vstd::prelude::*;

verus! {

/// The kind of an aggregate.
#[derive(Clone, Copy, Debug, PartialEq, Eq, Structural)]
pub enum AggregateKind {
    Count,
    Sum,
    Avg,
    Min,
    Max,
}

impl AggregateKind {
    /// Whether an aggregate of this kind keeps a companion counter of the rows that
    /// contributed a value, so that a group without any reports null.
    pub open spec fn spec_tracks_counter(self) -> bool {
        self == AggregateKind::Sum || self == AggregateKind::Avg
    }

    #[verifier::when_used_as_spec(spec_tracks_counter)]
    pub fn tracks_counter(self) -> (r: bool)
        ensures
            r == self.spec_tracks_counter(),
    {
        match self {
            AggregateKind::Sum | AggregateKind::Avg => true,
            _ => false,
        }
    }
}

/// A name in the documents that flow through a plan. `S` is the type of text: `String` in
/// a plan, `Seq<char>` in its view.
#[derive(Clone, Debug, PartialEq, Eq)]
pub enum Name<S> {
    /// The composite key that a group stage gives each group.
    GroupKey,
    /// A storage column of a source row.
    Column(S),
    /// A logical field name, as the caller wrote it and reads it in the result.
    Field(S),
    /// The mapping from field names to the results of one aggregate kind. The private one
    /// serves the filter on groups.
    Result { private: bool, kind: AggregateKind },
    /// The intermediate value of an aggregate over a column.
    Value { private: bool, kind: AggregateKind, column: S },
    /// The intermediate count of all rows of a group.
    Rows { private: bool },
    /// The companion of an intermediate value: the count of rows that contributed to it.
    Counter { private: bool, kind: AggregateKind, column: S },
}

impl View for Name<String> {
    type V = Name<Seq<char>>;

    open spec fn view(&self) -> Name<Seq<char>> {
        match self {
            Name::GroupKey => Name::GroupKey,
            Name::Column(s) => Name::Column(s@),
            Name::Field(s) => Name::Field(s@),
            Name::Result { private, kind } => Name::Result { private: *private, kind: *kind },
            Name::Value { private, kind, column } => Name::Value {
                private: *private,
                kind: *kind,
                column: column@,
            },
            Name::Rows { private } => Name::Rows { private: *private },
            Name::Counter { private, kind, column } => Name::Counter {
                private: *private,
                kind: *kind,
                column: column@,
            },
        }
    }
}

impl Name<Seq<char>> {
    /// Whether the name is synthesized scaffolding: anything but a logical field name, a
    /// storage column and a public result.
    pub open spec fn is_intermediate(self) -> bool {
        match self {
            Name::Field(_) => false,
            Name::Column(_) => false,
            Name::Result { private, kind } => private,
            _ => true,
        }
    }
}

/// The views of a list of names.
pub open spec fn names(v: Seq<Name<String>>) -> Seq<Name<Seq<char>>> {
    v.map_values(|n: Name<String>| n@)
}

/// A copy of a name.
pub fn copy_name(n: &Name<String>) -> (r: Name<String>)
    ensures
        r@ == n@,
{
    match n {
        Name::GroupKey => Name::GroupKey,
        Name::Column(s) => Name::Column(s.clone()),
        Name::Field(s) => Name::Field(s.clone()),
        Name::Result { private, kind } => Name::Result { private: *private, kind: *kind },
        Name::Value { private, kind, column } => Name::Value {
            private: *private,
            kind: *kind,
            column: column.clone(),
        },
        Name::Rows { private } => Name::Rows { private: *private },
        Name::Counter { private, kind, column } => Name::Counter {
            private: *private,
            kind: *kind,
            column: column.clone(),
        },
    }
}

} // verus!
