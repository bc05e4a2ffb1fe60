//! The plan that a query compiles to: an ordered sequence of stages.
//!
//! The plan is neutral to the backend. A pipeline backend runs the stages in order; a
//! statement backend maps them onto the clauses of one statement.

use vstd::prelude::*;
use crate::name::{AggregateKind, Name};
use crate::predicate::{text_of, Predicate, PredicateSpec};

verus! {

/// A running computation over the rows of a group. `S` is the type of text.
#[derive(Clone, Debug, PartialEq, Eq)]
pub enum Accumulator<S> {
    /// The number of rows, null or not.
    CountRows,
    /// The number of rows whose value in the column is not null.
    CountNonNull(S),
    /// The sum, average, minimum or maximum of the column's values that are not null.
    Fold(AggregateKind, S),
}

impl View for Accumulator<String> {
    type V = Accumulator<Seq<char>>;

    open spec fn view(&self) -> Accumulator<Seq<char>> {
        match self {
            Accumulator::CountRows => Accumulator::CountRows,
            Accumulator::CountNonNull(c) => Accumulator::CountNonNull(c@),
            Accumulator::Fold(k, c) => Accumulator::Fold(*k, c@),
        }
    }
}

/// An accumulator and the intermediate name that holds its result.
#[derive(Clone, Debug, PartialEq, Eq)]
pub struct Accumulation<S> {
    pub name: Name<S>,
    pub accumulator: Accumulator<S>,
}

impl View for Accumulation<String> {
    type V = Accumulation<Seq<char>>;

    open spec fn view(&self) -> Accumulation<Seq<char>> {
        Accumulation { name: self.name@, accumulator: self.accumulator@ }
    }
}

/// Where a projected value comes from.
#[derive(Clone, Debug, PartialEq, Eq)]
pub enum Source<S> {
    /// The component of the group key that was built from the column.
    KeyPart(S),
    /// The value called by the name.
    Copy(Name<S>),
    /// Null where the counter is zero, the value elsewhere.
    NullIfZero { counter: Name<S>, value: Name<S> },
}

impl View for Source<String> {
    type V = Source<Seq<char>>;

    open spec fn view(&self) -> Source<Seq<char>> {
        match self {
            Source::KeyPart(c) => Source::KeyPart(c@),
            Source::Copy(n) => Source::Copy(n@),
            Source::NullIfZero { counter, value } => Source::NullIfZero {
                counter: counter@,
                value: value@,
            },
        }
    }
}

/// One assignment of a project stage: the value goes to `target`, or, with an `entry`, under
/// that key of the mapping called `target`.
#[derive(Clone, Debug, PartialEq, Eq)]
pub struct Projection<S> {
    pub target: Name<S>,
    pub entry: Option<S>,
    pub source: Source<S>,
}

impl View for Projection<String> {
    type V = Projection<Seq<char>>;

    open spec fn view(&self) -> Projection<Seq<char>> {
        Projection { target: self.target@, entry: text_of(self.entry), source: self.source@ }
    }
}

/// The direction of a sort key.
#[derive(Clone, Copy, Debug, PartialEq, Eq, Structural)]
pub enum Direction {
    Asc,
    Desc,
}

impl Direction {
    pub open spec fn spec_reversed(self) -> Direction {
        match self {
            Direction::Asc => Direction::Desc,
            Direction::Desc => Direction::Asc,
        }
    }

    /// The opposite direction.
    #[verifier::when_used_as_spec(spec_reversed)]
    pub fn reversed(self) -> (r: Direction)
        ensures
            r == self.spec_reversed(),
    {
        match self {
            Direction::Asc => Direction::Desc,
            Direction::Desc => Direction::Asc,
        }
    }
}

/// One key of a sort stage.
#[derive(Clone, Debug, PartialEq, Eq)]
pub struct SortKey<S> {
    pub name: Name<S>,
    pub direction: Direction,
}

impl View for SortKey<String> {
    type V = SortKey<Seq<char>>;

    open spec fn view(&self) -> SortKey<Seq<char>> {
        SortKey { name: self.name@, direction: self.direction }
    }
}

/// The views of a list of accumulations.
pub open spec fn accumulations(v: Seq<Accumulation<String>>) -> Seq<Accumulation<Seq<char>>> {
    v.map_values(|a: Accumulation<String>| a@)
}

/// The views of a list of projections.
pub open spec fn projections(v: Seq<Projection<String>>) -> Seq<Projection<Seq<char>>> {
    v.map_values(|p: Projection<String>| p@)
}

/// The views of a list of sort keys.
pub open spec fn sort_keys(v: Seq<SortKey<String>>) -> Seq<SortKey<Seq<char>>> {
    v.map_values(|k: SortKey<String>| k@)
}

/// A stage of a plan.
#[derive(Debug, PartialEq, Eq)]
pub enum Stage {
    /// Keeps the rows of which the predicate holds.
    Match(Predicate),
    /// Partitions the rows by the values of the key columns, a null value being a key value
    /// of its own, and computes the accumulators of each group.
    Group { key: Vec<String>, accumulators: Vec<Accumulation<String>> },
    /// Adds values under new names.
    Project(Vec<Projection<String>>),
    /// Drops names.
    RemoveFields(Vec<Name<String>>),
    /// Orders the rows by the keys, the first key first.
    Sort(Vec<SortKey<String>>),
    /// Drops the first rows.
    Skip(u64),
    /// Keeps the first rows.
    Limit(u64),
}

/// A stage, as plain values.
pub enum StageSpec {
    Match(PredicateSpec),
    Group { key: Seq<Seq<char>>, accumulators: Seq<Accumulation<Seq<char>>> },
    Project(Seq<Projection<Seq<char>>>),
    RemoveFields(Seq<Name<Seq<char>>>),
    Sort(Seq<SortKey<Seq<char>>>),
    Skip(nat),
    Limit(nat),
}

impl View for Stage {
    type V = StageSpec;

    open spec fn view(&self) -> StageSpec {
        match self {
            Stage::Match(p) => StageSpec::Match(p@),
            Stage::Group { key, accumulators } => StageSpec::Group {
                key: crate::text::texts(key@),
                accumulators: accumulations(accumulators@),
            },
            Stage::Project(ps) => StageSpec::Project(projections(ps@)),
            Stage::RemoveFields(ns) => StageSpec::RemoveFields(crate::name::names(ns@)),
            Stage::Sort(ks) => StageSpec::Sort(sort_keys(ks@)),
            Stage::Skip(n) => StageSpec::Skip(*n as nat),
            Stage::Limit(n) => StageSpec::Limit(*n as nat),
        }
    }
}

/// The views of a list of stages.
pub open spec fn stages(v: Seq<Stage>) -> Seq<StageSpec> {
    v.map_values(|s: Stage| s@)
}

/// The names that the rows carry after a stage, given the names that they carried before.
/// A group stage leaves the group key and its accumulators' names; a project stage adds
/// its targets; a remove stage drops what it lists; the other stages change no name.
pub open spec fn shape_after(stage: StageSpec, before: Set<Name<Seq<char>>>) -> Set<
    Name<Seq<char>>,
> {
    match stage {
        StageSpec::Group { key, accumulators } => accumulators.map_values(
            |a: Accumulation<Seq<char>>| a.name,
        ).to_set().insert(Name::GroupKey),
        StageSpec::Project(ps) => before.union(
            ps.map_values(|p: Projection<Seq<char>>| p.target).to_set(),
        ),
        StageSpec::RemoveFields(ns) => before.difference(ns.to_set()),
        _ => before,
    }
}

/// The names that the rows carry after all stages of a plan.
pub open spec fn final_shape(plan: Seq<StageSpec>, source: Set<Name<Seq<char>>>) -> Set<
    Name<Seq<char>>,
>
    decreases plan.len(),
{
    if plan.len() == 0 {
        source
    } else {
        shape_after(plan.last(), final_shape(plan.drop_last(), source))
    }
}

} // verus!
