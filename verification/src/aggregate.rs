//! The aggregation planner: grouping, accumulators, projection of the results, the filter
//! on groups and the removal of everything that was synthesized on the way.

use vstd::prelude::*;
use crate::error::{ErrorKind, ErrorSpec};
use crate::field::FieldSpec;
use crate::model::{position_of, Model};
use crate::name::{names, AggregateKind, Name};
use crate::plan::{
    accumulations, projections, sort_keys, stages, Accumulation, Accumulator, Direction,
    Projection, SortKey, Source, Stage, StageSpec,
};
use crate::predicate::{text_of, Check, CheckSpec, Comparison, Literal, Predicate, PredicateSpec};
use crate::text::texts;

verus! {

/// What an aggregate is computed over. `S` is the type of text.
#[derive(Clone, Debug, PartialEq, Eq)]
pub enum Target<S> {
    /// All rows of the group. Only a count can aim at it.
    All,
    /// The values of a field.
    Field(S),
}

impl View for Target<String> {
    type V = Target<Seq<char>>;

    open spec fn view(&self) -> Target<Seq<char>> {
        match self {
            Target::All => Target::All,
            Target::Field(s) => Target::Field(s@),
        }
    }
}

/// One requested aggregate.
#[derive(Clone, Debug, PartialEq, Eq)]
pub struct Aggregate<S> {
    pub kind: AggregateKind,
    pub target: Target<S>,
}

impl View for Aggregate<String> {
    type V = Aggregate<Seq<char>>;

    open spec fn view(&self) -> Aggregate<Seq<char>> {
        Aggregate { kind: self.kind, target: self.target@ }
    }
}

/// A comparison with a number.
#[derive(Clone, Copy, Debug, PartialEq, Eq, Structural)]
pub struct Matcher {
    pub op: Comparison,
    pub value: i64,
}

/// One condition on groups: the aggregate of the given kind over the field must compare to
/// the number as the matcher says.
#[derive(Clone, Debug, PartialEq, Eq)]
pub struct Having<S> {
    pub field: S,
    pub kind: AggregateKind,
    pub matcher: Matcher,
}

impl View for Having<String> {
    type V = Having<Seq<char>>;

    open spec fn view(&self) -> Having<Seq<char>> {
        Having { field: self.field@, kind: self.kind, matcher: self.matcher }
    }
}

/// An aggregate whose target was found on the model. A private one serves the filter on
/// groups; `column` and `slot`, the position of the field in the model, are absent where all
/// rows are counted.
#[derive(Clone, Debug, PartialEq, Eq)]
pub struct Request<S> {
    pub private: bool,
    pub kind: AggregateKind,
    pub field: S,
    pub column: Option<S>,
    pub slot: Option<usize>,
}

impl View for Request<String> {
    type V = Request<Seq<char>>;

    open spec fn view(&self) -> Request<Seq<char>> {
        Request {
            private: self.private,
            kind: self.kind,
            field: self.field@,
            column: text_of(self.column),
            slot: self.slot,
        }
    }
}

/// A group key that was found on the model: the field, its column and its position in the
/// model.
#[derive(Clone, Debug, PartialEq, Eq)]
pub struct Key<S> {
    pub field: S,
    pub column: S,
    pub slot: usize,
}

impl View for Key<String> {
    type V = Key<Seq<char>>;

    open spec fn view(&self) -> Key<Seq<char>> {
        Key { field: self.field@, column: self.column@, slot: self.slot }
    }
}

/// The views of a list of aggregates.
pub open spec fn aggregates(v: Seq<Aggregate<String>>) -> Seq<Aggregate<Seq<char>>> {
    v.map_values(|a: Aggregate<String>| a@)
}

/// The views of a list of conditions on groups.
pub open spec fn havings(v: Seq<Having<String>>) -> Seq<Having<Seq<char>>> {
    v.map_values(|h: Having<String>| h@)
}

/// The views of a list of requests.
pub open spec fn requests(v: Seq<Request<String>>) -> Seq<Request<Seq<char>>> {
    v.map_values(|r: Request<String>| r@)
}

/// The views of a list of keys.
pub open spec fn keys(v: Seq<Key<String>>) -> Seq<Key<Seq<char>>> {
    v.map_values(|k: Key<String>| k@)
}

/// The name under which a count of all rows is reported.
pub open spec fn all_rows() -> Seq<char> {
    "_all"@
}

impl Request<Seq<char>> {
    /// The intermediate name of the aggregate's value.
    pub open spec fn value_name(self) -> Name<Seq<char>> {
        match self.column {
            Some(c) => Name::Value { private: self.private, kind: self.kind, column: c },
            None => Name::Rows { private: self.private },
        }
    }

    /// The intermediate name of the companion counter.
    pub open spec fn counter_name(self) -> Name<Seq<char>> {
        match self.column {
            Some(c) => Name::Counter { private: self.private, kind: self.kind, column: c },
            None => Name::Rows { private: self.private },
        }
    }

    /// Whether the aggregate keeps a companion counter.
    pub open spec fn counted(self) -> bool {
        self.column.is_some() && self.kind.spec_tracks_counter()
    }

    /// The accumulators of the aggregate. A count of a field counts the rows whose value
    /// is not null; a count of all rows counts every row; a sum or an average comes with a
    /// counter of the rows that contributed.
    pub open spec fn accumulations(self) -> Seq<Accumulation<Seq<char>>> {
        match self.column {
            None => seq![
                Accumulation { name: self.value_name(), accumulator: Accumulator::CountRows },
            ],
            Some(c) => if self.kind == AggregateKind::Count {
                seq![
                    Accumulation {
                        name: self.value_name(),
                        accumulator: Accumulator::CountNonNull(c),
                    },
                ]
            } else if self.counted() {
                seq![
                    Accumulation {
                        name: self.value_name(),
                        accumulator: Accumulator::Fold(self.kind, c),
                    },
                    Accumulation {
                        name: self.counter_name(),
                        accumulator: Accumulator::CountNonNull(c),
                    },
                ]
            } else {
                seq![
                    Accumulation {
                        name: self.value_name(),
                        accumulator: Accumulator::Fold(self.kind, c),
                    },
                ]
            },
        }
    }

    /// The result of the aggregate in its reported place: under the field's name in the
    /// mapping of the aggregate's kind. A counted aggregate reports null where no row
    /// contributed.
    pub open spec fn projection(self) -> Projection<Seq<char>> {
        Projection {
            target: Name::Result { private: self.private, kind: self.kind },
            entry: Some(self.field),
            source: if self.counted() {
                Source::NullIfZero { counter: self.counter_name(), value: self.value_name() }
            } else {
                Source::Copy(self.value_name())
            },
        }
    }
}

/// The accumulators of a list of requests, in order.
pub open spec fn all_accumulations(reqs: Seq<Request<Seq<char>>>) -> Seq<
    Accumulation<Seq<char>>,
>
    decreases reqs.len(),
{
    if reqs.len() == 0 {
        Seq::empty()
    } else {
        all_accumulations(reqs.drop_last()) + reqs.last().accumulations()
    }
}

/// The name of an accumulation.
pub open spec fn name_of(a: Accumulation<Seq<char>>) -> Name<Seq<char>> {
    a.name
}

/// The intermediate names that a list of requests synthesizes.
pub open spec fn scaffold(reqs: Seq<Request<Seq<char>>>) -> Seq<Name<Seq<char>>> {
    all_accumulations(reqs).map_values(|a: Accumulation<Seq<char>>| name_of(a))
}

/// The projections of a list of requests, in order.
pub open spec fn all_projections(reqs: Seq<Request<Seq<char>>>) -> Seq<Projection<Seq<char>>> {
    reqs.map_values(|r: Request<Seq<char>>| r.projection())
}

/// Whether some request is of the kind.
pub open spec fn uses(reqs: Seq<Request<Seq<char>>>, kind: AggregateKind) -> bool {
    exists|i: int| 0 <= i < reqs.len() && (#[trigger] reqs[i]).kind == kind
}

/// The private result of a kind, if the kind is in use.
pub open spec fn result_if(used: bool, kind: AggregateKind) -> Seq<Name<Seq<char>>> {
    if used {
        seq![Name::Result { private: true, kind }]
    } else {
        Seq::empty()
    }
}

/// The private results that a list of requests fills, each once, in the order of the kinds.
pub open spec fn private_results(reqs: Seq<Request<Seq<char>>>) -> Seq<Name<Seq<char>>> {
    result_if(uses(reqs, AggregateKind::Count), AggregateKind::Count) + result_if(
        uses(reqs, AggregateKind::Sum),
        AggregateKind::Sum,
    ) + result_if(uses(reqs, AggregateKind::Avg), AggregateKind::Avg) + result_if(
        uses(reqs, AggregateKind::Min),
        AggregateKind::Min,
    ) + result_if(uses(reqs, AggregateKind::Max), AggregateKind::Max)
}

/// The projection of a group key back to the logical name of its field.
pub open spec fn key_projection(k: Key<Seq<char>>) -> Projection<Seq<char>> {
    Projection { target: Name::Field(k.field), entry: None, source: Source::KeyPart(k.column) }
}

/// The sort key of a group key: its field, ascending.
pub open spec fn key_order(k: Key<Seq<char>>) -> SortKey<Seq<char>> {
    SortKey { name: Name::Field(k.field), direction: Direction::Asc }
}

/// The condition that a matcher puts on the private result of its aggregate.
pub open spec fn condition(h: Having<Seq<char>>) -> PredicateSpec {
    PredicateSpec::Test {
        name: Name::Result { private: true, kind: h.kind },
        entry: Some(h.field),
        check: CheckSpec::Compare(h.matcher.op, Literal::Int(h.matcher.value)),
    }
}

/// The conjunction of the conditions of a list of matchers.
pub open spec fn conjunction(entries: Seq<Having<Seq<char>>>) -> PredicateSpec
    decreases entries.len(),
{
    if entries.len() == 0 {
        PredicateSpec::Always
    } else {
        PredicateSpec::And(
            Box::new(conjunction(entries.drop_last())),
            Box::new(condition(entries.last())),
        )
    }
}

/// A condition on groups, read as an aggregate over its field.
pub open spec fn as_aggregate(h: Having<Seq<char>>) -> Aggregate<Seq<char>> {
    Aggregate { kind: h.kind, target: Target::Field(h.field) }
}

/// The aggregates that a list of conditions on groups asks for.
pub open spec fn as_aggregates(entries: Seq<Having<Seq<char>>>) -> Seq<Aggregate<Seq<char>>> {
    entries.map_values(|h: Having<Seq<char>>| as_aggregate(h))
}

/// The request that an aggregate stands for on a model with these fields, or why it is
/// refused: its field is unknown, something other than a count aims at all rows, or a sum
/// or an average aims at a field that is not numeric.
pub open spec fn resolved(fields: Seq<FieldSpec>, private: bool, a: Aggregate<Seq<char>>) -> Result<
    Request<Seq<char>>,
    ErrorSpec,
> {
    match a.target {
        Target::All => if a.kind == AggregateKind::Count {
            Ok(Request { private, kind: a.kind, field: all_rows(), column: None, slot: None })
        } else {
            Err(ErrorSpec::UnknownField(all_rows()))
        },
        Target::Field(f) => match position_of(fields, f) {
            None => Err(ErrorSpec::UnknownField(f)),
            Some(i) => if a.kind.spec_tracks_counter() && !fields[i].field_type.spec_is_numeric() {
                Err(ErrorSpec::NonAggregatableType(f))
            } else {
                Ok(
                    Request {
                        private,
                        kind: a.kind,
                        field: f,
                        column: Some(fields[i].column),
                        slot: Some(i as usize),
                    },
                )
            },
        },
    }
}

/// The requests that a list of aggregates stands for, or the refusal of the first one that
/// is refused.
pub open spec fn resolved_all(
    fields: Seq<FieldSpec>,
    private: bool,
    items: Seq<Aggregate<Seq<char>>>,
) -> Result<Seq<Request<Seq<char>>>, ErrorSpec>
    decreases items.len(),
{
    if items.len() == 0 {
        Ok(Seq::empty())
    } else {
        match resolved_all(fields, private, items.drop_last()) {
            Err(e) => Err(e),
            Ok(rs) => match resolved(fields, private, items.last()) {
                Err(e) => Err(e),
                Ok(r) => Ok(rs.push(r)),
            },
        }
    }
}

/// The group keys that a list of field names stands for, or `UnknownField` with the first
/// name that is not a field.
pub open spec fn resolved_keys(fields: Seq<FieldSpec>, by: Seq<Seq<char>>) -> Result<
    Seq<Key<Seq<char>>>,
    ErrorSpec,
>
    decreases by.len(),
{
    if by.len() == 0 {
        Ok(Seq::empty())
    } else {
        match resolved_keys(fields, by.drop_last()) {
            Err(e) => Err(e),
            Ok(ks) => match position_of(fields, by.last()) {
                None => Err(ErrorSpec::UnknownField(by.last())),
                Some(i) => Ok(
                    ks.push(Key { field: by.last(), column: fields[i].column, slot: i as usize }),
                ),
            },
        }
    }
}

/// The stages of an aggregation: group; project the keys, the private and the public
/// results; with a filter on groups, match on the private results and remove what served
/// the filter; remove the remaining scaffolding; with keys, sort by them.
pub open spec fn aggregation_stages(
    ks: Seq<Key<Seq<char>>>,
    filter: Option<Seq<Having<Seq<char>>>>,
    hs: Seq<Request<Seq<char>>>,
    rs: Seq<Request<Seq<char>>>,
) -> Seq<StageSpec> {
    let grouped = seq![
        StageSpec::Group {
            key: ks.map_values(|k: Key<Seq<char>>| k.column),
            accumulators: all_accumulations(hs) + all_accumulations(rs),
        },
        StageSpec::Project(
            ks.map_values(|k: Key<Seq<char>>| key_projection(k)) + all_projections(hs)
                + all_projections(rs),
        ),
    ];
    let filtered = match filter {
        Some(entries) => grouped.push(StageSpec::Match(conjunction(entries))).push(
            StageSpec::RemoveFields(scaffold(hs) + private_results(hs)),
        ),
        None => grouped,
    };
    let cleaned = filtered.push(StageSpec::RemoveFields(scaffold(rs).push(Name::GroupKey)));
    if ks.len() > 0 {
        cleaned.push(StageSpec::Sort(ks.map_values(|k: Key<Seq<char>>| key_order(k))))
    } else {
        cleaned
    }
}

/// The text of a list of names that may be absent: no list is the empty list.
pub open spec fn listed<T>(v: Option<Seq<T>>) -> Seq<T> {
    match v {
        Some(s) => s,
        None => Seq::empty(),
    }
}

/// The plan of an aggregation over a model with these fields, or why the request is refused.
/// A filter on groups without grouping is refused first; then the first unknown group key;
/// then the first refused condition of the filter; then the first refused aggregate.
pub open spec fn aggregation_plan(
    fields: Seq<FieldSpec>,
    by: Option<Seq<Seq<char>>>,
    wanted: Seq<Aggregate<Seq<char>>>,
    filter: Option<Seq<Having<Seq<char>>>>,
) -> Result<Seq<StageSpec>, ErrorSpec> {
    match resolution(fields, by, wanted, filter) {
        Err(e) => Err(e),
        Ok(x) => Ok(aggregation_stages(x.keys, filter, x.private, x.public)),
    }
}

/// The keys and the requests of an aggregation, found on a model with these fields, or why
/// the aggregation is refused.
pub open spec fn resolution(
    fields: Seq<FieldSpec>,
    by: Option<Seq<Seq<char>>>,
    wanted: Seq<Aggregate<Seq<char>>>,
    filter: Option<Seq<Having<Seq<char>>>>,
) -> Result<ResolutionSpec, ErrorSpec> {
    if filter.is_some() && by.is_none() {
        Err(ErrorSpec::HavingWithoutGrouping)
    } else {
        match resolved_keys(fields, listed(by)) {
            Err(e) => Err(e),
            Ok(ks) => match resolved_all(fields, true, as_aggregates(listed(filter))) {
                Err(e) => Err(e),
                Ok(hs) => match resolved_all(fields, false, wanted) {
                    Err(e) => Err(e),
                    Ok(rs) => Ok(ResolutionSpec { keys: ks, private: hs, public: rs }),
                },
            },
        }
    }
}

/// The keys and the requests of an aggregation, as plain values.
pub struct ResolutionSpec {
    pub keys: Seq<Key<Seq<char>>>,
    pub private: Seq<Request<Seq<char>>>,
    pub public: Seq<Request<Seq<char>>>,
}

/// The keys of an aggregation, the requests of its filter on groups and the requests of the
/// caller, each found on the model.
#[derive(Clone, Debug, PartialEq, Eq)]
pub struct Resolution {
    pub keys: Vec<Key<String>>,
    pub private: Vec<Request<String>>,
    pub public: Vec<Request<String>>,
}

impl View for Resolution {
    type V = ResolutionSpec;

    open spec fn view(&self) -> ResolutionSpec {
        ResolutionSpec {
            keys: keys(self.keys@),
            private: requests(self.private@),
            public: requests(self.public@),
        }
    }
}

impl ResolutionSpec {
    /// Whether every position lies within a row of `width` values.
    pub open spec fn within(self, width: nat) -> bool {
        &&& forall|i: int| 0 <= i < self.keys.len() ==> (#[trigger] self.keys[i]).slot < width
        &&& requests_within(self.private, width)
        &&& requests_within(self.public, width)
    }
}

/// Whether the position of every request lies within a row of `width` values.
pub open spec fn requests_within(reqs: Seq<Request<Seq<char>>>, width: nat) -> bool {
    forall|i: int|
        0 <= i < reqs.len() ==> ((#[trigger] reqs[i]).slot.is_some() ==> reqs[i].slot.unwrap()
            < width)
}

/// A refusal met in a prefix of the aggregates is the refusal of the whole list.
pub proof fn lemma_refusal_stays(
    fields: Seq<FieldSpec>,
    private: bool,
    items: Seq<Aggregate<Seq<char>>>,
    i: int,
)
    requires
        0 <= i <= items.len(),
        resolved_all(fields, private, items.take(i)) is Err,
    ensures
        resolved_all(fields, private, items) == resolved_all(fields, private, items.take(i)),
    decreases items.len() - i,
{
    if i < items.len() {
        assert(items.take(i + 1).drop_last() =~= items.take(i));
        lemma_refusal_stays(fields, private, items, i + 1);
    } else {
        assert(items.take(i) =~= items);
    }
}

/// An unknown key met in a prefix of the keys is the refusal of the whole list.
pub proof fn lemma_unknown_key_stays(fields: Seq<FieldSpec>, by: Seq<Seq<char>>, i: int)
    requires
        0 <= i <= by.len(),
        resolved_keys(fields, by.take(i)) is Err,
    ensures
        resolved_keys(fields, by) == resolved_keys(fields, by.take(i)),
    decreases by.len() - i,
{
    if i < by.len() {
        assert(by.take(i + 1).drop_last() =~= by.take(i));
        lemma_unknown_key_stays(fields, by, i + 1);
    } else {
        assert(by.take(i) =~= by);
    }
}

/// Finds the target of an aggregate on the model.
pub fn resolve(model: &Model, private: bool, aggregate: &Aggregate<String>) -> (r: Result<
    Request<String>,
    ErrorKind,
>)
    ensures
        match r {
            Ok(q) => resolved(model@.fields, private, aggregate@) == Ok::<
                Request<Seq<char>>,
                ErrorSpec,
            >(q@) && (q.slot.is_some() ==> q.slot.unwrap() < model@.fields.len()),
            Err(e) => resolved(model@.fields, private, aggregate@) == Err::<
                Request<Seq<char>>,
                ErrorSpec,
            >(e@),
        },
{
    match &aggregate.target {
        Target::All => match aggregate.kind {
            AggregateKind::Count => Ok(
                Request {
                    private,
                    kind: aggregate.kind,
                    field: "_all".to_owned(),
                    column: None,
                    slot: None,
                },
            ),
            _ => Err(ErrorKind::UnknownField("_all".to_owned())),
        },
        Target::Field(f) => match model.field_position(f.as_str()) {
            None => Err(ErrorKind::UnknownField(f.clone())),
            Some(i) => {
                let field = &model.fields()[i];
                assert(field@ == model@.fields[i as int]);
                if aggregate.kind.tracks_counter() && !field.field_type().is_numeric() {
                    Err(ErrorKind::NonAggregatableType(f.clone()))
                } else {
                    Ok(
                        Request {
                            private,
                            kind: aggregate.kind,
                            field: f.clone(),
                            column: Some(field.column_name().clone()),
                            slot: Some(i),
                        },
                    )
                }
            },
        },
    }
}

/// Finds the targets of a list of aggregates on the model.
pub fn resolve_all(model: &Model, private: bool, items: &Vec<Aggregate<String>>) -> (r: Result<
    Vec<Request<String>>,
    ErrorKind,
>)
    ensures
        match r {
            Ok(q) => resolved_all(model@.fields, private, aggregates(items@)) == Ok::<
                Seq<Request<Seq<char>>>,
                ErrorSpec,
            >(requests(q@)) && requests_within(requests(q@), model@.fields.len()),
            Err(e) => resolved_all(model@.fields, private, aggregates(items@)) == Err::<
                Seq<Request<Seq<char>>>,
                ErrorSpec,
            >(e@),
        },
{
    let ghost all = aggregates(items@);
    let mut out: Vec<Request<String>> = Vec::new();
    let mut i: usize = 0;
    assert(all.take(0) =~= Seq::empty());
    assert(requests(out@) =~= Seq::empty());
    while i < items.len()
        invariant
            i <= items.len(),
            all == aggregates(items@),
            resolved_all(model@.fields, private, all.take(i as int)) == Ok::<
                Seq<Request<Seq<char>>>,
                ErrorSpec,
            >(requests(out@)),
            requests_within(requests(out@), model@.fields.len()),
        decreases items.len() - i,
    {
        proof {
            assert(all.take(i + 1).drop_last() =~= all.take(i as int));
            assert(all.take(i + 1).last() == items@[i as int]@);
        }
        match resolve(model, private, &items[i]) {
            Err(e) => {
                proof {
                    lemma_refusal_stays(model@.fields, private, all, i + 1);
                }
                return Err(e);
            },
            Ok(q) => {
                let ghost before = out@;
                out.push(q);
                assert(requests(out@) =~= requests(before).push(q@));
            },
        }
        i += 1;
    }
    assert(all.take(i as int) =~= all);
    Ok(out)
}

/// Finds the fields of a list of group keys on the model.
pub fn resolve_keys(model: &Model, by: &Vec<String>) -> (r: Result<Vec<Key<String>>, ErrorKind>)
    ensures
        match r {
            Ok(q) => resolved_keys(model@.fields, texts(by@)) == Ok::<
                Seq<Key<Seq<char>>>,
                ErrorSpec,
            >(keys(q@)) && forall|i: int|
                0 <= i < q@.len() ==> (#[trigger] keys(q@)[i]).slot < model@.fields.len(),
            Err(e) => resolved_keys(model@.fields, texts(by@)) == Err::<
                Seq<Key<Seq<char>>>,
                ErrorSpec,
            >(e@),
        },
{
    let ghost all = texts(by@);
    let mut out: Vec<Key<String>> = Vec::new();
    let mut i: usize = 0;
    assert(all.take(0) =~= Seq::empty());
    assert(keys(out@) =~= Seq::empty());
    while i < by.len()
        invariant
            i <= by.len(),
            all == texts(by@),
            resolved_keys(model@.fields, all.take(i as int)) == Ok::<
                Seq<Key<Seq<char>>>,
                ErrorSpec,
            >(keys(out@)),
            forall|i: int|
                0 <= i < out@.len() ==> (#[trigger] keys(out@)[i]).slot < model@.fields.len(),
        decreases by.len() - i,
    {
        proof {
            assert(all.take(i + 1).drop_last() =~= all.take(i as int));
            assert(all.take(i + 1).last() == by@[i as int]@);
        }
        match model.field_position(by[i].as_str()) {
            None => {
                proof {
                    lemma_unknown_key_stays(model@.fields, all, i + 1);
                }
                return Err(ErrorKind::UnknownField(by[i].clone()));
            },
            Some(at) => {
                let ghost before = out@;
                let field = &model.fields()[at];
                assert(field@ == model@.fields[at as int]);
                let key = Key {
                    field: by[i].clone(),
                    column: field.column_name().clone(),
                    slot: at,
                };
                out.push(key);
                assert(keys(out@) =~= keys(before).push(key@));
            },
        }
        i += 1;
    }
    assert(all.take(i as int) =~= all);
    Ok(out)
}

/// The intermediate name of a request's value.
pub fn value_name(request: &Request<String>) -> (r: Name<String>)
    ensures
        r@ == request@.value_name(),
{
    match &request.column {
        Some(c) => Name::Value { private: request.private, kind: request.kind, column: c.clone() },
        None => Name::Rows { private: request.private },
    }
}

/// The intermediate name of a request's companion counter.
pub fn counter_name(request: &Request<String>) -> (r: Name<String>)
    ensures
        r@ == request@.counter_name(),
{
    match &request.column {
        Some(c) => Name::Counter {
            private: request.private,
            kind: request.kind,
            column: c.clone(),
        },
        None => Name::Rows { private: request.private },
    }
}

/// Adds what one aggregate needs: its accumulators to `group`, the projection of its result
/// to `set`, and the intermediate names that it synthesizes to `unset`.
pub fn insert_group_set_unset_for_aggregate(
    request: &Request<String>,
    group: &mut Vec<Accumulation<String>>,
    set: &mut Vec<Projection<String>>,
    unset: &mut Vec<Name<String>>,
)
    ensures
        accumulations(final(group)@) == accumulations(old(group)@) + request@.accumulations(),
        projections(final(set)@) == projections(old(set)@).push(request@.projection()),
        names(final(unset)@) == names(old(unset)@) + request@.accumulations().map_values(
            |a: Accumulation<Seq<char>>| name_of(a),
        ),
{
    let ghost group0 = group@;
    let ghost set0 = set@;
    let ghost unset0 = unset@;
    let ghost added = request@.accumulations();
    let counted = request.column.is_some() && request.kind.tracks_counter();
    match &request.column {
        None => {
            group.push(
                Accumulation { name: value_name(request), accumulator: Accumulator::CountRows },
            );
        },
        Some(c) => {
            let accumulator = match request.kind {
                AggregateKind::Count => Accumulator::CountNonNull(c.clone()),
                _ => Accumulator::Fold(request.kind, c.clone()),
            };
            group.push(Accumulation { name: value_name(request), accumulator });
            if counted {
                group.push(
                    Accumulation {
                        name: counter_name(request),
                        accumulator: Accumulator::CountNonNull(c.clone()),
                    },
                );
            }
        },
    }
    assert(accumulations(group@) =~= accumulations(group0) + added);
    let source = if counted {
        Source::NullIfZero { counter: counter_name(request), value: value_name(request) }
    } else {
        Source::Copy(value_name(request))
    };
    set.push(
        Projection {
            target: Name::Result { private: request.private, kind: request.kind },
            entry: Some(request.field.clone()),
            source,
        },
    );
    assert(projections(set@) =~= projections(set0).push(request@.projection()));
    unset.push(value_name(request));
    if counted {
        unset.push(counter_name(request));
    }
    assert(names(unset@) =~= names(unset0) + added.map_values(
        |a: Accumulation<Seq<char>>| name_of(a),
    ));
}

/// The view of a list of names that may be absent.
pub open spec fn texts_of(by: Option<Vec<String>>) -> Option<Seq<Seq<char>>> {
    match by {
        Some(v) => Some(texts(v@)),
        None => None,
    }
}

/// The view of a filter on groups that may be absent.
pub open spec fn havings_of(filter: Option<Vec<Having<String>>>) -> Option<
    Seq<Having<Seq<char>>>,
> {
    match filter {
        Some(v) => Some(havings(v@)),
        None => None,
    }
}

/// The aggregates that a list of conditions on groups asks for.
pub fn having_aggregates(entries: &Vec<Having<String>>) -> (r: Vec<Aggregate<String>>)
    ensures
        aggregates(r@) == as_aggregates(havings(entries@)),
{
    let mut out: Vec<Aggregate<String>> = Vec::new();
    let mut i: usize = 0;
    while i < entries.len()
        invariant
            i <= entries.len(),
            out@.len() == i,
            forall|j: int| 0 <= j < i ==> (#[trigger] out@[j])@ == as_aggregate(entries@[j]@),
        decreases entries.len() - i,
    {
        out.push(
            Aggregate { kind: entries[i].kind, target: Target::Field(entries[i].field.clone()) },
        );
        i += 1;
    }
    assert(aggregates(out@) =~= as_aggregates(havings(entries@)));
    out
}

/// Whether some request is of the kind.
pub fn uses_kind(reqs: &Vec<Request<String>>, kind: AggregateKind) -> (r: bool)
    ensures
        r == uses(requests(reqs@), kind),
{
    let mut i: usize = 0;
    while i < reqs.len()
        invariant
            i <= reqs.len(),
            forall|j: int| 0 <= j < i ==> (#[trigger] requests(reqs@)[j]).kind != kind,
        decreases reqs.len() - i,
    {
        assert(requests(reqs@)[i as int] == reqs@[i as int]@);
        if reqs[i].kind == kind {
            return true;
        }
        i += 1;
    }
    assert(requests(reqs@).len() == reqs@.len());
    false
}

/// Adds the private result of a kind to `unset`, if some request is of the kind.
fn push_private_result(reqs: &Vec<Request<String>>, kind: AggregateKind, unset: &mut Vec<Name<String>>)
    ensures
        names(final(unset)@) == names(old(unset)@) + result_if(uses(requests(reqs@), kind), kind),
{
    let ghost before = unset@;
    if uses_kind(reqs, kind) {
        unset.push(Name::Result { private: true, kind });
    }
    assert(names(unset@) =~= names(before) + result_if(uses(requests(reqs@), kind), kind));
}

/// The conjunction of the conditions of a filter on groups.
pub fn having_match(entries: &Vec<Having<String>>) -> (r: Predicate)
    ensures
        r@ == conjunction(havings(entries@)),
{
    let ghost all = havings(entries@);
    let mut p = Predicate::Always;
    let mut i: usize = 0;
    assert(all.take(0) =~= Seq::empty());
    while i < entries.len()
        invariant
            i <= entries.len(),
            all == havings(entries@),
            p@ == conjunction(all.take(i as int)),
        decreases entries.len() - i,
    {
        let h = &entries[i];
        proof {
            assert(all.take(i + 1).drop_last() =~= all.take(i as int));
            assert(all.take(i + 1).last() == h@);
        }
        let test = Predicate::Test {
            name: Name::Result { private: true, kind: h.kind },
            entry: Some(h.field.clone()),
            check: Check::Compare(h.matcher.op, Literal::Int(h.matcher.value)),
        };
        assert(test@ == condition(h@));
        p = Predicate::And(Box::new(p), Box::new(test));
        i += 1;
    }
    assert(all.take(i as int) =~= all);
    p
}

/// Puts the stages of an aggregation together from its keys, its filter on groups and the
/// requests of the filter (`hs`) and of the caller (`rs`).
pub fn assemble(
    ks: &Vec<Key<String>>,
    filter: &Option<Vec<Having<String>>>,
    hs: &Vec<Request<String>>,
    rs: &Vec<Request<String>>,
) -> (r: Vec<Stage>)
    ensures
        stages(r@) == aggregation_stages(
            keys(ks@),
            havings_of(*filter),
            requests(hs@),
            requests(rs@),
        ),
{
    let ghost kv = keys(ks@);
    let ghost hv = requests(hs@);
    let ghost rv = requests(rs@);
    let mut key: Vec<String> = Vec::new();
    let mut set: Vec<Projection<String>> = Vec::new();
    let mut order: Vec<SortKey<String>> = Vec::new();
    let mut i: usize = 0;
    while i < ks.len()
        invariant
            i <= ks.len(),
            kv == keys(ks@),
            key@.len() == i,
            set@.len() == i,
            order@.len() == i,
            forall|j: int| 0 <= j < i ==> (#[trigger] key@[j])@ == kv[j].column,
            forall|j: int| 0 <= j < i ==> (#[trigger] set@[j])@ == key_projection(kv[j]),
            forall|j: int| 0 <= j < i ==> (#[trigger] order@[j])@ == key_order(kv[j]),
        decreases ks.len() - i,
    {
        let k = &ks[i];
        assert(kv[i as int] == k@);
        key.push(k.column.clone());
        set.push(
            Projection {
                target: Name::Field(k.field.clone()),
                entry: None,
                source: Source::KeyPart(k.column.clone()),
            },
        );
        order.push(SortKey { name: Name::Field(k.field.clone()), direction: Direction::Asc });
        i += 1;
    }
    assert(texts(key@) =~= kv.map_values(|k: Key<Seq<char>>| k.column));
    assert(projections(set@) =~= kv.map_values(|k: Key<Seq<char>>| key_projection(k)));
    assert(sort_keys(order@) =~= kv.map_values(|k: Key<Seq<char>>| key_order(k)));
    let ghost key_set = projections(set@);

    let mut group: Vec<Accumulation<String>> = Vec::new();
    let mut unset_private: Vec<Name<String>> = Vec::new();
    let mut j: usize = 0;
    assert(hv.take(0) =~= Seq::empty());
    while j < hs.len()
        invariant
            j <= hs.len(),
            hv == requests(hs@),
            accumulations(group@) =~= all_accumulations(hv.take(j as int)),
            projections(set@) =~= key_set + all_projections(hv.take(j as int)),
            names(unset_private@) =~= scaffold(hv.take(j as int)),
        decreases hs.len() - j,
    {
        proof {
            assert(hv.take(j + 1).drop_last() =~= hv.take(j as int));
            assert(hv.take(j + 1).last() == hs@[j as int]@);
            assert(all_projections(hv.take(j + 1)) =~= all_projections(hv.take(j as int)).push(
                hs@[j as int]@.projection(),
            ));
        }
        insert_group_set_unset_for_aggregate(&hs[j], &mut group, &mut set, &mut unset_private);
        j += 1;
    }
    assert(hv.take(j as int) =~= hv);
    let ghost private_set = projections(set@);

    let mut unset_public: Vec<Name<String>> = Vec::new();
    let mut k: usize = 0;
    assert(rv.take(0) =~= Seq::empty());
    while k < rs.len()
        invariant
            k <= rs.len(),
            rv == requests(rs@),
            accumulations(group@) =~= all_accumulations(hv) + all_accumulations(
                rv.take(k as int),
            ),
            projections(set@) =~= private_set + all_projections(rv.take(k as int)),
            names(unset_public@) =~= scaffold(rv.take(k as int)),
        decreases rs.len() - k,
    {
        proof {
            assert(rv.take(k + 1).drop_last() =~= rv.take(k as int));
            assert(rv.take(k + 1).last() == rs@[k as int]@);
            assert(all_projections(rv.take(k + 1)) =~= all_projections(rv.take(k as int)).push(
                rs@[k as int]@.projection(),
            ));
        }
        insert_group_set_unset_for_aggregate(&rs[k], &mut group, &mut set, &mut unset_public);
        k += 1;
    }
    assert(rv.take(k as int) =~= rv);

    let sorted = ks.len() > 0;
    let mut plan: Vec<Stage> = Vec::new();
    plan.push(Stage::Group { key, accumulators: group });
    plan.push(Stage::Project(set));
    match filter {
        Some(entries) => {
            plan.push(Stage::Match(having_match(entries)));
            push_private_result(hs, AggregateKind::Count, &mut unset_private);
            push_private_result(hs, AggregateKind::Sum, &mut unset_private);
            push_private_result(hs, AggregateKind::Avg, &mut unset_private);
            push_private_result(hs, AggregateKind::Min, &mut unset_private);
            push_private_result(hs, AggregateKind::Max, &mut unset_private);
            assert(names(unset_private@) =~= scaffold(hv) + private_results(hv));
            plan.push(Stage::RemoveFields(unset_private));
        },
        None => {},
    }
    let ghost names0 = names(unset_public@);
    unset_public.push(Name::GroupKey);
    assert(names(unset_public@) =~= names0.push(Name::GroupKey));
    plan.push(Stage::RemoveFields(unset_public));
    if sorted {
        plan.push(Stage::Sort(order));
    }
    assert(stages(plan@) =~= aggregation_stages(kv, havings_of(*filter), hv, rv));
    plan
}

/// Whether the position of every request lies within a row of `width` values.
pub fn are_requests_within(reqs: &Vec<Request<String>>, width: usize) -> (r: bool)
    ensures
        r == requests_within(requests(reqs@), width as nat),
{
    let mut i: usize = 0;
    while i < reqs.len()
        invariant
            i <= reqs.len(),
            forall|j: int|
                0 <= j < i ==> ((#[trigger] requests(reqs@)[j]).slot.is_some() ==> requests(
                    reqs@,
                )[j].slot.unwrap() < width),
        decreases reqs.len() - i,
    {
        assert(requests(reqs@)[i as int] == reqs@[i as int]@);
        match reqs[i].slot {
            Some(p) => {
                if p >= width {
                    return false;
                }
            },
            None => {},
        }
        i += 1;
    }
    assert(requests(reqs@).len() == reqs@.len());
    true
}

impl Resolution {
    /// Whether every position lies within a row of `width` values.
    pub fn is_within(&self, width: usize) -> (r: bool)
        ensures
            r == self@.within(width as nat),
    {
        let mut i: usize = 0;
        while i < self.keys.len()
            invariant
                i <= self.keys.len(),
                forall|j: int| 0 <= j < i ==> (#[trigger] keys(self.keys@)[j]).slot < width,
            decreases self.keys.len() - i,
        {
            assert(keys(self.keys@)[i as int] == self.keys@[i as int]@);
            if self.keys[i].slot >= width {
                assert(self@.keys[i as int].slot >= width);
                return false;
            }
            i += 1;
        }
        assert(keys(self.keys@).len() == self.keys@.len());
        are_requests_within(&self.private, width) && are_requests_within(&self.public, width)
    }
}

/// Finds the keys and the targets of an aggregation on the model.
///
/// Fails with `HavingWithoutGrouping` for a filter without `by`, with `UnknownField` at a
/// key or target that is not a field of the model, and with `NonAggregatableType` at a sum
/// or average of a field that is not numeric.
pub fn resolve_aggregation(
    model: &Model,
    by: &Option<Vec<String>>,
    wanted: &Vec<Aggregate<String>>,
    filter: &Option<Vec<Having<String>>>,
) -> (r: Result<Resolution, ErrorKind>)
    ensures
        match r {
            Ok(x) => resolution(
                model@.fields,
                texts_of(*by),
                aggregates(wanted@),
                havings_of(*filter),
            ) == Ok::<ResolutionSpec, ErrorSpec>(x@) && x@.within(model@.fields.len())
                && x.private@.len() == listed(havings_of(*filter)).len() && x.public@.len()
                == wanted@.len(),
            Err(e) => resolution(
                model@.fields,
                texts_of(*by),
                aggregates(wanted@),
                havings_of(*filter),
            ) == Err::<ResolutionSpec, ErrorSpec>(e@),
        },
{
    if filter.is_some() && by.is_none() {
        return Err(ErrorKind::HavingWithoutGrouping);
    }
    let ks = match by {
        Some(names) => match resolve_keys(model, names) {
            Ok(ks) => ks,
            Err(e) => {
                return Err(e);
            },
        },
        None => {
            let ks: Vec<Key<String>> = Vec::new();
            assert(keys(ks@) =~= Seq::empty());
            ks
        },
    };
    let hs = match filter {
        Some(entries) => {
            let asked = having_aggregates(entries);
            proof {
                lemma_resolved_len(model@.fields, true, aggregates(asked@));
            }
            match resolve_all(model, true, &asked) {
                Ok(hs) => hs,
                Err(e) => {
                    return Err(e);
                },
            }
        },
        None => {
            let hs: Vec<Request<String>> = Vec::new();
            assert(requests(hs@) =~= Seq::empty());
            assert(as_aggregates(Seq::<Having<Seq<char>>>::empty()) =~= Seq::empty());
            hs
        },
    };
    proof {
        lemma_resolved_len(model@.fields, false, aggregates(wanted@));
    }
    let rs = match resolve_all(model, false, wanted) {
        Ok(rs) => rs,
        Err(e) => {
            return Err(e);
        },
    };
    Ok(Resolution { keys: ks, private: hs, public: rs })
}

/// There are as many resolved requests as aggregates.
pub proof fn lemma_resolved_len(
    fields: Seq<FieldSpec>,
    private: bool,
    items: Seq<Aggregate<Seq<char>>>,
)
    ensures
        resolved_all(fields, private, items) is Ok ==> resolved_all(
            fields,
            private,
            items,
        )->Ok_0.len() == items.len(),
    decreases items.len(),
{
    if items.len() > 0 {
        lemma_resolved_len(fields, private, items.drop_last());
    }
}

/// Plans an aggregation over `model`: the rows are grouped by the fields of `by` (one group
/// of all rows where there is none), the aggregates of `wanted` are computed of each group,
/// and the groups are kept that meet every condition of `filter`.
///
/// Fails with `HavingWithoutGrouping` for a filter without `by`, with `UnknownField` at a
/// key or target that is not a field of the model, and with `NonAggregatableType` at a sum
/// or average of a field that is not numeric.
pub fn plan_aggregation(
    model: &Model,
    by: &Option<Vec<String>>,
    wanted: &Vec<Aggregate<String>>,
    filter: &Option<Vec<Having<String>>>,
) -> (r: Result<Vec<Stage>, ErrorKind>)
    ensures
        match r {
            Ok(plan) => aggregation_plan(
                model@.fields,
                texts_of(*by),
                aggregates(wanted@),
                havings_of(*filter),
            ) == Ok::<Seq<StageSpec>, ErrorSpec>(stages(plan@)),
            Err(e) => aggregation_plan(
                model@.fields,
                texts_of(*by),
                aggregates(wanted@),
                havings_of(*filter),
            ) == Err::<Seq<StageSpec>, ErrorSpec>(e@),
        },
{
    match resolve_aggregation(model, by, wanted, filter) {
        Err(e) => Err(e),
        Ok(x) => Ok(assemble(&x.keys, filter, &x.private, &x.public)),
    }
}

} // verus!
