//! The query compiler: from a query descriptor and a model to the plan.
//!
//! Compilation is a pure function of the descriptor, the model and what the lookup of the
//! cursor's anchor found. Every refusal is found before a plan is handed out.

use vstd::prelude::*;
use crate::aggregate::{
    aggregates, aggregation_plan, havings_of, listed, plan_aggregation, texts_of, Aggregate,
    Having,
};
use crate::error::{ErrorKind, ErrorSpec};
use crate::field::FieldSpec;
use crate::model::{position_of, Model};
use crate::name::{copy_name, Name};
use crate::pagination::{
    beyond, cursor_condition, resolve_window, window_of, Anchor, Cursor, CursorDirection,
    Window, WindowSpec,
};
use crate::plan::{sort_keys, stages, Direction, SortKey, Stage, StageSpec};
use crate::predicate::{literals, translate, translated, Literal, Predicate, PredicateSpec};

verus! {

/// One entry of the requested order: a logical field and a direction. `S` is the type of
/// text.
#[derive(Clone, Debug, PartialEq, Eq)]
pub struct Order<S> {
    pub field: S,
    pub direction: Direction,
}

impl View for Order<String> {
    type V = Order<Seq<char>>;

    open spec fn view(&self) -> Order<Seq<char>> {
        Order { field: self.field@, direction: self.direction }
    }
}

/// The views of a list of order entries.
pub open spec fn orders(v: Seq<Order<String>>) -> Seq<Order<Seq<char>>> {
    v.map_values(|o: Order<String>| o@)
}

/// What a caller asks for.
#[derive(Debug, PartialEq, Eq)]
pub struct QueryDescriptor {
    /// The rows to consider.
    pub predicate: Option<Predicate>,
    /// The requested order.
    pub order_by: Vec<Order<String>>,
    /// The anchor of a cursor-based page.
    pub cursor: Option<Cursor>,
    /// How many rows to return; negative to take them from the end.
    pub take: Option<i32>,
    /// How many rows to pass over.
    pub skip: Option<u32>,
    /// The size of a page.
    pub page_size: Option<u32>,
    /// The number of the page, counted from one.
    pub page_number: Option<i32>,
    /// The fields to group by.
    pub by: Option<Vec<String>>,
    /// The aggregates to compute.
    pub aggregates: Option<Vec<Aggregate<String>>>,
    /// The conditions that a group must meet.
    pub having: Option<Vec<Having<String>>>,
}

/// A cursor, as plain values.
pub struct CursorSpec {
    pub key: Literal<Seq<char>>,
    pub direction: CursorDirection,
    pub inclusive: bool,
}

/// What the lookup of an anchor found, as plain values.
pub struct AnchorSpec {
    pub matches: nat,
    pub tuple: Seq<Literal<Seq<char>>>,
}

/// A query descriptor, as plain values.
pub struct DescriptorSpec {
    pub predicate: Option<PredicateSpec>,
    pub order_by: Seq<Order<Seq<char>>>,
    pub cursor: Option<CursorSpec>,
    pub take: Option<i32>,
    pub skip: Option<u32>,
    pub page_size: Option<u32>,
    pub page_number: Option<i32>,
    pub by: Option<Seq<Seq<char>>>,
    pub aggregates: Option<Seq<Aggregate<Seq<char>>>>,
    pub having: Option<Seq<Having<Seq<char>>>>,
}

impl View for Cursor {
    type V = CursorSpec;

    open spec fn view(&self) -> CursorSpec {
        CursorSpec { key: self.key@, direction: self.direction, inclusive: self.inclusive }
    }
}

impl View for Anchor {
    type V = AnchorSpec;

    open spec fn view(&self) -> AnchorSpec {
        AnchorSpec { matches: self.matches as nat, tuple: literals(self.tuple@) }
    }
}

/// The view of a predicate that may be absent.
pub open spec fn predicate_of(p: Option<Predicate>) -> Option<PredicateSpec> {
    match p {
        Some(p) => Some(p@),
        None => None,
    }
}

/// The view of a cursor that may be absent.
pub open spec fn cursor_of(c: Option<Cursor>) -> Option<CursorSpec> {
    match c {
        Some(c) => Some(c@),
        None => None,
    }
}

/// The view of an anchor that may be absent.
pub open spec fn anchor_of(a: Option<Anchor>) -> Option<AnchorSpec> {
    match a {
        Some(a) => Some(a@),
        None => None,
    }
}

impl View for QueryDescriptor {
    type V = DescriptorSpec;

    open spec fn view(&self) -> DescriptorSpec {
        DescriptorSpec {
            predicate: predicate_of(self.predicate),
            order_by: orders(self.order_by@),
            cursor: cursor_of(self.cursor),
            take: self.take,
            skip: self.skip,
            page_size: self.page_size,
            page_number: self.page_number,
            by: texts_of(self.by),
            aggregates: match self.aggregates {
                Some(v) => Some(aggregates(v@)),
                None => None,
            },
            having: havings_of(self.having),
        }
    }
}

impl QueryDescriptor {
    /// A descriptor that asks for all rows, in no order.
    pub fn new() -> (r: QueryDescriptor)
        ensures
            r@ == (DescriptorSpec {
                predicate: None,
                order_by: Seq::empty(),
                cursor: None,
                take: None,
                skip: None,
                page_size: None,
                page_number: None,
                by: None,
                aggregates: None,
                having: None,
            }),
    {
        let r = QueryDescriptor {
            predicate: None,
            order_by: Vec::new(),
            cursor: None,
            take: None,
            skip: None,
            page_size: None,
            page_number: None,
            by: None,
            aggregates: None,
            having: None,
        };
        assert(orders(r.order_by@) =~= Seq::empty());
        r
    }
}

/// The sort keys that the requested order stands for, over storage columns, or
/// `UnknownField` with the first field that the model lacks.
pub open spec fn ordering(fields: Seq<FieldSpec>, order_by: Seq<Order<Seq<char>>>) -> Result<
    Seq<SortKey<Seq<char>>>,
    ErrorSpec,
>
    decreases order_by.len(),
{
    if order_by.len() == 0 {
        Ok(Seq::empty())
    } else {
        match ordering(fields, order_by.drop_last()) {
            Err(e) => Err(e),
            Ok(ks) => match position_of(fields, order_by.last().field) {
                None => Err(ErrorSpec::UnknownField(order_by.last().field)),
                Some(i) => Ok(
                    ks.push(
                        SortKey {
                            name: Name::Column(fields[i].column),
                            direction: order_by.last().direction,
                        },
                    ),
                ),
            },
        }
    }
}

/// A sort key, turned over where `flip` is set.
pub open spec fn turn(k: SortKey<Seq<char>>, flip: bool) -> SortKey<Seq<char>> {
    SortKey {
        name: k.name,
        direction: if flip {
            k.direction.spec_reversed()
        } else {
            k.direction
        },
    }
}

/// The sort keys, each turned over where `flip` is set.
pub open spec fn turned(order: Seq<SortKey<Seq<char>>>, flip: bool) -> Seq<SortKey<Seq<char>>> {
    order.map_values(|k: SortKey<Seq<char>>| turn(k, flip))
}

/// The stage that keeps the rows of the predicate, if there is a predicate.
pub open spec fn filter_stages(fields: Seq<FieldSpec>, predicate: Option<PredicateSpec>) -> Result<
    Seq<StageSpec>,
    ErrorSpec,
> {
    match predicate {
        None => Ok(Seq::empty()),
        Some(p) => match translated(p, fields) {
            Err(e) => Err(e),
            Ok(q) => Ok(seq![StageSpec::Match(q)]),
        },
    }
}

/// The stage that keeps the rows beyond the anchor, if there is a cursor. The cursor is
/// refused unless its lookup found exactly one row with a value for every sort key. The rows
/// are walked along the requested order, turned over once for a reversed window and once for
/// a cursor that looks back.
pub open spec fn cursor_stages(
    order: Seq<SortKey<Seq<char>>>,
    reversed: bool,
    cursor: Option<CursorSpec>,
    anchor: Option<AnchorSpec>,
) -> Result<Seq<StageSpec>, ErrorSpec> {
    match cursor {
        None => Ok(Seq::empty()),
        Some(c) => if anchor.is_some() && anchor.unwrap().matches == 1
            && anchor.unwrap().tuple.len() == order.len() {
            Ok(
                seq![
                    StageSpec::Match(
                        beyond(
                            turned(order, reversed != (c.direction == CursorDirection::Before)),
                            anchor.unwrap().tuple,
                            c.inclusive,
                        ),
                    ),
                ],
            )
        } else {
            Err(ErrorSpec::CursorNotFound)
        },
    }
}

/// The stages of a window: sort where an order is requested, reversed for a reversed window;
/// skip where rows are passed over; limit where the rows are bounded.
pub open spec fn window_stages(order: Seq<SortKey<Seq<char>>>, w: WindowSpec) -> Seq<StageSpec> {
    let sorted = if order.len() > 0 {
        seq![StageSpec::Sort(turned(order, w.reversed))]
    } else {
        Seq::empty()
    };
    let skipped = if w.skip > 0 {
        sorted.push(StageSpec::Skip(w.skip))
    } else {
        sorted
    };
    match w.limit {
        Some(n) => skipped.push(StageSpec::Limit(n)),
        None => skipped,
    }
}

/// The stages of the aggregation, if the descriptor asks for one.
pub open spec fn aggregation_part(fields: Seq<FieldSpec>, d: DescriptorSpec) -> Result<
    Seq<StageSpec>,
    ErrorSpec,
> {
    if d.by.is_none() && d.aggregates.is_none() && d.having.is_none() {
        Ok(Seq::empty())
    } else {
        aggregation_plan(fields, d.by, listed(d.aggregates), d.having)
    }
}

/// The plan of a query: the filter, the cursor's condition, the window, the aggregation.
/// Refusals are reported in this order: those of the predicate, an unknown field of the
/// order, an invalid page, a cursor that was not found, those of the aggregation.
pub open spec fn pipeline(fields: Seq<FieldSpec>, d: DescriptorSpec, anchor: Option<AnchorSpec>) -> Result<
    Seq<StageSpec>,
    ErrorSpec,
> {
    match filter_stages(fields, d.predicate) {
        Err(e) => Err(e),
        Ok(matched) => match ordering(fields, d.order_by) {
            Err(e) => Err(e),
            Ok(order) => match window_of(d.take, d.skip, d.page_size, d.page_number) {
                Err(e) => Err(e),
                Ok(w) => match cursor_stages(order, w.reversed, d.cursor, anchor) {
                    Err(e) => Err(e),
                    Ok(anchored) => match aggregation_part(fields, d) {
                        Err(e) => Err(e),
                        Ok(aggregated) => Ok(
                            matched + anchored + window_stages(order, w) + aggregated,
                        ),
                    },
                },
            },
        },
    }
}

/// An unknown field met in a prefix of the order is the refusal of the whole order.
pub proof fn lemma_unknown_order_stays(
    fields: Seq<FieldSpec>,
    order_by: Seq<Order<Seq<char>>>,
    i: int,
)
    requires
        0 <= i <= order_by.len(),
        ordering(fields, order_by.take(i)) is Err,
    ensures
        ordering(fields, order_by) == ordering(fields, order_by.take(i)),
    decreases order_by.len() - i,
{
    if i < order_by.len() {
        assert(order_by.take(i + 1).drop_last() =~= order_by.take(i));
        lemma_unknown_order_stays(fields, order_by, i + 1);
    } else {
        assert(order_by.take(i) =~= order_by);
    }
}

/// Finds the fields of the requested order on the model.
pub fn resolve_order(model: &Model, order_by: &Vec<Order<String>>) -> (r: Result<
    Vec<SortKey<String>>,
    ErrorKind,
>)
    ensures
        match r {
            Ok(q) => ordering(model@.fields, orders(order_by@)) == Ok::<
                Seq<SortKey<Seq<char>>>,
                ErrorSpec,
            >(sort_keys(q@)),
            Err(e) => ordering(model@.fields, orders(order_by@)) == Err::<
                Seq<SortKey<Seq<char>>>,
                ErrorSpec,
            >(e@),
        },
{
    let ghost all = orders(order_by@);
    let mut out: Vec<SortKey<String>> = Vec::new();
    let mut i: usize = 0;
    assert(all.take(0) =~= Seq::empty());
    assert(sort_keys(out@) =~= Seq::empty());
    while i < order_by.len()
        invariant
            i <= order_by.len(),
            all == orders(order_by@),
            ordering(model@.fields, all.take(i as int)) == Ok::<
                Seq<SortKey<Seq<char>>>,
                ErrorSpec,
            >(sort_keys(out@)),
        decreases order_by.len() - i,
    {
        let o = &order_by[i];
        proof {
            assert(all.take(i + 1).drop_last() =~= all.take(i as int));
            assert(all.take(i + 1).last() == o@);
        }
        match model.field(o.field.as_str()) {
            None => {
                proof {
                    lemma_unknown_order_stays(model@.fields, all, i + 1);
                }
                return Err(ErrorKind::UnknownField(o.field.clone()));
            },
            Some(field) => {
                let ghost before = out@;
                let key = SortKey {
                    name: Name::Column(field.column_name().clone()),
                    direction: o.direction,
                };
                out.push(key);
                assert(sort_keys(out@) =~= sort_keys(before).push(key@));
            },
        }
        i += 1;
    }
    assert(all.take(i as int) =~= all);
    Ok(out)
}

/// The sort keys, each turned over where `flip` is set.
pub fn turn_order(order: &Vec<SortKey<String>>, flip: bool) -> (r: Vec<SortKey<String>>)
    ensures
        sort_keys(r@) == turned(sort_keys(order@), flip),
{
    let mut out: Vec<SortKey<String>> = Vec::new();
    let mut i: usize = 0;
    while i < order.len()
        invariant
            i <= order.len(),
            out@.len() == i,
            forall|j: int| 0 <= j < i ==> (#[trigger] out@[j])@ == turn(order@[j]@, flip),
        decreases order.len() - i,
    {
        let k = &order[i];
        let direction = if flip {
            k.direction.reversed()
        } else {
            k.direction
        };
        out.push(SortKey { name: copy_name(&k.name), direction });
        i += 1;
    }
    assert(sort_keys(out@) =~= turned(sort_keys(order@), flip));
    out
}

/// The stage that keeps the rows of the predicate, if there is a predicate.
pub fn filter_part(model: &Model, predicate: &Option<Predicate>) -> (r: Result<
    Vec<Stage>,
    ErrorKind,
>)
    ensures
        match r {
            Ok(part) => filter_stages(model@.fields, predicate_of(*predicate)) == Ok::<
                Seq<StageSpec>,
                ErrorSpec,
            >(stages(part@)),
            Err(e) => filter_stages(model@.fields, predicate_of(*predicate)) == Err::<
                Seq<StageSpec>,
                ErrorSpec,
            >(e@),
        },
{
    let mut part: Vec<Stage> = Vec::new();
    assert(stages(part@) =~= Seq::empty());
    match predicate {
        None => Ok(part),
        Some(p) => match translate(p, model) {
            Err(e) => Err(e),
            Ok(q) => {
                part.push(Stage::Match(q));
                assert(stages(part@) =~= seq![StageSpec::Match(q@)]);
                Ok(part)
            },
        },
    }
}

/// The stage that keeps the rows beyond the anchor, if there is a cursor. Fails with
/// `CursorNotFound` unless the lookup found exactly one row with a value for every sort key.
pub fn cursor_part(
    order: &Vec<SortKey<String>>,
    reversed: bool,
    cursor: &Option<Cursor>,
    anchor: &Option<Anchor>,
) -> (r: Result<Vec<Stage>, ErrorKind>)
    ensures
        match r {
            Ok(part) => cursor_stages(
                sort_keys(order@),
                reversed,
                cursor_of(*cursor),
                anchor_of(*anchor),
            ) == Ok::<Seq<StageSpec>, ErrorSpec>(stages(part@)),
            Err(e) => e@ == ErrorSpec::CursorNotFound && cursor_stages(
                sort_keys(order@),
                reversed,
                cursor_of(*cursor),
                anchor_of(*anchor),
            ) == Err::<Seq<StageSpec>, ErrorSpec>(ErrorSpec::CursorNotFound),
        },
{
    let mut part: Vec<Stage> = Vec::new();
    assert(stages(part@) =~= Seq::empty());
    match cursor {
        None => Ok(part),
        Some(c) => match anchor {
            Some(a) => {
                if a.matches == 1 && a.tuple.len() == order.len() {
                    let back = matches!(c.direction, CursorDirection::Before);
                    let walked = turn_order(order, reversed != back);
                    let condition = cursor_condition(&walked, &a.tuple, c.inclusive);
                    part.push(Stage::Match(condition));
                    assert(stages(part@) =~= seq![StageSpec::Match(condition@)]);
                    Ok(part)
                } else {
                    Err(ErrorKind::CursorNotFound)
                }
            },
            None => Err(ErrorKind::CursorNotFound),
        },
    }
}

/// The stages of a window.
pub fn window_part(order: &Vec<SortKey<String>>, window: &Window) -> (r: Vec<Stage>)
    ensures
        stages(r@) == window_stages(sort_keys(order@), window@),
{
    let mut part: Vec<Stage> = Vec::new();
    if order.len() > 0 {
        part.push(Stage::Sort(turn_order(order, window.reversed)));
    }
    if window.skip > 0 {
        part.push(Stage::Skip(window.skip));
    }
    match window.limit {
        Some(n) => {
            part.push(Stage::Limit(n));
        },
        None => {},
    }
    assert(stages(part@) =~= window_stages(sort_keys(order@), window@));
    part
}

/// The stages of the aggregation, if the descriptor asks for one.
pub fn aggregation_stages_part(model: &Model, descriptor: &QueryDescriptor) -> (r: Result<
    Vec<Stage>,
    ErrorKind,
>)
    ensures
        match r {
            Ok(part) => aggregation_part(model@.fields, descriptor@) == Ok::<
                Seq<StageSpec>,
                ErrorSpec,
            >(stages(part@)),
            Err(e) => aggregation_part(model@.fields, descriptor@) == Err::<
                Seq<StageSpec>,
                ErrorSpec,
            >(e@),
        },
{
    if descriptor.by.is_none() && descriptor.aggregates.is_none() && descriptor.having.is_none() {
        let part: Vec<Stage> = Vec::new();
        assert(stages(part@) =~= Seq::empty());
        return Ok(part);
    }
    let none: Vec<Aggregate<String>> = Vec::new();
    assert(aggregates(none@) =~= Seq::empty());
    let wanted = match &descriptor.aggregates {
        Some(v) => v,
        None => &none,
    };
    plan_aggregation(model, &descriptor.by, wanted, &descriptor.having)
}

/// Appends the stages of `part` to `plan`.
fn append_stages(plan: &mut Vec<Stage>, part: Vec<Stage>)
    ensures
        stages(final(plan)@) == stages(old(plan)@) + stages(part@),
{
    let ghost head = stages(plan@);
    let ghost tail = stages(part@);
    let mut part = part;
    plan.append(&mut part);
    assert(stages(plan@) =~= head + tail);
}

/// Compiles a query over `model` into its plan. `anchor` is what the lookup of the cursor's
/// key found; it is read only where the descriptor has a cursor.
///
/// The plan is that of `pipeline`; so is each refusal.
pub fn build_query_pipeline(model: &Model, descriptor: &QueryDescriptor, anchor: &Option<Anchor>) -> (r:
    Result<Vec<Stage>, ErrorKind>)
    ensures
        match r {
            Ok(plan) => pipeline(model@.fields, descriptor@, anchor_of(*anchor)) == Ok::<
                Seq<StageSpec>,
                ErrorSpec,
            >(stages(plan@)),
            Err(e) => pipeline(model@.fields, descriptor@, anchor_of(*anchor)) == Err::<
                Seq<StageSpec>,
                ErrorSpec,
            >(e@),
        },
{
    let mut plan = match filter_part(model, &descriptor.predicate) {
        Err(e) => {
            return Err(e);
        },
        Ok(part) => part,
    };
    let order = match resolve_order(model, &descriptor.order_by) {
        Err(e) => {
            return Err(e);
        },
        Ok(order) => order,
    };
    let window = match resolve_window(
        descriptor.take,
        descriptor.skip,
        descriptor.page_size,
        descriptor.page_number,
    ) {
        Err(e) => {
            return Err(e);
        },
        Ok(w) => w,
    };
    let anchored = match cursor_part(&order, window.reversed, &descriptor.cursor, anchor) {
        Err(e) => {
            return Err(e);
        },
        Ok(part) => part,
    };
    let paged = window_part(&order, &window);
    let aggregated = match aggregation_stages_part(model, descriptor) {
        Err(e) => {
            return Err(e);
        },
        Ok(part) => part,
    };
    append_stages(&mut plan, anchored);
    append_stages(&mut plan, paged);
    append_stages(&mut plan, aggregated);
    Ok(plan)
}

} // verus!
