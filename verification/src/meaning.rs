//! What the predicates of a plan mean, and that the conditions which the planner builds mean
//! what the reference evaluation computes.
//!
//! A row gives an outcome for every path: a name and, where the name is a mapping, an entry.
//! A comparison with a number holds of a number that compares so, and of no null; text is
//! not modelled, so a check against text holds of nothing.

use vstd::prelude::*;
use crate::aggregate::{condition, conjunction, Having, Matcher};
use crate::evaluate::OutcomeSpec;
use crate::groups::meets;
use crate::name::Name;
use crate::page::{admitted, before, precedes, RowCursorSpec};
use crate::pagination::{anchor_test, beyond, strictly};
use crate::plan::{Direction, SortKey};
use crate::predicate::{CheckSpec, Comparison, Literal, PredicateSpec};

verus! {

/// Whether a check holds of an outcome.
pub open spec fn check_holds(c: CheckSpec, v: OutcomeSpec) -> bool {
    match c {
        CheckSpec::Compare(op, l) => match l {
            Literal::Int(n) => meets(Matcher { op, value: n }, v),
            _ => false,
        },
        CheckSpec::IsNull => v is Null,
        CheckSpec::Matches { .. } => false,
        CheckSpec::OneOf(ls) => exists|i: int|
            0 <= i < ls.len() && (#[trigger] ls[i]) is Int && meets(
                Matcher { op: Comparison::Eq, value: ls[i]->Int_0 },
                v,
            ),
    }
}

/// Whether a predicate holds of a row.
pub open spec fn holds(
    p: PredicateSpec,
    row: spec_fn(Name<Seq<char>>, Option<Seq<char>>) -> OutcomeSpec,
) -> bool
    decreases p,
{
    match p {
        PredicateSpec::Always => true,
        PredicateSpec::Test { name, entry, check } => check_holds(check, row(name, entry)),
        PredicateSpec::And(a, b) => holds(*a, row) && holds(*b, row),
        PredicateSpec::Or(a, b) => holds(*a, row) || holds(*b, row),
        PredicateSpec::Not(a) => !holds(*a, row),
    }
}

/// The match stage of a filter on groups holds of a group exactly if every matcher is met by
/// the group's own private result of the matcher's kind and field.
pub proof fn lemma_having_means_matchers(
    entries: Seq<Having<Seq<char>>>,
    row: spec_fn(Name<Seq<char>>, Option<Seq<char>>) -> OutcomeSpec,
)
    ensures
        holds(conjunction(entries), row) <==> forall|j: int|
            0 <= j < entries.len() ==> meets(
                (#[trigger] entries[j]).matcher,
                row(Name::Result { private: true, kind: entries[j].kind }, Some(entries[j].field)),
            ),
    decreases entries.len(),
{
    if entries.len() > 0 {
        let rest = entries.drop_last();
        lemma_having_means_matchers(rest, row);
        assert(holds(condition(entries.last()), row) == meets(
            entries.last().matcher,
            row(
                Name::Result { private: true, kind: entries.last().kind },
                Some(entries.last().field),
            ),
        ));
        assert(forall|j: int| 0 <= j < rest.len() ==> rest[j] == entries[j]);
        if holds(conjunction(entries), row) {
            assert forall|j: int| 0 <= j < entries.len() implies meets(
                (#[trigger] entries[j]).matcher,
                row(Name::Result { private: true, kind: entries[j].kind }, Some(entries[j].field)),
            ) by {
                if j < rest.len() {
                    assert(rest[j] == entries[j]);
                }
            }
        }
        if forall|j: int|
            0 <= j < entries.len() ==> meets(
                (#[trigger] entries[j]).matcher,
                row(Name::Result { private: true, kind: entries[j].kind }, Some(entries[j].field)),
            ) {
            assert forall|j: int| 0 <= j < rest.len() implies meets(
                (#[trigger] rest[j]).matcher,
                row(Name::Result { private: true, kind: rest[j].kind }, Some(rest[j].field)),
            ) by {
                assert(rest[j] == entries[j]);
            }
            assert(entries[entries.len() - 1] == entries.last());
        }
    }
}

/// Whether a row has, under each sort key, the number that the tuple gives.
pub open spec fn carries(
    row: spec_fn(Name<Seq<char>>, Option<Seq<char>>) -> OutcomeSpec,
    order: Seq<SortKey<Seq<char>>>,
    tuple: Seq<Option<i64>>,
) -> bool {
    tuple.len() == order.len() && forall|i: int|
        0 <= i < order.len() ==> (#[trigger] tuple[i]).is_some() && row(order[i].name, None)
            == OutcomeSpec::Number(tuple[i].unwrap() as int)
}

/// Whether the anchor's literals are the numbers that the tuple gives.
pub open spec fn numbers(anchor: Seq<Literal<Seq<char>>>, tuple: Seq<Option<i64>>) -> bool {
    tuple.len() == anchor.len() && forall|i: int|
        0 <= i < anchor.len() ==> (#[trigger] tuple[i]).is_some() && anchor[i] == Literal::<
            Seq<char>,
        >::Int(tuple[i].unwrap())
}

/// The directions of sort keys.
pub open spec fn directions(order: Seq<SortKey<Seq<char>>>) -> Seq<Direction> {
    order.map_values(|k: SortKey<Seq<char>>| k.direction)
}

/// The condition of a cursor holds of a row exactly if the reference evaluation admits the
/// row: where the sort-key values of the row and of the anchor are numbers, the row meets
/// the condition exactly if its tuple lies beyond the anchor's, each component compared
/// along its own direction.
pub proof fn lemma_cursor_means_beyond(
    order: Seq<SortKey<Seq<char>>>,
    anchor: Seq<Literal<Seq<char>>>,
    inclusive: bool,
    row: spec_fn(Name<Seq<char>>, Option<Seq<char>>) -> OutcomeSpec,
    row_tuple: Seq<Option<i64>>,
    anchor_tuple: Seq<Option<i64>>,
)
    requires
        anchor.len() == order.len(),
        carries(row, order, row_tuple),
        numbers(anchor, anchor_tuple),
    ensures
        holds(beyond(order, anchor, inclusive), row) <==> admitted(
            row_tuple,
            directions(order),
            Some(RowCursorSpec { anchor: anchor_tuple, inclusive, back: false }),
        ),
    decreases order.len(),
{
    reveal_with_fuel(holds, 4);
    let dirs = directions(order);
    if order.len() == 0 {
        assert(dirs.len() == 0);
    } else {
        let rest = order.drop_first();
        let rest_anchor = anchor.drop_first();
        let rest_row = row_tuple.drop_first();
        let rest_tuple = anchor_tuple.drop_first();
        assert(carries(row, rest, rest_row)) by {
            assert forall|i: int| 0 <= i < rest.len() implies (#[trigger] rest_row[i]).is_some()
                && row(rest[i].name, None) == OutcomeSpec::Number(rest_row[i].unwrap() as int) by {
                assert(rest_row[i] == row_tuple[i + 1]);
                assert(rest[i] == order[i + 1]);
            }
        }
        assert(numbers(rest_anchor, rest_tuple)) by {
            assert forall|i: int| 0 <= i < rest_anchor.len() implies (
            #[trigger] rest_tuple[i]).is_some() && rest_anchor[i] == Literal::<Seq<char>>::Int(
                rest_tuple[i].unwrap(),
            ) by {
                assert(rest_tuple[i] == anchor_tuple[i + 1]);
                assert(rest_anchor[i] == anchor[i + 1]);
            }
        }
        lemma_cursor_means_beyond(rest, rest_anchor, inclusive, row, rest_row, rest_tuple);
        assert(directions(rest) =~= dirs.drop_first());
        let x = row_tuple[0].unwrap();
        let a = anchor_tuple[0].unwrap();
        assert(row_tuple[0] == Some(x) && anchor_tuple[0] == Some(a));
        assert(row(order[0].name, None) == OutcomeSpec::Number(x as int));
        assert(anchor[0] == Literal::<Seq<char>>::Int(a));
        assert(dirs[0] == order[0].direction);
        let strict = anchor_test(order[0].name, strictly(order[0].direction), anchor[0]);
        let equal = anchor_test(order[0].name, Comparison::Eq, anchor[0]);
        assert(holds(strict, row) == before(Some(a), Some(x), order[0].direction));
        assert(holds(equal, row) == (x == a));
        assert(beyond(order, anchor, inclusive) == PredicateSpec::Or(
            Box::new(strict),
            Box::new(
                PredicateSpec::And(
                    Box::new(equal),
                    Box::new(beyond(rest, rest_anchor, inclusive)),
                ),
            ),
        ));
        assert(precedes(anchor_tuple, row_tuple, dirs) == if a == x {
            precedes(rest_tuple, rest_row, dirs.drop_first())
        } else {
            before(Some(a), Some(x), dirs[0])
        });
        assert(precedes(row_tuple, anchor_tuple, dirs) == if a == x {
            precedes(rest_row, rest_tuple, dirs.drop_first())
        } else {
            before(Some(x), Some(a), dirs[0])
        });
        assert(holds(beyond(order, anchor, inclusive), row) == (holds(strict, row) || (holds(
            equal,
            row,
        ) && holds(beyond(rest, rest_anchor, inclusive), row))));
    }
}

} // verus!
