//! What the aggregates of a plan mean: the reference evaluation of accumulators and of the
//! projection of their results over the rows of one group.
//!
//! A value is a whole number or null. The values handed to the functions of this module are
//! those of one column in the rows of a group, one per row.

use vstd::prelude::*;
use crate::aggregate::{insert_group_set_unset_for_aggregate, name_of, Request};
use crate::model::same_text;
use crate::name::{names, AggregateKind, Name};
use crate::plan::{accumulations, projections, Accumulation, Accumulator, Projection, Source};

verus! {

/// The result of an aggregate over a group.
#[derive(Clone, Copy, Debug, PartialEq, Eq)]
pub enum Outcome {
    /// No value: no row contributed.
    Null,
    /// A whole number.
    Number(i128),
    /// The quotient of a sum by the number of rows that contributed to it.
    Ratio { sum: i128, count: u64 },
}

/// The result of an aggregate, as plain values.
pub enum OutcomeSpec {
    Null,
    Number(int),
    Ratio { sum: int, count: nat },
}

impl View for Outcome {
    type V = OutcomeSpec;

    open spec fn view(&self) -> OutcomeSpec {
        match self {
            Outcome::Null => OutcomeSpec::Null,
            Outcome::Number(n) => OutcomeSpec::Number(*n as int),
            Outcome::Ratio { sum, count } => OutcomeSpec::Ratio {
                sum: *sum as int,
                count: *count as nat,
            },
        }
    }
}

/// The values that are not null, in order.
pub open spec fn present(vs: Seq<Option<i64>>) -> Seq<int>
    decreases vs.len(),
{
    if vs.len() == 0 {
        Seq::empty()
    } else {
        match vs.last() {
            Some(v) => present(vs.drop_last()).push(v as int),
            None => present(vs.drop_last()),
        }
    }
}

/// The sum of the numbers; zero where there is none.
pub open spec fn total(xs: Seq<int>) -> int
    decreases xs.len(),
{
    if xs.len() == 0 {
        0
    } else {
        total(xs.drop_last()) + xs.last()
    }
}

/// Whether `m` is the least of the numbers.
pub open spec fn is_least(xs: Seq<int>, m: int) -> bool {
    xs.contains(m) && forall|i: int| 0 <= i < xs.len() ==> m <= #[trigger] xs[i]
}

/// Whether `m` is the greatest of the numbers.
pub open spec fn is_greatest(xs: Seq<int>, m: int) -> bool {
    xs.contains(m) && forall|i: int| 0 <= i < xs.len() ==> m >= #[trigger] xs[i]
}

/// The least of the numbers; zero where there is none.
pub open spec fn least_of(xs: Seq<int>) -> int
    decreases xs.len(),
{
    if xs.len() == 0 {
        0
    } else if xs.len() == 1 {
        xs[0]
    } else if xs.last() < least_of(xs.drop_last()) {
        xs.last()
    } else {
        least_of(xs.drop_last())
    }
}

/// The greatest of the numbers; zero where there is none.
pub open spec fn greatest_of(xs: Seq<int>) -> int
    decreases xs.len(),
{
    if xs.len() == 0 {
        0
    } else if xs.len() == 1 {
        xs[0]
    } else if xs.last() > greatest_of(xs.drop_last()) {
        xs.last()
    } else {
        greatest_of(xs.drop_last())
    }
}

/// The least and the greatest of the numbers are among them and bound them.
pub proof fn lemma_extremes(xs: Seq<int>)
    requires
        xs.len() > 0,
    ensures
        is_least(xs, least_of(xs)),
        is_greatest(xs, greatest_of(xs)),
    decreases xs.len(),
{
    if xs.len() == 1 {
        assert(xs[0] == least_of(xs));
    } else {
        let rest = xs.drop_last();
        lemma_extremes(rest);
        let m = least_of(rest);
        let j = choose|j: int| 0 <= j < rest.len() && rest[j] == m;
        assert(xs[j] == m);
        let g = greatest_of(rest);
        let k = choose|k: int| 0 <= k < rest.len() && rest[k] == g;
        assert(xs[k] == g);
        assert(xs[xs.len() - 1] == xs.last());
        assert forall|i: int| 0 <= i < xs.len() implies least_of(xs) <= #[trigger] xs[i]
            && greatest_of(xs) >= xs[i] by {
            if i < rest.len() {
                assert(xs[i] == rest[i]);
            }
        }
    }
}

/// What the accumulator computes over the values of its column in the rows of a group.
/// A count of rows counts every row; a count of a column counts the values that are not
/// null; a sum adds them and is zero where there is none; an average, a minimum and a
/// maximum are null where there is none.
pub open spec fn accumulated(acc: Accumulator<Seq<char>>, vs: Seq<Option<i64>>) -> OutcomeSpec {
    let xs = present(vs);
    match acc {
        Accumulator::CountRows => OutcomeSpec::Number(vs.len() as int),
        Accumulator::CountNonNull(_) => OutcomeSpec::Number(xs.len() as int),
        Accumulator::Fold(kind, _) => match kind {
            AggregateKind::Count => OutcomeSpec::Number(xs.len() as int),
            AggregateKind::Sum => OutcomeSpec::Number(total(xs)),
            AggregateKind::Avg => if xs.len() == 0 {
                OutcomeSpec::Null
            } else {
                OutcomeSpec::Ratio { sum: total(xs), count: xs.len() }
            },
            AggregateKind::Min => if xs.len() == 0 {
                OutcomeSpec::Null
            } else {
                OutcomeSpec::Number(least_of(xs))
            },
            AggregateKind::Max => if xs.len() == 0 {
                OutcomeSpec::Null
            } else {
                OutcomeSpec::Number(greatest_of(xs))
            },
        },
    }
}

/// The sum of `n` values lies within `n` times the range of one value.
pub proof fn lemma_total_bounds(vs: Seq<Option<i64>>)
    ensures
        present(vs).len() <= vs.len(),
        -0x8000_0000_0000_0000 * present(vs).len() <= total(present(vs)) <= 0x8000_0000_0000_0000
            * present(vs).len(),
    decreases vs.len(),
{
    if vs.len() > 0 {
        lemma_total_bounds(vs.drop_last());
        match vs.last() {
            Some(v) => {
                assert(present(vs).drop_last() =~= present(vs.drop_last()));
            },
            None => {},
        }
    }
}

/// Where every value is null, none is present.
pub proof fn lemma_none_present(vs: Seq<Option<i64>>)
    requires
        forall|i: int| 0 <= i < vs.len() ==> (#[trigger] vs[i]).is_none(),
    ensures
        present(vs).len() == 0,
    decreases vs.len(),
{
    if vs.len() > 0 {
        lemma_none_present(vs.drop_last());
    }
}

/// Computes an accumulator over the values of its column in the rows of a group.
pub fn accumulate(acc: &Accumulator<String>, values: &Vec<Option<i64>>) -> (r: Outcome)
    ensures
        r@ == accumulated(acc@, values@),
{
    let mut count: u64 = 0;
    let mut sum: i128 = 0;
    let mut least: Option<i64> = None;
    let mut greatest: Option<i64> = None;
    let mut i: usize = 0;
    assert(values@.take(0) =~= Seq::empty());
    while i < values.len()
        invariant
            i <= values.len(),
            count == present(values@.take(i as int)).len(),
            count <= i,
            sum == total(present(values@.take(i as int))),
            count == 0 ==> least.is_none() && greatest.is_none(),
            count > 0 ==> least.is_some() && is_least(
                present(values@.take(i as int)),
                least.unwrap() as int,
            ),
            count > 0 ==> greatest.is_some() && is_greatest(
                present(values@.take(i as int)),
                greatest.unwrap() as int,
            ),
        decreases values.len() - i,
    {
        let ghost before = present(values@.take(i as int));
        proof {
            assert(values@.take(i + 1).drop_last() =~= values@.take(i as int));
            lemma_total_bounds(values@.take(i as int));
            lemma_total_bounds(values@.take(i + 1));
        }
        match values[i] {
            Some(v) => {
                let ghost now = before.push(v as int);
                assert(present(values@.take(i + 1)) == now);
                assert(now.drop_last() =~= before);
                assert(now[now.len() - 1] == v as int);
                count += 1;
                sum = sum + (v as i128);
                let low = match least {
                    Some(m) => if v < m {
                        v
                    } else {
                        m
                    },
                    None => v,
                };
                let high = match greatest {
                    Some(m) => if v > m {
                        v
                    } else {
                        m
                    },
                    None => v,
                };
                proof {
                    if before.len() > 0 {
                        let m = least.unwrap() as int;
                        let j = choose|j: int| 0 <= j < before.len() && before[j] == m;
                        assert(now[j] == m);
                        let g = greatest.unwrap() as int;
                        let k = choose|k: int| 0 <= k < before.len() && before[k] == g;
                        assert(now[k] == g);
                    }
                    assert forall|j: int| 0 <= j < now.len() implies low as int <= #[trigger] now[j]
                        && high as int >= now[j] by {
                        if j < before.len() {
                            assert(now[j] == before[j]);
                        }
                    }
                    assert(now.contains(low as int));
                    assert(now.contains(high as int));
                }
                least = Some(low);
                greatest = Some(high);
            },
            None => {},
        }
        i += 1;
    }
    proof {
        assert(values@.take(i as int) =~= values@);
        if count > 0 {
            lemma_extremes(present(values@));
        }
    }
    match acc {
        Accumulator::CountRows => Outcome::Number(values.len() as i128),
        Accumulator::CountNonNull(_) => Outcome::Number(count as i128),
        Accumulator::Fold(kind, _) => match kind {
            AggregateKind::Count => Outcome::Number(count as i128),
            AggregateKind::Sum => Outcome::Number(sum),
            AggregateKind::Avg => if count == 0 {
                Outcome::Null
            } else {
                Outcome::Ratio { sum, count }
            },
            AggregateKind::Min => match least {
                Some(m) => Outcome::Number(m as i128),
                None => Outcome::Null,
            },
            AggregateKind::Max => match greatest {
                Some(m) => Outcome::Number(m as i128),
                None => Outcome::Null,
            },
        },
    }
}

/// The outcome held under a name: that of the last accumulation of the name, null where
/// there is none.
pub open spec fn found(held: Seq<Name<Seq<char>>>, outs: Seq<OutcomeSpec>, n: Name<Seq<char>>) -> OutcomeSpec
    recommends
        held.len() == outs.len(),
    decreases held.len(),
{
    if held.len() == 0 || outs.len() == 0 {
        OutcomeSpec::Null
    } else if held.last() == n {
        outs.last()
    } else {
        found(held.drop_last(), outs.drop_last(), n)
    }
}

/// The value that a projection takes from the outcomes of the accumulators: a copy, or null
/// where the companion counter is zero.
pub open spec fn projected(
    source: Source<Seq<char>>,
    held: Seq<Name<Seq<char>>>,
    outs: Seq<OutcomeSpec>,
) -> OutcomeSpec {
    match source {
        Source::KeyPart(_) => OutcomeSpec::Null,
        Source::Copy(n) => found(held, outs, n),
        Source::NullIfZero { counter, value } => if found(held, outs, counter)
            == OutcomeSpec::Number(0) {
            OutcomeSpec::Null
        } else {
            found(held, outs, value)
        },
    }
}

/// What a request reports of a group, given the values of its column in the group's rows:
/// its accumulators are computed, and its projection is taken of their outcomes.
pub open spec fn reported(r: Request<Seq<char>>, vs: Seq<Option<i64>>) -> OutcomeSpec {
    projected(
        r.projection().source,
        r.accumulations().map_values(|a: Accumulation<Seq<char>>| name_of(a)),
        r.accumulations().map_values(|a: Accumulation<Seq<char>>| accumulated(a.accumulator, vs)),
    )
}

/// The views of a list of outcomes.
pub open spec fn outcomes(v: Seq<Outcome>) -> Seq<OutcomeSpec> {
    v.map_values(|o: Outcome| o@)
}

/// Whether two names are the same name.
pub fn same_name(a: &Name<String>, b: &Name<String>) -> (r: bool)
    ensures
        r == (a@ == b@),
{
    match (a, b) {
        (Name::GroupKey, Name::GroupKey) => true,
        (Name::Column(x), Name::Column(y)) => same_text(x.as_str(), y.as_str()),
        (Name::Field(x), Name::Field(y)) => same_text(x.as_str(), y.as_str()),
        (Name::Result { private: p, kind: k }, Name::Result { private: q, kind: l }) => *p == *q
            && *k == *l,
        (
            Name::Value { private: p, kind: k, column: x },
            Name::Value { private: q, kind: l, column: y },
        ) => *p == *q && *k == *l && same_text(x.as_str(), y.as_str()),
        (Name::Rows { private: p }, Name::Rows { private: q }) => *p == *q,
        (
            Name::Counter { private: p, kind: k, column: x },
            Name::Counter { private: q, kind: l, column: y },
        ) => *p == *q && *k == *l && same_text(x.as_str(), y.as_str()),
        _ => false,
    }
}

/// The outcome held under a name.
pub fn find(held: &Vec<Name<String>>, outs: &Vec<Outcome>, n: &Name<String>) -> (r: Outcome)
    requires
        held@.len() == outs@.len(),
    ensures
        r@ == found(names(held@), outcomes(outs@), n@),
{
    let ghost hs = names(held@);
    let ghost os = outcomes(outs@);
    let mut i: usize = held.len();
    assert(hs.take(i as int) =~= hs);
    assert(os.take(i as int) =~= os);
    while i > 0
        invariant
            i <= held.len(),
            held@.len() == outs@.len(),
            hs == names(held@),
            os == outcomes(outs@),
            found(hs, os, n@) == found(hs.take(i as int), os.take(i as int), n@),
        decreases i,
    {
        i -= 1;
        proof {
            assert(hs.take(i + 1).drop_last() =~= hs.take(i as int));
            assert(os.take(i + 1).drop_last() =~= os.take(i as int));
            assert(hs.take(i + 1).last() == held@[i as int]@);
            assert(os.take(i + 1).last() == outs@[i as int]@);
        }
        if same_name(&held[i], n) {
            return outs[i];
        }
    }
    Outcome::Null
}

/// Evaluates a request over the values of its column in the rows of a group.
pub fn report(request: &Request<String>, values: &Vec<Option<i64>>) -> (r: Outcome)
    ensures
        r@ == reported(request@, values@),
{
    let mut group: Vec<Accumulation<String>> = Vec::new();
    let mut set: Vec<Projection<String>> = Vec::new();
    let mut held: Vec<Name<String>> = Vec::new();
    assert(accumulations(group@) =~= Seq::empty());
    assert(projections(set@) =~= Seq::empty());
    assert(names(held@) =~= Seq::empty());
    insert_group_set_unset_for_aggregate(request, &mut group, &mut set, &mut held);
    let ghost accs = request@.accumulations();
    assert(accumulations(group@) =~= accs);
    assert(projections(set@) =~= seq![request@.projection()]);
    assert(names(held@) =~= accs.map_values(|a: Accumulation<Seq<char>>| name_of(a)));
    assert(projections(set@).len() == set@.len());
    assert(projections(set@)[0] == set@[0]@);
    let mut outs: Vec<Outcome> = Vec::new();
    let mut i: usize = 0;
    while i < group.len()
        invariant
            i <= group.len(),
            accs == accumulations(group@),
            outs@.len() == i,
            forall|j: int|
                0 <= j < i ==> (#[trigger] outs@[j])@ == accumulated(accs[j].accumulator, values@),
        decreases group.len() - i,
    {
        assert(accs[i as int] == group@[i as int]@);
        outs.push(accumulate(&group[i].accumulator, values));
        i += 1;
    }
    assert(outcomes(outs@) =~= accs.map_values(
        |a: Accumulation<Seq<char>>| accumulated(a.accumulator, values@),
    ));
    assert(held@.len() == names(held@).len());
    match &set[0].source {
        Source::KeyPart(_) => Outcome::Null,
        Source::Copy(n) => find(&held, &outs, n),
        Source::NullIfZero { counter, value } => {
            match find(&held, &outs, counter) {
                Outcome::Number(0) => Outcome::Null,
                _ => find(&held, &outs, value),
            }
        },
    }
}

/// A sum, and an average, over a group in which every value is null reports null: never
/// zero.
pub proof fn lemma_sum_of_nulls_is_null(r: Request<Seq<char>>, vs: Seq<Option<i64>>)
    requires
        r.kind == AggregateKind::Sum || r.kind == AggregateKind::Avg,
        r.column.is_some(),
        forall|i: int| 0 <= i < vs.len() ==> (#[trigger] vs[i]).is_none(),
    ensures
        reported(r, vs) == OutcomeSpec::Null,
{
    lemma_none_present(vs);
    lemma_reported(r, vs);
}

/// A count of a field reports the number of rows whose value is not null; a count of all
/// rows reports the number of rows, null or not.
pub proof fn lemma_count_counts(r: Request<Seq<char>>, vs: Seq<Option<i64>>)
    requires
        r.kind == AggregateKind::Count,
    ensures
        r.column.is_some() ==> reported(r, vs) == OutcomeSpec::Number(present(vs).len() as int),
        r.column.is_none() ==> reported(r, vs) == OutcomeSpec::Number(vs.len() as int),
{
    lemma_reported(r, vs);
}

/// What each kind of request reports. A counted request reports null where no value is
/// present and the accumulated value elsewhere; the others report what they accumulate.
pub proof fn lemma_reported(r: Request<Seq<char>>, vs: Seq<Option<i64>>)
    ensures
        reported(r, vs) == match r.column {
            None => OutcomeSpec::Number(vs.len() as int),
            Some(c) => if r.kind == AggregateKind::Count {
                OutcomeSpec::Number(present(vs).len() as int)
            } else if r.kind.spec_tracks_counter() && present(vs).len() == 0 {
                OutcomeSpec::Null
            } else {
                accumulated(Accumulator::Fold(r.kind, c), vs)
            },
        },
{
    reveal_with_fuel(found, 3);
    let accs = r.accumulations();
    let held = accs.map_values(|a: Accumulation<Seq<char>>| name_of(a));
    let outs = accs.map_values(|a: Accumulation<Seq<char>>| accumulated(a.accumulator, vs));
    if r.counted() {
        assert(held.drop_last().len() == 1);
        assert(outs.drop_last().len() == 1);
        assert(held.last() == r.counter_name());
        assert(held.drop_last().last() == r.value_name());
        assert(r.counter_name() != r.value_name());
        assert(found(held, outs, r.counter_name()) == outs[1]);
        assert(found(held, outs, r.value_name()) == outs[0]);
    } else {
        assert(held.last() == r.value_name());
        assert(found(held, outs, r.value_name()) == outs[0]);
    }
}

} // verus!
