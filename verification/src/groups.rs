//! The reference evaluation of an aggregation over rows held in memory: the groups of the
//! rows, the results of each group and the filter on groups.
//!
//! A row is a list of values, one per field of the model, in the order of the fields. A value
//! is a whole number or null.

use vstd::prelude::*;
use crate::aggregate::{
    aggregates, havings, havings_of, keys, requests, requests_within, resolution,
    resolve_aggregation, texts_of, Aggregate, Having, Key, Matcher, Request, Resolution,
    ResolutionSpec,
};
use crate::error::{ErrorKind, ErrorSpec};
use crate::evaluate::{outcomes, report, reported, Outcome, OutcomeSpec};
use crate::field::FieldSpec;
use crate::model::Model;
use crate::order::{keyed, lemma_sorted_groups, sort_groups, sorted_groups};
use crate::predicate::Comparison;

verus! {

/// Whether a number compares to another as the operator says.
pub open spec fn compares(op: Comparison, a: int, b: int) -> bool {
    match op {
        Comparison::Eq => a == b,
        Comparison::Ne => a != b,
        Comparison::Gt => a > b,
        Comparison::Gte => a >= b,
        Comparison::Lt => a < b,
        Comparison::Lte => a <= b,
    }
}

/// Whether an outcome meets a matcher. Null meets none. A quotient meets a matcher where its
/// sum compares to the matcher's number times its count.
pub open spec fn meets(m: Matcher, o: OutcomeSpec) -> bool {
    match o {
        OutcomeSpec::Null => false,
        OutcomeSpec::Number(n) => compares(m.op, n, m.value as int),
        OutcomeSpec::Ratio { sum, count } => compares(m.op, sum, m.value * count),
    }
}

/// Whether a number compares to another as the operator says.
pub fn compare(op: Comparison, a: i128, b: i128) -> (r: bool)
    ensures
        r == compares(op, a as int, b as int),
{
    match op {
        Comparison::Eq => a == b,
        Comparison::Ne => a != b,
        Comparison::Gt => a > b,
        Comparison::Gte => a >= b,
        Comparison::Lt => a < b,
        Comparison::Lte => a <= b,
    }
}

/// Whether an outcome meets a matcher.
pub fn satisfies(m: &Matcher, o: &Outcome) -> (r: bool)
    ensures
        r == meets(*m, o@),
{
    match o {
        Outcome::Null => false,
        Outcome::Number(n) => compare(m.op, *n, m.value as i128),
        Outcome::Ratio { sum, count } => {
            let v: i128 = m.value as i128;
            let c: i128 = *count as i128;
            assert(-0x8000_0000_0000_0000 * 0xffff_ffff_ffff_ffff <= v * c <= 0x8000_0000_0000_0000
                * 0xffff_ffff_ffff_ffff) by (nonlinear_arith)
                requires
                    -0x8000_0000_0000_0000 <= v <= 0x8000_0000_0000_0000,
                    0 <= c <= 0xffff_ffff_ffff_ffff,
            ;
            compare(m.op, *sum, v * c)
        },
    }
}

/// A group of rows: the values of its key, the outcomes that serve the filter on groups, one
/// per condition, and its results, one per requested aggregate.
#[derive(Clone, Debug, PartialEq, Eq)]
pub struct GroupRow {
    pub key: Vec<Option<i64>>,
    pub private: Vec<Outcome>,
    pub results: Vec<Outcome>,
}

/// A group, as plain values.
pub struct GroupSpec {
    pub key: Seq<Option<i64>>,
    pub private: Seq<OutcomeSpec>,
    pub results: Seq<OutcomeSpec>,
}

impl View for GroupRow {
    type V = GroupSpec;

    open spec fn view(&self) -> GroupSpec {
        GroupSpec {
            key: self.key@,
            private: outcomes(self.private@),
            results: outcomes(self.results@),
        }
    }
}

/// The views of a list of groups.
pub open spec fn group_specs(v: Seq<GroupRow>) -> Seq<GroupSpec> {
    v.map_values(|g: GroupRow| g@)
}

/// Whether outcomes meet the conditions of a filter, one for one.
pub open spec fn meets_all(entries: Seq<Having<Seq<char>>>, outs: Seq<OutcomeSpec>) -> bool {
    outs.len() == entries.len() && forall|j: int|
        0 <= j < entries.len() ==> meets((#[trigger] entries[j]).matcher, outs[j])
}

/// The groups that meet the filter, in order.
pub open spec fn kept(groups: Seq<GroupSpec>, entries: Seq<Having<Seq<char>>>) -> Seq<GroupSpec>
    decreases groups.len(),
{
    if groups.len() == 0 {
        Seq::empty()
    } else if meets_all(entries, groups.last().private) {
        kept(groups.drop_last(), entries).push(groups.last())
    } else {
        kept(groups.drop_last(), entries)
    }
}

/// Whether outcomes meet the conditions of a filter, one for one.
pub fn passes(entries: &Vec<Having<String>>, outs: &Vec<Outcome>) -> (r: bool)
    ensures
        r == meets_all(havings(entries@), outcomes(outs@)),
{
    if outs.len() != entries.len() {
        return false;
    }
    let mut j: usize = 0;
    while j < entries.len()
        invariant
            j <= entries.len(),
            outs@.len() == entries@.len(),
            forall|k: int|
                0 <= k < j ==> meets(
                    (#[trigger] havings(entries@)[k]).matcher,
                    outcomes(outs@)[k],
                ),
        decreases entries.len() - j,
    {
        assert(havings(entries@)[j as int] == entries@[j as int]@);
        assert(outcomes(outs@)[j as int] == outs@[j as int]@);
        if !satisfies(&entries[j].matcher, &outs[j]) {
            return false;
        }
        j += 1;
    }
    true
}

/// Filters groups by the conditions of a filter on groups, each judged by the group's own
/// private outcomes. No group is added: the result is never longer than what was given, and
/// every group in it meets every condition.
pub fn having_filter(groups: &Vec<GroupRow>, entries: &Vec<Having<String>>) -> (r: Vec<GroupRow>)
    ensures
        group_specs(r@) == kept(group_specs(groups@), havings(entries@)),
        r@.len() <= groups@.len(),
        forall|g: int|
            0 <= g < r@.len() ==> meets_all(havings(entries@), (#[trigger] r@[g])@.private),
{
    let ghost all = group_specs(groups@);
    let mut out: Vec<GroupRow> = Vec::new();
    let mut i: usize = 0;
    assert(all.take(0) =~= Seq::empty());
    assert(group_specs(out@) =~= Seq::empty());
    while i < groups.len()
        invariant
            i <= groups.len(),
            all == group_specs(groups@),
            group_specs(out@) == kept(all.take(i as int), havings(entries@)),
            out@.len() <= i,
            forall|g: int|
                0 <= g < out@.len() ==> meets_all(havings(entries@), (#[trigger] out@[g])@.private),
        decreases groups.len() - i,
    {
        proof {
            assert(all.take(i + 1).drop_last() =~= all.take(i as int));
            assert(all.take(i + 1).last() == groups@[i as int]@);
        }
        if passes(entries, &groups[i].private) {
            let g = copy_group(&groups[i]);
            let ghost before = out@;
            out.push(g);
            assert(group_specs(out@) =~= group_specs(before).push(g@));
        }
        i += 1;
    }
    assert(all.take(i as int) =~= all);
    out
}

/// A copy of a list of values.
pub fn copy_values(v: &Vec<Option<i64>>) -> (r: Vec<Option<i64>>)
    ensures
        r@ == v@,
{
    let mut out: Vec<Option<i64>> = Vec::new();
    let mut i: usize = 0;
    while i < v.len()
        invariant
            i <= v.len(),
            out@ =~= v@.take(i as int),
        decreases v.len() - i,
    {
        out.push(v[i]);
        i += 1;
    }
    assert(v@.take(i as int) =~= v@);
    out
}

/// A copy of a list of outcomes.
pub fn copy_outcomes(v: &Vec<Outcome>) -> (r: Vec<Outcome>)
    ensures
        r@ == v@,
{
    let mut out: Vec<Outcome> = Vec::new();
    let mut i: usize = 0;
    while i < v.len()
        invariant
            i <= v.len(),
            out@ =~= v@.take(i as int),
        decreases v.len() - i,
    {
        out.push(v[i]);
        i += 1;
    }
    assert(v@.take(i as int) =~= v@);
    out
}

/// A copy of a group.
pub fn copy_group(g: &GroupRow) -> (r: GroupRow)
    ensures
        r@ == g@,
{
    GroupRow {
        key: copy_values(&g.key),
        private: copy_outcomes(&g.private),
        results: copy_outcomes(&g.results),
    }
}

/// The views of a list of rows.
pub open spec fn table(rows: Seq<Vec<Option<i64>>>) -> Seq<Seq<Option<i64>>> {
    rows.map_values(|r: Vec<Option<i64>>| r@)
}

/// Whether every row holds `width` values.
pub open spec fn shaped(t: Seq<Seq<Option<i64>>>, width: nat) -> bool {
    forall|i: int| 0 <= i < t.len() ==> (#[trigger] t[i]).len() == width
}

/// The key of a row: its values at the positions of the group keys. A null value is a key
/// value like any other.
pub open spec fn key_at(row: Seq<Option<i64>>, ks: Seq<Key<Seq<char>>>) -> Seq<Option<i64>> {
    ks.map_values(|k: Key<Seq<char>>| row[k.slot as int])
}

/// The value of a row at a position; null where no position is given.
pub open spec fn value_at(row: Seq<Option<i64>>, slot: Option<usize>) -> Option<i64> {
    match slot {
        Some(p) => row[p as int],
        None => None,
    }
}

/// The values at a position in the rows of the group with the given key, one per row.
pub open spec fn group_values(
    t: Seq<Seq<Option<i64>>>,
    ks: Seq<Key<Seq<char>>>,
    key: Seq<Option<i64>>,
    slot: Option<usize>,
) -> Seq<Option<i64>>
    decreases t.len(),
{
    if t.len() == 0 {
        Seq::empty()
    } else if key_at(t.last(), ks) == key {
        group_values(t.drop_last(), ks, key, slot).push(value_at(t.last(), slot))
    } else {
        group_values(t.drop_last(), ks, key, slot)
    }
}

/// The keys of the rows, each once, in the order in which they first occur.
pub open spec fn distinct_keys(t: Seq<Seq<Option<i64>>>, ks: Seq<Key<Seq<char>>>) -> Seq<
    Seq<Option<i64>>,
>
    decreases t.len(),
{
    if t.len() == 0 {
        Seq::empty()
    } else {
        let rest = distinct_keys(t.drop_last(), ks);
        if rest.contains(key_at(t.last(), ks)) {
            rest
        } else {
            rest.push(key_at(t.last(), ks))
        }
    }
}

/// What the requests report of the group with the given key, one outcome per request.
pub open spec fn group_outcomes(
    t: Seq<Seq<Option<i64>>>,
    ks: Seq<Key<Seq<char>>>,
    key: Seq<Option<i64>>,
    reqs: Seq<Request<Seq<char>>>,
) -> Seq<OutcomeSpec> {
    reqs.map_values(|r: Request<Seq<char>>| reported(r, group_values(t, ks, key, r.slot)))
}

/// The group with the given key.
pub open spec fn group_of(t: Seq<Seq<Option<i64>>>, x: ResolutionSpec, key: Seq<Option<i64>>) -> GroupSpec {
    GroupSpec {
        key,
        private: group_outcomes(t, x.keys, key, x.private),
        results: group_outcomes(t, x.keys, key, x.public),
    }
}

/// The groups of the rows, in the order in which their keys first occur.
pub open spec fn grouped(t: Seq<Seq<Option<i64>>>, x: ResolutionSpec) -> Seq<GroupSpec> {
    distinct_keys(t, x.keys).map_values(|k: Seq<Option<i64>>| group_of(t, x, k))
}

/// A group without the outcomes that served the filter.
pub open spec fn published(g: GroupSpec) -> GroupSpec {
    GroupSpec { key: g.key, private: Seq::empty(), results: g.results }
}

/// The groups of the rows that meet the filter on groups, each with its key and its results,
/// in the order in which their keys first occur.
pub open spec fn surviving(
    t: Seq<Seq<Option<i64>>>,
    x: ResolutionSpec,
    filter: Option<Seq<Having<Seq<char>>>>,
) -> Seq<GroupSpec> {
    match filter {
        Some(entries) => kept(grouped(t, x), entries),
        None => grouped(t, x),
    }.map_values(|g: GroupSpec| published(g))
}

/// The result of an aggregation over the rows: the groups of the rows that meet the filter
/// on groups, each with its key and its results, in the order of their keys; or why the
/// aggregation is refused.
pub open spec fn aggregation_result(
    fields: Seq<FieldSpec>,
    by: Option<Seq<Seq<char>>>,
    wanted: Seq<Aggregate<Seq<char>>>,
    filter: Option<Seq<Having<Seq<char>>>>,
    t: Seq<Seq<Option<i64>>>,
) -> Result<Seq<GroupSpec>, ErrorSpec> {
    match resolution(fields, by, wanted, filter) {
        Err(e) => Err(e),
        Ok(x) => Ok(sorted_groups(surviving(t, x, filter))),
    }
}

/// Every key of the rows has one component per group key.
pub proof fn lemma_distinct_keys(t: Seq<Seq<Option<i64>>>, ks: Seq<Key<Seq<char>>>)
    ensures
        forall|i: int|
            0 <= i < distinct_keys(t, ks).len() ==> (#[trigger] distinct_keys(t, ks)[i]).len()
                == ks.len(),
    decreases t.len(),
{
    if t.len() > 0 {
        let rest = distinct_keys(t.drop_last(), ks);
        lemma_distinct_keys(t.drop_last(), ks);
        assert forall|i: int| 0 <= i < distinct_keys(t, ks).len() implies (
        #[trigger] distinct_keys(t, ks)[i]).len() == ks.len() by {
            if i < rest.len() {
                assert(distinct_keys(t, ks)[i] == rest[i]);
            } else {
                assert(distinct_keys(t, ks)[i] == key_at(t.last(), ks));
            }
        }
    }
}

/// Every surviving group has a key of one component per group key.
pub proof fn lemma_surviving_keyed(
    t: Seq<Seq<Option<i64>>>,
    x: ResolutionSpec,
    filter: Option<Seq<Having<Seq<char>>>>,
)
    ensures
        keyed(grouped(t, x), x.keys.len()),
        keyed(surviving(t, x, filter), x.keys.len()),
{
    lemma_distinct_keys(t, x.keys);
    let all = grouped(t, x);
    assert(keyed(all, x.keys.len())) by {
        assert forall|i: int| 0 <= i < all.len() implies (#[trigger] all[i]).key.len()
            == x.keys.len() by {
            assert(all[i].key == distinct_keys(t, x.keys)[i]);
        }
    }
    match filter {
        Some(entries) => {
            lemma_kept(all, entries);
            let some = kept(all, entries);
            assert forall|i: int| 0 <= i < surviving(t, x, filter).len() implies (
            #[trigger] surviving(t, x, filter)[i]).key.len() == x.keys.len() by {
                let k = some[i];
                assert(all.contains(k));
                let u = choose|u: int| 0 <= u < all.len() && all[u] == k;
                assert(all[u].key.len() == x.keys.len());
            }
        },
        None => {
            assert forall|i: int| 0 <= i < surviving(t, x, filter).len() implies (
            #[trigger] surviving(t, x, filter)[i]).key.len() == x.keys.len() by {
                assert(all[i].key.len() == x.keys.len());
            }
        },
    }
}

/// Whether every row holds `width` values.
pub fn shaped_rows(rows: &Vec<Vec<Option<i64>>>, width: usize) -> (r: bool)
    ensures
        r == shaped(table(rows@), width as nat),
{
    let mut i: usize = 0;
    while i < rows.len()
        invariant
            i <= rows.len(),
            forall|j: int| 0 <= j < i ==> (#[trigger] table(rows@)[j]).len() == width,
        decreases rows.len() - i,
    {
        assert(table(rows@)[i as int] == rows@[i as int]@);
        if rows[i].len() != width {
            return false;
        }
        i += 1;
    }
    assert(table(rows@).len() == rows@.len());
    true
}

/// Whether two lists hold the same values.
pub fn same_values(a: &Vec<Option<i64>>, b: &Vec<Option<i64>>) -> (r: bool)
    ensures
        r == (a@ == b@),
{
    if a.len() != b.len() {
        return false;
    }
    let mut i: usize = 0;
    while i < a.len()
        invariant
            i <= a.len(),
            a@.len() == b@.len(),
            forall|j: int| 0 <= j < i ==> a@[j] == b@[j],
        decreases a.len() - i,
    {
        let same = match (a[i], b[i]) {
            (Some(x), Some(y)) => x == y,
            (None, None) => true,
            _ => false,
        };
        if !same {
            return false;
        }
        i += 1;
    }
    assert(a@ =~= b@);
    true
}

/// The key of a row.
pub fn key_of(row: &Vec<Option<i64>>, ks: &Vec<Key<String>>) -> (r: Vec<Option<i64>>)
    requires
        forall|i: int| 0 <= i < ks@.len() ==> (#[trigger] keys(ks@)[i]).slot < row@.len(),
    ensures
        r@ == key_at(row@, keys(ks@)),
{
    let mut out: Vec<Option<i64>> = Vec::new();
    let mut i: usize = 0;
    while i < ks.len()
        invariant
            i <= ks.len(),
            forall|i: int| 0 <= i < ks@.len() ==> (#[trigger] keys(ks@)[i]).slot < row@.len(),
            out@.len() == i,
            forall|j: int| 0 <= j < i ==> out@[j] == row@[(#[trigger] keys(ks@)[j]).slot as int],
        decreases ks.len() - i,
    {
        assert(keys(ks@)[i as int] == ks@[i as int]@);
        out.push(row[ks[i].slot]);
        i += 1;
    }
    assert(out@ =~= key_at(row@, keys(ks@)));
    out
}

/// Whether a key is among the keys.
pub fn contains_key(list: &Vec<Vec<Option<i64>>>, key: &Vec<Option<i64>>) -> (r: bool)
    ensures
        r == table(list@).contains(key@),
{
    let mut i: usize = 0;
    while i < list.len()
        invariant
            i <= list.len(),
            forall|j: int| 0 <= j < i ==> (#[trigger] table(list@)[j]) != key@,
        decreases list.len() - i,
    {
        assert(table(list@)[i as int] == list@[i as int]@);
        if same_values(&list[i], key) {
            return true;
        }
        i += 1;
    }
    assert(table(list@).len() == list@.len());
    false
}

/// The keys of the rows, each once, in the order in which they first occur.
pub fn keys_of_rows(rows: &Vec<Vec<Option<i64>>>, ks: &Vec<Key<String>>) -> (r: Vec<
    Vec<Option<i64>>,
>)
    requires
        forall|i: int, j: int|
            0 <= i < ks@.len() && 0 <= j < rows@.len() ==> (#[trigger] keys(ks@)[i]).slot < (
            #[trigger] rows@[j])@.len(),
    ensures
        table(r@) == distinct_keys(table(rows@), keys(ks@)),
{
    let ghost t = table(rows@);
    let mut out: Vec<Vec<Option<i64>>> = Vec::new();
    let mut i: usize = 0;
    assert(t.take(0) =~= Seq::empty());
    assert(table(out@) =~= Seq::empty());
    while i < rows.len()
        invariant
            i <= rows.len(),
            t == table(rows@),
            forall|i: int, j: int|
                0 <= i < ks@.len() && 0 <= j < rows@.len() ==> (#[trigger] keys(ks@)[i]).slot < (
                #[trigger] rows@[j])@.len(),
            table(out@) == distinct_keys(t.take(i as int), keys(ks@)),
        decreases rows.len() - i,
    {
        proof {
            assert(t.take(i + 1).drop_last() =~= t.take(i as int));
            assert(t.take(i + 1).last() == rows@[i as int]@);
        }
        let key = key_of(&rows[i], ks);
        if !contains_key(&out, &key) {
            let ghost before = out@;
            out.push(key);
            assert(table(out@) =~= table(before).push(key@));
        }
        i += 1;
    }
    assert(t.take(i as int) =~= t);
    out
}

/// The values at a position in the rows of the group with the given key.
pub fn collect(
    rows: &Vec<Vec<Option<i64>>>,
    ks: &Vec<Key<String>>,
    key: &Vec<Option<i64>>,
    slot: Option<usize>,
) -> (r: Vec<Option<i64>>)
    requires
        forall|i: int, j: int|
            0 <= i < ks@.len() && 0 <= j < rows@.len() ==> (#[trigger] keys(ks@)[i]).slot < (
            #[trigger] rows@[j])@.len(),
        slot.is_some() ==> forall|j: int|
            0 <= j < rows@.len() ==> slot.unwrap() < (#[trigger] rows@[j])@.len(),
    ensures
        r@ == group_values(table(rows@), keys(ks@), key@, slot),
{
    let ghost t = table(rows@);
    let mut out: Vec<Option<i64>> = Vec::new();
    let mut i: usize = 0;
    assert(t.take(0) =~= Seq::empty());
    while i < rows.len()
        invariant
            i <= rows.len(),
            t == table(rows@),
            forall|i: int, j: int|
                0 <= i < ks@.len() && 0 <= j < rows@.len() ==> (#[trigger] keys(ks@)[i]).slot < (
                #[trigger] rows@[j])@.len(),
            slot.is_some() ==> forall|j: int|
                0 <= j < rows@.len() ==> slot.unwrap() < (#[trigger] rows@[j])@.len(),
            out@ == group_values(t.take(i as int), keys(ks@), key@, slot),
        decreases rows.len() - i,
    {
        proof {
            assert(t.take(i + 1).drop_last() =~= t.take(i as int));
            assert(t.take(i + 1).last() == rows@[i as int]@);
        }
        let row = &rows[i];
        let row_key = key_of(row, ks);
        if same_values(&row_key, key) {
            let value = match slot {
                Some(p) => row[p],
                None => None,
            };
            out.push(value);
        }
        i += 1;
    }
    assert(t.take(i as int) =~= t);
    out
}

/// What the requests report of the group with the given key.
pub fn outcomes_of(
    rows: &Vec<Vec<Option<i64>>>,
    ks: &Vec<Key<String>>,
    key: &Vec<Option<i64>>,
    reqs: &Vec<Request<String>>,
) -> (r: Vec<Outcome>)
    requires
        forall|i: int, j: int|
            0 <= i < ks@.len() && 0 <= j < rows@.len() ==> (#[trigger] keys(ks@)[i]).slot < (
            #[trigger] rows@[j])@.len(),
        forall|i: int, j: int|
            0 <= i < reqs@.len() && 0 <= j < rows@.len() ==> ((#[trigger] requests(
                reqs@,
            )[i]).slot.is_some() ==> requests(reqs@)[i].slot.unwrap() < (#[trigger] rows@[j])@.len()),
    ensures
        outcomes(r@) == group_outcomes(table(rows@), keys(ks@), key@, requests(reqs@)),
{
    let mut out: Vec<Outcome> = Vec::new();
    let mut i: usize = 0;
    while i < reqs.len()
        invariant
            i <= reqs.len(),
            forall|i: int, j: int|
                0 <= i < ks@.len() && 0 <= j < rows@.len() ==> (#[trigger] keys(ks@)[i]).slot < (
                #[trigger] rows@[j])@.len(),
            forall|i: int, j: int|
                0 <= i < reqs@.len() && 0 <= j < rows@.len() ==> ((#[trigger] requests(
                    reqs@,
                )[i]).slot.is_some() ==> requests(reqs@)[i].slot.unwrap() < (
                #[trigger] rows@[j])@.len()),
            out@.len() == i,
            forall|j: int|
                0 <= j < i ==> (#[trigger] out@[j])@ == reported(
                    requests(reqs@)[j],
                    group_values(table(rows@), keys(ks@), key@, requests(reqs@)[j].slot),
                ),
        decreases reqs.len() - i,
    {
        assert(requests(reqs@)[i as int] == reqs@[i as int]@);
        let values = collect(rows, ks, key, reqs[i].slot);
        out.push(report(&reqs[i], &values));
        i += 1;
    }
    assert(outcomes(out@) =~= group_outcomes(table(rows@), keys(ks@), key@, requests(reqs@)));
    out
}

/// The groups of the rows, in the order in which their keys first occur, each with the
/// outcomes of the private and of the public requests.
pub fn group_rows(rows: &Vec<Vec<Option<i64>>>, x: &Resolution, width: usize) -> (r: Vec<GroupRow>)
    requires
        shaped(table(rows@), width as nat),
        x@.within(width as nat),
    ensures
        group_specs(r@) == grouped(table(rows@), x@),
{
    assert(x@.keys == keys(x.keys@));
    assert(x@.private == requests(x.private@));
    assert(x@.public == requests(x.public@));
    assert forall|i: int, j: int| 0 <= i < x.keys@.len() && 0 <= j < rows@.len() implies (
    #[trigger] keys(x.keys@)[i]).slot < (#[trigger] rows@[j])@.len() by {
        assert(table(rows@)[j] == rows@[j]@);
        assert(x@.keys[i].slot < width);
    }
    assert forall|i: int, j: int| 0 <= i < x.private@.len() && 0 <= j < rows@.len() implies ((
    #[trigger] requests(x.private@)[i]).slot.is_some() ==> requests(x.private@)[i].slot.unwrap() < (
    #[trigger] rows@[j])@.len()) by {
        assert(table(rows@)[j] == rows@[j]@);
    }
    assert forall|i: int, j: int| 0 <= i < x.public@.len() && 0 <= j < rows@.len() implies ((
    #[trigger] requests(x.public@)[i]).slot.is_some() ==> requests(x.public@)[i].slot.unwrap() < (
    #[trigger] rows@[j])@.len()) by {
        assert(table(rows@)[j] == rows@[j]@);
    }
    let found = keys_of_rows(rows, &x.keys);
    let ghost t = table(rows@);
    let mut out: Vec<GroupRow> = Vec::new();
    let mut i: usize = 0;
    while i < found.len()
        invariant
            i <= found.len(),
            t == table(rows@),
            table(found@) == distinct_keys(t, x@.keys),
            forall|i: int, j: int|
                0 <= i < x.keys@.len() && 0 <= j < rows@.len() ==> (#[trigger] keys(
                    x.keys@,
                )[i]).slot < (#[trigger] rows@[j])@.len(),
            forall|i: int, j: int|
                0 <= i < x.private@.len() && 0 <= j < rows@.len() ==> ((#[trigger] requests(
                    x.private@,
                )[i]).slot.is_some() ==> requests(x.private@)[i].slot.unwrap() < (
                #[trigger] rows@[j])@.len()),
            forall|i: int, j: int|
                0 <= i < x.public@.len() && 0 <= j < rows@.len() ==> ((#[trigger] requests(
                    x.public@,
                )[i]).slot.is_some() ==> requests(x.public@)[i].slot.unwrap() < (
                #[trigger] rows@[j])@.len()),
            out@.len() == i,
            forall|g: int| 0 <= g < i ==> (#[trigger] out@[g])@ == group_of(t, x@, found@[g]@),
        decreases found.len() - i,
    {
        let key = &found[i];
        let private = outcomes_of(rows, &x.keys, key, &x.private);
        let results = outcomes_of(rows, &x.keys, key, &x.public);
        out.push(GroupRow { key: copy_values(key), private, results });
        i += 1;
    }
    assert(group_specs(out@) =~= grouped(t, x@)) by {
        assert(table(found@).len() == found@.len());
        assert forall|g: int| 0 <= g < out@.len() implies group_specs(out@)[g] == grouped(
            t,
            x@,
        )[g] by {
            assert(table(found@)[g] == found@[g]@);
        }
    }
    out
}

/// The groups without the outcomes that served the filter.
pub fn publish(groups: &Vec<GroupRow>) -> (r: Vec<GroupRow>)
    ensures
        group_specs(r@) == group_specs(groups@).map_values(|g: GroupSpec| published(g)),
{
    let mut out: Vec<GroupRow> = Vec::new();
    let mut i: usize = 0;
    while i < groups.len()
        invariant
            i <= groups.len(),
            out@.len() == i,
            forall|g: int| 0 <= g < i ==> (#[trigger] out@[g])@ == published(groups@[g]@),
        decreases groups.len() - i,
    {
        let g = &groups[i];
        let private: Vec<Outcome> = Vec::new();
        assert(outcomes(private@) =~= Seq::empty());
        out.push(GroupRow { key: copy_values(&g.key), private, results: copy_outcomes(&g.results) });
        i += 1;
    }
    assert(group_specs(out@) =~= group_specs(groups@).map_values(|g: GroupSpec| published(g)));
    out
}

/// Runs an aggregation over rows held in memory, as the plan of the aggregation does: the
/// rows are grouped by their key, the aggregates are computed of each group, the groups that
/// do not meet the filter on groups are dropped, and the groups are sorted by their keys.
///
/// Refuses what `plan_aggregation` refuses.
pub fn run_aggregation(
    model: &Model,
    by: &Option<Vec<String>>,
    wanted: &Vec<Aggregate<String>>,
    filter: &Option<Vec<Having<String>>>,
    rows: &Vec<Vec<Option<i64>>>,
) -> (r: Result<Vec<GroupRow>, ErrorKind>)
    requires
        shaped(table(rows@), model@.fields.len()),
    ensures
        match r {
            Ok(groups) => aggregation_result(
                model@.fields,
                texts_of(*by),
                aggregates(wanted@),
                havings_of(*filter),
                table(rows@),
            ) == Ok::<Seq<GroupSpec>, ErrorSpec>(group_specs(groups@)),
            Err(e) => aggregation_result(
                model@.fields,
                texts_of(*by),
                aggregates(wanted@),
                havings_of(*filter),
                table(rows@),
            ) == Err::<Seq<GroupSpec>, ErrorSpec>(e@),
        },
{
    match resolve_aggregation(model, by, wanted, filter) {
        Err(e) => Err(e),
        Ok(x) => {
            let width = model.fields().len();
            let groups = group_rows(rows, &x, width);
            let survivors = match filter {
                Some(entries) => {
                    let passed = having_filter(&groups, entries);
                    publish(&passed)
                },
                None => publish(&groups),
            };
            proof {
                lemma_surviving_keyed(table(rows@), x@, havings_of(*filter));
                assert(x@.keys.len() == x.keys@.len());
            }
            Ok(sort_groups(&survivors, x.keys.len()))
        },
    }
}

/// The filter on groups only drops groups: what is kept is no longer than what was given,
/// and every kept group was given and meets every condition.
pub proof fn lemma_kept(groups: Seq<GroupSpec>, entries: Seq<Having<Seq<char>>>)
    ensures
        kept(groups, entries).len() <= groups.len(),
        forall|g: int|
            0 <= g < kept(groups, entries).len() ==> {
                let k = #[trigger] kept(groups, entries)[g];
                meets_all(entries, k.private) && groups.contains(k)
            },
    decreases groups.len(),
{
    if groups.len() > 0 {
        let rest = groups.drop_last();
        lemma_kept(rest, entries);
        assert forall|g: int| 0 <= g < kept(groups, entries).len() implies {
            let k = #[trigger] kept(groups, entries)[g];
            meets_all(entries, k.private) && groups.contains(k)
        } by {
            let k = kept(groups, entries)[g];
            if g < kept(rest, entries).len() {
                assert(k == kept(rest, entries)[g]);
                let j = choose|j: int| 0 <= j < rest.len() && rest[j] == k;
                assert(groups[j] == k);
            } else {
                assert(groups[groups.len() - 1] == k);
            }
        }
    }
}

/// A filter on groups never adds a group, and every group that it lets through strictly
/// meets every condition, judged by the group's own private outcomes: the result with the
/// filter is no longer than the result without it, and each of its groups is a group of the
/// rows, found in the result without the filter, whose private outcomes meet the filter.
pub proof fn lemma_filter_only_drops(
    fields: Seq<FieldSpec>,
    by: Option<Seq<Seq<char>>>,
    wanted: Seq<Aggregate<Seq<char>>>,
    entries: Seq<Having<Seq<char>>>,
    t: Seq<Seq<Option<i64>>>,
)
    requires
        aggregation_result(fields, by, wanted, Some(entries), t) is Ok,
    ensures
        aggregation_result(fields, by, wanted, None, t) is Ok,
        aggregation_result(fields, by, wanted, Some(entries), t)->Ok_0.len()
            <= aggregation_result(fields, by, wanted, None, t)->Ok_0.len(),
        forall|g: int|
            0 <= g < aggregation_result(fields, by, wanted, Some(entries), t)->Ok_0.len() ==> {
                let survivor = #[trigger] aggregation_result(
                    fields,
                    by,
                    wanted,
                    Some(entries),
                    t,
                )->Ok_0[g];
                let x = resolution(fields, by, wanted, Some(entries))->Ok_0;
                &&& aggregation_result(fields, by, wanted, None, t)->Ok_0.contains(survivor)
                &&& exists|u: int|
                    0 <= u < grouped(t, x).len() && survivor == published(
                        #[trigger] grouped(t, x)[u],
                    ) && meets_all(entries, grouped(t, x)[u].private)
            },
{
    let x = resolution(fields, by, wanted, Some(entries))->Ok_0;
    assert(crate::aggregate::as_aggregates(Seq::<Having<Seq<char>>>::empty()) =~= Seq::empty());
    let y = resolution(fields, by, wanted, None)->Ok_0;
    assert(y.keys == x.keys && y.public == x.public);
    let with = kept(grouped(t, x), entries);
    let some = surviving(t, x, Some(entries));
    let every = surviving(t, y, None);
    let filtered = aggregation_result(fields, by, wanted, Some(entries), t)->Ok_0;
    let all = aggregation_result(fields, by, wanted, None, t)->Ok_0;
    lemma_kept(grouped(t, x), entries);
    lemma_surviving_keyed(t, x, Some(entries));
    lemma_surviving_keyed(t, y, None);
    lemma_sorted_groups(some, x.keys.len());
    lemma_sorted_groups(every, x.keys.len());
    assert(every.len() == grouped(t, x).len());
    assert forall|g: int| 0 <= g < filtered.len() implies {
        let survivor = #[trigger] filtered[g];
        &&& all.contains(survivor)
        &&& exists|u: int|
            0 <= u < grouped(t, x).len() && survivor == published(#[trigger] grouped(t, x)[u])
                && meets_all(entries, grouped(t, x)[u].private)
    } by {
        let survivor = filtered[g];
        assert(filtered.contains(survivor));
        assert(some.contains(survivor));
        let k = choose|k: int| 0 <= k < some.len() && some[k] == survivor;
        let kept_group = with[k];
        assert(grouped(t, x).contains(kept_group));
        let u = choose|u: int| 0 <= u < grouped(t, x).len() && grouped(t, x)[u] == kept_group;
        assert(survivor == published(grouped(t, x)[u]));
        assert(every[u] == published(grouped(t, y)[u]));
        assert(every[u] == survivor);
        assert(every.contains(survivor));
    }
}

} // verus!
