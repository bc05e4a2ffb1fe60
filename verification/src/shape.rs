//! What an aggregation leaves in its rows.
//!
//! Every name that the planner synthesizes is removed again before the last stage: the rows
//! of the result carry the logical names of the group keys and the public results, and
//! nothing else.

use vstd::prelude::*;
use crate::aggregate::{
    aggregation_plan, aggregation_stages, all_accumulations, all_projections, as_aggregates,
    key_projection, listed, name_of, private_results, resolved, resolved_all, resolved_keys,
    result_if, scaffold, uses, Aggregate, Having, Key, Request,
};
use crate::error::ErrorSpec;
use crate::field::FieldSpec;
use crate::name::{AggregateKind, Name};
use crate::plan::{final_shape, shape_after, Accumulation, Projection, StageSpec};

verus! {

/// Whether a name is the logical name of one of the group keys.
pub open spec fn is_key_field(by: Seq<Seq<char>>, n: Name<Seq<char>>) -> bool {
    exists|i: int| 0 <= i < by.len() && n == Name::<Seq<char>>::Field(#[trigger] by[i])
}

/// Whether a name is the public result of the kind of one of the aggregates.
pub open spec fn is_public_result(wanted: Seq<Aggregate<Seq<char>>>, n: Name<Seq<char>>) -> bool {
    exists|i: int|
        0 <= i < wanted.len() && n == (Name::<Seq<char>>::Result {
            private: false,
            kind: (#[trigger] wanted[i]).kind,
        })
}

/// Whether a name is one that only accumulators are given.
pub open spec fn is_accumulator_name(n: Name<Seq<char>>) -> bool {
    n is Value || n is Rows || n is Counter
}

/// A stage appended to a plan acts on the shape that the plan leaves.
pub proof fn lemma_shape_of_push(plan: Seq<StageSpec>, stage: StageSpec, source: Set<Name<Seq<char>>>)
    ensures
        final_shape(plan.push(stage), source) == shape_after(stage, final_shape(plan, source)),
{
    assert(plan.push(stage).drop_last() =~= plan);
}

/// The resolved keys carry the names that were asked for, one for one.
pub proof fn lemma_keys_keep_names(fields: Seq<FieldSpec>, by: Seq<Seq<char>>)
    requires
        resolved_keys(fields, by) is Ok,
    ensures
        resolved_keys(fields, by)->Ok_0.len() == by.len(),
        forall|i: int| 0 <= i < by.len() ==> (#[trigger] resolved_keys(fields, by)->Ok_0[i]).field == by[i],
    decreases by.len(),
{
    if by.len() > 0 {
        lemma_keys_keep_names(fields, by.drop_last());
    }
}

/// The resolved requests carry the kinds that were asked for, one for one, and the privacy
/// that they were resolved with.
pub proof fn lemma_requests_keep_kinds(
    fields: Seq<FieldSpec>,
    private: bool,
    items: Seq<Aggregate<Seq<char>>>,
)
    requires
        resolved_all(fields, private, items) is Ok,
    ensures
        resolved_all(fields, private, items)->Ok_0.len() == items.len(),
        forall|i: int|
            0 <= i < items.len() ==> {
                let r = #[trigger] resolved_all(fields, private, items)->Ok_0[i];
                r.kind == items[i].kind && r.private == private
            },
    decreases items.len(),
{
    if items.len() > 0 {
        lemma_requests_keep_kinds(fields, private, items.drop_last());
    }
}

/// Every name of the scaffold is an accumulator's name.
pub proof fn lemma_scaffold_names(reqs: Seq<Request<Seq<char>>>)
    ensures
        forall|j: int| 0 <= j < scaffold(reqs).len() ==> is_accumulator_name(#[trigger] scaffold(reqs)[j]),
    decreases reqs.len(),
{
    if reqs.len() > 0 {
        lemma_scaffold_names(reqs.drop_last());
        let head = all_accumulations(reqs.drop_last());
        let tail = reqs.last().accumulations();
        assert(scaffold(reqs) =~= scaffold(reqs.drop_last()) + tail.map_values(
            |a: Accumulation<Seq<char>>| name_of(a),
        ));
        assert forall|j: int| 0 <= j < scaffold(reqs).len() implies is_accumulator_name(
            #[trigger] scaffold(reqs)[j],
        ) by {
            if j >= head.len() {
                assert(scaffold(reqs)[j] == name_of(tail[j - head.len()]));
            } else {
                assert(scaffold(reqs)[j] == scaffold(reqs.drop_last())[j]);
            }
        }
    }
}

/// The private results listed for removal are those of the kinds in use.
pub proof fn lemma_private_results(reqs: Seq<Request<Seq<char>>>, n: Name<Seq<char>>)
    ensures
        private_results(reqs).contains(n) <==> exists|i: int|
            0 <= i < reqs.len() && n == (Name::<Seq<char>>::Result {
                private: true,
                kind: (#[trigger] reqs[i]).kind,
            }),
{
    let a = result_if(uses(reqs, AggregateKind::Count), AggregateKind::Count);
    let b = result_if(uses(reqs, AggregateKind::Sum), AggregateKind::Sum);
    let c = result_if(uses(reqs, AggregateKind::Avg), AggregateKind::Avg);
    let d = result_if(uses(reqs, AggregateKind::Min), AggregateKind::Min);
    let all = private_results(reqs);
    if all.contains(n) {
        let j = choose|j: int| 0 <= j < all.len() && all[j] == n;
        let k = n->Result_kind;
        assert(n == Name::<Seq<char>>::Result { private: true, kind: k });
        assert(uses(reqs, k));
        let i = choose|i: int| 0 <= i < reqs.len() && (#[trigger] reqs[i]).kind == k;
        assert(n == Name::<Seq<char>>::Result { private: true, kind: reqs[i].kind });
    }
    if exists|i: int|
        0 <= i < reqs.len() && n == (Name::<Seq<char>>::Result {
            private: true,
            kind: (#[trigger] reqs[i]).kind,
        }) {
        let i = choose|i: int|
            0 <= i < reqs.len() && n == (Name::<Seq<char>>::Result {
                private: true,
                kind: (#[trigger] reqs[i]).kind,
            });
        let k = reqs[i].kind;
        assert(uses(reqs, k));
        match k {
            AggregateKind::Count => {
                assert(all[0] == n);
            },
            AggregateKind::Sum => {
                assert(all[a.len() as int] == n);
            },
            AggregateKind::Avg => {
                assert(all[(a.len() + b.len()) as int] == n);
            },
            AggregateKind::Min => {
                assert(all[(a.len() + b.len() + c.len()) as int] == n);
            },
            AggregateKind::Max => {
                assert(all[(a.len() + b.len() + c.len() + d.len()) as int] == n);
            },
        }
    }
}

/// The shape that the stages of an aggregation leave, whatever the rows carried before:
/// a name remains exactly if it is the logical name of a key or the public result of a
/// request.
pub proof fn lemma_stages_shape(
    ks: Seq<Key<Seq<char>>>,
    filter: Option<Seq<Having<Seq<char>>>>,
    hs: Seq<Request<Seq<char>>>,
    rs: Seq<Request<Seq<char>>>,
    source: Set<Name<Seq<char>>>,
    n: Name<Seq<char>>,
)
    requires
        filter.is_none() ==> hs.len() == 0,
        forall|i: int| 0 <= i < hs.len() ==> (#[trigger] hs[i]).private,
        forall|i: int| 0 <= i < rs.len() ==> !(#[trigger] rs[i]).private,
    ensures
        final_shape(aggregation_stages(ks, filter, hs, rs), source).contains(n) <==> ((exists|
            i: int,
        |
            0 <= i < ks.len() && n == Name::<Seq<char>>::Field((#[trigger] ks[i]).field)) || (
        exists|i: int|
            0 <= i < rs.len() && n == (Name::<Seq<char>>::Result {
                private: false,
                kind: (#[trigger] rs[i]).kind,
            }))),
{
    let accs = all_accumulations(hs) + all_accumulations(rs);
    let targets = ks.map_values(|k: Key<Seq<char>>| key_projection(k)) + all_projections(hs)
        + all_projections(rs);
    let group = StageSpec::Group {
        key: ks.map_values(|k: Key<Seq<char>>| k.column),
        accumulators: accs,
    };
    let project = StageSpec::Project(targets);
    let empty = Seq::<StageSpec>::empty();
    let grouped = seq![group, project];
    assert(grouped =~= empty.push(group).push(project));
    lemma_shape_of_push(empty, group, source);
    lemma_shape_of_push(empty.push(group), project, source);
    let acc_names = accs.map_values(|a: Accumulation<Seq<char>>| a.name);
    let target_names = targets.map_values(|p: Projection<Seq<char>>| p.target);
    let s2 = final_shape(grouped, source);
    assert(s2 == acc_names.to_set().insert(Name::GroupKey).union(target_names.to_set()));
    assert(acc_names =~= scaffold(hs) + scaffold(rs));
    lemma_scaffold_names(hs);
    lemma_scaffold_names(rs);
    lemma_private_results(hs, n);

    let in_hs = scaffold(hs).contains(n);
    let in_rs = scaffold(rs).contains(n);
    let key_field = exists|i: int|
        0 <= i < ks.len() && n == Name::<Seq<char>>::Field((#[trigger] ks[i]).field);
    let private_result = exists|i: int|
        0 <= i < hs.len() && n == (Name::<Seq<char>>::Result {
            private: true,
            kind: (#[trigger] hs[i]).kind,
        });
    let public_result = exists|i: int|
        0 <= i < rs.len() && n == (Name::<Seq<char>>::Result {
            private: false,
            kind: (#[trigger] rs[i]).kind,
        });

    // the accumulators' names
    assert(acc_names.contains(n) <==> in_hs || in_rs) by {
        if acc_names.contains(n) {
            let j = choose|j: int| 0 <= j < acc_names.len() && acc_names[j] == n;
            if j < scaffold(hs).len() {
                assert(scaffold(hs)[j] == n);
            } else {
                assert(scaffold(rs)[j - scaffold(hs).len()] == n);
            }
        }
        if in_hs {
            let j = choose|j: int| 0 <= j < scaffold(hs).len() && scaffold(hs)[j] == n;
            assert(acc_names[j] == n);
        }
        if in_rs {
            let j = choose|j: int| 0 <= j < scaffold(rs).len() && scaffold(rs)[j] == n;
            assert(acc_names[j + scaffold(hs).len()] == n);
        }
    }
    assert(in_hs ==> is_accumulator_name(n)) by {
        if in_hs {
            let j = choose|j: int| 0 <= j < scaffold(hs).len() && scaffold(hs)[j] == n;
            assert(is_accumulator_name(scaffold(hs)[j]));
        }
    }
    assert(in_rs ==> is_accumulator_name(n)) by {
        if in_rs {
            let j = choose|j: int| 0 <= j < scaffold(rs).len() && scaffold(rs)[j] == n;
            assert(is_accumulator_name(scaffold(rs)[j]));
        }
    }
    // the targets of the projection
    assert(target_names.contains(n) <==> key_field || private_result || public_result) by {
        let nk = ks.len() as int;
        let nh = hs.len() as int;
        if target_names.contains(n) {
            let j = choose|j: int| 0 <= j < target_names.len() && target_names[j] == n;
            if j < nk {
                assert(target_names[j] == Name::<Seq<char>>::Field(ks[j].field));
            } else if j < nk + nh {
                assert(target_names[j] == hs[j - nk].projection().target);
            } else {
                assert(target_names[j] == rs[j - nk - nh].projection().target);
            }
        }
        if key_field {
            let i = choose|i: int|
                0 <= i < ks.len() && n == Name::<Seq<char>>::Field((#[trigger] ks[i]).field);
            assert(target_names[i] == n);
        }
        if private_result {
            let i = choose|i: int|
                0 <= i < hs.len() && n == (Name::<Seq<char>>::Result {
                    private: true,
                    kind: (#[trigger] hs[i]).kind,
                });
            assert(target_names[nk + i] == hs[i].projection().target);
        }
        if public_result {
            let i = choose|i: int|
                0 <= i < rs.len() && n == (Name::<Seq<char>>::Result {
                    private: false,
                    kind: (#[trigger] rs[i]).kind,
                });
            assert(target_names[nk + nh + i] == rs[i].projection().target);
        }
    }
    assert(s2.contains(n) <==> n == Name::<Seq<char>>::GroupKey || in_hs || in_rs || key_field
        || private_result || public_result);

    // the removals
    let filtered = match filter {
        Some(entries) => grouped.push(StageSpec::Match(crate::aggregate::conjunction(entries))).push(
            StageSpec::RemoveFields(scaffold(hs) + private_results(hs)),
        ),
        None => grouped,
    };
    let s3 = final_shape(filtered, source);
    match filter {
        Some(entries) => {
            let matched = grouped.push(StageSpec::Match(crate::aggregate::conjunction(entries)));
            lemma_shape_of_push(
                grouped,
                StageSpec::Match(crate::aggregate::conjunction(entries)),
                source,
            );
            lemma_shape_of_push(
                matched,
                StageSpec::RemoveFields(scaffold(hs) + private_results(hs)),
                source,
            );
            let gone = scaffold(hs) + private_results(hs);
            assert(gone.contains(n) <==> in_hs || private_results(hs).contains(n)) by {
                if gone.contains(n) {
                    let j = choose|j: int| 0 <= j < gone.len() && gone[j] == n;
                    if j < scaffold(hs).len() {
                        assert(scaffold(hs)[j] == n);
                    } else {
                        assert(private_results(hs)[j - scaffold(hs).len()] == n);
                    }
                }
                if in_hs {
                    let j = choose|j: int| 0 <= j < scaffold(hs).len() && scaffold(hs)[j] == n;
                    assert(gone[j] == n);
                }
                if private_results(hs).contains(n) {
                    let j = choose|j: int|
                        0 <= j < private_results(hs).len() && private_results(hs)[j] == n;
                    assert(gone[j + scaffold(hs).len()] == n);
                }
            }
            assert(s3.contains(n) <==> s2.contains(n) && !in_hs && !private_result);
        },
        None => {
            assert(scaffold(hs) =~= Seq::empty());
            assert(s3.contains(n) <==> s2.contains(n) && !in_hs && !private_result);
        },
    }
    let last_gone = scaffold(rs).push(Name::GroupKey);
    let cleaned = filtered.push(StageSpec::RemoveFields(last_gone));
    lemma_shape_of_push(filtered, StageSpec::RemoveFields(last_gone), source);
    let s4 = final_shape(cleaned, source);
    assert(last_gone.contains(n) <==> in_rs || n == Name::<Seq<char>>::GroupKey) by {
        if last_gone.contains(n) {
            let j = choose|j: int| 0 <= j < last_gone.len() && last_gone[j] == n;
            if j < scaffold(rs).len() {
                assert(scaffold(rs)[j] == n);
            }
        }
        if in_rs {
            let j = choose|j: int| 0 <= j < scaffold(rs).len() && scaffold(rs)[j] == n;
            assert(last_gone[j] == n);
        }
        if n == Name::<Seq<char>>::GroupKey {
            assert(last_gone[scaffold(rs).len() as int] == n);
        }
    }
    assert(s4.contains(n) <==> s3.contains(n) && !in_rs && n != Name::<Seq<char>>::GroupKey);
    if ks.len() > 0 {
        lemma_shape_of_push(
            cleaned,
            StageSpec::Sort(ks.map_values(|k: Key<Seq<char>>| crate::aggregate::key_order(k))),
            source,
        );
    }
    assert(final_shape(aggregation_stages(ks, filter, hs, rs), source) == s4);
}

/// After an aggregation that was planned, the rows carry no synthesized intermediate name,
/// whatever they carried before: a name remains exactly if it is the logical name of a group
/// key or the public result of the kind of a requested aggregate.
pub proof fn lemma_no_intermediate_remains(
    fields: Seq<FieldSpec>,
    by: Option<Seq<Seq<char>>>,
    wanted: Seq<Aggregate<Seq<char>>>,
    filter: Option<Seq<Having<Seq<char>>>>,
    source: Set<Name<Seq<char>>>,
    n: Name<Seq<char>>,
)
    requires
        aggregation_plan(fields, by, wanted, filter) is Ok,
    ensures
        final_shape(aggregation_plan(fields, by, wanted, filter)->Ok_0, source).contains(n) <==> (
        is_key_field(listed(by), n) || is_public_result(wanted, n)),
        final_shape(aggregation_plan(fields, by, wanted, filter)->Ok_0, source).contains(n)
            ==> !n.is_intermediate(),
{
    assert(crate::aggregate::resolution(fields, by, wanted, filter) is Ok);
    let ks = resolved_keys(fields, listed(by))->Ok_0;
    let hs = resolved_all(fields, true, as_aggregates(listed(filter)))->Ok_0;
    let rs = resolved_all(fields, false, wanted)->Ok_0;
    lemma_keys_keep_names(fields, listed(by));
    lemma_requests_keep_kinds(fields, true, as_aggregates(listed(filter)));
    lemma_requests_keep_kinds(fields, false, wanted);
    lemma_stages_shape(ks, filter, hs, rs, source, n);
    let names = listed(by);
    if is_key_field(names, n) {
        let i = choose|i: int| 0 <= i < names.len() && n == Name::<Seq<char>>::Field(#[trigger] names[i]);
        assert(n == Name::<Seq<char>>::Field(ks[i].field));
    }
    if exists|i: int| 0 <= i < ks.len() && n == Name::<Seq<char>>::Field((#[trigger] ks[i]).field) {
        let i = choose|i: int|
            0 <= i < ks.len() && n == Name::<Seq<char>>::Field((#[trigger] ks[i]).field);
        assert(n == Name::<Seq<char>>::Field(names[i]));
    }
    if is_public_result(wanted, n) {
        let i = choose|i: int|
            0 <= i < wanted.len() && n == (Name::<Seq<char>>::Result {
                private: false,
                kind: (#[trigger] wanted[i]).kind,
            });
        assert(n == Name::<Seq<char>>::Result { private: false, kind: rs[i].kind });
    }
    if exists|i: int|
        0 <= i < rs.len() && n == (Name::<Seq<char>>::Result {
            private: false,
            kind: (#[trigger] rs[i]).kind,
        }) {
        let i = choose|i: int|
            0 <= i < rs.len() && n == (Name::<Seq<char>>::Result {
                private: false,
                kind: (#[trigger] rs[i]).kind,
            });
        assert(n == Name::<Seq<char>>::Result { private: false, kind: wanted[i].kind });
    }
}

} // verus!
