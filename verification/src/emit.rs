//! The plan emitter for a pipeline backend: each stage of a plan becomes one stage document,
//! in the order of the plan.

use vstd::prelude::*;
use vstd::string::StringExecFns;
use crate::document::{
    array, boolean, bson_value, bson_values, document_entries, embedded, int32, int64,
    new_document, null, one_entry, put, single, text, with_entry, BsonSpec,
};
use crate::error::{ErrorKind, ErrorSpec};
use crate::name::{names, AggregateKind, Name};
use crate::plan::{
    accumulations, projections, sort_keys, stages, Accumulation, Accumulator, Direction,
    Projection, SortKey, Source, Stage, StageSpec,
};
use crate::predicate::{
    literals, predicate_spec, text_of, Check, CheckSpec, Comparison, Literal, Predicate,
    PredicateSpec,
};
use crate::render::{kind_text, kind_word, render, rendered};
use crate::text::texts;

verus! {

/// The text that refers to the value called `t`.
pub open spec fn reference(t: Seq<char>) -> Seq<char> {
    "$"@ + t
}

/// The path of a value: the text of its name, and after a dot the entry, where there is one.
pub open spec fn path_text(name: Name<Seq<char>>, entry: Option<Seq<char>>) -> Seq<char> {
    match entry {
        Some(e) => rendered(name) + "."@ + e,
        None => rendered(name),
    }
}

/// The value of a literal.
pub open spec fn literal_value(l: Literal<Seq<char>>) -> BsonSpec {
    match l {
        Literal::Null => BsonSpec::Null,
        Literal::Bool(b) => BsonSpec::Bool(b),
        Literal::Int(i) => BsonSpec::Int64(i),
        Literal::Text(s) => BsonSpec::Text(s),
    }
}

/// The operator of a comparison.
pub open spec fn operator(op: Comparison) -> Seq<char> {
    match op {
        Comparison::Eq => "$eq"@,
        Comparison::Ne => "$ne"@,
        Comparison::Gt => "$gt"@,
        Comparison::Gte => "$gte"@,
        Comparison::Lt => "$lt"@,
        Comparison::Lte => "$lte"@,
    }
}

/// The options of a pattern.
pub open spec fn pattern_options(case_insensitive: bool) -> Seq<char> {
    if case_insensitive {
        "i"@
    } else {
        ""@
    }
}

/// The document of a check.
pub open spec fn check_entries(c: CheckSpec) -> Seq<(Seq<char>, BsonSpec)> {
    match c {
        CheckSpec::Compare(op, l) => one_entry(operator(op), literal_value(l)),
        CheckSpec::IsNull => one_entry("$eq"@, BsonSpec::Null),
        CheckSpec::Matches { pattern, case_insensitive } => with_entry(
            one_entry("$regex"@, BsonSpec::Text(pattern)),
            "$options"@,
            BsonSpec::Text(pattern_options(case_insensitive)),
        ),
        CheckSpec::OneOf(ls) => one_entry(
            "$in"@,
            BsonSpec::Array(ls.map_values(|l: Literal<Seq<char>>| literal_value(l))),
        ),
    }
}

/// The document of a predicate. The predicate that always holds is the empty document.
pub open spec fn predicate_entries(p: PredicateSpec) -> Seq<(Seq<char>, BsonSpec)>
    decreases p,
{
    match p {
        PredicateSpec::Always => Seq::empty(),
        PredicateSpec::Test { name, entry, check } => one_entry(
            path_text(name, entry),
            BsonSpec::Document(check_entries(check)),
        ),
        PredicateSpec::And(a, b) => one_entry(
            "$and"@,
            BsonSpec::Array(
                seq![
                    BsonSpec::Document(predicate_entries(*a)),
                    BsonSpec::Document(predicate_entries(*b)),
                ],
            ),
        ),
        PredicateSpec::Or(a, b) => one_entry(
            "$or"@,
            BsonSpec::Array(
                seq![
                    BsonSpec::Document(predicate_entries(*a)),
                    BsonSpec::Document(predicate_entries(*b)),
                ],
            ),
        ),
        PredicateSpec::Not(a) => one_entry(
            "$nor"@,
            BsonSpec::Array(seq![BsonSpec::Document(predicate_entries(*a))]),
        ),
    }
}

/// The expression that is false where the column is null or missing.
pub open spec fn not_null(c: Seq<char>) -> BsonSpec {
    BsonSpec::Document(
        one_entry(
            "$ifNull"@,
            BsonSpec::Array(seq![BsonSpec::Text(reference(c)), BsonSpec::Bool(false)]),
        ),
    )
}

/// The component of a group key: the value of the column, an explicit null where it is
/// null or missing.
pub open spec fn key_part(c: Seq<char>) -> BsonSpec {
    BsonSpec::Document(
        one_entry(
            "$cond"@,
            BsonSpec::Array(seq![not_null(c), BsonSpec::Text(reference(c)), BsonSpec::Null]),
        ),
    )
}

/// The entries of a group key, one per column.
pub open spec fn key_entries(key: Seq<Seq<char>>) -> Seq<(Seq<char>, BsonSpec)>
    decreases key.len(),
{
    if key.len() == 0 {
        Seq::empty()
    } else {
        with_entry(key_entries(key.drop_last()), key.last(), key_part(key.last()))
    }
}

/// The group key: null where nothing is grouped by.
pub open spec fn key_value(key: Seq<Seq<char>>) -> BsonSpec {
    if key.len() == 0 {
        BsonSpec::Null
    } else {
        BsonSpec::Document(key_entries(key))
    }
}

/// The expression that counts the rows in which the column is not null.
pub open spec fn counting(c: Seq<char>) -> BsonSpec {
    BsonSpec::Document(
        one_entry(
            "$sum"@,
            BsonSpec::Document(
                one_entry(
                    "$cond"@,
                    BsonSpec::Array(seq![not_null(c), BsonSpec::Int32(1), BsonSpec::Int32(0)]),
                ),
            ),
        ),
    )
}

/// The expression of an accumulator.
pub open spec fn accumulator_value(a: Accumulator<Seq<char>>) -> BsonSpec {
    match a {
        Accumulator::CountRows => BsonSpec::Document(
            one_entry("$count"@, BsonSpec::Document(Seq::empty())),
        ),
        Accumulator::CountNonNull(c) => counting(c),
        Accumulator::Fold(k, c) => BsonSpec::Document(
            one_entry(reference(kind_text(k)), BsonSpec::Text(reference(c))),
        ),
    }
}

/// The entries of a group stage: the key, then the accumulators under their names.
pub open spec fn group_entries(key: Seq<Seq<char>>, accs: Seq<Accumulation<Seq<char>>>) -> Seq<
    (Seq<char>, BsonSpec),
>
    decreases accs.len(),
{
    if accs.len() == 0 {
        one_entry("_id"@, key_value(key))
    } else {
        with_entry(
            group_entries(key, accs.drop_last()),
            rendered(accs.last().name),
            accumulator_value(accs.last().accumulator),
        )
    }
}

/// The text that refers to a component of the group key.
pub open spec fn key_reference(c: Seq<char>) -> Seq<char> {
    "$_id."@ + c
}

/// The condition of a projection that is null where the counter is zero.
pub open spec fn null_if_zero(counter: Name<Seq<char>>, value: Name<Seq<char>>) -> Seq<
    (Seq<char>, BsonSpec),
> {
    with_entry(
        with_entry(
            one_entry(
                "if"@,
                BsonSpec::Document(
                    one_entry(
                        "$eq"@,
                        BsonSpec::Array(
                            seq![BsonSpec::Text(reference(rendered(counter))), BsonSpec::Int32(0)],
                        ),
                    ),
                ),
            ),
            "then"@,
            BsonSpec::Null,
        ),
        "else"@,
        BsonSpec::Text(reference(rendered(value))),
    )
}

/// The expression of the source of a projection.
pub open spec fn source_value(s: Source<Seq<char>>) -> BsonSpec {
    match s {
        Source::KeyPart(c) => BsonSpec::Text(key_reference(c)),
        Source::Copy(n) => BsonSpec::Text(reference(rendered(n))),
        Source::NullIfZero { counter, value } => BsonSpec::Document(
            one_entry("$cond"@, BsonSpec::Document(null_if_zero(counter, value))),
        ),
    }
}

/// The entries of a project stage.
pub open spec fn set_entries(ps: Seq<Projection<Seq<char>>>) -> Seq<(Seq<char>, BsonSpec)>
    decreases ps.len(),
{
    if ps.len() == 0 {
        Seq::empty()
    } else {
        with_entry(
            set_entries(ps.drop_last()),
            path_text(ps.last().target, ps.last().entry),
            source_value(ps.last().source),
        )
    }
}

/// The number of a direction.
pub open spec fn direction_value(d: Direction) -> BsonSpec {
    match d {
        Direction::Asc => BsonSpec::Int32(1),
        Direction::Desc => BsonSpec::Int32(-1i32),
    }
}

/// The entries of a sort stage.
pub open spec fn sort_entries(ks: Seq<SortKey<Seq<char>>>) -> Seq<(Seq<char>, BsonSpec)>
    decreases ks.len(),
{
    if ks.len() == 0 {
        Seq::empty()
    } else {
        with_entry(
            sort_entries(ks.drop_last()),
            rendered(ks.last().name),
            direction_value(ks.last().direction),
        )
    }
}

/// The document of a stage, or `UnsupportedConstruct` for a skip or limit beyond the
/// largest number that a document holds.
pub open spec fn stage_entries(stage: StageSpec) -> Result<Seq<(Seq<char>, BsonSpec)>, ErrorSpec> {
    match stage {
        StageSpec::Match(p) => Ok(one_entry("$match"@, BsonSpec::Document(predicate_entries(p)))),
        StageSpec::Group { key, accumulators } => Ok(
            one_entry("$group"@, BsonSpec::Document(group_entries(key, accumulators))),
        ),
        StageSpec::Project(ps) => Ok(one_entry("$set"@, BsonSpec::Document(set_entries(ps)))),
        StageSpec::RemoveFields(ns) => Ok(
            one_entry(
                "$unset"@,
                BsonSpec::Array(ns.map_values(|n: Name<Seq<char>>| BsonSpec::Text(rendered(n)))),
            ),
        ),
        StageSpec::Sort(ks) => Ok(one_entry("$sort"@, BsonSpec::Document(sort_entries(ks)))),
        StageSpec::Skip(n) => if n <= i64::MAX {
            Ok(one_entry("$skip"@, BsonSpec::Int64(n as i64)))
        } else {
            Err(ErrorSpec::UnsupportedConstruct)
        },
        StageSpec::Limit(n) => if n <= i64::MAX {
            Ok(one_entry("$limit"@, BsonSpec::Int64(n as i64)))
        } else {
            Err(ErrorSpec::UnsupportedConstruct)
        },
    }
}

/// The text that refers to the value called `t`.
pub fn refer(t: &str) -> (r: String)
    ensures
        r@ == reference(t@),
{
    String::from_str("$").concat(t)
}

/// The path of a value.
pub fn path(name: &Name<String>, entry: &Option<String>) -> (r: String)
    ensures
        r@ == path_text(name@, text_of(*entry)),
{
    match entry {
        Some(e) => render(name).concat(".").concat(e.as_str()),
        None => render(name),
    }
}

/// The value of a literal.
pub fn emit_literal(l: &Literal<String>) -> (r: bson::Bson)
    ensures
        bson_value(r) == literal_value(l@),
{
    match l {
        Literal::Null => null(),
        Literal::Bool(b) => boolean(*b),
        Literal::Int(i) => int64(*i),
        Literal::Text(s) => text(s.as_str()),
    }
}

/// The operator of a comparison.
pub fn operator_word(op: Comparison) -> (r: &'static str)
    ensures
        r@ == operator(op),
{
    match op {
        Comparison::Eq => "$eq",
        Comparison::Ne => "$ne",
        Comparison::Gt => "$gt",
        Comparison::Gte => "$gte",
        Comparison::Lt => "$lt",
        Comparison::Lte => "$lte",
    }
}

/// The document of a check.
pub fn emit_check(c: &Check) -> (r: bson::Document)
    ensures
        document_entries(r) == check_entries(c@),
{
    match c {
        Check::Compare(op, l) => single(operator_word(*op), emit_literal(l)),
        Check::IsNull => single("$eq", null()),
        Check::Matches { pattern, case_insensitive } => {
            let mut d = single("$regex", text(pattern.as_str()));
            let options = if *case_insensitive {
                "i"
            } else {
                ""
            };
            put(&mut d, "$options", text(options));
            d
        },
        Check::OneOf(ls) => {
            let mut items: Vec<bson::Bson> = Vec::new();
            let mut i: usize = 0;
            while i < ls.len()
                invariant
                    i <= ls.len(),
                    items@.len() == i,
                    forall|j: int|
                        0 <= j < i ==> bson_value(#[trigger] items@[j]) == literal_value(ls@[j]@),
                decreases ls.len() - i,
            {
                items.push(emit_literal(&ls[i]));
                i += 1;
            }
            assert(bson_values(items@) =~= literals(ls@).map_values(
                |l: Literal<Seq<char>>| literal_value(l),
            ));
            single("$in", array(items))
        },
    }
}

/// A list of two values.
fn pair(a: bson::Bson, b: bson::Bson) -> (r: bson::Bson)
    ensures
        bson_value(r) == BsonSpec::Array(seq![bson_value(a), bson_value(b)]),
{
    let mut items: Vec<bson::Bson> = Vec::new();
    items.push(a);
    items.push(b);
    assert(bson_values(items@) =~= seq![bson_value(a), bson_value(b)]);
    array(items)
}

/// A list of three values.
fn triple(a: bson::Bson, b: bson::Bson, c: bson::Bson) -> (r: bson::Bson)
    ensures
        bson_value(r) == BsonSpec::Array(seq![bson_value(a), bson_value(b), bson_value(c)]),
{
    let mut items: Vec<bson::Bson> = Vec::new();
    items.push(a);
    items.push(b);
    items.push(c);
    assert(bson_values(items@) =~= seq![bson_value(a), bson_value(b), bson_value(c)]);
    array(items)
}

/// The document of a predicate.
pub fn emit_predicate(p: &Predicate) -> (r: bson::Document)
    ensures
        document_entries(r) == predicate_entries(p@),
    decreases p,
{
    match p {
        Predicate::Always => new_document(),
        Predicate::Test { name, entry, check } => {
            let at = path(name, entry);
            single(at.as_str(), embedded(emit_check(check)))
        },
        Predicate::And(a, b) => {
            let x = embedded(emit_predicate(a));
            let y = embedded(emit_predicate(b));
            single("$and", pair(x, y))
        },
        Predicate::Or(a, b) => {
            let x = embedded(emit_predicate(a));
            let y = embedded(emit_predicate(b));
            single("$or", pair(x, y))
        },
        Predicate::Not(a) => {
            let x = embedded(emit_predicate(a));
            let mut items: Vec<bson::Bson> = Vec::new();
            items.push(x);
            assert(bson_values(items@) =~= seq![bson_value(x)]);
            single("$nor", array(items))
        },
    }
}

/// The expression that is false where the column is null or missing.
pub fn emit_not_null(c: &str) -> (r: bson::Bson)
    ensures
        bson_value(r) == not_null(c@),
{
    let column = refer(c);
    embedded(single("$ifNull", pair(text(column.as_str()), boolean(false))))
}

/// The group key.
pub fn emit_key(key: &Vec<String>) -> (r: bson::Bson)
    ensures
        bson_value(r) == key_value(texts(key@)),
{
    if key.len() == 0 {
        assert(texts(key@).len() == 0);
        return null();
    }
    let ghost all = texts(key@);
    let mut d = new_document();
    let mut i: usize = 0;
    assert(all.take(0) =~= Seq::empty());
    while i < key.len()
        invariant
            i <= key.len(),
            all == texts(key@),
            document_entries(d) == key_entries(all.take(i as int)),
        decreases key.len() - i,
    {
        proof {
            assert(all.take(i + 1).drop_last() =~= all.take(i as int));
            assert(all.take(i + 1).last() == key@[i as int]@);
        }
        let c = key[i].as_str();
        let column = refer(c);
        let part = embedded(
            single("$cond", triple(emit_not_null(c), text(column.as_str()), null())),
        );
        put(&mut d, c, part);
        i += 1;
    }
    assert(all.take(i as int) =~= all);
    embedded(d)
}

/// The expression of an accumulator.
pub fn emit_accumulator(a: &Accumulator<String>) -> (r: bson::Bson)
    ensures
        bson_value(r) == accumulator_value(a@),
{
    match a {
        Accumulator::CountRows => embedded(single("$count", embedded(new_document()))),
        Accumulator::CountNonNull(c) => {
            let cond = single("$cond", triple(emit_not_null(c.as_str()), int32(1), int32(0)));
            embedded(single("$sum", embedded(cond)))
        },
        Accumulator::Fold(k, c) => {
            let op = refer(kind_word(*k));
            let column = refer(c.as_str());
            embedded(single(op.as_str(), text(column.as_str())))
        },
    }
}

/// The expression of the source of a projection.
pub fn emit_source(s: &Source<String>) -> (r: bson::Bson)
    ensures
        bson_value(r) == source_value(s@),
{
    match s {
        Source::KeyPart(c) => {
            let at = String::from_str("$_id.").concat(c.as_str());
            text(at.as_str())
        },
        Source::Copy(n) => {
            let at = refer(render(n).as_str());
            text(at.as_str())
        },
        Source::NullIfZero { counter, value } => {
            let count = refer(render(counter).as_str());
            let held = refer(render(value).as_str());
            let zero = embedded(single("$eq", pair(text(count.as_str()), int32(0))));
            let mut cond = single("if", zero);
            put(&mut cond, "then", null());
            put(&mut cond, "else", text(held.as_str()));
            embedded(single("$cond", embedded(cond)))
        },
    }
}

/// The document of a group stage.
fn emit_group(key: &Vec<String>, accs: &Vec<Accumulation<String>>) -> (r: bson::Document)
    ensures
        document_entries(r) == group_entries(texts(key@), accumulations(accs@)),
{
    let ghost all = accumulations(accs@);
    let mut d = single("_id", emit_key(key));
    let mut i: usize = 0;
    assert(all.take(0) =~= Seq::empty());
    while i < accs.len()
        invariant
            i <= accs.len(),
            all == accumulations(accs@),
            document_entries(d) == group_entries(texts(key@), all.take(i as int)),
        decreases accs.len() - i,
    {
        proof {
            assert(all.take(i + 1).drop_last() =~= all.take(i as int));
            assert(all.take(i + 1).last() == accs@[i as int]@);
        }
        let name = render(&accs[i].name);
        put(&mut d, name.as_str(), emit_accumulator(&accs[i].accumulator));
        i += 1;
    }
    assert(all.take(i as int) =~= all);
    d
}

/// The document of a project stage.
fn emit_set(ps: &Vec<Projection<String>>) -> (r: bson::Document)
    ensures
        document_entries(r) == set_entries(projections(ps@)),
{
    let ghost all = projections(ps@);
    let mut d = new_document();
    let mut i: usize = 0;
    assert(all.take(0) =~= Seq::empty());
    while i < ps.len()
        invariant
            i <= ps.len(),
            all == projections(ps@),
            document_entries(d) == set_entries(all.take(i as int)),
        decreases ps.len() - i,
    {
        proof {
            assert(all.take(i + 1).drop_last() =~= all.take(i as int));
            assert(all.take(i + 1).last() == ps@[i as int]@);
        }
        let at = path(&ps[i].target, &ps[i].entry);
        put(&mut d, at.as_str(), emit_source(&ps[i].source));
        i += 1;
    }
    assert(all.take(i as int) =~= all);
    d
}

/// The document of a sort stage.
fn emit_sort(ks: &Vec<SortKey<String>>) -> (r: bson::Document)
    ensures
        document_entries(r) == sort_entries(sort_keys(ks@)),
{
    let ghost all = sort_keys(ks@);
    let mut d = new_document();
    let mut i: usize = 0;
    assert(all.take(0) =~= Seq::empty());
    while i < ks.len()
        invariant
            i <= ks.len(),
            all == sort_keys(ks@),
            document_entries(d) == sort_entries(all.take(i as int)),
        decreases ks.len() - i,
    {
        proof {
            assert(all.take(i + 1).drop_last() =~= all.take(i as int));
            assert(all.take(i + 1).last() == ks@[i as int]@);
        }
        let name = render(&ks[i].name);
        let direction = match ks[i].direction {
            Direction::Asc => int32(1),
            Direction::Desc => int32(-1),
        };
        put(&mut d, name.as_str(), direction);
        i += 1;
    }
    assert(all.take(i as int) =~= all);
    d
}

/// The list of the texts of names.
fn emit_names(ns: &Vec<Name<String>>) -> (r: bson::Bson)
    ensures
        bson_value(r) == BsonSpec::Array(
            names(ns@).map_values(|n: Name<Seq<char>>| BsonSpec::Text(rendered(n))),
        ),
{
    let mut items: Vec<bson::Bson> = Vec::new();
    let mut i: usize = 0;
    while i < ns.len()
        invariant
            i <= ns.len(),
            items@.len() == i,
            forall|j: int|
                0 <= j < i ==> bson_value(#[trigger] items@[j]) == BsonSpec::Text(
                    rendered(ns@[j]@),
                ),
        decreases ns.len() - i,
    {
        let name = render(&ns[i]);
        items.push(text(name.as_str()));
        i += 1;
    }
    assert(bson_values(items@) =~= names(ns@).map_values(
        |n: Name<Seq<char>>| BsonSpec::Text(rendered(n)),
    ));
    array(items)
}

/// Renders one stage as a stage document. Fails with `UnsupportedConstruct` for a skip or
/// limit beyond the largest number that a document holds.
pub fn emit_stage(stage: &Stage) -> (r: Result<bson::Document, ErrorKind>)
    ensures
        match r {
            Ok(d) => stage_entries(stage@) == Ok::<Seq<(Seq<char>, BsonSpec)>, ErrorSpec>(
                document_entries(d),
            ),
            Err(e) => e@ == ErrorSpec::UnsupportedConstruct && stage_entries(stage@) is Err,
        },
{
    match stage {
        Stage::Match(p) => Ok(single("$match", embedded(emit_predicate(p)))),
        Stage::Group { key, accumulators } => Ok(
            single("$group", embedded(emit_group(key, accumulators))),
        ),
        Stage::Project(ps) => Ok(single("$set", embedded(emit_set(ps)))),
        Stage::RemoveFields(ns) => Ok(single("$unset", emit_names(ns))),
        Stage::Sort(ks) => Ok(single("$sort", embedded(emit_sort(ks)))),
        Stage::Skip(n) => {
            if *n <= 0x7fff_ffff_ffff_ffff {
                Ok(single("$skip", int64(*n as i64)))
            } else {
                Err(ErrorKind::UnsupportedConstruct)
            }
        },
        Stage::Limit(n) => {
            if *n <= 0x7fff_ffff_ffff_ffff {
                Ok(single("$limit", int64(*n as i64)))
            } else {
                Err(ErrorKind::UnsupportedConstruct)
            }
        },
    }
}

/// Whether every stage of a plan has a document.
pub open spec fn expressible(plan: Seq<StageSpec>) -> bool {
    forall|i: int| 0 <= i < plan.len() ==> stage_entries(#[trigger] plan[i]) is Ok
}

/// Renders a plan as the stage documents of a pipeline, one per stage, in the order of the
/// plan. Fails with `UnsupportedConstruct` where a stage has no document.
pub fn emit_pipeline(plan: &Vec<Stage>) -> (r: Result<Vec<bson::Document>, ErrorKind>)
    ensures
        match r {
            Ok(docs) => expressible(stages(plan@)) && docs@.len() == plan@.len() && forall|i: int|
                0 <= i < docs@.len() ==> stage_entries(stages(plan@)[i]) == Ok::<
                    Seq<(Seq<char>, BsonSpec)>,
                    ErrorSpec,
                >(document_entries(#[trigger] docs@[i])),
            Err(e) => e@ == ErrorSpec::UnsupportedConstruct && !expressible(stages(plan@)),
        },
{
    let mut docs: Vec<bson::Document> = Vec::new();
    let mut i: usize = 0;
    while i < plan.len()
        invariant
            i <= plan.len(),
            docs@.len() == i,
            forall|j: int| 0 <= j < i ==> stage_entries(#[trigger] stages(plan@)[j]) is Ok,
            forall|j: int|
                0 <= j < i ==> stage_entries(stages(plan@)[j]) == Ok::<
                    Seq<(Seq<char>, BsonSpec)>,
                    ErrorSpec,
                >(document_entries(#[trigger] docs@[j])),
        decreases plan.len() - i,
    {
        assert(stages(plan@)[i as int] == plan@[i as int]@);
        match emit_stage(&plan[i]) {
            Err(e) => {
                return Err(e);
            },
            Ok(d) => {
                docs.push(d);
            },
        }
        i += 1;
    }
    assert(stages(plan@).len() == plan@.len());
    Ok(docs)
}

} // verus!
