use bson::{Bson, Document};
use teo::aggregate::{plan_aggregation, Aggregate, Having, Matcher, Target};
use teo::emit::{emit_check, emit_pipeline, emit_predicate, emit_stage, path, refer};
use teo::error::ErrorKind;
use teo::field::{FieldBuilder, FieldType};
use teo::model::{Model, ModelBuilder};
use teo::name::{AggregateKind, Name};
use teo::plan::{Direction, SortKey, Stage};
use teo::predicate::{Check, Comparison, Literal, Predicate};
use teo::render::{kind_word, render};
use teo::statement::{emit_statement, Statement};

fn s(text: &str) -> String {
    text.to_string()
}

fn doc(entries: Vec<(&str, Bson)>) -> Document {
    let mut d = Document::new();
    for (k, v) in entries {
        d.insert(k, v);
    }
    d
}

fn sub(entries: Vec<(&str, Bson)>) -> Bson {
    Bson::Document(doc(entries))
}

fn t(text: &str) -> Bson {
    Bson::String(s(text))
}

fn order_model() -> Model {
    let mut b = ModelBuilder::new("Order");
    b.fields = vec![
        FieldBuilder::new("customerId", FieldType::Int64),
        FieldBuilder::new("amount", FieldType::Int64),
    ];
    Model::new(&b)
}

fn not_null(column: &str) -> Bson {
    sub(vec![("$ifNull", Bson::Array(vec![t(column), Bson::Boolean(false)]))])
}

fn counting(column: &str) -> Bson {
    sub(vec![(
        "$sum",
        sub(vec![("$cond", Bson::Array(vec![not_null(column), Bson::Int32(1), Bson::Int32(0)]))]),
    )])
}

fn null_if_zero(counter: &str, value: &str) -> Bson {
    sub(vec![(
        "$cond",
        sub(vec![
            ("if", sub(vec![("$eq", Bson::Array(vec![t(counter), Bson::Int32(0)]))])),
            ("then", Bson::Null),
            ("else", t(value)),
        ]),
    )])
}

#[test]
fn names_have_their_texts() {
    let sum = AggregateKind::Sum;
    assert_eq!(render(&Name::GroupKey), "_id");
    assert_eq!(render(&Name::Field(s("customerId"))), "customerId");
    assert_eq!(render(&Name::Column(s("customer_id"))), "customer_id");
    assert_eq!(render(&Name::Result { private: false, kind: sum }), "_sum");
    assert_eq!(render(&Name::Result { private: true, kind: sum }), "_having_sum");
    assert_eq!(render(&Name::Value { private: false, kind: sum, column: s("amount") }), "_sum_amount");
    assert_eq!(
        render(&Name::Value { private: true, kind: AggregateKind::Count, column: s("amount") }),
        "_having_count_amount"
    );
    assert_eq!(render(&Name::Rows { private: false }), "_rows");
    assert_eq!(render(&Name::Rows { private: true }), "_having_rows");
    assert_eq!(
        render(&Name::Counter { private: false, kind: sum, column: s("amount") }),
        "_nonnull_sum_amount"
    );
    assert_eq!(
        render(&Name::Counter { private: true, kind: AggregateKind::Avg, column: s("a") }),
        "_having_nonnull_avg_a"
    );
    assert_eq!(kind_word(AggregateKind::Min), "min");
    assert_eq!(kind_word(AggregateKind::Max), "max");
}

#[test]
fn texts_of_synthesized_names_do_not_collide() {
    let kinds = [
        AggregateKind::Count,
        AggregateKind::Sum,
        AggregateKind::Avg,
        AggregateKind::Min,
        AggregateKind::Max,
    ];
    let columns = ["x", "count_x", "sum_x", "nonnull_sum_x", "_x", "having_sum_x", ""];
    let mut all: Vec<Name<String>> = vec![Name::GroupKey];
    for private in [false, true] {
        all.push(Name::Rows { private });
        for kind in kinds {
            all.push(Name::Result { private, kind });
            for column in columns {
                all.push(Name::Value { private, kind, column: s(column) });
                all.push(Name::Counter { private, kind, column: s(column) });
            }
        }
    }
    for (i, a) in all.iter().enumerate() {
        assert!(render(a).starts_with('_'));
        for b in &all[i + 1..] {
            assert_ne!(render(a), render(b), "{:?} and {:?}", a, b);
        }
    }
}

#[test]
fn paths_and_references() {
    assert_eq!(refer("amount"), "$amount");
    let result = Name::Result { private: true, kind: AggregateKind::Sum };
    assert_eq!(path(&result, &Some(s("amount"))), "_having_sum.amount");
    assert_eq!(path(&result, &None), "_having_sum");
}

#[test]
fn checks_become_operators() {
    let compare = |op| emit_check(&Check::Compare(op, Literal::Int(3)));
    assert_eq!(compare(Comparison::Eq), doc(vec![("$eq", Bson::Int64(3))]));
    assert_eq!(compare(Comparison::Ne), doc(vec![("$ne", Bson::Int64(3))]));
    assert_eq!(compare(Comparison::Gt), doc(vec![("$gt", Bson::Int64(3))]));
    assert_eq!(compare(Comparison::Gte), doc(vec![("$gte", Bson::Int64(3))]));
    assert_eq!(compare(Comparison::Lt), doc(vec![("$lt", Bson::Int64(3))]));
    assert_eq!(compare(Comparison::Lte), doc(vec![("$lte", Bson::Int64(3))]));
    assert_eq!(emit_check(&Check::IsNull), doc(vec![("$eq", Bson::Null)]));
    assert_eq!(
        emit_check(&Check::Matches { pattern: s("^a"), case_insensitive: true }),
        doc(vec![("$regex", t("^a")), ("$options", t("i"))])
    );
    assert_eq!(
        emit_check(&Check::Matches { pattern: s("^a"), case_insensitive: false }),
        doc(vec![("$regex", t("^a")), ("$options", t(""))])
    );
    assert_eq!(
        emit_check(&Check::OneOf(vec![
            Literal::Text(s("a")),
            Literal::Bool(true),
            Literal::Null,
            Literal::Int(-1)
        ])),
        doc(vec![(
            "$in",
            Bson::Array(vec![t("a"), Bson::Boolean(true), Bson::Null, Bson::Int64(-1)])
        )])
    );
}

#[test]
fn predicates_become_documents() {
    let test = |column: &str| Predicate::Test {
        name: Name::Column(s(column)),
        entry: None,
        check: Check::IsNull,
    };
    let is_null = |column: &str| sub(vec![(column, sub(vec![("$eq", Bson::Null)]))]);
    let p = Predicate::And(
        Box::new(test("a")),
        Box::new(Predicate::Or(
            Box::new(Predicate::Not(Box::new(test("b")))),
            Box::new(Predicate::Always),
        )),
    );
    let expected = doc(vec![(
        "$and",
        Bson::Array(vec![
            is_null("a"),
            sub(vec![(
                "$or",
                Bson::Array(vec![
                    sub(vec![("$nor", Bson::Array(vec![is_null("b")]))]),
                    sub(vec![]),
                ]),
            )]),
        ]),
    )]);
    assert_eq!(emit_predicate(&p), expected);
}

#[test]
fn orders_by_customer_as_a_pipeline() {
    let m = order_model();
    let plan = plan_aggregation(
        &m,
        &Some(vec![s("customerId")]),
        &vec![Aggregate { kind: AggregateKind::Sum, target: Target::Field(s("amount")) }],
        &Some(vec![Having {
            field: s("amount"),
            kind: AggregateKind::Sum,
            matcher: Matcher { op: Comparison::Gt, value: 100 },
        }]),
    )
    .unwrap();
    let docs = emit_pipeline(&plan).unwrap();
    let key = sub(vec![(
        "customer_id",
        sub(vec![(
            "$cond",
            Bson::Array(vec![not_null("$customer_id"), t("$customer_id"), Bson::Null]),
        )]),
    )]);
    let expected = vec![
        doc(vec![(
            "$group",
            sub(vec![
                ("_id", key),
                ("_having_sum_amount", sub(vec![("$sum", t("$amount"))])),
                ("_having_nonnull_sum_amount", counting("$amount")),
                ("_sum_amount", sub(vec![("$sum", t("$amount"))])),
                ("_nonnull_sum_amount", counting("$amount")),
            ]),
        )]),
        doc(vec![(
            "$set",
            sub(vec![
                ("customerId", t("$_id.customer_id")),
                (
                    "_having_sum.amount",
                    null_if_zero("$_having_nonnull_sum_amount", "$_having_sum_amount"),
                ),
                ("_sum.amount", null_if_zero("$_nonnull_sum_amount", "$_sum_amount")),
            ]),
        )]),
        doc(vec![(
            "$match",
            sub(vec![(
                "$and",
                Bson::Array(vec![
                    sub(vec![]),
                    sub(vec![("_having_sum.amount", sub(vec![("$gt", Bson::Int64(100))]))]),
                ]),
            )]),
        )]),
        doc(vec![(
            "$unset",
            Bson::Array(vec![
                t("_having_sum_amount"),
                t("_having_nonnull_sum_amount"),
                t("_having_sum"),
            ]),
        )]),
        doc(vec![(
            "$unset",
            Bson::Array(vec![t("_sum_amount"), t("_nonnull_sum_amount"), t("_id")]),
        )]),
        doc(vec![("$sort", sub(vec![("customerId", Bson::Int32(1))]))]),
    ];
    assert_eq!(docs, expected);
}

#[test]
fn counts_and_extremes_as_a_group_stage() {
    let m = order_model();
    let plan = plan_aggregation(
        &m,
        &None,
        &vec![
            Aggregate { kind: AggregateKind::Count, target: Target::All },
            Aggregate { kind: AggregateKind::Count, target: Target::Field(s("amount")) },
            Aggregate { kind: AggregateKind::Max, target: Target::Field(s("amount")) },
        ],
        &None,
    )
    .unwrap();
    let docs = emit_pipeline(&plan).unwrap();
    assert_eq!(
        docs[0],
        doc(vec![(
            "$group",
            sub(vec![
                ("_id", Bson::Null),
                ("_rows", sub(vec![("$count", sub(vec![]))])),
                ("_count_amount", counting("$amount")),
                ("_max_amount", sub(vec![("$max", t("$amount"))])),
            ]),
        )])
    );
    assert_eq!(
        docs[1],
        doc(vec![(
            "$set",
            sub(vec![
                ("_count._all", t("$_rows")),
                ("_count.amount", t("$_count_amount")),
                ("_max.amount", t("$_max_amount")),
            ]),
        )])
    );
}

#[test]
fn an_aggregate_asked_twice_is_computed_once() {
    let m = order_model();
    let min = Aggregate { kind: AggregateKind::Min, target: Target::Field(s("amount")) };
    let plan = plan_aggregation(&m, &None, &vec![min.clone(), min], &None).unwrap();
    let docs = emit_pipeline(&plan).unwrap();
    assert_eq!(
        docs[0],
        doc(vec![(
            "$group",
            sub(vec![("_id", Bson::Null), ("_min_amount", sub(vec![("$min", t("$amount"))]))]),
        )])
    );
}

#[test]
fn window_stages_as_documents() {
    let sort = Stage::Sort(vec![
        SortKey { name: Name::Column(s("a")), direction: Direction::Desc },
        SortKey { name: Name::Column(s("b")), direction: Direction::Asc },
    ]);
    assert_eq!(
        emit_stage(&sort),
        Ok(doc(vec![("$sort", sub(vec![("a", Bson::Int32(-1)), ("b", Bson::Int32(1))]))]))
    );
    assert_eq!(emit_stage(&Stage::Skip(10)), Ok(doc(vec![("$skip", Bson::Int64(10))])));
    assert_eq!(emit_stage(&Stage::Limit(0)), Ok(doc(vec![("$limit", Bson::Int64(0))])));
    assert_eq!(
        emit_stage(&Stage::Limit(i64::MAX as u64)),
        Ok(doc(vec![("$limit", Bson::Int64(i64::MAX))]))
    );
}

#[test]
fn numbers_beyond_a_document_are_unsupported() {
    assert_eq!(emit_stage(&Stage::Skip(i64::MAX as u64 + 1)), Err(ErrorKind::UnsupportedConstruct));
    assert_eq!(emit_stage(&Stage::Limit(u64::MAX)), Err(ErrorKind::UnsupportedConstruct));
    assert_eq!(
        emit_pipeline(&vec![Stage::Skip(1), Stage::Limit(u64::MAX)]),
        Err(ErrorKind::UnsupportedConstruct)
    );
    assert_eq!(emit_pipeline(&vec![]), Ok(vec![]));
}

fn empty_statement() -> Statement {
    Statement {
        filter: vec![],
        group: None,
        select: vec![],
        hidden: vec![],
        having: vec![],
        order: None,
        offset: None,
        limit: None,
    }
}

#[test]
fn stages_take_their_clauses() {
    let m = order_model();
    let mut plan = vec![Stage::Match(Predicate::Always), Stage::Match(Predicate::Always)];
    plan.extend(
        plan_aggregation(
            &m,
            &Some(vec![s("customerId")]),
            &vec![Aggregate { kind: AggregateKind::Sum, target: Target::Field(s("amount")) }],
            &Some(vec![Having {
                field: s("amount"),
                kind: AggregateKind::Sum,
                matcher: Matcher { op: Comparison::Gt, value: 100 },
            }]),
        )
        .unwrap(),
    );
    plan.push(Stage::Skip(20));
    plan.push(Stage::Limit(10));
    let st = emit_statement(&plan).unwrap();
    assert_eq!(
        st,
        Statement {
            filter: vec![0, 1],
            group: Some(2),
            select: vec![3],
            hidden: vec![5, 6],
            having: vec![4],
            order: Some(7),
            offset: Some(20),
            limit: Some(10),
        }
    );
    assert_eq!(emit_statement(&vec![]), Ok(empty_statement()));
}

#[test]
fn what_one_statement_cannot_express() {
    let unsupported = Err(ErrorKind::UnsupportedConstruct);
    let group = || Stage::Group { key: vec![], accumulators: vec![] };
    let sort = || Stage::Sort(vec![]);
    assert_eq!(emit_statement(&vec![Stage::Limit(1), Stage::Skip(1)]), unsupported);
    assert_eq!(emit_statement(&vec![Stage::Limit(1), Stage::Limit(1)]), unsupported);
    assert_eq!(emit_statement(&vec![Stage::Skip(1), Stage::Skip(1)]), unsupported);
    assert_eq!(emit_statement(&vec![group(), group()]), unsupported);
    assert_eq!(emit_statement(&vec![sort(), sort()]), unsupported);
    assert_eq!(emit_statement(&vec![Stage::Limit(1), group()]), unsupported);
    assert_eq!(emit_statement(&vec![sort(), Stage::Match(Predicate::Always)]), unsupported);
    assert_eq!(emit_statement(&vec![Stage::Skip(1), Stage::Project(vec![])]), unsupported);
    assert_eq!(
        emit_statement(&vec![Stage::Skip(1), sort(), Stage::RemoveFields(vec![])]),
        unsupported
    );
    let st = emit_statement(&vec![Stage::Skip(1), Stage::RemoveFields(vec![]), Stage::Limit(2)]);
    assert_eq!(
        st,
        Ok(Statement { hidden: vec![1], offset: Some(1), limit: Some(2), ..empty_statement() })
    );
}
