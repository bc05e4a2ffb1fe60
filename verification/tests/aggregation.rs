use teo::aggregate::{
    insert_group_set_unset_for_aggregate, plan_aggregation, resolve, Aggregate, Having, Matcher,
    Request, Target,
};
use teo::error::ErrorKind;
use teo::field::{FieldBuilder, FieldType};
use teo::model::{Model, ModelBuilder};
use teo::name::{AggregateKind, Name};
use teo::plan::{Accumulation, Accumulator, Direction, Projection, SortKey, Source, Stage};
use teo::predicate::{Check, Comparison, Literal, Predicate};

fn order_model() -> Model {
    let mut b = ModelBuilder::new("Order");
    b.fields = vec![
        FieldBuilder::new("customerId", FieldType::Int64),
        FieldBuilder::new("amount", FieldType::Int64),
        FieldBuilder::new("note", FieldType::String),
    ];
    Model::new(&b)
}

fn s(text: &str) -> String {
    text.to_string()
}

fn agg(kind: AggregateKind, field: &str) -> Aggregate<String> {
    Aggregate { kind, target: Target::Field(s(field)) }
}

fn having(field: &str, kind: AggregateKind, op: Comparison, value: i64) -> Having<String> {
    Having { field: s(field), kind, matcher: Matcher { op, value } }
}

fn value(private: bool, kind: AggregateKind, column: &str) -> Name<String> {
    Name::Value { private, kind, column: s(column) }
}

fn counter(private: bool, kind: AggregateKind, column: &str) -> Name<String> {
    Name::Counter { private, kind, column: s(column) }
}

fn result(private: bool, kind: AggregateKind) -> Name<String> {
    Name::Result { private, kind }
}

#[test]
fn sum_with_having_compiles_to_the_full_plan() {
    let m = order_model();
    let plan = plan_aggregation(
        &m,
        &Some(vec![s("customerId")]),
        &vec![agg(AggregateKind::Sum, "amount")],
        &Some(vec![having("amount", AggregateKind::Sum, Comparison::Gt, 100)]),
    )
    .unwrap();
    let sum = AggregateKind::Sum;
    let expected = vec![
        Stage::Group {
            key: vec![s("customer_id")],
            accumulators: vec![
                Accumulation {
                    name: value(true, sum, "amount"),
                    accumulator: Accumulator::Fold(sum, s("amount")),
                },
                Accumulation {
                    name: counter(true, sum, "amount"),
                    accumulator: Accumulator::CountNonNull(s("amount")),
                },
                Accumulation {
                    name: value(false, sum, "amount"),
                    accumulator: Accumulator::Fold(sum, s("amount")),
                },
                Accumulation {
                    name: counter(false, sum, "amount"),
                    accumulator: Accumulator::CountNonNull(s("amount")),
                },
            ],
        },
        Stage::Project(vec![
            Projection {
                target: Name::Field(s("customerId")),
                entry: None,
                source: Source::KeyPart(s("customer_id")),
            },
            Projection {
                target: result(true, sum),
                entry: Some(s("amount")),
                source: Source::NullIfZero {
                    counter: counter(true, sum, "amount"),
                    value: value(true, sum, "amount"),
                },
            },
            Projection {
                target: result(false, sum),
                entry: Some(s("amount")),
                source: Source::NullIfZero {
                    counter: counter(false, sum, "amount"),
                    value: value(false, sum, "amount"),
                },
            },
        ]),
        Stage::Match(Predicate::And(
            Box::new(Predicate::Always),
            Box::new(Predicate::Test {
                name: result(true, sum),
                entry: Some(s("amount")),
                check: Check::Compare(Comparison::Gt, Literal::Int(100)),
            }),
        )),
        Stage::RemoveFields(vec![
            value(true, sum, "amount"),
            counter(true, sum, "amount"),
            result(true, sum),
        ]),
        Stage::RemoveFields(vec![
            value(false, sum, "amount"),
            counter(false, sum, "amount"),
            Name::GroupKey,
        ]),
        Stage::Sort(vec![SortKey { name: Name::Field(s("customerId")), direction: Direction::Asc }]),
    ];
    assert_eq!(plan, expected);
}

#[test]
fn plain_aggregate_has_one_group_and_no_sort() {
    let m = order_model();
    let all = Aggregate { kind: AggregateKind::Count, target: Target::All };
    let plan = plan_aggregation(
        &m,
        &None,
        &vec![all, agg(AggregateKind::Count, "note"), agg(AggregateKind::Max, "amount")],
        &None,
    )
    .unwrap();
    let count = AggregateKind::Count;
    let max = AggregateKind::Max;
    let expected = vec![
        Stage::Group {
            key: vec![],
            accumulators: vec![
                Accumulation {
                    name: Name::Rows { private: false },
                    accumulator: Accumulator::CountRows,
                },
                Accumulation {
                    name: value(false, count, "note"),
                    accumulator: Accumulator::CountNonNull(s("note")),
                },
                Accumulation {
                    name: value(false, max, "amount"),
                    accumulator: Accumulator::Fold(max, s("amount")),
                },
            ],
        },
        Stage::Project(vec![
            Projection {
                target: result(false, count),
                entry: Some(s("_all")),
                source: Source::Copy(Name::Rows { private: false }),
            },
            Projection {
                target: result(false, count),
                entry: Some(s("note")),
                source: Source::Copy(value(false, count, "note")),
            },
            Projection {
                target: result(false, max),
                entry: Some(s("amount")),
                source: Source::Copy(value(false, max, "amount")),
            },
        ]),
        Stage::RemoveFields(vec![
            Name::Rows { private: false },
            value(false, count, "note"),
            value(false, max, "amount"),
            Name::GroupKey,
        ]),
    ];
    assert_eq!(plan, expected);
}

#[test]
fn grouping_without_aggregates_projects_and_sorts_the_keys() {
    let m = order_model();
    let plan = plan_aggregation(&m, &Some(vec![s("note"), s("customerId")]), &vec![], &None).unwrap();
    let expected = vec![
        Stage::Group { key: vec![s("note"), s("customer_id")], accumulators: vec![] },
        Stage::Project(vec![
            Projection {
                target: Name::Field(s("note")),
                entry: None,
                source: Source::KeyPart(s("note")),
            },
            Projection {
                target: Name::Field(s("customerId")),
                entry: None,
                source: Source::KeyPart(s("customer_id")),
            },
        ]),
        Stage::RemoveFields(vec![Name::GroupKey]),
        Stage::Sort(vec![
            SortKey { name: Name::Field(s("note")), direction: Direction::Asc },
            SortKey { name: Name::Field(s("customerId")), direction: Direction::Asc },
        ]),
    ];
    assert_eq!(plan, expected);
}

#[test]
fn having_may_ask_for_what_the_aggregates_do_not() {
    let m = order_model();
    let plan = plan_aggregation(
        &m,
        &Some(vec![s("customerId")]),
        &vec![agg(AggregateKind::Min, "amount")],
        &Some(vec![
            having("amount", AggregateKind::Avg, Comparison::Gte, 10),
            having("note", AggregateKind::Count, Comparison::Gt, 0),
            having("amount", AggregateKind::Avg, Comparison::Lt, 90),
        ]),
    )
    .unwrap();
    assert_eq!(plan.len(), 6);
    match &plan[3] {
        Stage::RemoveFields(names) => assert_eq!(
            *names,
            vec![
                value(true, AggregateKind::Avg, "amount"),
                counter(true, AggregateKind::Avg, "amount"),
                value(true, AggregateKind::Count, "note"),
                value(true, AggregateKind::Avg, "amount"),
                counter(true, AggregateKind::Avg, "amount"),
                result(true, AggregateKind::Count),
                result(true, AggregateKind::Avg),
            ]
        ),
        other => panic!("unexpected stage {:?}", other),
    }
}

/// The names that the rows carry after the stages of a plan.
fn shape(plan: &Vec<Stage>) -> Vec<Name<String>> {
    let mut names: Vec<Name<String>> = vec![Name::Column(s("customer_id")), Name::Column(s("amount"))];
    for stage in plan {
        match stage {
            Stage::Group { accumulators, .. } => {
                names = vec![Name::GroupKey];
                for a in accumulators {
                    if !names.contains(&a.name) {
                        names.push(a.name.clone());
                    }
                }
            }
            Stage::Project(ps) => {
                for p in ps {
                    if !names.contains(&p.target) {
                        names.push(p.target.clone());
                    }
                }
            }
            Stage::RemoveFields(gone) => names.retain(|n| !gone.contains(n)),
            _ => {}
        }
    }
    names
}

#[test]
fn no_intermediate_name_remains_after_the_plan() {
    let m = order_model();
    let plan = plan_aggregation(
        &m,
        &Some(vec![s("customerId"), s("note")]),
        &vec![
            agg(AggregateKind::Sum, "amount"),
            agg(AggregateKind::Avg, "amount"),
            agg(AggregateKind::Count, "note"),
            Aggregate { kind: AggregateKind::Count, target: Target::All },
        ],
        &Some(vec![
            having("amount", AggregateKind::Sum, Comparison::Gt, 100),
            having("amount", AggregateKind::Max, Comparison::Lt, 1000),
        ]),
    )
    .unwrap();
    assert_eq!(
        shape(&plan),
        vec![
            Name::Field(s("customerId")),
            Name::Field(s("note")),
            result(false, AggregateKind::Sum),
            result(false, AggregateKind::Avg),
            result(false, AggregateKind::Count),
        ]
    );
}

#[test]
fn having_without_grouping_is_refused() {
    let m = order_model();
    let r = plan_aggregation(
        &m,
        &None,
        &vec![agg(AggregateKind::Sum, "amount")],
        &Some(vec![having("amount", AggregateKind::Sum, Comparison::Gt, 100)]),
    );
    assert_eq!(r, Err(ErrorKind::HavingWithoutGrouping));
}

#[test]
fn unknown_group_key_is_refused() {
    let m = order_model();
    let r = plan_aggregation(&m, &Some(vec![s("customerId"), s("nowhere")]), &vec![], &None);
    assert_eq!(r, Err(ErrorKind::UnknownField(s("nowhere"))));
}

#[test]
fn unknown_aggregate_target_is_refused() {
    let m = order_model();
    let r = plan_aggregation(&m, &None, &vec![agg(AggregateKind::Min, "nowhere")], &None);
    assert_eq!(r, Err(ErrorKind::UnknownField(s("nowhere"))));
}

#[test]
fn unknown_having_field_is_refused_before_the_aggregates() {
    let m = order_model();
    let r = plan_aggregation(
        &m,
        &Some(vec![s("customerId")]),
        &vec![agg(AggregateKind::Sum, "note")],
        &Some(vec![having("gone", AggregateKind::Sum, Comparison::Gt, 1)]),
    );
    assert_eq!(r, Err(ErrorKind::UnknownField(s("gone"))));
}

#[test]
fn sum_and_avg_of_text_are_refused() {
    let m = order_model();
    let r = plan_aggregation(&m, &None, &vec![agg(AggregateKind::Sum, "note")], &None);
    assert_eq!(r, Err(ErrorKind::NonAggregatableType(s("note"))));
    let r = plan_aggregation(&m, &None, &vec![agg(AggregateKind::Avg, "note")], &None);
    assert_eq!(r, Err(ErrorKind::NonAggregatableType(s("note"))));
    assert!(plan_aggregation(&m, &None, &vec![agg(AggregateKind::Min, "note")], &None).is_ok());
}

#[test]
fn only_a_count_can_aim_at_all_rows() {
    let m = order_model();
    let r = plan_aggregation(
        &m,
        &None,
        &vec![Aggregate { kind: AggregateKind::Sum, target: Target::All }],
        &None,
    );
    assert_eq!(r, Err(ErrorKind::UnknownField(s("_all"))));
}

#[test]
fn resolve_finds_column_and_position() {
    let m = order_model();
    let r = resolve(&m, true, &agg(AggregateKind::Avg, "amount")).unwrap();
    assert_eq!(
        r,
        Request {
            private: true,
            kind: AggregateKind::Avg,
            field: s("amount"),
            column: Some(s("amount")),
            slot: Some(1),
        }
    );
}

#[test]
fn insert_adds_to_all_three_lists() {
    let request = Request {
        private: false,
        kind: AggregateKind::Sum,
        field: s("amount"),
        column: Some(s("amt")),
        slot: Some(1),
    };
    let mut group = vec![];
    let mut set = vec![];
    let mut unset = vec![Name::GroupKey];
    insert_group_set_unset_for_aggregate(&request, &mut group, &mut set, &mut unset);
    let sum = AggregateKind::Sum;
    assert_eq!(
        group,
        vec![
            Accumulation {
                name: value(false, sum, "amt"),
                accumulator: Accumulator::Fold(sum, s("amt")),
            },
            Accumulation {
                name: counter(false, sum, "amt"),
                accumulator: Accumulator::CountNonNull(s("amt")),
            },
        ]
    );
    assert_eq!(
        set,
        vec![Projection {
            target: result(false, sum),
            entry: Some(s("amount")),
            source: Source::NullIfZero {
                counter: counter(false, sum, "amt"),
                value: value(false, sum, "amt"),
            },
        }]
    );
    assert_eq!(unset, vec![Name::GroupKey, value(false, sum, "amt"), counter(false, sum, "amt")]);
}

#[test]
fn private_and_public_names_differ() {
    assert_ne!(value(true, AggregateKind::Sum, "amount"), value(false, AggregateKind::Sum, "amount"));
    assert_ne!(
        value(false, AggregateKind::Sum, "count_x"),
        counter(false, AggregateKind::Sum, "x")
    );
    assert!(AggregateKind::Sum.tracks_counter());
    assert!(AggregateKind::Avg.tracks_counter());
    assert!(!AggregateKind::Count.tracks_counter());
    assert!(!AggregateKind::Min.tracks_counter());
}
