use teo::aggregate::{Aggregate, Having, Matcher, Request, Target};
use teo::error::ErrorKind;
use teo::evaluate::{accumulate, report, Outcome};
use teo::field::{FieldBuilder, FieldType};
use teo::groups::{group_rows, having_filter, run_aggregation, satisfies, shaped_rows, GroupRow};
use teo::aggregate::resolve_aggregation;
use teo::order::{is_keyed, sort_groups};
use teo::model::{Model, ModelBuilder};
use teo::name::AggregateKind;
use teo::plan::Accumulator;
use teo::predicate::Comparison;

fn s(text: &str) -> String {
    text.to_string()
}

fn order_model() -> Model {
    let mut b = ModelBuilder::new("Order");
    b.fields = vec![
        FieldBuilder::new("customerId", FieldType::Int64),
        FieldBuilder::new("amount", FieldType::Int64),
    ];
    Model::new(&b)
}

fn request(kind: AggregateKind) -> Request<String> {
    Request { private: false, kind, field: s("amount"), column: Some(s("amount")), slot: Some(1) }
}

fn all_rows() -> Request<String> {
    Request { private: false, kind: AggregateKind::Count, field: s("_all"), column: None, slot: None }
}

fn agg(kind: AggregateKind, field: &str) -> Aggregate<String> {
    Aggregate { kind, target: Target::Field(s(field)) }
}

fn having(kind: AggregateKind, op: Comparison, value: i64) -> Having<String> {
    Having { field: s("amount"), kind, matcher: Matcher { op, value } }
}

// customer A is 1, customer B is 2
const A: Option<i64> = Some(1);
const B: Option<i64> = Some(2);

#[test]
fn sum_over_nulls_is_null_not_zero() {
    assert_eq!(report(&request(AggregateKind::Sum), &vec![None, None, None]), Outcome::Null);
    assert_eq!(report(&request(AggregateKind::Sum), &vec![]), Outcome::Null);
    assert_eq!(report(&request(AggregateKind::Avg), &vec![None]), Outcome::Null);
    assert_eq!(report(&request(AggregateKind::Sum), &vec![None, Some(0)]), Outcome::Number(0));
    assert_eq!(
        accumulate(&Accumulator::Fold(AggregateKind::Sum, s("amount")), &vec![None, None]),
        Outcome::Number(0)
    );
}

#[test]
fn count_counts_values_that_are_not_null() {
    let values = vec![Some(5), None, Some(7), None, None];
    assert_eq!(report(&request(AggregateKind::Count), &values), Outcome::Number(2));
    assert_eq!(report(&all_rows(), &values), Outcome::Number(5));
    assert_eq!(report(&request(AggregateKind::Count), &vec![]), Outcome::Number(0));
    assert_eq!(report(&all_rows(), &vec![None, None]), Outcome::Number(2));
}

#[test]
fn sums_and_extremes() {
    let values = vec![Some(50), None, Some(-60), Some(7)];
    assert_eq!(report(&request(AggregateKind::Sum), &values), Outcome::Number(-3));
    assert_eq!(report(&request(AggregateKind::Min), &values), Outcome::Number(-60));
    assert_eq!(report(&request(AggregateKind::Max), &values), Outcome::Number(50));
    assert_eq!(report(&request(AggregateKind::Avg), &values), Outcome::Ratio { sum: -3, count: 3 });
    assert_eq!(report(&request(AggregateKind::Min), &vec![None]), Outcome::Null);
    assert_eq!(report(&request(AggregateKind::Max), &vec![]), Outcome::Null);
}

#[test]
fn sum_does_not_overflow() {
    let values = vec![Some(i64::MAX), Some(i64::MAX), Some(i64::MAX)];
    assert_eq!(
        report(&request(AggregateKind::Sum), &values),
        Outcome::Number(3 * (i64::MAX as i128))
    );
    let values = vec![Some(i64::MIN), Some(i64::MIN)];
    assert_eq!(
        report(&request(AggregateKind::Sum), &values),
        Outcome::Number(2 * (i64::MIN as i128))
    );
}

#[test]
fn matchers() {
    let gt = Matcher { op: Comparison::Gt, value: 100 };
    assert!(satisfies(&gt, &Outcome::Number(110)));
    assert!(!satisfies(&gt, &Outcome::Number(100)));
    assert!(!satisfies(&gt, &Outcome::Null));
    assert!(!satisfies(&Matcher { op: Comparison::Ne, value: 1 }, &Outcome::Null));
    assert!(satisfies(&Matcher { op: Comparison::Gte, value: 100 }, &Outcome::Number(100)));
    assert!(satisfies(&Matcher { op: Comparison::Lte, value: 100 }, &Outcome::Number(100)));
    assert!(satisfies(&Matcher { op: Comparison::Lt, value: 100 }, &Outcome::Number(-1)));
    assert!(satisfies(&Matcher { op: Comparison::Eq, value: 3 }, &Outcome::Number(3)));
    assert!(satisfies(&Matcher { op: Comparison::Ne, value: 3 }, &Outcome::Number(4)));
    // 7 / 2 is more than 3 and less than 4
    let half = Outcome::Ratio { sum: 7, count: 2 };
    assert!(satisfies(&Matcher { op: Comparison::Gt, value: 3 }, &half));
    assert!(satisfies(&Matcher { op: Comparison::Lt, value: 4 }, &half));
    assert!(!satisfies(&Matcher { op: Comparison::Eq, value: 3 }, &half));
    let far = Outcome::Ratio { sum: 0, count: u64::MAX };
    assert!(satisfies(&Matcher { op: Comparison::Gt, value: i64::MIN }, &far));
    assert!(satisfies(&Matcher { op: Comparison::Lt, value: i64::MAX }, &far));
}

#[test]
fn only_customer_a_passes_the_filter() {
    let m = order_model();
    let rows = vec![vec![A, Some(50)], vec![A, Some(60)], vec![B, Some(30)]];
    let groups = run_aggregation(
        &m,
        &Some(vec![s("customerId")]),
        &vec![agg(AggregateKind::Sum, "amount")],
        &Some(vec![having(AggregateKind::Sum, Comparison::Gt, 100)]),
        &rows,
    )
    .unwrap();
    assert_eq!(
        groups,
        vec![GroupRow { key: vec![A], private: vec![], results: vec![Outcome::Number(110)] }]
    );
}

#[test]
fn groups_without_filter() {
    let m = order_model();
    let rows = vec![
        vec![B, Some(30)],
        vec![A, Some(50)],
        vec![None, None],
        vec![A, None],
        vec![None, Some(4)],
        vec![B, None],
    ];
    let groups = run_aggregation(
        &m,
        &Some(vec![s("customerId")]),
        &vec![
            agg(AggregateKind::Sum, "amount"),
            agg(AggregateKind::Count, "amount"),
            Aggregate { kind: AggregateKind::Count, target: Target::All },
        ],
        &None,
        &rows,
    )
    .unwrap();
    let row = |key: Option<i64>, sum: i128| GroupRow {
        key: vec![key],
        private: vec![],
        results: vec![Outcome::Number(sum), Outcome::Number(1), Outcome::Number(2)],
    };
    assert_eq!(groups, vec![row(None, 4), row(A, 50), row(B, 30)]);
}

#[test]
fn a_group_of_nulls_reports_null() {
    let m = order_model();
    let rows = vec![vec![A, None], vec![B, Some(0)], vec![A, None]];
    let groups = run_aggregation(
        &m,
        &Some(vec![s("customerId")]),
        &vec![agg(AggregateKind::Sum, "amount"), agg(AggregateKind::Avg, "amount")],
        &None,
        &rows,
    )
    .unwrap();
    assert_eq!(groups[0].results, vec![Outcome::Null, Outcome::Null]);
    assert_eq!(
        groups[1].results,
        vec![Outcome::Number(0), Outcome::Ratio { sum: 0, count: 1 }]
    );
}

#[test]
fn aggregate_without_grouping_is_one_group() {
    let m = order_model();
    let rows = vec![vec![A, Some(50)], vec![B, Some(60)]];
    let groups =
        run_aggregation(&m, &None, &vec![agg(AggregateKind::Max, "amount")], &None, &rows).unwrap();
    assert_eq!(
        groups,
        vec![GroupRow { key: vec![], private: vec![], results: vec![Outcome::Number(60)] }]
    );
    let none = run_aggregation(&m, &None, &vec![agg(AggregateKind::Max, "amount")], &None, &vec![])
        .unwrap();
    assert!(none.is_empty());
}

#[test]
fn filter_only_drops_groups() {
    let m = order_model();
    let rows = vec![
        vec![A, Some(50)],
        vec![B, Some(30)],
        vec![A, Some(60)],
        vec![Some(3), Some(500)],
        vec![Some(4), None],
    ];
    let by = Some(vec![s("customerId")]);
    let wanted = vec![agg(AggregateKind::Count, "amount")];
    let all = run_aggregation(&m, &by, &wanted, &None, &rows).unwrap();
    let filter = Some(vec![
        having(AggregateKind::Sum, Comparison::Gt, 100),
        having(AggregateKind::Max, Comparison::Lt, 100),
    ]);
    let some = run_aggregation(&m, &by, &wanted, &filter, &rows).unwrap();
    assert_eq!(all.len(), 4);
    assert!(some.len() <= all.len());
    assert_eq!(
        some,
        vec![GroupRow { key: vec![A], private: vec![], results: vec![Outcome::Number(2)] }]
    );
    for g in &some {
        assert!(all.contains(g));
    }
}

#[test]
fn having_filter_judges_by_private_outcomes() {
    let entries = vec![having(AggregateKind::Sum, Comparison::Gt, 100)];
    let group = |key: i64, private: Outcome| GroupRow {
        key: vec![Some(key)],
        private: vec![private],
        results: vec![],
    };
    let groups = vec![
        group(1, Outcome::Number(110)),
        group(2, Outcome::Number(30)),
        group(3, Outcome::Null),
        group(4, Outcome::Number(101)),
    ];
    let kept = having_filter(&groups, &entries);
    assert_eq!(kept, vec![group(1, Outcome::Number(110)), group(4, Outcome::Number(101))]);
    // a group without the outcome of a condition does not pass
    let bare = vec![GroupRow { key: vec![], private: vec![], results: vec![] }];
    assert!(having_filter(&bare, &entries).is_empty());
    assert_eq!(having_filter(&bare, &vec![]), bare);
}

#[test]
fn evaluation_refuses_what_the_planner_refuses() {
    let m = order_model();
    let rows = vec![vec![A, Some(50)]];
    let r = run_aggregation(
        &m,
        &None,
        &vec![],
        &Some(vec![having(AggregateKind::Sum, Comparison::Gt, 100)]),
        &rows,
    );
    assert_eq!(r, Err(ErrorKind::HavingWithoutGrouping));
    let r = run_aggregation(&m, &Some(vec![s("x")]), &vec![], &None, &rows);
    assert_eq!(r, Err(ErrorKind::UnknownField(s("x"))));
}

#[test]
fn groups_come_in_the_order_of_first_occurrence_before_the_sort() {
    let m = order_model();
    let rows = vec![vec![B, Some(30)], vec![A, Some(50)], vec![None, None], vec![B, Some(1)]];
    assert!(shaped_rows(&rows, 2));
    assert!(!shaped_rows(&rows, 3));
    let x = resolve_aggregation(
        &m,
        &Some(vec![s("customerId")]),
        &vec![agg(AggregateKind::Sum, "amount")],
        &Some(vec![having(AggregateKind::Count, Comparison::Gt, 1)]),
    )
    .unwrap();
    assert!(x.is_within(2));
    assert!(!x.is_within(1));
    let groups = group_rows(&rows, &x, 2);
    let row = |key: Option<i64>, count: i128, sum: Outcome| GroupRow {
        key: vec![key],
        private: vec![Outcome::Number(count)],
        results: vec![sum],
    };
    assert_eq!(
        groups,
        vec![
            row(B, 2, Outcome::Number(31)),
            row(A, 1, Outcome::Number(50)),
            row(None, 0, Outcome::Null)
        ]
    );
}

#[test]
fn groups_are_sorted_by_key_with_null_first() {
    let group = |a: Option<i64>, b: Option<i64>| GroupRow {
        key: vec![a, b],
        private: vec![],
        results: vec![],
    };
    let groups = vec![
        group(Some(2), Some(1)),
        group(Some(1), Some(9)),
        group(None, Some(5)),
        group(Some(1), None),
        group(Some(2), Some(-1)),
        group(None, None),
    ];
    assert!(is_keyed(&groups, 2));
    assert!(!is_keyed(&groups, 1));
    assert!(is_keyed(&vec![], 7));
    let sorted = sort_groups(&groups, 2);
    assert_eq!(
        sorted,
        vec![
            group(None, None),
            group(None, Some(5)),
            group(Some(1), None),
            group(Some(1), Some(9)),
            group(Some(2), Some(-1)),
            group(Some(2), Some(1)),
        ]
    );
    assert_eq!(sort_groups(&vec![], 2), vec![]);
}

#[test]
fn groups_of_two_keys() {
    let mut b = ModelBuilder::new("Sale");
    b.fields = vec![
        FieldBuilder::new("region", FieldType::Int32),
        FieldBuilder::new("year", FieldType::Int32),
        FieldBuilder::new("amount", FieldType::Int64),
    ];
    let m = Model::new(&b);
    let rows = vec![
        vec![Some(2), Some(2021), Some(5)],
        vec![Some(1), Some(2022), Some(7)],
        vec![Some(2), Some(2021), Some(6)],
        vec![Some(1), Some(2021), None],
    ];
    let groups = run_aggregation(
        &m,
        &Some(vec![s("region"), s("year")]),
        &vec![agg(AggregateKind::Sum, "amount"), agg(AggregateKind::Min, "amount")],
        &None,
        &rows,
    )
    .unwrap();
    let row = |region: i64, year: i64, sum: Outcome, min: Outcome| GroupRow {
        key: vec![Some(region), Some(year)],
        private: vec![],
        results: vec![sum, min],
    };
    assert_eq!(
        groups,
        vec![
            row(1, 2021, Outcome::Null, Outcome::Null),
            row(1, 2022, Outcome::Number(7), Outcome::Number(7)),
            row(2, 2021, Outcome::Number(11), Outcome::Number(5)),
        ]
    );
}
