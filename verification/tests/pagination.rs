use teo::error::ErrorKind;
use teo::name::Name;
use teo::page::{comes_before, paginate, RowCursor};
use teo::pagination::{
    cursor_condition, has_negative_take, resolve_window, Anchor, Cursor, CursorDirection, Window,
};
use teo::plan::{Direction, SortKey, Stage};
use teo::predicate::{Check, Comparison, Literal, Predicate};
use teo::field::{FieldBuilder, FieldType};
use teo::model::{Model, ModelBuilder};
use teo::query::{build_query_pipeline, Order, QueryDescriptor};

fn s(text: &str) -> String {
    text.to_string()
}

fn post_model() -> Model {
    let mut b = ModelBuilder::new("Post");
    b.fields = vec![
        FieldBuilder::new("id", FieldType::Int64),
        FieldBuilder::new("createdAt", FieldType::Int64),
        FieldBuilder::new("title", FieldType::String),
    ];
    Model::new(&b)
}

fn five_rows() -> Vec<Vec<Option<i64>>> {
    vec![vec![Some(1)], vec![Some(2)], vec![Some(3)], vec![Some(4)], vec![Some(5)]]
}

#[test]
fn page_number_zero_is_invalid() {
    assert_eq!(resolve_window(None, None, Some(10), Some(0)), Err(ErrorKind::InvalidPage));
    assert_eq!(resolve_window(None, None, Some(10), Some(-3)), Err(ErrorKind::InvalidPage));
    assert_eq!(resolve_window(Some(5), Some(1), None, Some(0)), Err(ErrorKind::InvalidPage));
}

#[test]
fn page_two_of_ten_is_skip_ten_take_ten() {
    let page = resolve_window(None, None, Some(10), Some(2)).unwrap();
    let offset = resolve_window(Some(10), Some(10), None, None).unwrap();
    assert_eq!(page, offset);
    assert_eq!(page, Window { reversed: false, skip: 10, limit: Some(10) });
}

#[test]
fn first_page_is_the_default() {
    let page = resolve_window(None, None, Some(25), None).unwrap();
    assert_eq!(page, Window { reversed: false, skip: 0, limit: Some(25) });
    let one = resolve_window(None, None, Some(25), Some(1)).unwrap();
    assert_eq!(page, one);
}

#[test]
fn largest_page_does_not_overflow() {
    let page = resolve_window(None, None, Some(u32::MAX), Some(i32::MAX)).unwrap();
    assert_eq!(page.skip, (u32::MAX as u64) * ((i32::MAX as u64) - 1));
    assert_eq!(page.limit, Some(u32::MAX as u64));
}

#[test]
fn offset_defaults() {
    let w = resolve_window(None, None, None, None).unwrap();
    assert_eq!(w, Window { reversed: false, skip: 0, limit: None });
    let w = resolve_window(None, Some(7), None, None).unwrap();
    assert_eq!(w, Window { reversed: false, skip: 7, limit: None });
}

#[test]
fn negative_take_reverses() {
    let w = resolve_window(Some(-2), Some(1), None, None).unwrap();
    assert_eq!(w, Window { reversed: true, skip: 1, limit: Some(2) });
    let w = resolve_window(Some(i32::MIN), None, None, None).unwrap();
    assert_eq!(w, Window { reversed: true, skip: 0, limit: Some(2147483648) });
    assert!(has_negative_take(Some(-1)));
    assert!(!has_negative_take(Some(0)));
    assert!(!has_negative_take(None));
}

#[test]
fn take_minus_two_before_row_four_returns_rows_two_and_three() {
    let rows = five_rows();
    let window = resolve_window(Some(-2), None, None, None).unwrap();
    let cursor = Some(RowCursor { anchor: vec![Some(4)], inclusive: false, back: false });
    let page = paginate(&rows, &vec![Direction::Asc], &cursor, &window);
    assert_eq!(page, vec![1, 2]);
    let values: Vec<Option<i64>> = page.iter().map(|i| rows[*i][0]).collect();
    assert_eq!(values, vec![Some(2), Some(3)]);
}

#[test]
fn inclusive_cursor_keeps_the_anchor_and_bounds_the_page() {
    let rows = five_rows();
    let window = resolve_window(Some(2), None, None, None).unwrap();
    let cursor = Some(RowCursor { anchor: vec![Some(3)], inclusive: true, back: false });
    let page = paginate(&rows, &vec![Direction::Asc], &cursor, &window);
    assert_eq!(page, vec![2, 3]);
    let all = resolve_window(None, None, None, None).unwrap();
    let page = paginate(&rows, &vec![Direction::Asc], &cursor, &all);
    assert_eq!(page, vec![2, 3, 4]);
    let strict = Some(RowCursor { anchor: vec![Some(3)], inclusive: false, back: false });
    let page = paginate(&rows, &vec![Direction::Asc], &strict, &all);
    assert_eq!(page, vec![3, 4]);
}

#[test]
fn cursor_that_looks_back() {
    let rows = five_rows();
    let window = resolve_window(Some(2), None, None, None).unwrap();
    let cursor = Some(RowCursor { anchor: vec![Some(4)], inclusive: false, back: true });
    let page = paginate(&rows, &vec![Direction::Asc], &cursor, &window);
    assert_eq!(page, vec![0, 1]);
}

#[test]
fn window_without_cursor() {
    let rows = five_rows();
    let w = Window { reversed: false, skip: 1, limit: Some(3) };
    assert_eq!(paginate(&rows, &vec![Direction::Asc], &None, &w), vec![1, 2, 3]);
    let w = Window { reversed: true, skip: 1, limit: Some(3) };
    assert_eq!(paginate(&rows, &vec![Direction::Asc], &None, &w), vec![1, 2, 3]);
    let w = Window { reversed: true, skip: 0, limit: Some(2) };
    assert_eq!(paginate(&rows, &vec![Direction::Asc], &None, &w), vec![3, 4]);
    let w = Window { reversed: false, skip: 9, limit: Some(2) };
    assert_eq!(paginate(&rows, &vec![Direction::Asc], &None, &w), Vec::<usize>::new());
    let w = Window { reversed: false, skip: 4, limit: Some(u64::MAX) };
    assert_eq!(paginate(&rows, &vec![Direction::Asc], &None, &w), vec![4]);
    let w = Window { reversed: false, skip: 0, limit: Some(0) };
    assert_eq!(paginate(&rows, &vec![Direction::Asc], &None, &w), Vec::<usize>::new());
}

#[test]
fn tuples_compare_component_by_component() {
    let dirs = vec![Direction::Asc, Direction::Desc];
    assert!(comes_before(&vec![Some(1), Some(5)], &vec![Some(2), Some(9)], &dirs));
    assert!(comes_before(&vec![Some(1), Some(9)], &vec![Some(1), Some(5)], &dirs));
    assert!(!comes_before(&vec![Some(1), Some(5)], &vec![Some(1), Some(9)], &dirs));
    assert!(!comes_before(&vec![Some(1), Some(5)], &vec![Some(1), Some(5)], &dirs));
    assert!(comes_before(&vec![None, Some(5)], &vec![Some(i64::MIN), Some(5)], &dirs));
    assert!(comes_before(&vec![Some(1), Some(5)], &vec![Some(1), None], &dirs));
}

#[test]
fn mixed_directions_with_cursor() {
    // ordered by the first value ascending, then by the second descending
    let rows = vec![
        vec![Some(1), Some(9)],
        vec![Some(1), Some(4)],
        vec![Some(2), Some(7)],
        vec![Some(2), Some(7)],
        vec![Some(2), Some(1)],
    ];
    let dirs = vec![Direction::Asc, Direction::Desc];
    let all = Window { reversed: false, skip: 0, limit: None };
    let cursor = Some(RowCursor { anchor: vec![Some(2), Some(7)], inclusive: false, back: false });
    assert_eq!(paginate(&rows, &dirs, &cursor, &all), vec![4]);
    let cursor = Some(RowCursor { anchor: vec![Some(2), Some(7)], inclusive: true, back: false });
    assert_eq!(paginate(&rows, &dirs, &cursor, &all), vec![2, 3, 4]);
    let cursor = Some(RowCursor { anchor: vec![Some(1), Some(4)], inclusive: false, back: true });
    assert_eq!(paginate(&rows, &dirs, &cursor, &all), vec![0]);
}

fn column(name: &str, direction: Direction) -> SortKey<String> {
    SortKey { name: Name::Column(s(name)), direction }
}

fn test(name: &str, op: Comparison, value: i64) -> Predicate {
    Predicate::Test {
        name: Name::Column(s(name)),
        entry: None,
        check: Check::Compare(op, Literal::Int(value)),
    }
}

#[test]
fn cursor_condition_honours_each_direction() {
    let order = vec![column("a", Direction::Asc), column("b", Direction::Desc)];
    let p = cursor_condition(&order, &vec![Literal::Int(1), Literal::Int(2)], true);
    let expected = Predicate::Or(
        Box::new(test("a", Comparison::Gt, 1)),
        Box::new(Predicate::And(
            Box::new(test("a", Comparison::Eq, 1)),
            Box::new(Predicate::Or(
                Box::new(test("b", Comparison::Lt, 2)),
                Box::new(Predicate::And(
                    Box::new(test("b", Comparison::Eq, 2)),
                    Box::new(Predicate::Always),
                )),
            )),
        )),
    );
    assert_eq!(p, expected);
    let strict = cursor_condition(&vec![], &vec![], false);
    assert_eq!(strict, Predicate::Not(Box::new(Predicate::Always)));
}

fn descriptor() -> QueryDescriptor {
    let mut d = QueryDescriptor::new();
    d.order_by = vec![Order { field: s("createdAt"), direction: Direction::Asc }];
    d
}

#[test]
fn pipeline_of_a_reversed_cursor_page() {
    let m = post_model();
    let mut d = descriptor();
    d.take = Some(-2);
    d.cursor = Some(Cursor {
        key: Literal::Int(4),
        direction: CursorDirection::After,
        inclusive: false,
    });
    let anchor = Some(Anchor { matches: 1, tuple: vec![Literal::Int(40)] });
    let plan = build_query_pipeline(&m, &d, &anchor).unwrap();
    let expected = vec![
        Stage::Match(Predicate::Or(
            Box::new(test("created_at", Comparison::Lt, 40)),
            Box::new(Predicate::And(
                Box::new(test("created_at", Comparison::Eq, 40)),
                Box::new(Predicate::Not(Box::new(Predicate::Always))),
            )),
        )),
        Stage::Sort(vec![column("created_at", Direction::Desc)]),
        Stage::Limit(2),
    ];
    assert_eq!(plan, expected);
}

#[test]
fn pipeline_of_a_page() {
    let m = post_model();
    let mut d = descriptor();
    d.page_size = Some(10);
    d.page_number = Some(2);
    let plan = build_query_pipeline(&m, &d, &None).unwrap();
    assert_eq!(
        plan,
        vec![
            Stage::Sort(vec![column("created_at", Direction::Asc)]),
            Stage::Skip(10),
            Stage::Limit(10),
        ]
    );
    let mut e = descriptor();
    e.skip = Some(10);
    e.take = Some(10);
    assert_eq!(build_query_pipeline(&m, &e, &None).unwrap(), plan);
    d.page_number = Some(0);
    assert_eq!(build_query_pipeline(&m, &d, &None), Err(ErrorKind::InvalidPage));
}

#[test]
fn cursor_must_resolve_to_one_row() {
    let m = post_model();
    let mut d = descriptor();
    d.cursor = Some(Cursor {
        key: Literal::Int(4),
        direction: CursorDirection::After,
        inclusive: true,
    });
    assert_eq!(build_query_pipeline(&m, &d, &None), Err(ErrorKind::CursorNotFound));
    let none = Some(Anchor { matches: 0, tuple: vec![] });
    assert_eq!(build_query_pipeline(&m, &d, &none), Err(ErrorKind::CursorNotFound));
    let two = Some(Anchor { matches: 2, tuple: vec![Literal::Int(1)] });
    assert_eq!(build_query_pipeline(&m, &d, &two), Err(ErrorKind::CursorNotFound));
    let short = Some(Anchor { matches: 1, tuple: vec![] });
    assert_eq!(build_query_pipeline(&m, &d, &short), Err(ErrorKind::CursorNotFound));
    let one = Some(Anchor { matches: 1, tuple: vec![Literal::Int(1)] });
    assert!(build_query_pipeline(&m, &d, &one).is_ok());
}

#[test]
fn unknown_order_field_is_refused() {
    let m = post_model();
    let mut d = QueryDescriptor::new();
    d.order_by = vec![
        Order { field: s("id"), direction: Direction::Desc },
        Order { field: s("rank"), direction: Direction::Asc },
    ];
    assert_eq!(build_query_pipeline(&m, &d, &None), Err(ErrorKind::UnknownField(s("rank"))));
}

#[test]
fn empty_descriptor_has_an_empty_plan() {
    let m = post_model();
    assert_eq!(build_query_pipeline(&m, &QueryDescriptor::new(), &None), Ok(vec![]));
}
