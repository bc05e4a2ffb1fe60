use teo::error::ErrorKind;
use teo::field::{FieldBuilder, FieldType};
use teo::model::{Model, ModelBuilder};
use teo::name::{AggregateKind, Name};
use teo::plan::Stage;
use teo::predicate::{check_fits, is_compatible, translate, Check, Comparison, Literal, Predicate};
use teo::query::{build_query_pipeline, QueryDescriptor};
use teo::aggregate::{Aggregate, Target};

fn s(text: &str) -> String {
    text.to_string()
}

fn user_model() -> Model {
    let mut b = ModelBuilder::new("User");
    b.fields = vec![
        FieldBuilder::new("firstName", FieldType::String),
        FieldBuilder::new("age", FieldType::Int32),
        FieldBuilder::new("active", FieldType::Bool),
        FieldBuilder::new("joinedAt", FieldType::Date),
    ];
    Model::new(&b)
}

fn on(field: &str, check: Check) -> Predicate {
    Predicate::Test { name: Name::Field(s(field)), entry: None, check }
}

fn at(column: &str, check: Check) -> Predicate {
    Predicate::Test { name: Name::Column(s(column)), entry: None, check }
}

#[test]
fn fields_become_columns() {
    let m = user_model();
    let p = Predicate::And(
        Box::new(on("firstName", Check::Matches { pattern: s("^jo"), case_insensitive: true })),
        Box::new(Predicate::Or(
            Box::new(on("age", Check::Compare(Comparison::Gte, Literal::Int(18)))),
            Box::new(Predicate::Not(Box::new(on("active", Check::IsNull)))),
        )),
    );
    let q = translate(&p, &m).unwrap();
    let expected = Predicate::And(
        Box::new(at("first_name", Check::Matches { pattern: s("^jo"), case_insensitive: true })),
        Box::new(Predicate::Or(
            Box::new(at("age", Check::Compare(Comparison::Gte, Literal::Int(18)))),
            Box::new(Predicate::Not(Box::new(at("active", Check::IsNull)))),
        )),
    );
    assert_eq!(q, expected);
}

#[test]
fn set_membership_is_translated() {
    let m = user_model();
    let p = on("age", Check::OneOf(vec![Literal::Int(1), Literal::Null, Literal::Int(3)]));
    let q = translate(&p, &m).unwrap();
    assert_eq!(q, at("age", Check::OneOf(vec![Literal::Int(1), Literal::Null, Literal::Int(3)])));
}

#[test]
fn unknown_field_in_predicate() {
    let m = user_model();
    let p = Predicate::Or(
        Box::new(on("age", Check::IsNull)),
        Box::new(on("height", Check::IsNull)),
    );
    assert_eq!(translate(&p, &m), Err(ErrorKind::UnknownField(s("height"))));
}

#[test]
fn pattern_on_a_number_is_a_type_mismatch() {
    let m = user_model();
    let p = on("age", Check::Matches { pattern: s("1.*"), case_insensitive: false });
    assert_eq!(translate(&p, &m), Err(ErrorKind::TypeMismatch(s("age"))));
}

#[test]
fn text_against_a_number_is_a_type_mismatch() {
    let m = user_model();
    let p = on("age", Check::Compare(Comparison::Eq, Literal::Text(s("old"))));
    assert_eq!(translate(&p, &m), Err(ErrorKind::TypeMismatch(s("age"))));
    let p = on("age", Check::OneOf(vec![Literal::Int(1), Literal::Bool(true)]));
    assert_eq!(translate(&p, &m), Err(ErrorKind::TypeMismatch(s("age"))));
}

#[test]
fn the_leftmost_refusal_is_reported() {
    let m = user_model();
    let p = Predicate::And(
        Box::new(on("active", Check::Compare(Comparison::Eq, Literal::Int(1)))),
        Box::new(on("nowhere", Check::IsNull)),
    );
    assert_eq!(translate(&p, &m), Err(ErrorKind::TypeMismatch(s("active"))));
}

#[test]
fn compatibility_of_literals() {
    assert!(is_compatible(FieldType::Bool, &Literal::Bool(true)));
    assert!(!is_compatible(FieldType::Bool, &Literal::Int(1)));
    assert!(is_compatible(FieldType::Decimal, &Literal::Int(1)));
    assert!(is_compatible(FieldType::Date, &Literal::Text(s("2005-12-25"))));
    assert!(is_compatible(FieldType::Enum, &Literal::Text(s("FEMALE"))));
    assert!(!is_compatible(FieldType::Int64, &Literal::Text(s("1"))));
    assert!(is_compatible(FieldType::Int64, &Literal::Null));
    assert!(check_fits(FieldType::Date, &Check::IsNull));
    assert!(!check_fits(FieldType::Date, &Check::Matches { pattern: s("x"), case_insensitive: false }));
}

#[test]
fn other_names_pass_through() {
    let m = user_model();
    let p = Predicate::Test {
        name: Name::Result { private: true, kind: AggregateKind::Sum },
        entry: Some(s("age")),
        check: Check::Compare(Comparison::Gt, Literal::Int(3)),
    };
    let q = translate(&p, &m).unwrap();
    assert_eq!(q, p);
    assert_eq!(translate(&Predicate::Always, &m), Ok(Predicate::Always));
}

#[test]
fn where_comes_first_in_the_pipeline() {
    let m = user_model();
    let mut d = QueryDescriptor::new();
    d.predicate = Some(on("age", Check::Compare(Comparison::Lt, Literal::Int(30))));
    d.aggregates = Some(vec![Aggregate { kind: AggregateKind::Count, target: Target::All }]);
    d.skip = Some(3);
    let plan = build_query_pipeline(&m, &d, &None).unwrap();
    assert_eq!(plan.len(), 5);
    assert_eq!(plan[0], Stage::Match(at("age", Check::Compare(Comparison::Lt, Literal::Int(30)))));
    assert_eq!(plan[1], Stage::Skip(3));
    assert!(matches!(plan[2], Stage::Group { .. }));
    assert!(matches!(plan[3], Stage::Project(_)));
    assert!(matches!(plan[4], Stage::RemoveFields(_)));
}

#[test]
fn refusals_of_the_predicate_come_first() {
    let m = user_model();
    let mut d = QueryDescriptor::new();
    d.predicate = Some(on("height", Check::IsNull));
    d.page_number = Some(0);
    assert_eq!(build_query_pipeline(&m, &d, &None), Err(ErrorKind::UnknownField(s("height"))));
    d.predicate = None;
    d.having = Some(vec![]);
    assert_eq!(build_query_pipeline(&m, &d, &None), Err(ErrorKind::InvalidPage));
    d.page_number = None;
    assert_eq!(build_query_pipeline(&m, &d, &None), Err(ErrorKind::HavingWithoutGrouping));
}

#[test]
fn errors_tell_who_is_at_fault() {
    assert!(ErrorKind::InvalidPage.is_bad_request());
    assert!(ErrorKind::CursorNotFound.is_bad_request());
    assert!(ErrorKind::UnknownField(s("x")).is_bad_request());
    assert!(!ErrorKind::UnsupportedConstruct.is_bad_request());
    assert_eq!(ErrorKind::TypeMismatch(s("x")).field(), Some(&s("x")));
    assert_eq!(ErrorKind::NonAggregatableType(s("y")).field(), Some(&s("y")));
    assert_eq!(ErrorKind::HavingWithoutGrouping.field(), None);
}
