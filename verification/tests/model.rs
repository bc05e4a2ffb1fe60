use teo::action::ActionType;
use teo::field::{Field, FieldBuilder, FieldIndex, FieldType, ReadRule, Store, WriteRule};
use teo::model::{KeyRule, Model, ModelBuilder};

fn field(name: &str, field_type: FieldType) -> FieldBuilder {
    FieldBuilder::new(name, field_type)
}

fn order_builder() -> ModelBuilder {
    let mut b = ModelBuilder::new("Order");
    let mut id = field("id", FieldType::Int64);
    id.primary = true;
    id.index = FieldIndex::Unique;
    id.write_rule = WriteRule::NoWrite;
    let mut customer = field("customerId", FieldType::Int64);
    customer.index = FieldIndex::Index;
    let amount = field("amount", FieldType::Int64);
    let mut note = field("note", FieldType::String);
    note.optional = true;
    note.column_name = "remark".to_string();
    let mut secret = field("secret", FieldType::String);
    secret.read_rule = ReadRule::NoRead;
    let mut total = field("total", FieldType::Int64);
    total.store = Store::Calculated;
    let mut scratch = field("scratch", FieldType::Int64);
    scratch.store = Store::Temp;
    b.fields = vec![id, customer, amount, note, secret, total, scratch];
    b.actions = vec![ActionType::FindMany, ActionType::GroupBy];
    b.identity = true;
    b.description = "An order.".to_string();
    b
}

#[test]
fn table_name_defaults_to_lowercase_plural() {
    let m = Model::new(&order_builder());
    assert_eq!(m.name(), "Order");
    assert_eq!(m.table_name(), "orders");
}

#[test]
fn table_name_follows_the_plural_rules() {
    let m = Model::new(&ModelBuilder::new("Category"));
    assert_eq!(m.table_name(), "categories");
    let m = Model::new(&ModelBuilder::new("Box"));
    assert_eq!(m.table_name(), "boxes");
}

#[test]
fn url_segment_defaults_to_kebab_plural() {
    let m = Model::new(&ModelBuilder::new("UserProfile"));
    assert_eq!(m.url_segment_name(), "user-profiles");
    assert_eq!(m.table_name(), "userprofiles");
}

#[test]
fn given_names_override_the_defaults() {
    let mut b = ModelBuilder::new("Order");
    b.table_name = "purchase".to_string();
    b.url_segment_name = "buy".to_string();
    b.localized_name = "Bestellung".to_string();
    let m = Model::new(&b);
    assert_eq!(m.table_name(), "purchase");
    assert_eq!(m.url_segment_name(), "buy");
    assert_eq!(m.localized_name(), "Bestellung");
}

#[test]
fn column_defaults_to_snake_case() {
    let f = Field::new(&field("customerId", FieldType::Int64));
    assert_eq!(f.name(), "customerId");
    assert_eq!(f.column_name(), "customer_id");
}

#[test]
fn column_can_be_overridden() {
    let m = Model::new(&order_builder());
    let note = m.field("note").unwrap();
    assert_eq!(note.column_name(), "remark");
    assert!(note.is_optional());
    assert_eq!(note.field_type(), FieldType::String);
}

#[test]
fn field_lookup_by_name() {
    let m = Model::new(&order_builder());
    assert_eq!(m.field_position("amount"), Some(2));
    assert_eq!(m.field("amount").unwrap().name(), "amount");
    assert!(m.field("missing").is_none());
    assert_eq!(m.field_position("missing"), None);
    assert_eq!(m.fields().len(), 7);
}

#[test]
fn field_lookup_takes_the_last_of_equal_names() {
    let mut b = ModelBuilder::new("Twice");
    b.fields = vec![field("a", FieldType::Int32), field("a", FieldType::String)];
    let m = Model::new(&b);
    assert_eq!(m.field_position("a"), Some(1));
    assert_eq!(m.field("a").unwrap().field_type(), FieldType::String);
    assert!(!m.is_well_named());
}

#[test]
fn primary_and_index_fields() {
    let m = Model::new(&order_builder());
    assert_eq!(m.primary_field().unwrap().name(), "id");
    let indexed: Vec<String> = m.index_fields().iter().map(|f| f.name().clone()).collect();
    assert_eq!(indexed, vec!["id".to_string(), "customerId".to_string()]);
    assert!(m.is_well_named());
    let none = Model::new(&ModelBuilder::new("Empty"));
    assert!(none.primary_field().is_none());
    assert!(none.index_fields().is_empty());
    assert!(none.is_well_named());
}

#[test]
fn two_primary_fields_are_not_well_named() {
    let mut b = ModelBuilder::new("Two");
    let mut x = field("x", FieldType::Int32);
    x.primary = true;
    let mut y = field("y", FieldType::Int32);
    y.primary = true;
    b.fields = vec![x, y];
    let m = Model::new(&b);
    assert!(!m.is_well_named());
    assert_eq!(m.primary_field().unwrap().name(), "y");
}

#[test]
fn equal_columns_are_not_well_named() {
    let mut b = ModelBuilder::new("Two");
    let mut y = field("y", FieldType::Int32);
    y.column_name = "x".to_string();
    b.fields = vec![field("x", FieldType::Int32), y];
    assert!(!Model::new(&b).is_well_named());
}

#[test]
fn key_lists_follow_the_rules() {
    let b = order_builder();
    let m = Model::new(&b);
    let names = |v: &Vec<String>| v.iter().map(|s| s.as_str().to_string()).collect::<Vec<_>>();
    assert_eq!(
        names(m.input_keys()),
        vec!["customerId", "amount", "note", "secret", "total", "scratch"]
    );
    assert_eq!(names(m.save_keys()), vec!["id", "customerId", "amount", "note", "secret"]);
    assert_eq!(
        names(m.output_keys()),
        vec!["id", "customerId", "amount", "note", "total", "scratch"]
    );
    assert_eq!(
        names(m.get_value_keys()),
        vec!["id", "customerId", "amount", "note", "secret", "total", "scratch"]
    );
    assert_eq!(Model::allowed_input_keys(&b), *m.input_keys());
    assert_eq!(Model::allowed_save_keys(&b), *m.save_keys());
    assert_eq!(Model::allowed_output_keys(&b), *m.output_keys());
    assert_eq!(Model::get_get_value_keys(&b), *m.get_value_keys());
    assert_eq!(b.keys(KeyRule::Save), *m.save_keys());
}

#[test]
fn actions_and_flags() {
    let m = Model::new(&order_builder());
    assert!(m.has_action(ActionType::FindMany));
    assert!(m.has_action(ActionType::GroupBy));
    assert!(!m.has_action(ActionType::Delete));
    assert!(m.identity());
    assert_eq!(m.description(), "An order.");
}

#[test]
fn numeric_and_text_types() {
    assert!(FieldType::Int32.is_numeric());
    assert!(FieldType::Decimal.is_numeric());
    assert!(FieldType::Float64.is_numeric());
    assert!(!FieldType::String.is_numeric());
    assert!(!FieldType::Bool.is_numeric());
    assert!(FieldType::String.is_text());
    assert!(!FieldType::Date.is_text());
}
