use teo::field::FieldType;
use teo::outline::{
    members_of_slots, type_index, Class, ClassKind, EnumDef, Field, FieldKind, Graph, ModelDef,
    Outline, Part, QueryKey, Relation, Slot, TypeLookup, Variant,
};

fn s(text: &str) -> String {
    text.to_string()
}

const TYPES: [&str; 10] = [
    "boolean", "number", "number", "number", "number", "Decimal", "string", "string", "Date",
    "string",
];

fn lookup() -> TypeLookup {
    let mut result_types = vec![];
    let mut filter_types = vec![];
    let mut create_types = vec![];
    for t in TYPES {
        for optional in [false, true] {
            let tail = if optional { " | null" } else { "" };
            result_types.push(format!("{}{}", t, tail));
            filter_types.push(format!("{}Filter<{}>", if optional { "Nullable" } else { "" }, t));
            create_types.push(format!("{}{}", t, tail));
        }
    }
    TypeLookup { result_types, filter_types, create_types, vec_prefix: s(""), vec_suffix: s("[]") }
}

fn slot(name: &str, field_type: FieldType, optional: bool, property: bool) -> Slot<String> {
    Slot {
        name: s(name),
        localized_name: format!("The {}", name),
        description: format!("About {}.", name),
        field_type,
        optional,
        property,
    }
}

fn relation(name: &str, model: &str, is_vec: bool, optional: bool) -> Relation<String> {
    Relation {
        name: s(name),
        model: s(model),
        localized_name: format!("The {}", name),
        description: s(""),
        is_vec,
        optional,
    }
}

fn member(name: &str, docs: &str, field_type: &str, optional: bool, kind: FieldKind) -> Field<String> {
    Field {
        name: s(name),
        localized_name: format!("The {}", name),
        docs: s(docs),
        field_type: s(field_type),
        optional,
        kind,
    }
}

fn user() -> ModelDef {
    let id = slot("id", FieldType::Int64, false, false);
    let email = slot("email", FieldType::String, false, false);
    let nick = slot("nick", FieldType::String, true, false);
    let age = slot("age", FieldType::Int32, true, true);
    ModelDef {
        name: s("UserProfile"),
        localized_name: s("User"),
        description: s("A user."),
        outputs: vec![id.clone(), email.clone(), nick.clone(), age],
        relations: vec![relation("posts", "Post", true, false), relation("boss", "UserProfile", false, true)],
        queries: vec![
            QueryKey::Field(id.clone()),
            QueryKey::Field(nick.clone()),
            QueryKey::Relation(relation("posts", "Post", true, false)),
            QueryKey::Relation(relation("boss", "UserProfile", false, true)),
        ],
        uniques: vec![id.clone(), email.clone(), email.clone(), id.clone()],
        sorts: vec![id.clone(), id, nick],
    }
}

#[test]
fn types_have_their_places() {
    assert_eq!(type_index(FieldType::Bool, false), 0);
    assert_eq!(type_index(FieldType::Bool, true), 1);
    assert_eq!(type_index(FieldType::String, false), 12);
    assert_eq!(type_index(FieldType::Enum, true), 19);
    let t = lookup();
    assert!(t.is_complete());
    assert_eq!(t.field_type_to_result_type(FieldType::Date, true), "string | null");
    assert_eq!(t.field_type_to_filter_type(FieldType::Int32, true), "NullableFilter<number>");
    assert_eq!(t.field_type_to_create_type(FieldType::Decimal, false), "Decimal");
    assert_eq!(t.generated_type_to_vec("Post"), "Post[]");
    let mut short = lookup();
    short.filter_types.pop();
    assert!(!short.is_complete());
}

#[test]
fn an_enum_is_one_class() {
    let sex = EnumDef {
        name: s("Sex"),
        localized_name: s("Sex"),
        description: s(""),
        variants: vec![
            Variant { name: s("MALE"), localized_name: s("Male"), description: s("") },
            Variant { name: s("FEMALE"), localized_name: s("Female"), description: s("A woman.") },
        ],
    };
    let outline = Outline::new(&Graph { enums: vec![sex], models: vec![] }, &lookup(), true);
    let variant = |name: &str, localized: &str, docs: &str| Field {
        name: s(name),
        localized_name: s(localized),
        docs: s(docs),
        field_type: s(""),
        optional: false,
        kind: FieldKind::EnumVariant,
    };
    assert_eq!(
        outline.classes,
        vec![Class {
            model_name: s("Sex"),
            localized_name: s("Sex"),
            name_suffix: s(""),
            docs: s(""),
            kind: ClassKind::Enum,
            fields: vec![variant("MALE", "Male", ""), variant("FEMALE", "Female", "A woman.")],
        }]
    );
}

#[test]
fn a_model_is_six_classes() {
    let graph = Graph { enums: vec![], models: vec![user()] };
    let outline = Outline::new(&graph, &lookup(), true);
    let input = |suffix: &str, docs: &str, kind: ClassKind, fields: Vec<Field<String>>| Class {
        model_name: s("UserProfile"),
        localized_name: s(""),
        name_suffix: s(suffix),
        docs: s(docs),
        kind,
        fields,
    };
    let f = FieldKind::Field;
    let r = FieldKind::Relation;
    let expected = vec![
        Class {
            model_name: s("UserProfile"),
            localized_name: s("User"),
            name_suffix: s(""),
            docs: s("A user."),
            kind: ClassKind::DataOutput,
            fields: vec![
                member("id", "About id.", "number", false, f),
                member("email", "About email.", "string", false, f),
                member("nick", "About nick.", "string", true, f),
                member("age", "About age.", "number | null", true, FieldKind::Property),
                member("posts", "", "Post[]", false, r),
                member("boss", "", "boss", true, r),
            ],
        },
        input(
            "Select",
            "Select fields from the user profile model.",
            ClassKind::SelectInput,
            vec![
                member("id", "About id.", "number", false, f),
                member("email", "About email.", "string", false, f),
                member("nick", "About nick.", "string", true, f),
            ],
        ),
        input(
            "Include",
            "Include relations of the user profile model.",
            ClassKind::IncludeInput,
            vec![
                member("posts", "", "PostFindManyArgs", true, r),
                member("boss", "", "UserProfileArgs", true, r),
            ],
        ),
        input(
            "WhereInput",
            "UserProfile filter.",
            ClassKind::WhereInput,
            vec![
                member("id", "About id.", "Filter<number>", true, f),
                member("nick", "About nick.", "NullableFilter<string>", true, f),
                member("posts", "", "PostListRelationFilter", true, r),
                member("boss", "", "UserProfileRelationFilter", true, r),
            ],
        ),
        input(
            "WhereUniqueInput",
            "UserProfile unique filter.",
            ClassKind::WhereUniqueInput,
            vec![
                member("id", "About id.", "number", true, f),
                member("email", "About email.", "string", true, f),
                member("id", "About id.", "number", true, f),
            ],
        ),
        input(
            "OrderByInput",
            "UserProfile order by input.",
            ClassKind::OrderByInput,
            vec![
                member("id", "About id.", "SortOrder", true, f),
                member("nick", "About nick.", "SortOrder", true, f),
            ],
        ),
    ];
    assert_eq!(outline.classes, expected);
}

#[test]
fn a_model_without_relations_has_nothing_to_include() {
    let mut m = user();
    m.relations = vec![];
    m.queries.truncate(2);
    let graph = Graph { enums: vec![], models: vec![m.clone(), m] };
    let outline = Outline::new(&graph, &lookup(), true);
    let kinds: Vec<ClassKind> = outline.classes.iter().map(|c| c.kind).collect();
    let five = [
        ClassKind::DataOutput,
        ClassKind::SelectInput,
        ClassKind::WhereInput,
        ClassKind::WhereUniqueInput,
        ClassKind::OrderByInput,
    ];
    assert_eq!(kinds, [five, five].concat());
}

#[test]
fn relations_can_be_left_out_of_the_data() {
    let graph = Graph { enums: vec![], models: vec![user()] };
    let outline = Outline::new(&graph, &lookup(), false);
    assert_eq!(outline.classes.len(), 6);
    assert_eq!(outline.classes[0].fields.len(), 4);
    assert_eq!(outline.classes[2].kind, ClassKind::IncludeInput);
}

#[test]
fn properties_cannot_be_selected() {
    let slots = vec![
        slot("a", FieldType::Bool, false, true),
        slot("b", FieldType::Bool, true, false),
    ];
    let selected = members_of_slots(Part::Select, &slots, &lookup());
    assert_eq!(selected, vec![member("b", "About b.", "boolean", true, FieldKind::Field)]);
    let shown = members_of_slots(Part::Output, &slots, &lookup());
    assert_eq!(
        shown,
        vec![
            member("a", "About a.", "boolean", false, FieldKind::Property),
            member("b", "About b.", "boolean", true, FieldKind::Field),
        ]
    );
}
