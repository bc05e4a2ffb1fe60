//! The outline of a generated client: the classes that a client generator writes out, one
//! for each enum and several for each model.

use vstd::prelude::*;
use vstd::string::StringExecFns;
use itertools::Itertools;
use crate::field::FieldType;
use crate::model::same_text;
use crate::text::{texts, words, words_of};

verus! {

/// What a class of the outline is for.
#[derive(Clone, Copy, Debug, PartialEq, Eq, Structural)]
pub enum ClassKind {
    Enum,
    DataOutput,
    SelectInput,
    IncludeInput,
    WhereInput,
    WhereUniqueInput,
    OrderByInput,
}

/// What a member of a class stands for.
#[derive(Clone, Copy, Debug, PartialEq, Eq, Structural)]
pub enum FieldKind {
    EnumVariant,
    Field,
    Property,
    Relation,
}

/// A member of a class. `S` is the type of text.
#[derive(Clone, Debug, PartialEq, Eq)]
pub struct Field<S> {
    pub name: S,
    pub localized_name: S,
    pub docs: S,
    pub field_type: S,
    pub optional: bool,
    pub kind: FieldKind,
}

impl View for Field<String> {
    type V = Field<Seq<char>>;

    open spec fn view(&self) -> Field<Seq<char>> {
        Field {
            name: self.name@,
            localized_name: self.localized_name@,
            docs: self.docs@,
            field_type: self.field_type@,
            optional: self.optional,
            kind: self.kind,
        }
    }
}

/// The views of a list of members.
pub open spec fn members(v: Seq<Field<String>>) -> Seq<Field<Seq<char>>> {
    v.map_values(|f: Field<String>| f@)
}

/// A class of the outline.
#[derive(Clone, Debug, PartialEq, Eq)]
pub struct Class {
    pub model_name: String,
    pub localized_name: String,
    pub name_suffix: String,
    pub docs: String,
    pub kind: ClassKind,
    pub fields: Vec<Field<String>>,
}

/// A class, as plain values.
pub struct ClassSpec {
    pub model_name: Seq<char>,
    pub localized_name: Seq<char>,
    pub name_suffix: Seq<char>,
    pub docs: Seq<char>,
    pub kind: ClassKind,
    pub fields: Seq<Field<Seq<char>>>,
}

impl View for Class {
    type V = ClassSpec;

    open spec fn view(&self) -> ClassSpec {
        ClassSpec {
            model_name: self.model_name@,
            localized_name: self.localized_name@,
            name_suffix: self.name_suffix@,
            docs: self.docs@,
            kind: self.kind,
            fields: members(self.fields@),
        }
    }
}

/// The views of a list of classes.
pub open spec fn classes(v: Seq<Class>) -> Seq<ClassSpec> {
    v.map_values(|c: Class| c@)
}

/// A variant of an enum. An absent description is the empty text.
#[derive(Clone, Debug, PartialEq, Eq)]
pub struct Variant<S> {
    pub name: S,
    pub localized_name: S,
    pub description: S,
}

impl View for Variant<String> {
    type V = Variant<Seq<char>>;

    open spec fn view(&self) -> Variant<Seq<char>> {
        Variant {
            name: self.name@,
            localized_name: self.localized_name@,
            description: self.description@,
        }
    }
}

/// An enum of the schema.
#[derive(Clone, Debug, PartialEq, Eq)]
pub struct EnumDef {
    pub name: String,
    pub localized_name: String,
    pub description: String,
    pub variants: Vec<Variant<String>>,
}

/// An enum, as plain values.
pub struct EnumSpec {
    pub name: Seq<char>,
    pub localized_name: Seq<char>,
    pub description: Seq<char>,
    pub variants: Seq<Variant<Seq<char>>>,
}

impl View for EnumDef {
    type V = EnumSpec;

    open spec fn view(&self) -> EnumSpec {
        EnumSpec {
            name: self.name@,
            localized_name: self.localized_name@,
            description: self.description@,
            variants: self.variants@.map_values(|v: Variant<String>| v@),
        }
    }
}

/// A field or a property of a model, as a client sees it.
#[derive(Clone, Debug, PartialEq, Eq)]
pub struct Slot<S> {
    pub name: S,
    pub localized_name: S,
    pub description: S,
    pub field_type: FieldType,
    pub optional: bool,
    /// Whether this is a property: a value that is computed, not stored.
    pub property: bool,
}

impl View for Slot<String> {
    type V = Slot<Seq<char>>;

    open spec fn view(&self) -> Slot<Seq<char>> {
        Slot {
            name: self.name@,
            localized_name: self.localized_name@,
            description: self.description@,
            field_type: self.field_type,
            optional: self.optional,
            property: self.property,
        }
    }
}

/// A relation of a model to another model.
#[derive(Clone, Debug, PartialEq, Eq)]
pub struct Relation<S> {
    pub name: S,
    pub model: S,
    pub localized_name: S,
    pub description: S,
    pub is_vec: bool,
    pub optional: bool,
}

impl View for Relation<String> {
    type V = Relation<Seq<char>>;

    open spec fn view(&self) -> Relation<Seq<char>> {
        Relation {
            name: self.name@,
            model: self.model@,
            localized_name: self.localized_name@,
            description: self.description@,
            is_vec: self.is_vec,
            optional: self.optional,
        }
    }
}

/// A key that a query can filter by: a field or a relation.
#[derive(Clone, Debug, PartialEq, Eq)]
pub enum QueryKey<S> {
    Field(Slot<S>),
    Relation(Relation<S>),
}

impl View for QueryKey<String> {
    type V = QueryKey<Seq<char>>;

    open spec fn view(&self) -> QueryKey<Seq<char>> {
        match self {
            QueryKey::Field(s) => QueryKey::Field(s@),
            QueryKey::Relation(r) => QueryKey::Relation(r@),
        }
    }
}

/// What a client generator reads of a model.
#[derive(Clone, Debug, PartialEq, Eq)]
pub struct ModelDef {
    pub name: String,
    pub localized_name: String,
    pub description: String,
    /// The output keys, each a field or a property.
    pub outputs: Vec<Slot<String>>,
    pub relations: Vec<Relation<String>>,
    /// The query keys.
    pub queries: Vec<QueryKey<String>>,
    /// The fields of the unique indices, index by index.
    pub uniques: Vec<Slot<String>>,
    /// The fields of the sort keys.
    pub sorts: Vec<Slot<String>>,
}

/// What a client generator reads of a model, as plain values.
pub struct ModelDefSpec {
    pub name: Seq<char>,
    pub localized_name: Seq<char>,
    pub description: Seq<char>,
    pub outputs: Seq<Slot<Seq<char>>>,
    pub relations: Seq<Relation<Seq<char>>>,
    pub queries: Seq<QueryKey<Seq<char>>>,
    pub uniques: Seq<Slot<Seq<char>>>,
    pub sorts: Seq<Slot<Seq<char>>>,
}

/// The views of a list of slots.
pub open spec fn slots(v: Seq<Slot<String>>) -> Seq<Slot<Seq<char>>> {
    v.map_values(|s: Slot<String>| s@)
}

/// The views of a list of relations.
pub open spec fn relations(v: Seq<Relation<String>>) -> Seq<Relation<Seq<char>>> {
    v.map_values(|r: Relation<String>| r@)
}

impl View for ModelDef {
    type V = ModelDefSpec;

    open spec fn view(&self) -> ModelDefSpec {
        ModelDefSpec {
            name: self.name@,
            localized_name: self.localized_name@,
            description: self.description@,
            outputs: slots(self.outputs@),
            relations: relations(self.relations@),
            queries: self.queries@.map_values(|q: QueryKey<String>| q@),
            uniques: slots(self.uniques@),
            sorts: slots(self.sorts@),
        }
    }
}

/// The enums and the models of a schema.
#[derive(Clone, Debug, PartialEq, Eq)]
pub struct Graph {
    pub enums: Vec<EnumDef>,
    pub models: Vec<ModelDef>,
}

/// The names that a target language gives to types: for each declared type, optional or
/// not, the name of its result type, of its filter type and of its create type; and what
/// stands before and after a type name to name the list of that type.
#[derive(Clone, Debug, PartialEq, Eq)]
pub struct TypeLookup {
    pub result_types: Vec<String>,
    pub filter_types: Vec<String>,
    pub create_types: Vec<String>,
    pub vec_prefix: String,
    pub vec_suffix: String,
}

/// The names that a target language gives to types, as plain values.
pub struct TypeLookupSpec {
    pub result_types: Seq<Seq<char>>,
    pub filter_types: Seq<Seq<char>>,
    pub create_types: Seq<Seq<char>>,
    pub vec_prefix: Seq<char>,
    pub vec_suffix: Seq<char>,
}

impl View for TypeLookup {
    type V = TypeLookupSpec;

    open spec fn view(&self) -> TypeLookupSpec {
        TypeLookupSpec {
            result_types: texts(self.result_types@),
            filter_types: texts(self.filter_types@),
            create_types: texts(self.create_types@),
            vec_prefix: self.vec_prefix@,
            vec_suffix: self.vec_suffix@,
        }
    }
}

/// The place of a type in the lists of a lookup: the types in the order of their
/// declaration, each first as required and then as optional.
pub open spec fn spec_type_index(t: FieldType, optional: bool) -> int {
    2 * (match t {
        FieldType::Bool => 0int,
        FieldType::Int32 => 1,
        FieldType::Int64 => 2,
        FieldType::Float32 => 3,
        FieldType::Float64 => 4,
        FieldType::Decimal => 5,
        FieldType::String => 6,
        FieldType::Date => 7,
        FieldType::DateTime => 8,
        FieldType::Enum => 9,
    }) + if optional {
        1int
    } else {
        0
    }
}

/// The place of a type in the lists of a lookup.
pub fn type_index(t: FieldType, optional: bool) -> (r: usize)
    ensures
        r == spec_type_index(t, optional),
        r < 20,
{
    let base: usize = match t {
        FieldType::Bool => 0,
        FieldType::Int32 => 1,
        FieldType::Int64 => 2,
        FieldType::Float32 => 3,
        FieldType::Float64 => 4,
        FieldType::Decimal => 5,
        FieldType::String => 6,
        FieldType::Date => 7,
        FieldType::DateTime => 8,
        FieldType::Enum => 9,
    };
    if optional {
        2 * base + 1
    } else {
        2 * base
    }
}

impl TypeLookupSpec {
    /// Whether the lookup names every type.
    pub open spec fn complete(self) -> bool {
        self.result_types.len() == 20 && self.filter_types.len() == 20
            && self.create_types.len() == 20
    }

    /// The name of the list of a type.
    pub open spec fn vec_of(self, name: Seq<char>) -> Seq<char> {
        self.vec_prefix + name + self.vec_suffix
    }
}

impl TypeLookup {
    /// Whether the lookup names every type.
    pub fn is_complete(&self) -> (r: bool)
        ensures
            r == self@.complete(),
    {
        assert(texts(self.result_types@).len() == self.result_types@.len());
        assert(texts(self.filter_types@).len() == self.filter_types@.len());
        assert(texts(self.create_types@).len() == self.create_types@.len());
        self.result_types.len() == 20 && self.filter_types.len() == 20 && self.create_types.len()
            == 20
    }

    /// The name of the result type of a field type.
    pub fn field_type_to_result_type(&self, t: FieldType, optional: bool) -> (r: String)
        requires
            self@.complete(),
        ensures
            r@ == self@.result_types[spec_type_index(t, optional)],
    {
        assert(texts(self.result_types@).len() == self.result_types@.len());
        let i = type_index(t, optional);
        assert(texts(self.result_types@)[i as int] == self.result_types@[i as int]@);
        self.result_types[i].clone()
    }

    /// The name of the filter type of a field type.
    pub fn field_type_to_filter_type(&self, t: FieldType, optional: bool) -> (r: String)
        requires
            self@.complete(),
        ensures
            r@ == self@.filter_types[spec_type_index(t, optional)],
    {
        assert(texts(self.filter_types@).len() == self.filter_types@.len());
        let i = type_index(t, optional);
        assert(texts(self.filter_types@)[i as int] == self.filter_types@[i as int]@);
        self.filter_types[i].clone()
    }

    /// The name of the create type of a field type.
    pub fn field_type_to_create_type(&self, t: FieldType, optional: bool) -> (r: String)
        requires
            self@.complete(),
        ensures
            r@ == self@.create_types[spec_type_index(t, optional)],
    {
        assert(texts(self.create_types@).len() == self.create_types@.len());
        let i = type_index(t, optional);
        assert(texts(self.create_types@)[i as int] == self.create_types@[i as int]@);
        self.create_types[i].clone()
    }

    /// The name of the list of a generated type.
    pub fn generated_type_to_vec(&self, name: &str) -> (r: String)
        ensures
            r@ == self@.vec_of(name@),
    {
        let r = self.vec_prefix.clone().concat(name).concat(self.vec_suffix.as_str());
        assert(r@ =~= self@.vec_of(name@));
        r
    }
}

/// The list that a class is made of.
#[derive(Clone, Copy, Debug, PartialEq, Eq, Structural)]
pub enum Part {
    /// The data of a model as it is handed out.
    Output,
    /// The fields that can be selected.
    Select,
    /// The fields by which a row is found.
    Unique,
    /// The fields by which rows are ordered.
    Order,
    /// The relations that can be included.
    Include,
}

/// The member that a variant makes.
pub open spec fn variant_member(v: Variant<Seq<char>>) -> Field<Seq<char>> {
    Field {
        name: v.name,
        localized_name: v.localized_name,
        docs: v.description,
        field_type: Seq::empty(),
        optional: false,
        kind: FieldKind::EnumVariant,
    }
}

/// Whether a slot has a member in a part: properties cannot be selected.
pub open spec fn takes(part: Part, s: Slot<Seq<char>>) -> bool {
    part != Part::Select || !s.property
}

/// The member that a slot makes in a part. In the output a field has its result type as
/// required and a property as it is declared; what can be selected has its result type as
/// required; what finds a row has its create type as required; what orders has the type of
/// a sort order. Only in the output is a member optional as its slot is; elsewhere it is
/// optional, but for what can be selected.
pub open spec fn slot_member(part: Part, s: Slot<Seq<char>>, t: TypeLookupSpec) -> Field<Seq<char>> {
    Field {
        name: s.name,
        localized_name: s.localized_name,
        docs: s.description,
        field_type: match part {
            Part::Output => t.result_types[spec_type_index(s.field_type, s.property && s.optional)],
            Part::Select => t.result_types[spec_type_index(s.field_type, false)],
            Part::Unique => t.create_types[spec_type_index(s.field_type, false)],
            _ => "SortOrder"@,
        },
        optional: match part {
            Part::Output => s.optional,
            Part::Select => s.optional,
            _ => true,
        },
        kind: if part == Part::Output && s.property {
            FieldKind::Property
        } else {
            FieldKind::Field
        },
    }
}

/// The members that slots make in a part, in order.
pub open spec fn slot_members(part: Part, ss: Seq<Slot<Seq<char>>>, t: TypeLookupSpec) -> Seq<
    Field<Seq<char>>,
>
    decreases ss.len(),
{
    if ss.len() == 0 {
        Seq::empty()
    } else if takes(part, ss.last()) {
        slot_members(part, ss.drop_last(), t).push(slot_member(part, ss.last(), t))
    } else {
        slot_members(part, ss.drop_last(), t)
    }
}

/// The name of the arguments by which a relation is included.
pub open spec fn include_type(r: Relation<Seq<char>>) -> Seq<char> {
    r.model + if r.is_vec {
        "FindMany"@
    } else {
        ""@
    } + "Args"@
}

/// The name of the filter of a relation.
pub open spec fn relation_filter_type(r: Relation<Seq<char>>) -> Seq<char> {
    r.model + if r.is_vec {
        "ListRelationFilter"@
    } else {
        "RelationFilter"@
    }
}

/// The member that a relation makes in the output or in what can be included.
pub open spec fn relation_member(part: Part, r: Relation<Seq<char>>, t: TypeLookupSpec) -> Field<
    Seq<char>,
> {
    Field {
        name: r.name,
        localized_name: r.localized_name,
        docs: r.description,
        field_type: if part == Part::Include {
            include_type(r)
        } else if r.is_vec {
            t.vec_of(r.model)
        } else {
            r.name
        },
        optional: part == Part::Include || r.optional,
        kind: FieldKind::Relation,
    }
}

/// The member that a query key makes in a filter.
pub open spec fn query_member(q: QueryKey<Seq<char>>, t: TypeLookupSpec) -> Field<Seq<char>> {
    match q {
        QueryKey::Field(s) => Field {
            name: s.name,
            localized_name: s.localized_name,
            docs: s.description,
            field_type: t.filter_types[spec_type_index(s.field_type, s.optional)],
            optional: true,
            kind: FieldKind::Field,
        },
        QueryKey::Relation(r) => Field {
            name: r.name,
            localized_name: r.localized_name,
            docs: r.description,
            field_type: relation_filter_type(r),
            optional: true,
            kind: FieldKind::Relation,
        },
    }
}

/// The members without repetition in a row: of members that follow each other under one
/// name, the first stays.
pub open spec fn deduped(fs: Seq<Field<Seq<char>>>) -> Seq<Field<Seq<char>>>
    decreases fs.len(),
{
    if fs.len() == 0 {
        Seq::empty()
    } else {
        let rest = deduped(fs.drop_last());
        if rest.len() > 0 && rest.last().name == fs.last().name {
            rest
        } else {
            rest.push(fs.last())
        }
    }
}

/// The class of an enum.
pub open spec fn enum_class(e: EnumSpec) -> ClassSpec {
    ClassSpec {
        model_name: e.name,
        localized_name: e.localized_name,
        name_suffix: Seq::empty(),
        docs: e.description,
        kind: ClassKind::Enum,
        fields: e.variants.map_values(|v: Variant<Seq<char>>| variant_member(v)),
    }
}

/// The class of the data of a model.
pub open spec fn data_output(m: ModelDefSpec, t: TypeLookupSpec, with_relations: bool) -> ClassSpec {
    ClassSpec {
        model_name: m.name,
        localized_name: m.localized_name,
        name_suffix: Seq::empty(),
        docs: m.description,
        kind: ClassKind::DataOutput,
        fields: slot_members(Part::Output, m.outputs, t) + if with_relations {
            m.relations.map_values(|r: Relation<Seq<char>>| relation_member(Part::Output, r, t))
        } else {
            Seq::empty()
        },
    }
}

/// An input class of a model.
pub open spec fn input_class(
    m: ModelDefSpec,
    suffix: Seq<char>,
    docs: Seq<char>,
    kind: ClassKind,
    fields: Seq<Field<Seq<char>>>,
) -> ClassSpec {
    ClassSpec {
        model_name: m.name,
        localized_name: Seq::empty(),
        name_suffix: suffix,
        docs,
        kind,
        fields,
    }
}

/// The classes of a model: its data, what can be selected, what can be included where the
/// model has relations, its filter, its unique filter and its order.
pub open spec fn model_classes(m: ModelDefSpec, t: TypeLookupSpec, with_relations: bool) -> Seq<
    ClassSpec,
> {
    let first = seq![
        data_output(m, t, with_relations),
        input_class(
            m,
            "Select"@,
            "Select fields from the "@ + words_of(m.name) + " model."@,
            ClassKind::SelectInput,
            slot_members(Part::Select, m.outputs, t),
        ),
    ];
    let second = if m.relations.len() > 0 {
        first.push(
            input_class(
                m,
                "Include"@,
                "Include relations of the "@ + words_of(m.name) + " model."@,
                ClassKind::IncludeInput,
                m.relations.map_values(
                    |r: Relation<Seq<char>>| relation_member(Part::Include, r, t),
                ),
            ),
        )
    } else {
        first
    };
    second.push(
        input_class(
            m,
            "WhereInput"@,
            m.name + " filter."@,
            ClassKind::WhereInput,
            m.queries.map_values(|q: QueryKey<Seq<char>>| query_member(q, t)),
        ),
    ).push(
        input_class(
            m,
            "WhereUniqueInput"@,
            m.name + " unique filter."@,
            ClassKind::WhereUniqueInput,
            deduped(slot_members(Part::Unique, m.uniques, t)),
        ),
    ).push(
        input_class(
            m,
            "OrderByInput"@,
            m.name + " order by input."@,
            ClassKind::OrderByInput,
            deduped(slot_members(Part::Order, m.sorts, t)),
        ),
    )
}

/// The classes of a list of models, model by model.
pub open spec fn all_model_classes(ms: Seq<ModelDefSpec>, t: TypeLookupSpec, with_relations: bool) -> Seq<
    ClassSpec,
>
    decreases ms.len(),
{
    if ms.len() == 0 {
        Seq::empty()
    } else {
        all_model_classes(ms.drop_last(), t, with_relations) + model_classes(
            ms.last(),
            t,
            with_relations,
        )
    }
}

/// The views of a list of enums.
pub open spec fn enum_specs(v: Seq<EnumDef>) -> Seq<EnumSpec> {
    v.map_values(|e: EnumDef| e@)
}

/// The views of a list of models.
pub open spec fn model_specs(v: Seq<ModelDef>) -> Seq<ModelDefSpec> {
    v.map_values(|m: ModelDef| m@)
}

/// The classes of an outline: those of the enums, then those of the models.
pub open spec fn outline_of(
    enums: Seq<EnumSpec>,
    models: Seq<ModelDefSpec>,
    t: TypeLookupSpec,
    with_relations: bool,
) -> Seq<ClassSpec> {
    enums.map_values(|e: EnumSpec| enum_class(e)) + all_model_classes(models, t, with_relations)
}

/// Whether two members have the same name.
pub fn same_member_name(a: &Field<String>, b: &Field<String>) -> (r: bool)
    ensures
        r == (a@.name == b@.name),
{
    same_text(a.name.as_str(), b.name.as_str())
}

/// Calls `itertools::Itertools::dedup_by` on the members. Trusted: of members that follow
/// each other under one name the first stays and the others go; nothing else changes.
#[verifier::external_body]
pub(crate) fn dedup_members(fields: Vec<Field<String>>) -> (r: Vec<Field<String>>)
    ensures
        members(r@) == deduped(members(fields@)),
{
    fields.into_iter().dedup_by(|a, b| same_member_name(a, b)).collect()
}

/// The members that slots make in a part.
pub fn members_of_slots(part: Part, ss: &Vec<Slot<String>>, lookup: &TypeLookup) -> (r: Vec<
    Field<String>,
>)
    requires
        lookup@.complete(),
    ensures
        members(r@) == slot_members(part, slots(ss@), lookup@),
{
    let ghost all = slots(ss@);
    let mut out: Vec<Field<String>> = Vec::new();
    let mut i: usize = 0;
    assert(all.take(0) =~= Seq::empty());
    assert(members(out@) =~= Seq::empty());
    while i < ss.len()
        invariant
            i <= ss.len(),
            all == slots(ss@),
            lookup@.complete(),
            members(out@) == slot_members(part, all.take(i as int), lookup@),
        decreases ss.len() - i,
    {
        let s = &ss[i];
        proof {
            assert(all.take(i + 1).drop_last() =~= all.take(i as int));
            assert(all.take(i + 1).last() == s@);
        }
        let select = matches!(part, Part::Select);
        if !(select && s.property) {
            let field_type = match part {
                Part::Output => lookup.field_type_to_result_type(
                    s.field_type,
                    s.property && s.optional,
                ),
                Part::Select => lookup.field_type_to_result_type(s.field_type, false),
                Part::Unique => lookup.field_type_to_create_type(s.field_type, false),
                _ => String::from_str("SortOrder"),
            };
            let optional = match part {
                Part::Output => s.optional,
                Part::Select => s.optional,
                _ => true,
            };
            let kind = if matches!(part, Part::Output) && s.property {
                FieldKind::Property
            } else {
                FieldKind::Field
            };
            let member = Field {
                name: s.name.clone(),
                localized_name: s.localized_name.clone(),
                docs: s.description.clone(),
                field_type,
                optional,
                kind,
            };
            assert(member@ == slot_member(part, s@, lookup@));
            let ghost before = out@;
            out.push(member);
            assert(members(out@) =~= members(before).push(member@));
        }
        i += 1;
    }
    assert(all.take(i as int) =~= all);
    out
}

/// The members that relations make in the output or in what can be included; they are added
/// to `out`.
pub fn add_relation_members(
    part: Part,
    rs: &Vec<Relation<String>>,
    lookup: &TypeLookup,
    out: &mut Vec<Field<String>>,
)
    ensures
        members(final(out)@) == members(old(out)@) + relations(rs@).map_values(
            |r: Relation<Seq<char>>| relation_member(part, r, lookup@),
        ),
{
    let ghost start = members(out@);
    let ghost all = relations(rs@);
    let mut i: usize = 0;
    while i < rs.len()
        invariant
            i <= rs.len(),
            all == relations(rs@),
            out@.len() == start.len() + i,
            members(out@).take(start.len() as int) =~= start,
            forall|j: int|
                0 <= j < i ==> (#[trigger] out@[start.len() + j])@ == relation_member(
                    part,
                    all[j],
                    lookup@,
                ),
        decreases rs.len() - i,
    {
        let r = &rs[i];
        assert(all[i as int] == r@);
        let including = matches!(part, Part::Include);
        let field_type = if including {
            let many = if r.is_vec {
                "FindMany"
            } else {
                ""
            };
            r.model.clone().concat(many).concat("Args")
        } else if r.is_vec {
            lookup.generated_type_to_vec(r.model.as_str())
        } else {
            r.name.clone()
        };
        let member = Field {
            name: r.name.clone(),
            localized_name: r.localized_name.clone(),
            docs: r.description.clone(),
            field_type,
            optional: including || r.optional,
            kind: FieldKind::Relation,
        };
        assert(member@ == relation_member(part, r@, lookup@));
        let ghost before = out@;
        out.push(member);
        assert(members(out@).take(start.len() as int) =~= members(before).take(
            start.len() as int,
        ));
        i += 1;
    }
    let ghost added = all.map_values(|r: Relation<Seq<char>>| relation_member(part, r, lookup@));
    assert(members(out@) =~= start + added) by {
        assert(members(out@).len() == start.len() + added.len());
        assert forall|k: int| 0 <= k < members(out@).len() implies members(out@)[k] == (start
            + added)[k] by {
            if k < start.len() {
                assert(members(out@).take(start.len() as int)[k] == members(out@)[k]);
            } else {
                assert(out@[start.len() + (k - start.len())]@ == added[k - start.len()]);
            }
        }
    }
}

/// The members that query keys make in a filter.
pub fn members_of_queries(qs: &Vec<QueryKey<String>>, lookup: &TypeLookup) -> (r: Vec<
    Field<String>,
>)
    requires
        lookup@.complete(),
    ensures
        members(r@) == qs@.map_values(|q: QueryKey<String>| q@).map_values(
            |q: QueryKey<Seq<char>>| query_member(q, lookup@),
        ),
{
    let mut out: Vec<Field<String>> = Vec::new();
    let mut i: usize = 0;
    while i < qs.len()
        invariant
            i <= qs.len(),
            lookup@.complete(),
            out@.len() == i,
            forall|j: int| 0 <= j < i ==> (#[trigger] out@[j])@ == query_member(qs@[j]@, lookup@),
        decreases qs.len() - i,
    {
        let member = match &qs[i] {
            QueryKey::Field(s) => Field {
                name: s.name.clone(),
                localized_name: s.localized_name.clone(),
                docs: s.description.clone(),
                field_type: lookup.field_type_to_filter_type(s.field_type, s.optional),
                optional: true,
                kind: FieldKind::Field,
            },
            QueryKey::Relation(r) => {
                let filter = if r.is_vec {
                    "ListRelationFilter"
                } else {
                    "RelationFilter"
                };
                Field {
                    name: r.name.clone(),
                    localized_name: r.localized_name.clone(),
                    docs: r.description.clone(),
                    field_type: r.model.clone().concat(filter),
                    optional: true,
                    kind: FieldKind::Relation,
                }
            },
        };
        out.push(member);
        i += 1;
    }
    assert(members(out@) =~= qs@.map_values(|q: QueryKey<String>| q@).map_values(
        |q: QueryKey<Seq<char>>| query_member(q, lookup@),
    ));
    out
}

/// An input class of a model.
fn make_input(m: &ModelDef, suffix: &str, docs: String, kind: ClassKind, fields: Vec<Field<String>>) -> (r:
    Class)
    ensures
        r@ == input_class(m@, suffix@, docs@, kind, members(fields@)),
{
    Class {
        model_name: m.name.clone(),
        localized_name: String::new(),
        name_suffix: String::from_str(suffix),
        docs,
        kind,
        fields,
    }
}

/// The classes of a model; they are added to `out`.
pub fn add_model_classes(m: &ModelDef, lookup: &TypeLookup, with_relations: bool, out: &mut Vec<Class>)
    requires
        lookup@.complete(),
    ensures
        classes(final(out)@) == classes(old(out)@) + model_classes(m@, lookup@, with_relations),
{
    let ghost start = classes(out@);
    let mut data = members_of_slots(Part::Output, &m.outputs, lookup);
    if with_relations {
        add_relation_members(Part::Output, &m.relations, lookup, &mut data);
    } else {
        assert(members(data@) + Seq::<Field<Seq<char>>>::empty() =~= members(data@));
    }
    let output = Class {
        model_name: m.name.clone(),
        localized_name: m.localized_name.clone(),
        name_suffix: String::new(),
        docs: m.description.clone(),
        kind: ClassKind::DataOutput,
        fields: data,
    };
    assert(output@ == data_output(m@, lookup@, with_relations));
    let name_words = words(m.name.as_str());
    let select = make_input(
        m,
        "Select",
        String::from_str("Select fields from the ").concat(name_words.as_str()).concat(" model."),
        ClassKind::SelectInput,
        members_of_slots(Part::Select, &m.outputs, lookup),
    );
    let ghost first = seq![output@, select@];
    let ghost mut second = first;
    out.push(output);
    out.push(select);
    assert(classes(out@) =~= start + first);
    if m.relations.len() > 0 {
        let mut included: Vec<Field<String>> = Vec::new();
        assert(members(included@) =~= Seq::empty());
        add_relation_members(Part::Include, &m.relations, lookup, &mut included);
        assert(members(included@) =~= relations(m.relations@).map_values(
            |r: Relation<Seq<char>>| relation_member(Part::Include, r, lookup@),
        ));
        let inclusion = make_input(
            m,
            "Include",
            String::from_str("Include relations of the ").concat(name_words.as_str()).concat(
                " model.",
            ),
            ClassKind::IncludeInput,
            included,
        );
        proof {
            second = first.push(inclusion@);
        }
        out.push(inclusion);
        assert(classes(out@) =~= start + second);
    }
    assert(relations(m.relations@).len() == m.relations@.len());
    let filter = make_input(
        m,
        "WhereInput",
        m.name.clone().concat(" filter."),
        ClassKind::WhereInput,
        members_of_queries(&m.queries, lookup),
    );
    let unique = make_input(
        m,
        "WhereUniqueInput",
        m.name.clone().concat(" unique filter."),
        ClassKind::WhereUniqueInput,
        dedup_members(members_of_slots(Part::Unique, &m.uniques, lookup)),
    );
    let order = make_input(
        m,
        "OrderByInput",
        m.name.clone().concat(" order by input."),
        ClassKind::OrderByInput,
        dedup_members(members_of_slots(Part::Order, &m.sorts, lookup)),
    );
    out.push(filter);
    out.push(unique);
    out.push(order);
    assert(classes(out@) =~= start + second.push(filter@).push(unique@).push(order@));
    assert(second.push(filter@).push(unique@).push(order@) =~= model_classes(
        m@,
        lookup@,
        with_relations,
    ));
}

/// The outline of a generated client.
#[derive(Clone, Debug, PartialEq, Eq)]
pub struct Outline {
    pub classes: Vec<Class>,
}

impl Outline {
    /// Outlines the client of a schema: a class for each enum, then the classes of each
    /// model. `with_relations` says whether the data of a model shows its relations.
    pub fn new(graph: &Graph, lookup: &TypeLookup, with_relations: bool) -> (r: Outline)
        requires
            lookup@.complete(),
        ensures
            classes(r.classes@) == outline_of(
                enum_specs(graph.enums@),
                model_specs(graph.models@),
                lookup@,
                with_relations,
            ),
    {
        let ghost es = enum_specs(graph.enums@);
        let ghost ms = model_specs(graph.models@);
        let mut results: Vec<Class> = Vec::new();
        let mut i: usize = 0;
        while i < graph.enums.len()
            invariant
                i <= graph.enums.len(),
                results@.len() == i,
                forall|j: int| 0 <= j < i ==> (#[trigger] results@[j])@ == enum_class(graph.enums@[j]@),
            decreases graph.enums.len() - i,
        {
            let e = &graph.enums[i];
            let mut fields: Vec<Field<String>> = Vec::new();
            let mut k: usize = 0;
            while k < e.variants.len()
                invariant
                    k <= e.variants.len(),
                    fields@.len() == k,
                    forall|j: int|
                        0 <= j < k ==> (#[trigger] fields@[j])@ == variant_member(e.variants@[j]@),
                decreases e.variants.len() - k,
            {
                let v = &e.variants[k];
                fields.push(
                    Field {
                        name: v.name.clone(),
                        localized_name: v.localized_name.clone(),
                        docs: v.description.clone(),
                        field_type: String::new(),
                        optional: false,
                        kind: FieldKind::EnumVariant,
                    },
                );
                k += 1;
            }
            assert(members(fields@) =~= e@.variants.map_values(
                |v: Variant<Seq<char>>| variant_member(v),
            ));
            results.push(
                Class {
                    model_name: e.name.clone(),
                    localized_name: e.localized_name.clone(),
                    name_suffix: String::new(),
                    docs: e.description.clone(),
                    kind: ClassKind::Enum,
                    fields,
                },
            );
            i += 1;
        }
        let ghost first = es.map_values(|e: EnumSpec| enum_class(e));
        assert(classes(results@) =~= first);
        let mut j: usize = 0;
        assert(ms.take(0) =~= Seq::empty());
        assert(first + Seq::<ClassSpec>::empty() =~= first);
        while j < graph.models.len()
            invariant
                j <= graph.models.len(),
                ms == model_specs(graph.models@),
                lookup@.complete(),
                classes(results@) == first + all_model_classes(
                    ms.take(j as int),
                    lookup@,
                    with_relations,
                ),
            decreases graph.models.len() - j,
        {
            proof {
                assert(ms.take(j + 1).drop_last() =~= ms.take(j as int));
                assert(ms.take(j + 1).last() == graph.models@[j as int]@);
            }
            add_model_classes(&graph.models[j], lookup, with_relations, &mut results);
            assert(classes(results@) =~= first + all_model_classes(
                ms.take(j + 1),
                lookup@,
                with_relations,
            ));
            j += 1;
        }
        assert(ms.take(j as int) =~= ms);
        Outline { classes: results }
    }
}

} // verus!
