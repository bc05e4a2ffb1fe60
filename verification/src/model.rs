//! Models: an ordered list of fields with lookup by logical name.
//!
//! A model is built once from its declaration and never changes afterwards. Fields are found
//! by position: every relation from a name to a field is an index into the ordered list.

use vstd::prelude::*;
use crate::action::{contains_action, has, ActionType};
use crate::field::{Field, FieldBuilder, FieldIndex, FieldSpec, ReadRule, Store, WriteRule};
use crate::text::{kebab_case, kebab_case_of, lowercase, lowercase_of, plural, plural_of, texts};

verus! {

/// The rule by which a list of keys is selected from the fields.
#[derive(Clone, Copy, Debug, PartialEq, Eq, Structural)]
pub enum KeyRule {
    /// Fields that accept input.
    Input,
    /// Fields that are stored.
    Save,
    /// Fields that appear in output.
    Output,
    /// Every field.
    GetValue,
}

/// Whether a field is selected by a rule.
pub open spec fn admits(rule: KeyRule, f: FieldSpec) -> bool {
    match rule {
        KeyRule::Input => f.write_rule != WriteRule::NoWrite,
        KeyRule::Save => f.store != Store::Calculated && f.store != Store::Temp,
        KeyRule::Output => f.read_rule != ReadRule::NoRead,
        KeyRule::GetValue => true,
    }
}

/// The names of the fields that a rule selects, in the order of the fields.
pub open spec fn keys_of(fields: Seq<FieldSpec>, rule: KeyRule) -> Seq<Seq<char>>
    decreases fields.len(),
{
    if fields.len() == 0 {
        Seq::empty()
    } else {
        let rest = keys_of(fields.drop_last(), rule);
        if admits(rule, fields.last()) {
            rest.push(fields.last().name)
        } else {
            rest
        }
    }
}

/// The position of the field called `name`: the last one, where several share the name.
pub open spec fn position_of(fields: Seq<FieldSpec>, name: Seq<char>) -> Option<int>
    decreases fields.len(),
{
    if fields.len() == 0 {
        None
    } else if fields.last().name == name {
        Some(fields.len() - 1)
    } else {
        position_of(fields.drop_last(), name)
    }
}

/// The position of the primary field: the last one that is marked primary.
pub open spec fn primary_of(fields: Seq<FieldSpec>) -> Option<int>
    decreases fields.len(),
{
    if fields.len() == 0 {
        None
    } else if fields.last().primary {
        Some(fields.len() - 1)
    } else {
        primary_of(fields.drop_last())
    }
}

/// The positions of the indexed fields, ascending.
pub open spec fn indexed_of(fields: Seq<FieldSpec>) -> Seq<int>
    decreases fields.len(),
{
    if fields.len() == 0 {
        Seq::empty()
    } else {
        let rest = indexed_of(fields.drop_last());
        if fields.last().index != FieldIndex::NoIndex {
            rest.push(fields.len() - 1)
        } else {
            rest
        }
    }
}

/// No two fields share a logical name, none share a storage column, and at most one is
/// primary.
pub open spec fn well_named(fields: Seq<FieldSpec>) -> bool {
    forall|i: int, j: int|
        0 <= i < j < fields.len() ==> {
            &&& #[trigger] fields[i].name != #[trigger] fields[j].name
            &&& fields[i].column != fields[j].column
            &&& !(fields[i].primary && fields[j].primary)
        }
}

/// A found position lies within the fields and holds the name that was asked for.
pub proof fn lemma_position_of(fields: Seq<FieldSpec>, name: Seq<char>)
    ensures
        match position_of(fields, name) {
            Some(i) => 0 <= i < fields.len() && fields[i].name == name,
            None => forall|j: int| 0 <= j < fields.len() ==> fields[j].name != name,
        },
    decreases fields.len(),
{
    if fields.len() > 0 && fields.last().name != name {
        let rest = fields.drop_last();
        lemma_position_of(rest, name);
        assert(forall|j: int| 0 <= j < rest.len() ==> rest[j] == fields[j]);
    }
}

/// What a model says, as plain values.
pub struct ModelSpec {
    pub name: Seq<char>,
    pub table_name: Seq<char>,
    pub url_segment_name: Seq<char>,
    pub localized_name: Seq<char>,
    pub description: Seq<char>,
    pub identity: bool,
    pub actions: Seq<ActionType>,
    pub fields: Seq<FieldSpec>,
}

impl ModelSpec {
    /// The model that this declaration describes: an empty table name stands for the plural
    /// of the lower-cased model name, an empty URL segment for the plural of its kebab-case
    /// form.
    pub open spec fn resolved(self) -> ModelSpec {
        ModelSpec {
            table_name: if self.table_name.len() == 0 {
                plural_of(lowercase_of(self.name))
            } else {
                self.table_name
            },
            url_segment_name: if self.url_segment_name.len() == 0 {
                plural_of(kebab_case_of(self.name))
            } else {
                self.url_segment_name
            },
            ..self
        }
    }
}

/// The fields that a list of declarations describes, each with its column settled.
pub open spec fn declared(fields: Seq<FieldBuilder>) -> Seq<FieldSpec> {
    fields.map_values(|f: FieldBuilder| f@.resolved())
}

/// The views of a list of fields.
pub open spec fn field_specs(fields: Seq<Field>) -> Seq<FieldSpec> {
    fields.map_values(|f: Field| f@)
}

/// The declaration of a model, as the schema loader hands it over. An empty `table_name` or
/// `url_segment_name` asks for the default.
#[derive(Clone, Debug, PartialEq, Eq)]
pub struct ModelBuilder {
    pub name: String,
    pub table_name: String,
    pub url_segment_name: String,
    pub localized_name: String,
    pub description: String,
    pub identity: bool,
    pub actions: Vec<ActionType>,
    pub fields: Vec<FieldBuilder>,
}

impl View for ModelBuilder {
    type V = ModelSpec;

    open spec fn view(&self) -> ModelSpec {
        ModelSpec {
            name: self.name@,
            table_name: self.table_name@,
            url_segment_name: self.url_segment_name@,
            localized_name: self.localized_name@,
            description: self.description@,
            identity: self.identity,
            actions: self.actions@,
            fields: declared(self.fields@),
        }
    }
}

impl ModelBuilder {
    /// A declaration with the given name, defaults elsewhere, and no action or field.
    pub fn new(name: &str) -> (r: ModelBuilder)
        ensures
            r@ == (ModelSpec {
                name: name@,
                table_name: Seq::<char>::empty(),
                url_segment_name: Seq::<char>::empty(),
                localized_name: Seq::<char>::empty(),
                description: Seq::<char>::empty(),
                identity: false,
                actions: Seq::<ActionType>::empty(),
                fields: Seq::<FieldSpec>::empty(),
            }),
    {
        let r = ModelBuilder {
            name: name.to_owned(),
            table_name: String::new(),
            url_segment_name: String::new(),
            localized_name: String::new(),
            description: String::new(),
            identity: false,
            actions: Vec::new(),
            fields: Vec::new(),
        };
        assert(r@.fields =~= Seq::<FieldSpec>::empty());
        r
    }

    /// The names of the declared fields that `rule` selects.
    pub fn keys(&self, rule: KeyRule) -> (r: Vec<String>)
        ensures
            texts(r@) == keys_of(self@.fields, rule),
    {
        let mut out: Vec<String> = Vec::new();
        let mut i: usize = 0;
        assert(declared(self.fields@).take(0) =~= Seq::<FieldSpec>::empty());
        assert(texts(out@) =~= Seq::<Seq<char>>::empty());
        while i < self.fields.len()
            invariant
                i <= self.fields.len(),
                texts(out@) == keys_of(declared(self.fields@).take(i as int), rule),
            decreases self.fields.len() - i,
        {
            let f = &self.fields[i];
            let keep = match rule {
                KeyRule::Input => !matches!(f.write_rule, WriteRule::NoWrite),
                KeyRule::Save => !matches!(f.store, Store::Calculated) && !matches!(
                    f.store,
                    Store::Temp
                ),
                KeyRule::Output => !matches!(f.read_rule, ReadRule::NoRead),
                KeyRule::GetValue => true,
            };
            proof {
                let all = declared(self.fields@);
                assert(all.take(i + 1).drop_last() =~= all.take(i as int));
                assert(all.take(i + 1).last() == f@.resolved());
            }
            if keep {
                let ghost before = out@;
                out.push(f.name.clone());
                assert(texts(out@) =~= texts(before).push(f.name@));
            }
            i += 1;
        }
        assert(declared(self.fields@).take(i as int) =~= declared(self.fields@));
        out
    }
}

/// A model: its names and its fields, with the lists that are derived from the fields.
#[derive(Debug, PartialEq, Eq)]
pub struct Model {
    name: String,
    table_name: String,
    url_segment_name: String,
    localized_name: String,
    description: String,
    identity: bool,
    actions: Vec<ActionType>,
    fields_vec: Vec<Field>,
    primary_field: Option<usize>,
    index_fields: Vec<usize>,
    input_keys: Vec<String>,
    save_keys: Vec<String>,
    output_keys: Vec<String>,
    get_value_keys: Vec<String>,
}

impl View for Model {
    type V = ModelSpec;

    closed spec fn view(&self) -> ModelSpec {
        ModelSpec {
            name: self.name@,
            table_name: self.table_name@,
            url_segment_name: self.url_segment_name@,
            localized_name: self.localized_name@,
            description: self.description@,
            identity: self.identity,
            actions: self.actions@,
            fields: field_specs(self.fields_vec@),
        }
    }
}

impl Model {
    /// The derived lists agree with the fields.
    #[verifier::type_invariant]
    closed spec fn wf(&self) -> bool {
        let fields = field_specs(self.fields_vec@);
        &&& match self.primary_field {
            Some(i) => primary_of(fields) == Some(i as int),
            None => primary_of(fields).is_none(),
        }
        &&& self.index_fields@.map_values(|i: usize| i as int) == indexed_of(fields)
        &&& forall|k: int|
            0 <= k < self.index_fields@.len() ==> (#[trigger] self.index_fields@[k])
                < self.fields_vec@.len()
        &&& texts(self.input_keys@) == keys_of(fields, KeyRule::Input)
        &&& texts(self.save_keys@) == keys_of(fields, KeyRule::Save)
        &&& texts(self.output_keys@) == keys_of(fields, KeyRule::Output)
        &&& texts(self.get_value_keys@) == keys_of(fields, KeyRule::GetValue)
    }

    /// The model that a declaration describes.
    pub fn new(builder: &ModelBuilder) -> (r: Model)
        ensures
            r@ == builder@.resolved(),
    {
        let input_keys = Self::allowed_input_keys(builder);
        let save_keys = Self::allowed_save_keys(builder);
        let output_keys = Self::allowed_output_keys(builder);
        let get_value_keys = Self::get_get_value_keys(builder);
        let mut fields_vec: Vec<Field> = Vec::new();
        let mut primary_field: Option<usize> = None;
        let mut index_fields: Vec<usize> = Vec::new();
        let mut i: usize = 0;
        let ghost all = declared(builder.fields@);
        assert(all.take(0) =~= Seq::<FieldSpec>::empty());
        assert(field_specs(fields_vec@) =~= all.take(0));
        assert(index_fields@.map_values(|i: usize| i as int) =~= Seq::<int>::empty());
        while i < builder.fields.len()
            invariant
                i <= builder.fields.len(),
                all == declared(builder.fields@),
                fields_vec@.len() == i,
                field_specs(fields_vec@) == all.take(i as int),
                match primary_field {
                    Some(p) => primary_of(all.take(i as int)) == Some(p as int),
                    None => primary_of(all.take(i as int)).is_none(),
                },
                index_fields@.map_values(|i: usize| i as int) == indexed_of(all.take(i as int)),
                forall|k: int|
                    0 <= k < index_fields@.len() ==> (#[trigger] index_fields@[k]) < i,
            decreases builder.fields.len() - i,
        {
            let field = Field::new(&builder.fields[i]);
            proof {
                assert(all.take(i + 1).drop_last() =~= all.take(i as int));
                assert(all.take(i + 1).last() == field@);
            }
            if field.is_primary() {
                primary_field = Some(i);
            }
            if !matches!(field.index(), FieldIndex::NoIndex) {
                let ghost before = index_fields@;
                index_fields.push(i);
                assert(index_fields@.map_values(|i: usize| i as int) =~= before.map_values(
                    |i: usize| i as int,
                ).push(i as int));
            }
            let ghost before = fields_vec@;
            fields_vec.push(field);
            assert(field_specs(fields_vec@) =~= field_specs(before).push(field@));
            assert(field_specs(fields_vec@) =~= all.take(i + 1));
            i += 1;
        }
        assert(all.take(i as int) =~= all);
        let table_name = if builder.table_name.as_str().is_empty() {
            plural(lowercase(builder.name.as_str()).as_str())
        } else {
            builder.table_name.clone()
        };
        let url_segment_name = if builder.url_segment_name.as_str().is_empty() {
            plural(kebab_case(builder.name.as_str()).as_str())
        } else {
            builder.url_segment_name.clone()
        };
        Model {
            name: builder.name.clone(),
            table_name,
            url_segment_name,
            localized_name: builder.localized_name.clone(),
            description: builder.description.clone(),
            identity: builder.identity,
            actions: builder.actions.clone(),
            fields_vec,
            primary_field,
            index_fields,
            input_keys,
            save_keys,
            output_keys,
            get_value_keys,
        }
    }

    pub fn name(&self) -> (r: &String)
        ensures
            r@ == self@.name,
    {
        &self.name
    }

    pub fn table_name(&self) -> (r: &String)
        ensures
            r@ == self@.table_name,
    {
        &self.table_name
    }

    pub fn url_segment_name(&self) -> (r: &String)
        ensures
            r@ == self@.url_segment_name,
    {
        &self.url_segment_name
    }

    pub fn localized_name(&self) -> (r: &String)
        ensures
            r@ == self@.localized_name,
    {
        &self.localized_name
    }

    pub fn description(&self) -> (r: &String)
        ensures
            r@ == self@.description,
    {
        &self.description
    }

    pub fn identity(&self) -> (r: bool)
        ensures
            r == self@.identity,
    {
        self.identity
    }

    pub fn fields(&self) -> (r: &Vec<Field>)
        ensures
            field_specs(r@) == self@.fields,
    {
        &self.fields_vec
    }

    /// The position of the field called `name`, if the model has one.
    pub fn field_position(&self, name: &str) -> (r: Option<usize>)
        ensures
            match r {
                Some(i) => position_of(self@.fields, name@) == Some(i as int) && i
                    < self@.fields.len(),
                None => position_of(self@.fields, name@).is_none(),
            },
    {
        let ghost fields = field_specs(self.fields_vec@);
        let mut i: usize = self.fields_vec.len();
        assert(fields.take(i as int) =~= fields);
        while i > 0
            invariant
                i <= self.fields_vec.len(),
                fields == field_specs(self.fields_vec@),
                position_of(fields, name@) == position_of(fields.take(i as int), name@),
            decreases i,
        {
            i -= 1;
            proof {
                assert(fields.take(i + 1).drop_last() =~= fields.take(i as int));
                assert(fields.take(i + 1).last() == self.fields_vec@[i as int]@);
            }
            if same_text(self.fields_vec[i].name().as_str(), name) {
                return Some(i);
            }
        }
        None
    }

    /// The field called `name`, if the model has one.
    pub fn field(&self, name: &str) -> (r: Option<&Field>)
        ensures
            match r {
                Some(f) => match position_of(self@.fields, name@) {
                    Some(i) => 0 <= i < self@.fields.len() && f@ == self@.fields[i],
                    None => false,
                },
                None => position_of(self@.fields, name@).is_none(),
            },
    {
        match self.field_position(name) {
            Some(i) => Some(&self.fields_vec[i]),
            None => None,
        }
    }

    /// The primary field, if the model has one.
    pub fn primary_field(&self) -> (r: Option<&Field>)
        ensures
            match r {
                Some(f) => match primary_of(self@.fields) {
                    Some(i) => 0 <= i < self@.fields.len() && f@ == self@.fields[i],
                    None => false,
                },
                None => primary_of(self@.fields).is_none(),
            },
    {
        proof {
            use_type_invariant(self);
            lemma_primary_of(field_specs(self.fields_vec@));
        }
        match self.primary_field {
            Some(i) => Some(&self.fields_vec[i]),
            None => None,
        }
    }

    /// The indexed fields, in the order of the fields.
    pub fn index_fields(&self) -> (r: Vec<&Field>)
        ensures
            r@.len() == indexed_of(self@.fields).len(),
            forall|k: int|
                0 <= k < r@.len() ==> {
                    let i = #[trigger] indexed_of(self@.fields)[k];
                    0 <= i < self@.fields.len() && r@[k]@ == self@.fields[i]
                },
    {
        proof {
            use_type_invariant(self);
        }
        let ghost fields = field_specs(self.fields_vec@);
        let mut out: Vec<&Field> = Vec::new();
        let mut k: usize = 0;
        while k < self.index_fields.len()
            invariant
                k <= self.index_fields.len(),
                self.wf(),
                fields == field_specs(self.fields_vec@),
                out@.len() == k,
                forall|j: int|
                    0 <= j < k ==> {
                        let i = #[trigger] indexed_of(fields)[j];
                        0 <= i < fields.len() && out@[j]@ == fields[i]
                    },
            decreases self.index_fields.len() - k,
        {
            let i = self.index_fields[k];
            assert(self.index_fields@.map_values(|i: usize| i as int)[k as int] == i as int);
            out.push(&self.fields_vec[i]);
            k += 1;
        }
        assert(self.index_fields@.map_values(|i: usize| i as int).len() == k);
        out
    }

    pub fn input_keys(&self) -> (r: &Vec<String>)
        ensures
            texts(r@) == keys_of(self@.fields, KeyRule::Input),
    {
        proof {
            use_type_invariant(self);
        }
        &self.input_keys
    }

    pub fn save_keys(&self) -> (r: &Vec<String>)
        ensures
            texts(r@) == keys_of(self@.fields, KeyRule::Save),
    {
        proof {
            use_type_invariant(self);
        }
        &self.save_keys
    }

    pub fn output_keys(&self) -> (r: &Vec<String>)
        ensures
            texts(r@) == keys_of(self@.fields, KeyRule::Output),
    {
        proof {
            use_type_invariant(self);
        }
        &self.output_keys
    }

    pub fn get_value_keys(&self) -> (r: &Vec<String>)
        ensures
            texts(r@) == keys_of(self@.fields, KeyRule::GetValue),
    {
        proof {
            use_type_invariant(self);
        }
        &self.get_value_keys
    }

    /// The names of the declared fields that accept input.
    pub fn allowed_input_keys(builder: &ModelBuilder) -> (r: Vec<String>)
        ensures
            texts(r@) == keys_of(builder@.fields, KeyRule::Input),
    {
        builder.keys(KeyRule::Input)
    }

    /// The names of the declared fields that are stored.
    pub fn allowed_save_keys(builder: &ModelBuilder) -> (r: Vec<String>)
        ensures
            texts(r@) == keys_of(builder@.fields, KeyRule::Save),
    {
        builder.keys(KeyRule::Save)
    }

    /// The names of the declared fields that appear in output.
    pub fn allowed_output_keys(builder: &ModelBuilder) -> (r: Vec<String>)
        ensures
            texts(r@) == keys_of(builder@.fields, KeyRule::Output),
    {
        builder.keys(KeyRule::Output)
    }

    /// The names of all declared fields.
    pub fn get_get_value_keys(builder: &ModelBuilder) -> (r: Vec<String>)
        ensures
            texts(r@) == keys_of(builder@.fields, KeyRule::GetValue),
    {
        builder.keys(KeyRule::GetValue)
    }

    /// Whether the model exposes `action`.
    pub fn has_action(&self, action: ActionType) -> (r: bool)
        ensures
            r == has(self@.actions, action),
    {
        contains_action(&self.actions, action)
    }

    /// Whether the declared invariant of a model holds of this one: names and columns are
    /// unique and at most one field is primary.
    pub fn is_well_named(&self) -> (r: bool)
        ensures
            r == well_named(self@.fields),
    {
        let ghost fields = field_specs(self.fields_vec@);
        let n = self.fields_vec.len();
        let mut j: usize = 0;
        while j < n
            invariant
                j <= n,
                n == self.fields_vec.len(),
                fields == field_specs(self.fields_vec@),
                well_named(fields.take(j as int)),
            decreases n - j,
        {
            let mut i: usize = 0;
            while i < j
                invariant
                    i <= j < n,
                    n == self.fields_vec.len(),
                    fields == field_specs(self.fields_vec@),
                    well_named(fields.take(j as int)),
                    forall|k: int|
                        0 <= k < i ==> {
                            &&& (#[trigger] fields[k]).name != fields[j as int].name
                            &&& fields[k].column != fields[j as int].column
                            &&& !(fields[k].primary && fields[j as int].primary)
                        },
                decreases j - i,
            {
                let a = &self.fields_vec[i];
                let b = &self.fields_vec[j];
                assert(fields[i as int] == a@ && fields[j as int] == b@);
                if same_text(a.name().as_str(), b.name().as_str()) || same_text(
                    a.column_name().as_str(),
                    b.column_name().as_str(),
                ) || (a.is_primary() && b.is_primary()) {
                    return false;
                }
                i += 1;
            }
            assert forall|a: int, b: int| 0 <= a < b < j + 1 implies {
                &&& #[trigger] fields.take(j + 1)[a].name != #[trigger] fields.take(j + 1)[b].name
                &&& fields.take(j + 1)[a].column != fields.take(j + 1)[b].column
                &&& !(fields.take(j + 1)[a].primary && fields.take(j + 1)[b].primary)
            } by {
                if b < j {
                    assert(fields.take(j as int)[a] == fields[a]);
                    assert(fields.take(j as int)[b] == fields[b]);
                }
            }
            j += 1;
        }
        assert(fields.take(n as int) =~= fields);
        true
    }
}

/// The primary position lies within the fields.
pub proof fn lemma_primary_of(fields: Seq<FieldSpec>)
    ensures
        match primary_of(fields) {
            Some(i) => 0 <= i < fields.len() && fields[i].primary,
            None => forall|j: int| 0 <= j < fields.len() ==> !fields[j].primary,
        },
    decreases fields.len(),
{
    if fields.len() > 0 && !fields.last().primary {
        let rest = fields.drop_last();
        lemma_primary_of(rest);
        assert(forall|j: int| 0 <= j < rest.len() ==> rest[j] == fields[j]);
    }
}

/// Whether two texts hold the same characters.
pub fn same_text(a: &str, b: &str) -> (r: bool)
    ensures
        r == (a@ == b@),
{
    let x = a.to_owned();
    let y = b.to_owned();
    x == y
}

} // verus!
