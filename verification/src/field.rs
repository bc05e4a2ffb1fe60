//! Fields of a model: the logical name, the storage column and what else is declared of a
//! field.

use vstd::prelude::*;
use crate::text::{snake_case, snake_case_of};

verus! {

/// The declared type of a field.
#[derive(Clone, Copy, Debug, PartialEq, Eq, Structural)]
pub enum FieldType {
    Bool,
    Int32,
    Int64,
    Float32,
    Float64,
    Decimal,
    String,
    Date,
    DateTime,
    Enum,
}

impl FieldType {
    /// Whether values of this type can be summed and averaged.
    pub open spec fn spec_is_numeric(self) -> bool {
        self == FieldType::Int32 || self == FieldType::Int64 || self == FieldType::Float32
            || self == FieldType::Float64 || self == FieldType::Decimal
    }

    #[verifier::when_used_as_spec(spec_is_numeric)]
    pub fn is_numeric(self) -> (r: bool)
        ensures
            r == self.spec_is_numeric(),
    {
        match self {
            FieldType::Int32 | FieldType::Int64 | FieldType::Float32 | FieldType::Float64
            | FieldType::Decimal => true,
            _ => false,
        }
    }

    /// Whether values of this type are text, so that a pattern can match them.
    pub open spec fn spec_is_text(self) -> bool {
        self == FieldType::String
    }

    #[verifier::when_used_as_spec(spec_is_text)]
    pub fn is_text(self) -> (r: bool)
        ensures
            r == self.spec_is_text(),
    {
        match self {
            FieldType::String => true,
            _ => false,
        }
    }
}

/// Index membership of a field.
#[derive(Clone, Copy, Debug, PartialEq, Eq, Structural)]
pub enum FieldIndex {
    NoIndex,
    Index,
    Unique,
}

/// Whether a field appears in output.
#[derive(Clone, Copy, Debug, PartialEq, Eq, Structural)]
pub enum ReadRule {
    Read,
    NoRead,
}

/// Whether a field is accepted in input.
#[derive(Clone, Copy, Debug, PartialEq, Eq, Structural)]
pub enum WriteRule {
    Write,
    NoWrite,
}

/// Where the value of a field lives.
#[derive(Clone, Copy, Debug, PartialEq, Eq, Structural)]
pub enum Store {
    Embedded,
    Calculated,
    Temp,
}

/// What a field says, as plain values.
pub struct FieldSpec {
    pub name: Seq<char>,
    pub column: Seq<char>,
    pub field_type: FieldType,
    pub optional: bool,
    pub primary: bool,
    pub index: FieldIndex,
    pub read_rule: ReadRule,
    pub write_rule: WriteRule,
    pub store: Store,
}

impl FieldSpec {
    /// The declaration with its storage column settled: an empty column stands for the
    /// snake_case form of the logical name.
    pub open spec fn resolved(self) -> FieldSpec {
        FieldSpec {
            column: if self.column.len() == 0 {
                snake_case_of(self.name)
            } else {
                self.column
            },
            ..self
        }
    }
}

/// The declaration of a field, as the schema loader hands it over. An empty `column_name`
/// asks for the default.
#[derive(Clone, Debug, PartialEq, Eq)]
pub struct FieldBuilder {
    pub name: String,
    pub column_name: String,
    pub field_type: FieldType,
    pub optional: bool,
    pub primary: bool,
    pub index: FieldIndex,
    pub read_rule: ReadRule,
    pub write_rule: WriteRule,
    pub store: Store,
}

impl View for FieldBuilder {
    type V = FieldSpec;

    open spec fn view(&self) -> FieldSpec {
        FieldSpec {
            name: self.name@,
            column: self.column_name@,
            field_type: self.field_type,
            optional: self.optional,
            primary: self.primary,
            index: self.index,
            read_rule: self.read_rule,
            write_rule: self.write_rule,
            store: self.store,
        }
    }
}

impl FieldBuilder {
    /// A required, readable, writable, stored field without index, with the default column.
    pub fn new(name: &str, field_type: FieldType) -> (r: FieldBuilder)
        ensures
            r@ == (FieldSpec {
                name: name@,
                column: Seq::<char>::empty(),
                field_type,
                optional: false,
                primary: false,
                index: FieldIndex::NoIndex,
                read_rule: ReadRule::Read,
                write_rule: WriteRule::Write,
                store: Store::Embedded,
            }),
    {
        FieldBuilder {
            name: name.to_owned(),
            column_name: String::new(),
            field_type,
            optional: false,
            primary: false,
            index: FieldIndex::NoIndex,
            read_rule: ReadRule::Read,
            write_rule: WriteRule::Write,
            store: Store::Embedded,
        }
    }
}

/// A field of a model.
#[derive(Debug, PartialEq, Eq)]
pub struct Field {
    name: String,
    column_name: String,
    field_type: FieldType,
    optional: bool,
    primary: bool,
    index: FieldIndex,
    read_rule: ReadRule,
    write_rule: WriteRule,
    store: Store,
}

impl View for Field {
    type V = FieldSpec;

    closed spec fn view(&self) -> FieldSpec {
        FieldSpec {
            name: self.name@,
            column: self.column_name@,
            field_type: self.field_type,
            optional: self.optional,
            primary: self.primary,
            index: self.index,
            read_rule: self.read_rule,
            write_rule: self.write_rule,
            store: self.store,
        }
    }
}

impl Field {
    /// The field that a declaration describes, with its storage column settled.
    pub fn new(builder: &FieldBuilder) -> (r: Field)
        ensures
            r@ == builder@.resolved(),
    {
        let column_name = if builder.column_name.as_str().is_empty() {
            snake_case(builder.name.as_str())
        } else {
            builder.column_name.clone()
        };
        Field {
            name: builder.name.clone(),
            column_name,
            field_type: builder.field_type,
            optional: builder.optional,
            primary: builder.primary,
            index: builder.index,
            read_rule: builder.read_rule,
            write_rule: builder.write_rule,
            store: builder.store,
        }
    }

    pub fn name(&self) -> (r: &String)
        ensures
            r@ == self@.name,
    {
        &self.name
    }

    pub fn column_name(&self) -> (r: &String)
        ensures
            r@ == self@.column,
    {
        &self.column_name
    }

    pub fn field_type(&self) -> (r: FieldType)
        ensures
            r == self@.field_type,
    {
        self.field_type
    }

    pub fn is_optional(&self) -> (r: bool)
        ensures
            r == self@.optional,
    {
        self.optional
    }

    pub fn is_primary(&self) -> (r: bool)
        ensures
            r == self@.primary,
    {
        self.primary
    }

    pub fn index(&self) -> (r: FieldIndex)
        ensures
            r == self@.index,
    {
        self.index
    }
}

} // verus!
