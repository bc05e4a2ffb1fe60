//! Predicates over rows, and how they are rewritten from the logical fields of a model to
//! its storage columns.

use vstd::prelude::*;
use crate::error::{ErrorKind, ErrorSpec};
use crate::field::{FieldSpec, FieldType};
use crate::model::{lemma_position_of, position_of, Model};
use crate::name::{copy_name, Name};

verus! {

/// A comparison operator.
#[derive(Clone, Copy, Debug, PartialEq, Eq, Structural)]
pub enum Comparison {
    Eq,
    Ne,
    Gt,
    Gte,
    Lt,
    Lte,
}

/// A value written in a query. `S` is the type of text.
#[derive(Clone, Debug, PartialEq, Eq)]
pub enum Literal<S> {
    Null,
    Bool(bool),
    Int(i64),
    Text(S),
}

impl View for Literal<String> {
    type V = Literal<Seq<char>>;

    open spec fn view(&self) -> Literal<Seq<char>> {
        match self {
            Literal::Null => Literal::Null,
            Literal::Bool(b) => Literal::Bool(*b),
            Literal::Int(i) => Literal::Int(*i),
            Literal::Text(s) => Literal::Text(s@),
        }
    }
}

/// The views of a list of literals.
pub open spec fn literals(v: Seq<Literal<String>>) -> Seq<Literal<Seq<char>>> {
    v.map_values(|l: Literal<String>| l@)
}

/// What is asked of one value.
#[derive(Debug, PartialEq, Eq)]
pub enum Check {
    /// The value compares to the literal as the operator says.
    Compare(Comparison, Literal<String>),
    /// The value is null.
    IsNull,
    /// The value is text that matches the pattern.
    Matches { pattern: String, case_insensitive: bool },
    /// The value equals one of the literals.
    OneOf(Vec<Literal<String>>),
}

/// A check, as plain values.
pub enum CheckSpec {
    Compare(Comparison, Literal<Seq<char>>),
    IsNull,
    Matches { pattern: Seq<char>, case_insensitive: bool },
    OneOf(Seq<Literal<Seq<char>>>),
}

impl View for Check {
    type V = CheckSpec;

    open spec fn view(&self) -> CheckSpec {
        match self {
            Check::Compare(op, l) => CheckSpec::Compare(*op, l@),
            Check::IsNull => CheckSpec::IsNull,
            Check::Matches { pattern, case_insensitive } => CheckSpec::Matches {
                pattern: pattern@,
                case_insensitive: *case_insensitive,
            },
            Check::OneOf(v) => CheckSpec::OneOf(literals(v@)),
        }
    }
}

/// A boolean tree over checks of named values. A check addresses the value called `name`,
/// or, with an `entry`, the value under that key of the mapping called `name`.
#[derive(Debug, PartialEq, Eq)]
pub enum Predicate {
    /// Holds of every row.
    Always,
    Test { name: Name<String>, entry: Option<String>, check: Check },
    And(Box<Predicate>, Box<Predicate>),
    Or(Box<Predicate>, Box<Predicate>),
    Not(Box<Predicate>),
}

/// A predicate, as plain values.
pub enum PredicateSpec {
    Always,
    Test { name: Name<Seq<char>>, entry: Option<Seq<char>>, check: CheckSpec },
    And(Box<PredicateSpec>, Box<PredicateSpec>),
    Or(Box<PredicateSpec>, Box<PredicateSpec>),
    Not(Box<PredicateSpec>),
}

/// The view of a text that may be absent.
pub open spec fn text_of(s: Option<String>) -> Option<Seq<char>> {
    match s {
        Some(s) => Some(s@),
        None => None,
    }
}

/// The view of a predicate.
pub open spec fn predicate_spec(p: Predicate) -> PredicateSpec
    decreases p,
{
    match p {
        Predicate::Always => PredicateSpec::Always,
        Predicate::Test { name, entry, check } => PredicateSpec::Test {
            name: name@,
            entry: text_of(entry),
            check: check@,
        },
        Predicate::And(a, b) => PredicateSpec::And(
            Box::new(predicate_spec(*a)),
            Box::new(predicate_spec(*b)),
        ),
        Predicate::Or(a, b) => PredicateSpec::Or(
            Box::new(predicate_spec(*a)),
            Box::new(predicate_spec(*b)),
        ),
        Predicate::Not(a) => PredicateSpec::Not(Box::new(predicate_spec(*a))),
    }
}

impl View for Predicate {
    type V = PredicateSpec;

    open spec fn view(&self) -> PredicateSpec {
        predicate_spec(*self)
    }
}

/// Whether a value of the type can be compared with the literal: null with any, a boolean
/// with booleans, a number with numbers, text with anything that is neither.
pub open spec fn compatible(t: FieldType, l: Literal<Seq<char>>) -> bool {
    match l {
        Literal::Null => true,
        Literal::Bool(_) => t == FieldType::Bool,
        Literal::Int(_) => t.spec_is_numeric(),
        Literal::Text(_) => t != FieldType::Bool && !t.spec_is_numeric(),
    }
}

/// Whether a check can be made of a value of the type. A pattern matches text only.
pub open spec fn fits(t: FieldType, c: CheckSpec) -> bool {
    match c {
        CheckSpec::Compare(_, l) => compatible(t, l),
        CheckSpec::IsNull => true,
        CheckSpec::Matches { .. } => t.spec_is_text(),
        CheckSpec::OneOf(ls) => all_fit(t, ls),
    }
}

/// Whether a value of the type can be compared with each of the literals.
pub open spec fn all_fit(t: FieldType, ls: Seq<Literal<Seq<char>>>) -> bool {
    forall|i: int| 0 <= i < ls.len() ==> compatible(t, #[trigger] ls[i])
}

/// The predicate over storage columns that `p` stands for, or the first refusal met when
/// reading `p` from left to right. A check of a logical field becomes a check of its column;
/// a check of any other name stays as it is.
pub open spec fn translated(p: PredicateSpec, fields: Seq<FieldSpec>) -> Result<
    PredicateSpec,
    ErrorSpec,
>
    decreases p,
{
    match p {
        PredicateSpec::Always => Ok(PredicateSpec::Always),
        PredicateSpec::Test { name, entry, check } => match name {
            Name::Field(f) => match position_of(fields, f) {
                None => Err(ErrorSpec::UnknownField(f)),
                Some(i) => if fits(fields[i].field_type, check) {
                    Ok(PredicateSpec::Test { name: Name::Column(fields[i].column), entry, check })
                } else {
                    Err(ErrorSpec::TypeMismatch(f))
                },
            },
            _ => Ok(p),
        },
        PredicateSpec::And(a, b) => match translated(*a, fields) {
            Err(e) => Err(e),
            Ok(x) => match translated(*b, fields) {
                Err(e) => Err(e),
                Ok(y) => Ok(PredicateSpec::And(Box::new(x), Box::new(y))),
            },
        },
        PredicateSpec::Or(a, b) => match translated(*a, fields) {
            Err(e) => Err(e),
            Ok(x) => match translated(*b, fields) {
                Err(e) => Err(e),
                Ok(y) => Ok(PredicateSpec::Or(Box::new(x), Box::new(y))),
            },
        },
        PredicateSpec::Not(a) => match translated(*a, fields) {
            Err(e) => Err(e),
            Ok(x) => Ok(PredicateSpec::Not(Box::new(x))),
        },
    }
}

/// A copy of a literal.
pub fn copy_literal(l: &Literal<String>) -> (r: Literal<String>)
    ensures
        r@ == l@,
{
    match l {
        Literal::Null => Literal::Null,
        Literal::Bool(b) => Literal::Bool(*b),
        Literal::Int(i) => Literal::Int(*i),
        Literal::Text(s) => Literal::Text(s.clone()),
    }
}

/// A copy of a check.
pub fn copy_check(c: &Check) -> (r: Check)
    ensures
        r@ == c@,
{
    match c {
        Check::Compare(op, l) => Check::Compare(*op, copy_literal(l)),
        Check::IsNull => Check::IsNull,
        Check::Matches { pattern, case_insensitive } => Check::Matches {
            pattern: pattern.clone(),
            case_insensitive: *case_insensitive,
        },
        Check::OneOf(v) => {
            let mut out: Vec<Literal<String>> = Vec::new();
            let mut i: usize = 0;
            while i < v.len()
                invariant
                    i <= v.len(),
                    out@.len() == i,
                    forall|j: int| 0 <= j < i ==> (#[trigger] out@[j])@ == v@[j]@,
                decreases v.len() - i,
            {
                out.push(copy_literal(&v[i]));
                i += 1;
            }
            assert(literals(out@) =~= literals(v@));
            Check::OneOf(out)
        },
    }
}

/// A copy of a text that may be absent.
pub fn copy_entry(e: &Option<String>) -> (r: Option<String>)
    ensures
        text_of(r) == text_of(*e),
{
    match e {
        Some(s) => Some(s.clone()),
        None => None,
    }
}

/// Whether a value of the type can be compared with the literal.
pub fn is_compatible(t: FieldType, l: &Literal<String>) -> (r: bool)
    ensures
        r == compatible(t, l@),
{
    match l {
        Literal::Null => true,
        Literal::Bool(_) => matches!(t, FieldType::Bool),
        Literal::Int(_) => t.is_numeric(),
        Literal::Text(_) => !matches!(t, FieldType::Bool) && !t.is_numeric(),
    }
}

/// Whether a value of the type can be compared with each of the literals.
pub fn all_compatible(t: FieldType, v: &Vec<Literal<String>>) -> (r: bool)
    ensures
        r == all_fit(t, literals(v@)),
{
    let mut i: usize = 0;
    while i < v.len()
        invariant
            i <= v.len(),
            forall|j: int| 0 <= j < i ==> compatible(t, #[trigger] literals(v@)[j]),
        decreases v.len() - i,
    {
        assert(literals(v@)[i as int] == v@[i as int]@);
        if !is_compatible(t, &v[i]) {
            assert(i < literals(v@).len() && !compatible(t, literals(v@)[i as int]));
            return false;
        }
        i += 1;
    }
    assert(literals(v@).len() == v@.len());
    true
}

/// Whether a check can be made of a value of the type.
pub fn check_fits(t: FieldType, c: &Check) -> (r: bool)
    ensures
        r == fits(t, c@),
{
    match c {
        Check::Compare(_, l) => is_compatible(t, l),
        Check::IsNull => true,
        Check::Matches { .. } => t.is_text(),
        Check::OneOf(v) => all_compatible(t, v),
    }
}

/// Translates a predicate over the logical fields of `model` into one over its storage
/// columns. Fails with `UnknownField` at a name that is not a field of the model and with
/// `TypeMismatch` at a check that the field's type does not admit; of several refusals the
/// leftmost is reported.
pub fn translate(p: &Predicate, model: &Model) -> (r: Result<Predicate, ErrorKind>)
    ensures
        match r {
            Ok(q) => translated(p@, model@.fields) == Ok::<PredicateSpec, ErrorSpec>(q@),
            Err(e) => translated(p@, model@.fields) == Err::<PredicateSpec, ErrorSpec>(e@),
        },
    decreases p,
{
    match p {
        Predicate::Always => Ok(Predicate::Always),
        Predicate::Test { name, entry, check } => match name {
            Name::Field(f) => {
                proof {
                    lemma_position_of(model@.fields, f@);
                }
                match model.field(f.as_str()) {
                    None => Err(ErrorKind::UnknownField(f.clone())),
                    Some(field) => {
                        if check_fits(field.field_type(), check) {
                            Ok(
                                Predicate::Test {
                                    name: Name::Column(field.column_name().clone()),
                                    entry: copy_entry(entry),
                                    check: copy_check(check),
                                },
                            )
                        } else {
                            Err(ErrorKind::TypeMismatch(f.clone()))
                        }
                    },
                }
            },
            _ => Ok(
                Predicate::Test {
                    name: copy_name(name),
                    entry: copy_entry(entry),
                    check: copy_check(check),
                },
            ),
        },
        Predicate::And(a, b) => {
            match translate(a, model) {
                Err(e) => Err(e),
                Ok(x) => match translate(b, model) {
                    Err(e) => Err(e),
                    Ok(y) => Ok(Predicate::And(Box::new(x), Box::new(y))),
                },
            }
        },
        Predicate::Or(a, b) => {
            match translate(a, model) {
                Err(e) => Err(e),
                Ok(x) => match translate(b, model) {
                    Err(e) => Err(e),
                    Ok(y) => Ok(Predicate::Or(Box::new(x), Box::new(y))),
                },
            }
        },
        Predicate::Not(a) => {
            match translate(a, model) {
                Err(e) => Err(e),
                Ok(x) => Ok(Predicate::Not(Box::new(x))),
            }
        },
    }
}

} // verus!

