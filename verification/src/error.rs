//! The ways in which compiling a query fails.

use vstd::prelude::*;

verus! {

/// Why a query was refused. Every refusal is found before any plan is handed out.
#[derive(Debug, PartialEq, Eq)]
pub enum ErrorKind {
    /// A name that is not a field of the model.
    UnknownField(String),
    /// A value that the field's type cannot be compared with.
    TypeMismatch(String),
    /// A sum or an average over a field that is not numeric.
    NonAggregatableType(String),
    /// A filter on groups where nothing is grouped.
    HavingWithoutGrouping,
    /// A cursor that does not point at exactly one row.
    CursorNotFound,
    /// A page number below one.
    InvalidPage,
    /// A shape that the backend cannot express.
    UnsupportedConstruct,
}

/// A refusal, as plain values.
pub enum ErrorSpec {
    UnknownField(Seq<char>),
    TypeMismatch(Seq<char>),
    NonAggregatableType(Seq<char>),
    HavingWithoutGrouping,
    CursorNotFound,
    InvalidPage,
    UnsupportedConstruct,
}

impl View for ErrorKind {
    type V = ErrorSpec;

    open spec fn view(&self) -> ErrorSpec {
        match self {
            ErrorKind::UnknownField(s) => ErrorSpec::UnknownField(s@),
            ErrorKind::TypeMismatch(s) => ErrorSpec::TypeMismatch(s@),
            ErrorKind::NonAggregatableType(s) => ErrorSpec::NonAggregatableType(s@),
            ErrorKind::HavingWithoutGrouping => ErrorSpec::HavingWithoutGrouping,
            ErrorKind::CursorNotFound => ErrorSpec::CursorNotFound,
            ErrorKind::InvalidPage => ErrorSpec::InvalidPage,
            ErrorKind::UnsupportedConstruct => ErrorSpec::UnsupportedConstruct,
        }
    }
}

impl ErrorKind {
    /// Whether the caller is at fault: every refusal but a gap in what the backend renders.
    pub fn is_bad_request(&self) -> (r: bool)
        ensures
            r == !(self@ is UnsupportedConstruct),
    {
        match self {
            ErrorKind::UnsupportedConstruct => false,
            _ => true,
        }
    }

    /// The field that the refusal names, if it names one.
    pub fn field(&self) -> (r: Option<&String>)
        ensures
            match self@ {
                ErrorSpec::UnknownField(s)
                | ErrorSpec::TypeMismatch(s)
                | ErrorSpec::NonAggregatableType(s) => r.is_some() && r.unwrap()@ == s,
                _ => r.is_none(),
            },
    {
        match self {
            ErrorKind::UnknownField(s) => Some(s),
            ErrorKind::TypeMismatch(s) => Some(s),
            ErrorKind::NonAggregatableType(s) => Some(s),
            _ => None,
        }
    }
}

} // verus!
