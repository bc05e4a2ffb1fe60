//! Casing and inflection of identifiers.
//!
//! The inflections themselves are computed by the `Inflector` crate and by `std`. Each is a
//! fixed function of the text it is given, so its result has a name here, and the callers'
//! contracts speak of that name.

use vstd::prelude::*;

verus! {

/// The lower-cased form of a text, as `str::to_lowercase` gives it.
pub uninterp spec fn lowercase_of(s: Seq<char>) -> Seq<char>;

/// The plural of a word, as `inflector::string::pluralize::to_plural` gives it.
pub uninterp spec fn plural_of(s: Seq<char>) -> Seq<char>;

/// The kebab-case form of a text, as `inflector::cases::kebabcase::to_kebab_case` gives it.
pub uninterp spec fn kebab_case_of(s: Seq<char>) -> Seq<char>;

/// The snake_case form of a text, as `inflector::cases::snakecase::to_snake_case` gives it.
pub uninterp spec fn snake_case_of(s: Seq<char>) -> Seq<char>;

/// The sentence-case form of a text, as `inflector::cases::sentencecase::to_sentence_case`
/// gives it.
pub uninterp spec fn sentence_case_of(s: Seq<char>) -> Seq<char>;

/// The words of a name, in lower case: the lower-cased sentence-case form of the name.
pub open spec fn words_of(s: Seq<char>) -> Seq<char> {
    lowercase_of(sentence_case_of(s))
}

/// Calls `inflector::cases::sentencecase::to_sentence_case`. Trusted: the result is the
/// sentence-case form of the argument, a function of the argument alone.
#[verifier::external_body]
pub(crate) fn sentence_case(s: &str) -> (r: String)
    ensures
        r@ == sentence_case_of(s@),
{
    inflector::cases::sentencecase::to_sentence_case(s)
}

/// The words of a name, in lower case.
pub fn words(s: &str) -> (r: String)
    ensures
        r@ == words_of(s@),
{
    lowercase(sentence_case(s).as_str())
}

/// Calls `str::to_lowercase`. Trusted: the result is the lower-cased form of the argument,
/// a function of the argument alone.
#[verifier::external_body]
pub(crate) fn lowercase(s: &str) -> (r: String)
    ensures
        r@ == lowercase_of(s@),
{
    s.to_lowercase()
}

/// Calls `inflector::string::pluralize::to_plural`. Trusted: the result is the plural that
/// the crate's rule table gives for the argument, a function of the argument alone.
#[verifier::external_body]
pub(crate) fn plural(s: &str) -> (r: String)
    ensures
        r@ == plural_of(s@),
{
    inflector::string::pluralize::to_plural(s)
}

/// Calls `inflector::cases::kebabcase::to_kebab_case`. Trusted: the result is the
/// kebab-case form of the argument, a function of the argument alone.
#[verifier::external_body]
pub(crate) fn kebab_case(s: &str) -> (r: String)
    ensures
        r@ == kebab_case_of(s@),
{
    inflector::cases::kebabcase::to_kebab_case(s)
}

/// Calls `inflector::cases::snakecase::to_snake_case`. Trusted: the result is the
/// snake_case form of the argument, a function of the argument alone.
#[verifier::external_body]
pub(crate) fn snake_case(s: &str) -> (r: String)
    ensures
        r@ == snake_case_of(s@),
{
    inflector::cases::snakecase::to_snake_case(s)
}

/// The views of a sequence of strings, one for one.
pub open spec fn texts(v: Seq<String>) -> Seq<Seq<char>> {
    v.map_values(|s: String| s@)
}

} // verus!
