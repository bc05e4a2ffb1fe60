//! The text of names, as a backend reads them.
//!
//! Every synthesized name begins with an underscore. A name that serves the filter on groups
//! carries the marker `_having` in front; the companion counter of a value carries
//! `_nonnull` in front of the value's own text. No two synthesized names share a text.

use vstd::prelude::*;
use vstd::string::StringExecFns;
use crate::name::{AggregateKind, Name};

verus! {

/// The word for a kind of aggregate.
pub open spec fn kind_text(k: AggregateKind) -> Seq<char> {
    match k {
        AggregateKind::Count => "count"@,
        AggregateKind::Sum => "sum"@,
        AggregateKind::Avg => "avg"@,
        AggregateKind::Min => "min"@,
        AggregateKind::Max => "max"@,
    }
}

/// The text of a public result: an underscore and the word for its kind.
pub open spec fn result_text(k: AggregateKind) -> Seq<char> {
    "_"@ + kind_text(k)
}

/// The text of a public intermediate value: that of the result of its kind, an underscore
/// and the column.
pub open spec fn value_text(k: AggregateKind, column: Seq<char>) -> Seq<char> {
    result_text(k) + "_"@ + column
}

/// The marker of the names that serve the filter on groups.
pub open spec fn marker(private: bool) -> Seq<char> {
    if private {
        "_having"@
    } else {
        Seq::empty()
    }
}

/// The text of a name without its marker.
pub open spec fn base_text(n: Name<Seq<char>>) -> Seq<char> {
    match n {
        Name::GroupKey => "_id"@,
        Name::Column(c) => c,
        Name::Field(f) => f,
        Name::Result { private, kind } => result_text(kind),
        Name::Value { private, kind, column } => value_text(kind, column),
        Name::Rows { private } => "_rows"@,
        Name::Counter { private, kind, column } => "_nonnull"@ + value_text(kind, column),
    }
}

/// Whether a name serves the filter on groups.
pub open spec fn is_private(n: Name<Seq<char>>) -> bool {
    match n {
        Name::Result { private, kind } => private,
        Name::Value { private, kind, column } => private,
        Name::Rows { private } => private,
        Name::Counter { private, kind, column } => private,
        _ => false,
    }
}

/// The text of a name.
pub open spec fn rendered(n: Name<Seq<char>>) -> Seq<char> {
    marker(is_private(n)) + base_text(n)
}

/// Whether a name is synthesized by the planner: anything but a field and a column.
pub open spec fn is_synthesized(n: Name<Seq<char>>) -> bool {
    !(n is Field) && !(n is Column)
}

/// The characters of the words that names are made of.
proof fn lemma_words()
    ensures
        "count"@.len() == 5 && "count"@[0] == 'c' && "count"@[1] == 'o',
        "sum"@.len() == 3 && "sum"@[0] == 's' && "sum"@[1] == 'u',
        "avg"@.len() == 3 && "avg"@[0] == 'a' && "avg"@[1] == 'v',
        "min"@.len() == 3 && "min"@[0] == 'm' && "min"@[1] == 'i',
        "max"@.len() == 3 && "max"@[0] == 'm' && "max"@[1] == 'a',
        "_"@.len() == 1 && "_"@[0] == '_',
        "_id"@.len() == 3 && "_id"@[0] == '_' && "_id"@[1] == 'i' && "_id"@[2] == 'd',
        "_rows"@.len() == 5 && "_rows"@[0] == '_' && "_rows"@[1] == 'r' && "_rows"@[2] == 'o',
        "_nonnull"@.len() == 8 && "_nonnull"@[0] == '_' && "_nonnull"@[1] == 'n' && "_nonnull"@[2]
            == 'o',
        "_having"@.len() == 7 && "_having"@[0] == '_' && "_having"@[1] == 'h',
{
    reveal_strlit("count");
    reveal_strlit("sum");
    reveal_strlit("avg");
    reveal_strlit("min");
    reveal_strlit("max");
    reveal_strlit("_");
    reveal_strlit("_id");
    reveal_strlit("_rows");
    reveal_strlit("_nonnull");
    reveal_strlit("_having");
}

/// The second and third character of the word for a kind, as one number: no two kinds share
/// it.
pub open spec fn kind_mark(k: AggregateKind) -> (char, char) {
    match k {
        AggregateKind::Count => ('c', 'o'),
        AggregateKind::Sum => ('s', 'u'),
        AggregateKind::Avg => ('a', 'v'),
        AggregateKind::Min => ('m', 'i'),
        AggregateKind::Max => ('m', 'a'),
    }
}

/// How the text of a synthesized name without its marker begins: with an underscore and two
/// characters that tell its make.
proof fn lemma_base_begins(n: Name<Seq<char>>)
    requires
        is_synthesized(n),
    ensures
        base_text(n).len() >= 3,
        base_text(n)[0] == '_',
        base_text(n)[1] != 'h',
        match n {
            Name::GroupKey => base_text(n)[1] == 'i',
            Name::Result { private, kind } => (base_text(n)[1], base_text(n)[2]) == kind_mark(
                kind,
            ) && base_text(n).len() == 1 + kind_text(kind).len(),
            Name::Value { private, kind, column } => (base_text(n)[1], base_text(n)[2])
                == kind_mark(kind) && base_text(n).len() == 2 + kind_text(kind).len()
                + column.len(),
            Name::Rows { private } => base_text(n)[1] == 'r',
            Name::Counter { private, kind, column } => base_text(n)[1] == 'n',
            _ => true,
        },
{
    lemma_words();
}

/// The texts of two public values agree only where their kinds and their columns agree.
proof fn lemma_value_text_tells(k1: AggregateKind, c1: Seq<char>, k2: AggregateKind, c2: Seq<char>)
    requires
        value_text(k1, c1) == value_text(k2, c2),
    ensures
        k1 == k2,
        c1 == c2,
{
    lemma_words();
    let a = value_text(k1, c1);
    let b = value_text(k2, c2);
    assert(a[1] == b[1] && a[2] == b[2]);
    assert((a[1], a[2]) == kind_mark(k1));
    assert((b[1], b[2]) == kind_mark(k2));
    let head = result_text(k1) + "_"@;
    assert(c1 =~= a.subrange(head.len() as int, a.len() as int));
    assert(c2 =~= b.subrange(head.len() as int, b.len() as int));
}

/// The texts of two synthesized names without marker agree only where the names agree but
/// for their privacy.
proof fn lemma_base_tells(a: Name<Seq<char>>, b: Name<Seq<char>>)
    requires
        is_synthesized(a),
        is_synthesized(b),
        base_text(a) == base_text(b),
    ensures
        match (a, b) {
            (Name::GroupKey, Name::GroupKey) => true,
            (Name::Result { private: p, kind: k }, Name::Result { private: q, kind: l }) => k == l,
            (
                Name::Value { private: p, kind: k, column: c },
                Name::Value { private: q, kind: l, column: d },
            ) => k == l && c == d,
            (Name::Rows { private: p }, Name::Rows { private: q }) => true,
            (
                Name::Counter { private: p, kind: k, column: c },
                Name::Counter { private: q, kind: l, column: d },
            ) => k == l && c == d,
            _ => false,
        },
{
    lemma_words();
    lemma_base_begins(a);
    lemma_base_begins(b);
    let x = base_text(a);
    let y = base_text(b);
    assert(x[1] == y[1] && x[2] == y[2] && x.len() == y.len());
    match (a, b) {
        (
            Name::Value { private: p, kind: k, column: c },
            Name::Value { private: q, kind: l, column: d },
        ) => {
            lemma_value_text_tells(k, c, l, d);
        },
        (
            Name::Counter { private: p, kind: k, column: c },
            Name::Counter { private: q, kind: l, column: d },
        ) => {
            let v = value_text(k, c);
            let w = value_text(l, d);
            assert(v =~= x.subrange(8, x.len() as int));
            assert(w =~= y.subrange(8, y.len() as int));
            lemma_value_text_tells(k, c, l, d);
        },
        _ => {},
    }
}

/// No two synthesized names share a text: where the texts of two of them agree, they are
/// the same name. So a name that serves the filter on groups never collides with the name
/// of an aggregate of the same kind over the same column that the caller asked for.
pub proof fn lemma_rendered_tells(a: Name<Seq<char>>, b: Name<Seq<char>>)
    requires
        is_synthesized(a),
        is_synthesized(b),
        rendered(a) == rendered(b),
    ensures
        a == b,
{
    lemma_words();
    lemma_base_begins(a);
    lemma_base_begins(b);
    let x = rendered(a);
    let y = rendered(b);
    assert(x[1] == y[1]);
    if is_private(a) {
        assert(x[1] == 'h');
        assert(is_private(b));
        assert(base_text(a) =~= x.subrange(7, x.len() as int));
        assert(base_text(b) =~= y.subrange(7, y.len() as int));
    } else {
        assert(x =~= base_text(a));
        assert(x[1] != 'h');
        assert(!is_private(b));
        assert(y =~= base_text(b));
    }
    lemma_base_tells(a, b);
}

/// Every synthesized name begins with an underscore.
pub proof fn lemma_rendered_begins(n: Name<Seq<char>>)
    requires
        is_synthesized(n),
    ensures
        rendered(n).len() >= 3,
        rendered(n)[0] == '_',
{
    lemma_words();
    lemma_base_begins(n);
}

/// The word for a kind of aggregate.
pub fn kind_word(k: AggregateKind) -> (r: &'static str)
    ensures
        r@ == kind_text(k),
{
    match k {
        AggregateKind::Count => "count",
        AggregateKind::Sum => "sum",
        AggregateKind::Avg => "avg",
        AggregateKind::Min => "min",
        AggregateKind::Max => "max",
    }
}

/// The text of a name.
pub fn render(n: &Name<String>) -> (r: String)
    ensures
        r@ == rendered(n@),
{
    let private = match n {
        Name::Result { private, kind } => *private,
        Name::Value { private, kind, column } => *private,
        Name::Rows { private } => *private,
        Name::Counter { private, kind, column } => *private,
        _ => false,
    };
    let mut out = if private {
        String::from_str("_having")
    } else {
        String::new()
    };
    let ghost start = out@;
    assert(start == marker(is_private(n@)));
    match n {
        Name::GroupKey => {
            out.append("_id");
        },
        Name::Column(c) => {
            out.append(c.as_str());
        },
        Name::Field(f) => {
            out.append(f.as_str());
        },
        Name::Result { private, kind } => {
            out.append("_");
            out.append(kind_word(*kind));
            assert(out@ =~= start + result_text(*kind));
        },
        Name::Value { private, kind, column } => {
            out.append("_");
            out.append(kind_word(*kind));
            out.append("_");
            out.append(column.as_str());
            assert(out@ =~= start + value_text(*kind, column@));
        },
        Name::Rows { private } => {
            out.append("_rows");
        },
        Name::Counter { private, kind, column } => {
            out.append("_nonnull");
            out.append("_");
            out.append(kind_word(*kind));
            out.append("_");
            out.append(column.as_str());
            assert(out@ =~= start + ("_nonnull"@ + value_text(*kind, column@)));
        },
    }
    out
}

} // verus!
