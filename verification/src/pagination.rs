//! The pagination resolver: the window of rows that a query asks for, and the condition
//! that a cursor puts on the rows.

use vstd::prelude::*;
use crate::error::{ErrorKind, ErrorSpec};
use crate::name::{copy_name, Name};
use crate::plan::{sort_keys, Direction, SortKey};
use crate::predicate::{
    copy_literal, literals, predicate_spec, Check, CheckSpec, Comparison, Literal, Predicate,
    PredicateSpec,
};

verus! {

/// The window of rows to return: after sorting, reversed where `reversed` is set, the first
/// `skip` rows are dropped and at most `limit` rows are kept. The rows of a reversed window
/// are handed out in the requested order again.
#[derive(Clone, Copy, Debug, PartialEq, Eq)]
pub struct Window {
    pub reversed: bool,
    pub skip: u64,
    pub limit: Option<u64>,
}

/// A window, as plain values.
pub struct WindowSpec {
    pub reversed: bool,
    pub skip: nat,
    pub limit: Option<nat>,
}

impl View for Window {
    type V = WindowSpec;

    open spec fn view(&self) -> WindowSpec {
        WindowSpec {
            reversed: self.reversed,
            skip: self.skip as nat,
            limit: match self.limit {
                Some(n) => Some(n as nat),
                None => None,
            },
        }
    }
}

/// The window that the options ask for. A page number below one is refused. With a page
/// size, the window is the page of that number (the first where none is given): pages are
/// counted from one and never reversed. Without, `skip` rows are dropped (none by default)
/// and `take` bounds the rows (unbounded by default); a negative `take` reverses the window
/// and bounds it by the absolute value.
pub open spec fn window_of(
    take: Option<i32>,
    skip: Option<u32>,
    page_size: Option<u32>,
    page_number: Option<i32>,
) -> Result<WindowSpec, ErrorSpec> {
    if page_number.is_some() && page_number.unwrap() < 1 {
        Err(ErrorSpec::InvalidPage)
    } else {
        match page_size {
            Some(size) => {
                let number: int = match page_number {
                    Some(n) => n as int,
                    None => 1,
                };
                Ok(
                    WindowSpec {
                        reversed: false,
                        skip: (size * (number - 1)) as nat,
                        limit: Some(size as nat),
                    },
                )
            },
            None => Ok(
                WindowSpec {
                    reversed: take.is_some() && take.unwrap() < 0,
                    skip: match skip {
                        Some(n) => n as nat,
                        None => 0,
                    },
                    limit: match take {
                        Some(t) => Some(
                            if t < 0 {
                                (-t) as nat
                            } else {
                                t as nat
                            },
                        ),
                        None => None,
                    },
                },
            ),
        }
    }
}

/// A page is an offset: the page of number `n` and size `s` is the window that passes over
/// `s * (n - 1)` rows and takes `s`.
pub proof fn lemma_page_is_offset(size: u32, number: i32)
    requires
        number >= 1,
        size <= i32::MAX,
        size * (number - 1) <= u32::MAX,
    ensures
        window_of(None, None, Some(size), Some(number)) == window_of(
            Some(size as i32),
            Some((size * (number - 1)) as u32),
            None,
            None,
        ),
        window_of(None, None, Some(size), Some(number)) == Ok::<WindowSpec, ErrorSpec>(
            WindowSpec {
                reversed: false,
                skip: (size * (number - 1)) as nat,
                limit: Some(size as nat),
            },
        ),
{
    assert(size * (number - 1) >= 0) by (nonlinear_arith)
        requires
            size >= 0,
            number >= 1,
    ;
}

/// Whether the rows are to be retrieved in reversed order and reversed again afterwards.
pub fn has_negative_take(take: Option<i32>) -> (r: bool)
    ensures
        r == (take.is_some() && take.unwrap() < 0),
{
    match take {
        Some(t) => t < 0,
        None => false,
    }
}

/// Resolves the pagination options to a window. Fails with `InvalidPage` for a page number
/// below one.
pub fn resolve_window(
    take: Option<i32>,
    skip: Option<u32>,
    page_size: Option<u32>,
    page_number: Option<i32>,
) -> (r: Result<Window, ErrorKind>)
    ensures
        match r {
            Ok(w) => window_of(take, skip, page_size, page_number) == Ok::<WindowSpec, ErrorSpec>(
                w@,
            ),
            Err(e) => e@ == ErrorSpec::InvalidPage && window_of(take, skip, page_size, page_number)
                == Err::<WindowSpec, ErrorSpec>(ErrorSpec::InvalidPage),
        },
{
    let number: u64 = match page_number {
        Some(n) => {
            if n < 1 {
                return Err(ErrorKind::InvalidPage);
            }
            n as u64
        },
        None => 1,
    };
    match page_size {
        Some(size) => {
            let size: u64 = size as u64;
            let before: u64 = number - 1;
            assert(size * before <= 0xffff_ffff * 0x7fff_ffff) by (nonlinear_arith)
                requires
                    size <= 0xffff_ffff,
                    before <= 0x7fff_ffff,
            ;
            Ok(Window { reversed: false, skip: size * before, limit: Some(size) })
        },
        None => {
            let skip: u64 = match skip {
                Some(n) => n as u64,
                None => 0,
            };
            match take {
                Some(t) => {
                    let bound: u64 = if t < 0 {
                        (-(t as i64)) as u64
                    } else {
                        t as u64
                    };
                    Ok(Window { reversed: t < 0, skip, limit: Some(bound) })
                },
                None => Ok(Window { reversed: false, skip, limit: None }),
            }
        },
    }
}

/// The side of the anchor that a cursor asks for.
#[derive(Clone, Copy, Debug, PartialEq, Eq, Structural)]
pub enum CursorDirection {
    After,
    Before,
}

/// A cursor: the unique key of the anchor row, the side of it that is asked for, and
/// whether the anchor itself belongs to the result.
#[derive(Clone, Debug, PartialEq, Eq)]
pub struct Cursor {
    pub key: Literal<String>,
    pub direction: CursorDirection,
    pub inclusive: bool,
}

/// What the lookup of an anchor found: how many rows have the cursor's key, and the values
/// of the sort keys of the row that was found.
#[derive(Clone, Debug, PartialEq, Eq)]
pub struct Anchor {
    pub matches: usize,
    pub tuple: Vec<Literal<String>>,
}

/// The comparison that a value beyond the anchor's satisfies along a direction.
pub open spec fn strictly(direction: Direction) -> Comparison {
    match direction {
        Direction::Asc => Comparison::Gt,
        Direction::Desc => Comparison::Lt,
    }
}

/// A check of the value called `name` against the anchor's.
pub open spec fn anchor_test(name: Name<Seq<char>>, op: Comparison, value: Literal<Seq<char>>) -> PredicateSpec {
    PredicateSpec::Test { name, entry: None, check: CheckSpec::Compare(op, value) }
}

/// The condition that a row lies beyond the anchor: its tuple of sort-key values compares
/// after the anchor's, component by component, each along its own direction. The first
/// component decides unless it equals the anchor's; a row whose tuple equals the anchor's
/// throughout satisfies the condition exactly if the anchor is included.
pub open spec fn beyond(
    order: Seq<SortKey<Seq<char>>>,
    anchor: Seq<Literal<Seq<char>>>,
    inclusive: bool,
) -> PredicateSpec
    recommends
        order.len() == anchor.len(),
    decreases order.len(),
{
    if order.len() == 0 || anchor.len() == 0 {
        if inclusive {
            PredicateSpec::Always
        } else {
            PredicateSpec::Not(Box::new(PredicateSpec::Always))
        }
    } else {
        PredicateSpec::Or(
            Box::new(anchor_test(order[0].name, strictly(order[0].direction), anchor[0])),
            Box::new(
                PredicateSpec::And(
                    Box::new(anchor_test(order[0].name, Comparison::Eq, anchor[0])),
                    Box::new(beyond(order.drop_first(), anchor.drop_first(), inclusive)),
                ),
            ),
        )
    }
}

/// The comparison that a value beyond the anchor's satisfies along a direction.
pub fn strict_comparison(direction: Direction) -> (r: Comparison)
    ensures
        r == strictly(direction),
{
    match direction {
        Direction::Asc => Comparison::Gt,
        Direction::Desc => Comparison::Lt,
    }
}

/// Builds the condition that a row lies beyond the anchor along the given order.
pub fn cursor_condition(order: &Vec<SortKey<String>>, anchor: &Vec<Literal<String>>, inclusive: bool) -> (r:
    Predicate)
    requires
        order@.len() == anchor@.len(),
    ensures
        r@ == beyond(sort_keys(order@), literals(anchor@), inclusive),
{
    let ghost ks = sort_keys(order@);
    let ghost vs = literals(anchor@);
    let mut p = if inclusive {
        Predicate::Always
    } else {
        Predicate::Not(Box::new(Predicate::Always))
    };
    let mut i: usize = order.len();
    proof {
        reveal_with_fuel(predicate_spec, 3);
        assert(ks.skip(i as int).len() == 0);
    }
    while i > 0
        invariant
            i <= order.len(),
            order@.len() == anchor@.len(),
            ks == sort_keys(order@),
            vs == literals(anchor@),
            p@ == beyond(ks.skip(i as int), vs.skip(i as int), inclusive),
        decreases i,
    {
        i -= 1;
        let k = &order[i];
        let v = &anchor[i];
        let ghost rest = p@;
        proof {
            reveal_with_fuel(predicate_spec, 3);
            assert(ks.skip(i as int).drop_first() =~= ks.skip(i + 1));
            assert(vs.skip(i as int).drop_first() =~= vs.skip(i + 1));
            assert(ks.skip(i as int)[0] == k@);
            assert(vs.skip(i as int)[0] == v@);
        }
        let strict = Predicate::Test {
            name: copy_name(&k.name),
            entry: None,
            check: Check::Compare(strict_comparison(k.direction), copy_literal(v)),
        };
        let equal = Predicate::Test {
            name: copy_name(&k.name),
            entry: None,
            check: Check::Compare(Comparison::Eq, copy_literal(v)),
        };
        assert(strict@ == anchor_test(k@.name, strictly(k@.direction), v@));
        assert(equal@ == anchor_test(k@.name, Comparison::Eq, v@));
        let both = Predicate::And(Box::new(equal), Box::new(p));
        assert(both@ == PredicateSpec::And(Box::new(equal@), Box::new(rest)));
        p = Predicate::Or(Box::new(strict), Box::new(both));
        assert(p@ == PredicateSpec::Or(Box::new(strict@), Box::new(both@)));
    }
    assert(ks.skip(0) =~= ks);
    assert(vs.skip(0) =~= vs);
    p
}

} // verus!
