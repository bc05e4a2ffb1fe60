//! The reference evaluation of pagination over rows held in memory: the order of rows under
//! mixed directions, the rows beyond a cursor's anchor, and the window.
//!
//! A row is given by the values of its sort keys, one per sort key. A value is a whole number
//! or null; null sorts before every number.

use vstd::prelude::*;
use crate::groups::{shaped, table};
use crate::pagination::{Window, WindowSpec};
use crate::plan::Direction;

verus! {

/// Whether a value sorts strictly before another, ascending. Null sorts first.
pub open spec fn less(x: Option<i64>, y: Option<i64>) -> bool {
    match (x, y) {
        (None, None) => false,
        (None, Some(_)) => true,
        (Some(_), None) => false,
        (Some(a), Some(b)) => a < b,
    }
}

/// Whether a value sorts strictly before another along a direction.
pub open spec fn before(x: Option<i64>, y: Option<i64>, d: Direction) -> bool {
    match d {
        Direction::Asc => less(x, y),
        Direction::Desc => less(y, x),
    }
}

/// Whether the tuple `a` sorts strictly before the tuple `b`: the first component in which
/// they differ decides, along its own direction.
pub open spec fn precedes(a: Seq<Option<i64>>, b: Seq<Option<i64>>, dirs: Seq<Direction>) -> bool
    decreases dirs.len(),
{
    if dirs.len() == 0 || a.len() == 0 || b.len() == 0 {
        false
    } else if a[0] == b[0] {
        precedes(a.drop_first(), b.drop_first(), dirs.drop_first())
    } else {
        before(a[0], b[0], dirs[0])
    }
}

/// Of two tuples, at most one sorts strictly before the other.
pub proof fn lemma_precedes_one_way(a: Seq<Option<i64>>, b: Seq<Option<i64>>, dirs: Seq<Direction>)
    ensures
        !(precedes(a, b, dirs) && precedes(b, a, dirs)),
    decreases dirs.len(),
{
    if dirs.len() > 0 && a.len() > 0 && b.len() > 0 && a[0] == b[0] {
        lemma_precedes_one_way(a.drop_first(), b.drop_first(), dirs.drop_first());
    }
}

/// The directions, each turned over where `flip` is set.
pub open spec fn flipped(dirs: Seq<Direction>, flip: bool) -> Seq<Direction> {
    dirs.map_values(
        |d: Direction|
            if flip {
                d.spec_reversed()
            } else {
                d
            },
    )
}

/// A cursor over rows held in memory: the sort-key values of the anchor row, whether the
/// anchor belongs to the result, and whether the cursor looks back.
#[derive(Clone, Debug, PartialEq, Eq)]
pub struct RowCursor {
    pub anchor: Vec<Option<i64>>,
    pub inclusive: bool,
    pub back: bool,
}

/// A cursor over rows, as plain values.
pub struct RowCursorSpec {
    pub anchor: Seq<Option<i64>>,
    pub inclusive: bool,
    pub back: bool,
}

impl View for RowCursor {
    type V = RowCursorSpec;

    open spec fn view(&self) -> RowCursorSpec {
        RowCursorSpec { anchor: self.anchor@, inclusive: self.inclusive, back: self.back }
    }
}

/// The view of a cursor that may be absent.
pub open spec fn row_cursor_of(c: Option<RowCursor>) -> Option<RowCursorSpec> {
    match c {
        Some(c) => Some(c@),
        None => None,
    }
}

/// The directions along which the rows are walked: the requested ones, turned over once for
/// a reversed window and once for a cursor that looks back.
pub open spec fn walked(dirs: Seq<Direction>, reversed: bool, cursor: Option<RowCursorSpec>) -> Seq<
    Direction,
> {
    flipped(dirs, reversed != (cursor.is_some() && cursor.unwrap().back))
}

/// Whether a row lies beyond the anchor along the given directions: strictly after it, or,
/// where the anchor is included, not strictly before it.
pub open spec fn admitted(row: Seq<Option<i64>>, dirs: Seq<Direction>, cursor: Option<RowCursorSpec>) -> bool {
    match cursor {
        None => true,
        Some(c) => if c.inclusive {
            !precedes(row, c.anchor, dirs)
        } else {
            precedes(c.anchor, row, dirs)
        },
    }
}

/// The positions of the rows that lie beyond the anchor, ascending.
pub open spec fn eligible(
    t: Seq<Seq<Option<i64>>>,
    dirs: Seq<Direction>,
    cursor: Option<RowCursorSpec>,
) -> Seq<int>
    decreases t.len(),
{
    if t.len() == 0 {
        Seq::empty()
    } else if admitted(t.last(), dirs, cursor) {
        eligible(t.drop_last(), dirs, cursor).push(t.len() - 1)
    } else {
        eligible(t.drop_last(), dirs, cursor)
    }
}

/// The lesser of two numbers.
pub open spec fn least(a: int, b: int) -> int {
    if a < b {
        a
    } else {
        b
    }
}

/// Where the window ends among `n` eligible rows. A window that is not reversed is counted
/// from the first row, a reversed one from the last.
pub open spec fn window_end(n: int, w: WindowSpec) -> int {
    if w.reversed {
        n - least(w.skip as int, n)
    } else {
        match w.limit {
            Some(l) => least(least(w.skip as int, n) + l, n),
            None => n,
        }
    }
}

/// Where the window starts among `n` eligible rows.
pub open spec fn window_start(n: int, w: WindowSpec) -> int {
    if w.reversed {
        match w.limit {
            Some(l) => window_end(n, w) - least(l as int, window_end(n, w)),
            None => 0,
        }
    } else {
        least(w.skip as int, n)
    }
}

/// The positions of the rows of a page, in the requested order. `t` holds the rows in the
/// requested order, `dirs` the requested directions. The rows beyond the anchor are walked,
/// from the last one backwards for a reversed window; `skip` of them are passed over and at
/// most `limit` are kept; what is kept is handed out in the requested order.
pub open spec fn page_of(
    t: Seq<Seq<Option<i64>>>,
    dirs: Seq<Direction>,
    cursor: Option<RowCursorSpec>,
    w: WindowSpec,
) -> Seq<int> {
    let all = eligible(t, walked(dirs, w.reversed, cursor), cursor);
    all.subrange(window_start(all.len() as int, w), window_end(all.len() as int, w))
}

/// The eligible positions are positions of rows that lie beyond the anchor, and there are no
/// more of them than rows.
pub proof fn lemma_eligible(t: Seq<Seq<Option<i64>>>, dirs: Seq<Direction>, cursor: Option<RowCursorSpec>)
    ensures
        eligible(t, dirs, cursor).len() <= t.len(),
        forall|k: int|
            0 <= k < eligible(t, dirs, cursor).len() ==> {
                let i = #[trigger] eligible(t, dirs, cursor)[k];
                0 <= i < t.len() && admitted(t[i], dirs, cursor)
            },
    decreases t.len(),
{
    if t.len() > 0 {
        lemma_eligible(t.drop_last(), dirs, cursor);
        assert forall|k: int| 0 <= k < eligible(t, dirs, cursor).len() implies {
            let i = #[trigger] eligible(t, dirs, cursor)[k];
            0 <= i < t.len() && admitted(t[i], dirs, cursor)
        } by {
            if k < eligible(t.drop_last(), dirs, cursor).len() {
                let i = eligible(t.drop_last(), dirs, cursor)[k];
                assert(t.drop_last()[i] == t[i]);
            }
        }
    }
}

/// A page holds no more rows than its limit, and with a cursor none that sorts strictly
/// before the anchor along the directions in which the rows are walked.
pub proof fn lemma_page_stays_beyond_anchor(
    t: Seq<Seq<Option<i64>>>,
    dirs: Seq<Direction>,
    cursor: Option<RowCursorSpec>,
    w: WindowSpec,
)
    ensures
        w.limit.is_some() ==> page_of(t, dirs, cursor, w).len() <= w.limit.unwrap(),
        page_of(t, dirs, cursor, w).len() <= t.len(),
        forall|k: int|
            0 <= k < page_of(t, dirs, cursor, w).len() ==> {
                let i = #[trigger] page_of(t, dirs, cursor, w)[k];
                &&& 0 <= i < t.len()
                &&& cursor.is_some() ==> !precedes(
                    t[i],
                    cursor.unwrap().anchor,
                    walked(dirs, w.reversed, cursor),
                )
            },
{
    let walk = walked(dirs, w.reversed, cursor);
    let all = eligible(t, walk, cursor);
    lemma_eligible(t, walk, cursor);
    let lo = window_start(all.len() as int, w);
    let hi = window_end(all.len() as int, w);
    assert(0 <= lo <= hi <= all.len());
    assert forall|k: int| 0 <= k < page_of(t, dirs, cursor, w).len() implies {
        let i = #[trigger] page_of(t, dirs, cursor, w)[k];
        &&& 0 <= i < t.len()
        &&& cursor.is_some() ==> !precedes(t[i], cursor.unwrap().anchor, walk)
    } by {
        let i = all[lo + k];
        assert(page_of(t, dirs, cursor, w)[k] == i);
        if cursor.is_some() {
            lemma_precedes_one_way(t[i], cursor.unwrap().anchor, walk);
        }
    }
}

/// Whether a value sorts strictly before another along a direction.
pub fn sorts_before(x: Option<i64>, y: Option<i64>, d: Direction) -> (r: bool)
    ensures
        r == before(x, y, d),
{
    let (x, y) = match d {
        Direction::Asc => (x, y),
        Direction::Desc => (y, x),
    };
    match (x, y) {
        (None, None) => false,
        (None, Some(_)) => true,
        (Some(_), None) => false,
        (Some(a), Some(b)) => a < b,
    }
}

/// Whether a value equals another.
pub fn same_value(x: Option<i64>, y: Option<i64>) -> (r: bool)
    ensures
        r == (x == y),
{
    match (x, y) {
        (None, None) => true,
        (Some(a), Some(b)) => a == b,
        _ => false,
    }
}

/// Whether the tuple `a` sorts strictly before the tuple `b` along the directions.
pub fn comes_before(a: &Vec<Option<i64>>, b: &Vec<Option<i64>>, dirs: &Vec<Direction>) -> (r: bool)
    requires
        a@.len() == dirs@.len(),
        b@.len() == dirs@.len(),
    ensures
        r == precedes(a@, b@, dirs@),
{
    let mut i: usize = 0;
    assert(a@.skip(0) =~= a@ && b@.skip(0) =~= b@ && dirs@.skip(0) =~= dirs@);
    while i < dirs.len()
        invariant
            i <= dirs.len(),
            a@.len() == dirs@.len(),
            b@.len() == dirs@.len(),
            precedes(a@, b@, dirs@) == precedes(
                a@.skip(i as int),
                b@.skip(i as int),
                dirs@.skip(i as int),
            ),
        decreases dirs.len() - i,
    {
        proof {
            assert(a@.skip(i as int).drop_first() =~= a@.skip(i + 1));
            assert(b@.skip(i as int).drop_first() =~= b@.skip(i + 1));
            assert(dirs@.skip(i as int).drop_first() =~= dirs@.skip(i + 1));
        }
        if !same_value(a[i], b[i]) {
            return sorts_before(a[i], b[i], dirs[i]);
        }
        i += 1;
    }
    false
}

/// The directions, each turned over where `flip` is set.
pub fn flip_directions(dirs: &Vec<Direction>, flip: bool) -> (r: Vec<Direction>)
    ensures
        r@ == flipped(dirs@, flip),
{
    let mut out: Vec<Direction> = Vec::new();
    let mut i: usize = 0;
    while i < dirs.len()
        invariant
            i <= dirs.len(),
            out@.len() == i,
            forall|j: int| 0 <= j < i ==> out@[j] == flipped(dirs@, flip)[j],
        decreases dirs.len() - i,
    {
        let d = if flip {
            dirs[i].reversed()
        } else {
            dirs[i]
        };
        out.push(d);
        i += 1;
    }
    assert(out@ =~= flipped(dirs@, flip));
    out
}

/// Whether a row lies beyond the anchor along the given directions.
pub fn is_admitted(row: &Vec<Option<i64>>, dirs: &Vec<Direction>, cursor: &Option<RowCursor>) -> (r:
    bool)
    requires
        row@.len() == dirs@.len(),
        cursor.is_some() ==> cursor.unwrap().anchor@.len() == dirs@.len(),
    ensures
        r == admitted(row@, dirs@, row_cursor_of(*cursor)),
{
    match cursor {
        None => true,
        Some(c) => if c.inclusive {
            !comes_before(row, &c.anchor, dirs)
        } else {
            comes_before(&c.anchor, row, dirs)
        },
    }
}

/// Selects the rows of a page from rows held in memory, as the stages of a window and a
/// cursor do. `rows` holds the sort-key values of the rows in the requested order, `dirs`
/// the requested directions. The result holds the positions of the selected rows, in the
/// requested order: the rows of a reversed window are walked from the last one backwards and
/// handed out forwards again.
pub fn paginate(
    rows: &Vec<Vec<Option<i64>>>,
    dirs: &Vec<Direction>,
    cursor: &Option<RowCursor>,
    window: &Window,
) -> (r: Vec<usize>)
    requires
        shaped(table(rows@), dirs@.len()),
        cursor.is_some() ==> cursor.unwrap().anchor@.len() == dirs@.len(),
    ensures
        r@.map_values(|i: usize| i as int) == page_of(
            table(rows@),
            dirs@,
            row_cursor_of(*cursor),
            window@,
        ),
{
    let ghost t = table(rows@);
    let ghost c = row_cursor_of(*cursor);
    let back = match cursor {
        Some(c) => c.back,
        None => false,
    };
    let walk = flip_directions(dirs, window.reversed != back);
    assert(walk@ == walked(dirs@, window.reversed, c));
    let mut all: Vec<usize> = Vec::new();
    let mut i: usize = 0;
    assert(t.take(0) =~= Seq::empty());
    assert(all@.map_values(|i: usize| i as int) =~= Seq::empty());
    while i < rows.len()
        invariant
            i <= rows.len(),
            t == table(rows@),
            c == row_cursor_of(*cursor),
            shaped(t, dirs@.len()),
            walk@.len() == dirs@.len(),
            cursor.is_some() ==> cursor.unwrap().anchor@.len() == dirs@.len(),
            all@.map_values(|i: usize| i as int) == eligible(t.take(i as int), walk@, c),
            all@.len() <= i,
        decreases rows.len() - i,
    {
        proof {
            assert(t.take(i + 1).drop_last() =~= t.take(i as int));
            assert(t.take(i + 1).last() == rows@[i as int]@);
            assert(t[i as int] == rows@[i as int]@);
        }
        if is_admitted(&rows[i], &walk, cursor) {
            let ghost before = all@;
            all.push(i);
            assert(all@.map_values(|i: usize| i as int) =~= before.map_values(
                |i: usize| i as int,
            ).push(i as int));
        }
        i += 1;
    }
    assert(t.take(i as int) =~= t);
    let n: usize = all.len();
    let skip: usize = if window.skip < n as u64 {
        window.skip as usize
    } else {
        n
    };
    let (lo, hi) = if window.reversed {
        let hi: usize = n - skip;
        let lo: usize = match window.limit {
            Some(l) => if l < hi as u64 {
                hi - (l as usize)
            } else {
                0
            },
            None => 0,
        };
        (lo, hi)
    } else {
        let hi: usize = match window.limit {
            Some(l) => if l < (n - skip) as u64 {
                skip + (l as usize)
            } else {
                n
            },
            None => n,
        };
        (skip, hi)
    };
    assert(lo as int == window_start(n as int, window@));
    assert(hi as int == window_end(n as int, window@));
    let mut out: Vec<usize> = Vec::new();
    let mut k: usize = lo;
    while k < hi
        invariant
            lo <= k <= hi <= n,
            n == all@.len(),
            out@ =~= all@.subrange(lo as int, k as int),
        decreases hi - k,
    {
        out.push(all[k]);
        k += 1;
    }
    assert(out@.map_values(|i: usize| i as int) =~= all@.map_values(|i: usize| i as int).subrange(
        lo as int,
        hi as int,
    ));
    out
}

} // verus!
