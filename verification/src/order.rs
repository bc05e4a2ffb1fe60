//! The order of groups: the sort that ends the plan of an aggregation, over groups held in
//! memory.
//!
//! Groups are ordered by their keys, component by component, ascending; null sorts before
//! every number.

use vstd::prelude::*;
use crate::groups::{copy_group, group_specs, GroupRow, GroupSpec};
use crate::page::{before, comes_before, less, precedes};
use crate::plan::Direction;

verus! {

/// Ascending directions, as many as asked for.
pub open spec fn ascending(n: nat) -> Seq<Direction> {
    Seq::new(n, |i: int| Direction::Asc)
}

/// Whether a key sorts strictly before another.
pub open spec fn key_before(a: Seq<Option<i64>>, b: Seq<Option<i64>>) -> bool {
    precedes(a, b, ascending(a.len()))
}

/// Whether no group comes before a group that its key sorts strictly before.
pub open spec fn in_order(groups: Seq<GroupSpec>) -> bool {
    forall|i: int, j: int|
        0 <= i < j < groups.len() ==> !key_before(
            (#[trigger] groups[j]).key,
            (#[trigger] groups[i]).key,
        )
}

/// The groups with one more group put in its place: behind the last group that its key does
/// not sort strictly before.
pub open spec fn placed_in(sorted: Seq<GroupSpec>, g: GroupSpec) -> Seq<GroupSpec>
    decreases sorted.len(),
{
    if sorted.len() == 0 {
        seq![g]
    } else if key_before(g.key, sorted.last().key) {
        placed_in(sorted.drop_last(), g).push(sorted.last())
    } else {
        sorted.push(g)
    }
}

/// The groups in the order of their keys; groups of equal keys stay in their order.
pub open spec fn sorted_groups(groups: Seq<GroupSpec>) -> Seq<GroupSpec>
    decreases groups.len(),
{
    if groups.len() == 0 {
        Seq::empty()
    } else {
        placed_in(sorted_groups(groups.drop_last()), groups.last())
    }
}

/// Whether every key has `width` components.
pub open spec fn keyed(groups: Seq<GroupSpec>, width: nat) -> bool {
    forall|i: int| 0 <= i < groups.len() ==> (#[trigger] groups[i]).key.len() == width
}

/// A key that does not sort before a second, which does not sort before a third, does not
/// sort before the third.
pub proof fn lemma_not_before_chains(
    a: Seq<Option<i64>>,
    b: Seq<Option<i64>>,
    c: Seq<Option<i64>>,
    dirs: Seq<Direction>,
)
    requires
        a.len() == dirs.len(),
        b.len() == dirs.len(),
        c.len() == dirs.len(),
        !precedes(b, a, dirs),
        !precedes(c, b, dirs),
    ensures
        !precedes(c, a, dirs),
    decreases dirs.len(),
{
    if dirs.len() > 0 {
        if a[0] == b[0] && b[0] == c[0] {
            lemma_not_before_chains(
                a.drop_first(),
                b.drop_first(),
                c.drop_first(),
                dirs.drop_first(),
            );
        }
    }
}

/// Putting a group in its place keeps the groups and adds the one.
pub proof fn lemma_placed_in(sorted: Seq<GroupSpec>, g: GroupSpec, width: nat)
    requires
        keyed(sorted, width),
        g.key.len() == width,
        in_order(sorted),
    ensures
        placed_in(sorted, g).len() == sorted.len() + 1,
        keyed(placed_in(sorted, g), width),
        in_order(placed_in(sorted, g)),
        placed_in(sorted, g).contains(g),
        forall|x: GroupSpec| #[trigger]
            placed_in(sorted, g).contains(x) ==> x == g || sorted.contains(x),
        forall|x: GroupSpec| #[trigger] sorted.contains(x) ==> placed_in(sorted, g).contains(x),
    decreases sorted.len(),
{
    let out = placed_in(sorted, g);
    if sorted.len() == 0 {
        assert(out[0] == g);
    } else if key_before(g.key, sorted.last().key) {
        let rest = sorted.drop_last();
        let last = sorted.last();
        assert(keyed(rest, width)) by {
            assert forall|i: int| 0 <= i < rest.len() implies (#[trigger] rest[i]).key.len()
                == width by {
                assert(rest[i] == sorted[i]);
            }
        }
        assert(in_order(rest)) by {
            assert forall|i: int, j: int| 0 <= i < j < rest.len() implies !key_before(
                (#[trigger] rest[j]).key,
                (#[trigger] rest[i]).key,
            ) by {
                assert(rest[i] == sorted[i] && rest[j] == sorted[j]);
            }
        }
        lemma_placed_in(rest, g, width);
        let inner = placed_in(rest, g);
        assert(out == inner.push(last));
        assert(out.contains(g)) by {
            let k = choose|k: int| 0 <= k < inner.len() && inner[k] == g;
            assert(out[k] == g);
        }
        assert forall|x: GroupSpec| #[trigger] out.contains(x) implies x == g || sorted.contains(
            x,
        ) by {
            let k = choose|k: int| 0 <= k < out.len() && out[k] == x;
            if k < inner.len() {
                assert(inner[k] == x);
                assert(inner.contains(x));
                if x != g {
                    assert(rest.contains(x));
                    let m = choose|m: int| 0 <= m < rest.len() && rest[m] == x;
                    assert(sorted[m] == rest[m]);
                }
            } else {
                assert(sorted[sorted.len() - 1] == x);
            }
        }
        assert forall|x: GroupSpec| #[trigger] sorted.contains(x) implies out.contains(x) by {
            let m = choose|m: int| 0 <= m < sorted.len() && sorted[m] == x;
            if m < rest.len() {
                assert(rest[m] == x);
                assert(rest.contains(x));
                assert(inner.contains(x));
                let k = choose|k: int| 0 <= k < inner.len() && inner[k] == x;
                assert(out[k] == x);
            } else {
                assert(out[inner.len() as int] == x);
            }
        }
        assert(keyed(out, width)) by {
            assert forall|i: int| 0 <= i < out.len() implies (#[trigger] out[i]).key.len()
                == width by {
                if i < inner.len() {
                    assert(out[i] == inner[i]);
                }
            }
        }
        assert(in_order(out)) by {
            assert forall|i: int, j: int| 0 <= i < j < out.len() implies !key_before(
                (#[trigger] out[j]).key,
                (#[trigger] out[i]).key,
            ) by {
                if j < inner.len() {
                    assert(out[i] == inner[i] && out[j] == inner[j]);
                } else {
                    // the last group stays last: nothing before it sorts after it
                    let x = inner[i];
                    assert(out[i] == x && out[j] == last);
                    assert(inner.contains(x));
                    if x == g {
                        crate::page::lemma_precedes_one_way(g.key, last.key, ascending(width));
                    } else {
                        assert(rest.contains(x));
                        let m = choose|m: int| 0 <= m < rest.len() && rest[m] == x;
                        assert(sorted[m] == rest[m]);
                        assert(!key_before(sorted[sorted.len() - 1].key, sorted[m].key));
                    }
                }
            }
        }
    } else {
        assert(out == sorted.push(g));
        assert(out.contains(g)) by {
            assert(out[sorted.len() as int] == g);
        }
        assert forall|x: GroupSpec| #[trigger] out.contains(x) implies x == g || sorted.contains(
            x,
        ) by {
            let k = choose|k: int| 0 <= k < out.len() && out[k] == x;
            if k < sorted.len() {
                assert(sorted[k] == x);
            }
        }
        assert forall|x: GroupSpec| #[trigger] sorted.contains(x) implies out.contains(x) by {
            let m = choose|m: int| 0 <= m < sorted.len() && sorted[m] == x;
            assert(out[m] == x);
        }
        assert(keyed(out, width)) by {
            assert forall|i: int| 0 <= i < out.len() implies (#[trigger] out[i]).key.len()
                == width by {
                if i < sorted.len() {
                    assert(out[i] == sorted[i]);
                }
            }
        }
        assert(in_order(out)) by {
            assert forall|i: int, j: int| 0 <= i < j < out.len() implies !key_before(
                (#[trigger] out[j]).key,
                (#[trigger] out[i]).key,
            ) by {
                if j < sorted.len() {
                    assert(out[i] == sorted[i] && out[j] == sorted[j]);
                } else {
                    assert(out[j] == g && out[i] == sorted[i]);
                    let last = sorted.last();
                    assert(sorted[sorted.len() - 1] == last);
                    if i < sorted.len() - 1 {
                        assert(!key_before(sorted[sorted.len() - 1].key, sorted[i].key));
                    } else {
                        crate::page::lemma_precedes_one_way(last.key, last.key, ascending(width));
                    }
                    assert(sorted[i].key.len() == width && last.key.len() == width);
                    // sorted[i] is not after last, last is not after g
                    lemma_not_before_chains(sorted[i].key, last.key, g.key, ascending(width));
                }
            }
        }
    }
}

/// Sorting keeps the groups, each as often as it was there, and brings them in order.
pub proof fn lemma_sorted_groups(groups: Seq<GroupSpec>, width: nat)
    requires
        keyed(groups, width),
    ensures
        sorted_groups(groups).len() == groups.len(),
        keyed(sorted_groups(groups), width),
        in_order(sorted_groups(groups)),
        forall|x: GroupSpec| #[trigger] sorted_groups(groups).contains(x) ==> groups.contains(x),
        forall|x: GroupSpec| #[trigger] groups.contains(x) ==> sorted_groups(groups).contains(x),
    decreases groups.len(),
{
    if groups.len() > 0 {
        let rest = groups.drop_last();
        assert(keyed(rest, width)) by {
            assert forall|i: int| 0 <= i < rest.len() implies (#[trigger] rest[i]).key.len()
                == width by {
                assert(rest[i] == groups[i]);
            }
        }
        lemma_sorted_groups(rest, width);
        assert(groups[groups.len() - 1] == groups.last());
        lemma_placed_in(sorted_groups(rest), groups.last(), width);
        let before = sorted_groups(rest);
        assert forall|x: GroupSpec| #[trigger] sorted_groups(groups).contains(x) implies groups.contains(
            x,
        ) by {
            if x != groups.last() {
                assert(before.contains(x));
                assert(rest.contains(x));
                let m = choose|m: int| 0 <= m < rest.len() && rest[m] == x;
                assert(groups[m] == rest[m]);
            }
        }
        assert forall|x: GroupSpec| #[trigger] groups.contains(x) implies sorted_groups(
            groups,
        ).contains(x) by {
            let m = choose|m: int| 0 <= m < groups.len() && groups[m] == x;
            if m < rest.len() {
                assert(rest[m] == x);
                assert(rest.contains(x));
                assert(before.contains(x));
            }
        }
    }
}

/// Whether every key has `width` components.
pub fn is_keyed(groups: &Vec<GroupRow>, width: usize) -> (r: bool)
    ensures
        r == keyed(group_specs(groups@), width as nat),
{
    let mut i: usize = 0;
    while i < groups.len()
        invariant
            i <= groups.len(),
            forall|j: int| 0 <= j < i ==> (#[trigger] group_specs(groups@)[j]).key.len() == width,
        decreases groups.len() - i,
    {
        assert(group_specs(groups@)[i as int] == groups@[i as int]@);
        if groups[i].key.len() != width {
            return false;
        }
        i += 1;
    }
    assert(group_specs(groups@).len() == groups@.len());
    true
}

/// Ascending directions, as many as asked for.
pub fn ascending_directions(n: usize) -> (r: Vec<Direction>)
    ensures
        r@ == ascending(n as nat),
{
    let mut out: Vec<Direction> = Vec::new();
    let mut i: usize = 0;
    while i < n
        invariant
            i <= n,
            out@.len() == i,
            forall|j: int| 0 <= j < i ==> out@[j] == Direction::Asc,
        decreases n - i,
    {
        out.push(Direction::Asc);
        i += 1;
    }
    assert(out@ =~= ascending(n as nat));
    out
}

/// Sorts groups by their keys, ascending. `width` is the number of components of every key.
pub fn sort_groups(groups: &Vec<GroupRow>, width: usize) -> (r: Vec<GroupRow>)
    requires
        keyed(group_specs(groups@), width as nat),
    ensures
        group_specs(r@) == sorted_groups(group_specs(groups@)),
        r@.len() == groups@.len(),
        in_order(group_specs(r@)),
{
    let ghost all = group_specs(groups@);
    let dirs = ascending_directions(width);
    let mut out: Vec<GroupRow> = Vec::new();
    let mut i: usize = 0;
    assert(all.take(0) =~= Seq::empty());
    assert(group_specs(out@) =~= Seq::empty());
    while i < groups.len()
        invariant
            i <= groups.len(),
            all == group_specs(groups@),
            keyed(all, width as nat),
            dirs@ == ascending(width as nat),
            group_specs(out@) == sorted_groups(all.take(i as int)),
            out@.len() == i,
        decreases groups.len() - i,
    {
        let g = copy_group(&groups[i]);
        let ghost sorted = group_specs(out@);
        proof {
            assert(all.take(i + 1).drop_last() =~= all.take(i as int));
            assert(all.take(i + 1).last() == g@);
            assert(all[i as int] == g@);
            assert(keyed(all.take(i as int), width as nat)) by {
                assert forall|k: int| 0 <= k < i implies (#[trigger] all.take(i as int)[k]).key.len()
                    == width by {
                    assert(all.take(i as int)[k] == all[k]);
                }
            }
            lemma_sorted_groups(all.take(i as int), width as nat);
            assert(sorted.take(sorted.len() as int) =~= sorted);
            assert(sorted.skip(sorted.len() as int) =~= Seq::empty());
        }
        let mut p: usize = out.len();
        while p > 0 && comes_before(&g.key, &out[p - 1].key, &dirs)
            invariant
                p <= out@.len(),
                sorted == group_specs(out@),
                keyed(sorted, width as nat),
                g@.key.len() == width,
                dirs@ == ascending(width as nat),
                placed_in(sorted, g@) == placed_in(sorted.take(p as int), g@) + sorted.skip(
                    p as int,
                ),
            decreases p,
        {
            proof {
                let head = sorted.take(p as int);
                assert(head.last() == out@[p - 1]@);
                assert(head.drop_last() =~= sorted.take(p - 1));
                assert(placed_in(head, g@) == placed_in(sorted.take(p - 1), g@).push(head.last()));
                assert(placed_in(sorted.take(p - 1), g@).push(head.last()) + sorted.skip(p as int)
                    =~= placed_in(sorted.take(p - 1), g@) + sorted.skip(p - 1));
            }
            p -= 1;
        }
        proof {
            let head = sorted.take(p as int);
            if p > 0 {
                assert(head.last() == out@[p - 1]@);
                assert(sorted[p - 1] == out@[p - 1]@);
                assert(out@[p - 1]@.key.len() == width);
                assert(placed_in(head, g@) == head.push(g@));
            } else {
                assert(head =~= Seq::empty());
            }
            assert(placed_in(sorted, g@) =~= sorted.insert(p as int, g@));
        }
        let ghost before = out@;
        out.insert(p, g);
        assert(group_specs(out@) =~= group_specs(before).insert(p as int, g@));
        i += 1;
    }
    proof {
        assert(all.take(i as int) =~= all);
        lemma_sorted_groups(all, width as nat);
    }
    out
}

} // verus!
