//! Links that share a bottleneck: those whose delays behave alike, directly or by
//! way of others. The caller tells which links are congested and which of them
//! behave alike; the groups are found here.

use vstd::prelude::*;

verus! {

/// Whether `h` gives every node of a parent array a height that falls towards the
/// root.
pub open spec fn heights(parent: Seq<usize>, h: Seq<nat>) -> bool {
    &&& h.len() == parent.len()
    &&& forall|i: int|
        0 <= i < parent.len() ==> {
            &&& (#[trigger] parent[i]) < parent.len()
            &&& parent[i] != i ==> h[parent[i] as int] < h[i]
        }
}

/// Whether a parent array holds trees: following parents always ends at a node
/// that is its own parent.
pub open spec fn is_forest(parent: Seq<usize>) -> bool {
    exists|h: Seq<nat>| heights(parent, h)
}

/// The node that at most `steps` steps to the parent lead to.
pub open spec fn climb(parent: Seq<usize>, x: int, steps: nat) -> int
    decreases steps,
{
    if steps == 0 || parent[x] == x {
        x
    } else {
        climb(parent, parent[x] as int, (steps - 1) as nat)
    }
}

/// The root of the tree that `x` is in.
pub open spec fn root_of(parent: Seq<usize>, x: int) -> int {
    let h = choose|h: Seq<nat>| heights(parent, h);
    climb(parent, x, h[x])
}

proof fn climb_ends_at_root(parent: Seq<usize>, h: Seq<nat>, x: int, steps: nat)
    requires
        heights(parent, h),
        0 <= x < parent.len(),
        steps >= h[x],
    ensures
        0 <= climb(parent, x, steps) < parent.len(),
        parent[climb(parent, x, steps)] == climb(parent, x, steps),
        climb(parent, x, steps) == climb(parent, x, h[x]),
    decreases h[x],
{
    if parent[x] != x {
        let up = parent[x] as int;
        climb_ends_at_root(parent, h, up, (steps - 1) as nat);
        climb_ends_at_root(parent, h, up, (h[x] - 1) as nat);
    }
}

proof fn root_is_climb(parent: Seq<usize>, h: Seq<nat>, x: int)
    requires
        heights(parent, h),
        0 <= x < parent.len(),
    ensures
        root_of(parent, x) == climb(parent, x, h[x]),
        0 <= root_of(parent, x) < parent.len(),
        parent[root_of(parent, x)] == root_of(parent, x),
{
    let g = choose|g: Seq<nat>| heights(parent, g);
    assert(heights(parent, g));
    climb_ends_at_root(parent, g, x, g[x] + h[x]);
    climb_ends_at_root(parent, h, x, g[x] + h[x]);
}

proof fn parent_has_same_root(parent: Seq<usize>, h: Seq<nat>, x: int)
    requires
        heights(parent, h),
        0 <= x < parent.len(),
    ensures
        root_of(parent, parent[x] as int) == root_of(parent, x),
        parent[x] == x ==> root_of(parent, x) == x,
{
    root_is_climb(parent, h, x);
    root_is_climb(parent, h, parent[x] as int);
    if parent[x] != x {
        climb_ends_at_root(parent, h, parent[x] as int, (h[x] - 1) as nat);
    }
}

proof fn halving_keeps_roots(parent: Seq<usize>, h: Seq<nat>, x: int, y: int)
    requires
        heights(parent, h),
        0 <= x < parent.len(),
        0 <= y < parent.len(),
    ensures
        heights(parent.update(x, parent[parent[x] as int]), h),
        root_of(parent.update(x, parent[parent[x] as int]), y) == root_of(parent, y),
    decreases h[y],
{
    let next = parent.update(x, parent[parent[x] as int]);
    assert(heights(next, h));
    parent_has_same_root(parent, h, y);
    parent_has_same_root(next, h, y);
    if parent[y] != y {
        if y == x {
            let up = parent[x] as int;
            parent_has_same_root(parent, h, up);
            halving_keeps_roots(parent, h, x, parent[up] as int);
        } else {
            halving_keeps_roots(parent, h, x, parent[y] as int);
        }
    }
}

/// The root of the tree that `x` is in. On the way, every other node is tied to
/// its grandparent, which shortens later searches and changes no root.
fn find(parent: &mut Vec<usize>, x: usize) -> (root: usize)
    requires
        is_forest(old(parent)@),
        x < old(parent)@.len(),
    ensures
        root == root_of(old(parent)@, x as int),
        root < final(parent)@.len(),
        final(parent)@.len() == old(parent)@.len(),
        is_forest(final(parent)@),
        forall|y: int|
            0 <= y < old(parent)@.len() ==> #[trigger] root_of(final(parent)@, y) == root_of(
                old(parent)@,
                y,
            ),
{
    let ghost h = choose|h: Seq<nat>| heights(parent@, h);
    let ghost before = parent@;
    let mut cur: usize = x;
    while parent[cur] != cur
        invariant
            cur < parent@.len(),
            parent@.len() == before.len(),
            before == old(parent)@,
            heights(parent@, h),
            root_of(before, x as int) == root_of(before, cur as int),
            forall|y: int|
                0 <= y < before.len() ==> #[trigger] root_of(parent@, y) == root_of(before, y),
        decreases h[cur as int],
    {
        let ghost mid = parent@;
        let up: usize = parent[cur];
        let grand: usize = parent[up];
        proof {
            parent_has_same_root(mid, h, cur as int);
            parent_has_same_root(mid, h, up as int);
            assert forall|y: int| 0 <= y < before.len() implies #[trigger] root_of(
                mid.update(cur as int, grand),
                y,
            ) == root_of(before, y) by {
                halving_keeps_roots(mid, h, cur as int, y);
                assert(root_of(mid, y) == root_of(before, y));
            }
            halving_keeps_roots(mid, h, cur as int, cur as int);
            assert(root_of(mid, cur as int) == root_of(before, cur as int));
            assert(root_of(mid, grand as int) == root_of(before, grand as int));
        }
        parent.set(cur, grand);
        cur = grand;
    }
    proof {
        parent_has_same_root(parent@, h, cur as int);
        assert(root_of(parent@, cur as int) == root_of(before, cur as int));
    }
    cur
}

proof fn grafting_merges_trees(parent: Seq<usize>, h: Seq<nat>, ra: int, rb: int, y: int)
    requires
        heights(parent, h),
        0 <= ra < parent.len(),
        0 <= rb < parent.len(),
        0 <= y < parent.len(),
        parent[ra] == ra,
        parent[rb] == rb,
        ra != rb,
    ensures
        is_forest(parent.update(rb, ra as usize)),
        root_of(parent.update(rb, ra as usize), y) == if root_of(parent, y) == rb {
            ra
        } else {
            root_of(parent, y)
        },
    decreases h[y],
{
    let next = parent.update(rb, ra as usize);
    let g = Seq::new(
        parent.len(),
        |i: int|
            h[i] + if root_of(parent, i) == rb {
                h[ra] + 1
            } else {
                0nat
            },
    );
    parent_has_same_root(parent, h, ra);
    parent_has_same_root(parent, h, rb);
    assert(heights(next, g)) by {
        assert forall|i: int| 0 <= i < next.len() implies {
            &&& (#[trigger] next[i]) < next.len()
            &&& next[i] != i ==> g[next[i] as int] < g[i]
        } by {
            parent_has_same_root(parent, h, i);
        }
    }
    parent_has_same_root(parent, h, y);
    parent_has_same_root(next, g, y);
    parent_has_same_root(next, g, ra);
    if y == rb {
    } else if parent[y] != y {
        grafting_merges_trees(parent, h, ra, rb, parent[y] as int);
    }
}

/// Joins the trees that `a` and `b` are in.
fn union(parent: &mut Vec<usize>, a: usize, b: usize)
    requires
        is_forest(old(parent)@),
        a < old(parent)@.len(),
        b < old(parent)@.len(),
    ensures
        final(parent)@.len() == old(parent)@.len(),
        is_forest(final(parent)@),
        forall|y: int|
            0 <= y < old(parent)@.len() ==> #[trigger] root_of(final(parent)@, y) == if root_of(
                old(parent)@,
                y,
            ) == root_of(old(parent)@, b as int) {
                root_of(old(parent)@, a as int)
            } else {
                root_of(old(parent)@, y)
            },
{
    let ghost before = parent@;
    let ra: usize = find(parent, a);
    let ghost mid = parent@;
    let rb: usize = find(parent, b);
    assert(rb == root_of(before, b as int));
    if ra != rb {
        let ghost last = parent@;
        proof {
            let h = choose|h: Seq<nat>| heights(last, h);
            assert(root_of(mid, a as int) == root_of(before, a as int));
            assert(root_of(last, a as int) == root_of(mid, a as int));
            root_is_climb(last, h, a as int);
            assert(root_of(last, b as int) == root_of(mid, b as int));
            root_is_climb(last, h, b as int);
            assert forall|y: int| 0 <= y < before.len() implies #[trigger] root_of(
                last.update(rb as int, ra),
                y,
            ) == if root_of(before, y) == rb {
                ra as int
            } else {
                root_of(before, y)
            } by {
                grafting_merges_trees(last, h, ra as int, rb as int, y);
                assert(root_of(last, y) == root_of(mid, y));
                assert(root_of(mid, y) == root_of(before, y));
            }
            grafting_merges_trees(last, h, ra as int, rb as int, ra as int);
        }
        parent.set(rb, ra);
    } else {
        proof {
            assert forall|y: int| 0 <= y < before.len() implies #[trigger] root_of(parent@, y)
                == root_of(before, y) by {
                assert(root_of(parent@, y) == root_of(mid, y));
                assert(root_of(mid, y) == root_of(before, y));
            }
        }
    }
}

/// A square table that says which of `n` links behave alike; the part above the
/// diagonal counts.
pub open spec fn is_table(alike: Seq<Vec<bool>>, n: nat) -> bool {
    alike.len() == n && forall|i: int| 0 <= i < n ==> (#[trigger] alike[i])@.len() == n
}

/// Whether links `a` and `b` behave alike.
pub open spec fn edge(alike: Seq<Vec<bool>>, a: int, b: int) -> bool {
    &&& 0 <= a < alike.len()
    &&& 0 <= b < alike.len()
    &&& (a < b && alike[a]@[b]) || (b < a && alike[b]@[a])
}

/// Whether a chain of `steps` links that behave alike leads from `a` to `b`.
pub open spec fn chain(alike: Seq<Vec<bool>>, a: int, b: int, steps: nat) -> bool
    decreases steps,
{
    if steps == 0 {
        a == b
    } else {
        exists|c: int| chain(alike, a, c, (steps - 1) as nat) && #[trigger] edge(alike, c, b)
    }
}

/// Whether `a` and `b` share a bottleneck: some chain leads from one to the other.
pub open spec fn linked(alike: Seq<Vec<bool>>, a: int, b: int) -> bool {
    exists|steps: nat| chain(alike, a, b, steps)
}

proof fn chains_join(alike: Seq<Vec<bool>>, a: int, b: int, c: int, m: nat, n: nat)
    requires
        chain(alike, a, b, m),
        chain(alike, b, c, n),
    ensures
        chain(alike, a, c, m + n),
    decreases n,
{
    if n > 0 {
        let d = choose|d: int| chain(alike, b, d, (n - 1) as nat) && #[trigger] edge(alike, d, c);
        chains_join(alike, a, b, d, m, (n - 1) as nat);
        assert((m + n - 1) as nat == m + (n - 1) as nat);
        assert(chain(alike, a, d, (m + n - 1) as nat));
    }
}

proof fn edge_is_chain(alike: Seq<Vec<bool>>, a: int, b: int)
    requires
        edge(alike, a, b),
    ensures
        chain(alike, a, b, 1),
{
    assert(chain(alike, a, a, 0));
    assert(chain(alike, a, a, (1nat - 1) as nat));
}

proof fn chains_turn_round(alike: Seq<Vec<bool>>, a: int, b: int, n: nat)
    requires
        chain(alike, a, b, n),
    ensures
        chain(alike, b, a, n),
    decreases n,
{
    if n > 0 {
        let c = choose|c: int| chain(alike, a, c, (n - 1) as nat) && #[trigger] edge(alike, c, b);
        chains_turn_round(alike, a, c, (n - 1) as nat);
        edge_is_chain(alike, b, c);
        chains_join(alike, b, c, a, 1, (n - 1) as nat);
    }
}

/// Sharing a bottleneck is an equivalence.
pub proof fn linked_is_an_equivalence(alike: Seq<Vec<bool>>, a: int, b: int, c: int)
    ensures
        linked(alike, a, a),
        linked(alike, a, b) ==> linked(alike, b, a),
        linked(alike, a, b) && linked(alike, b, c) ==> linked(alike, a, c),
{
    assert(chain(alike, a, a, 0));
    if linked(alike, a, b) {
        let m = choose|m: nat| chain(alike, a, b, m);
        chains_turn_round(alike, a, b, m);
        if linked(alike, b, c) {
            let n = choose|n: nat| chain(alike, b, c, n);
            chains_join(alike, a, b, c, m, n);
        }
    }
}

proof fn same_root_along_chain(
    alike: Seq<Vec<bool>>,
    parent: Seq<usize>,
    a: int,
    b: int,
    steps: nat,
)
    requires
        chain(alike, a, b, steps),
        forall|i: int, j: int| #[trigger]
            edge(alike, i, j) ==> root_of(parent, i) == root_of(parent, j),
    ensures
        root_of(parent, a) == root_of(parent, b),
    decreases steps,
{
    if steps > 0 {
        let c = choose|c: int|
            chain(alike, a, c, (steps - 1) as nat) && #[trigger] edge(alike, c, b);
        same_root_along_chain(alike, parent, a, c, (steps - 1) as nat);
    }
}

/// The links among the first `k` whose label is `label`, in order.
pub open spec fn members(links: Seq<usize>, labels: Seq<usize>, label: int, k: nat) -> Seq<usize>
    decreases k,
{
    if k == 0 {
        Seq::empty()
    } else {
        let before = members(links, labels, label, (k - 1) as nat);
        if labels[k - 1] == label {
            before.push(links[k - 1])
        } else {
            before
        }
    }
}

/// The groups of two or more links with the same label, for the labels below `n`.
pub open spec fn groups_of(links: Seq<usize>, labels: Seq<usize>, n: nat) -> Seq<Seq<usize>>
    decreases n,
{
    if n == 0 {
        Seq::empty()
    } else {
        let before = groups_of(links, labels, (n - 1) as nat);
        let group = members(links, labels, n - 1, links.len());
        if group.len() >= 2 {
            before.push(group)
        } else {
            before
        }
    }
}

/// Whether labels, each below the number of links, tell apart exactly the links that
/// share no bottleneck.
pub open spec fn labels_bottlenecks(alike: Seq<Vec<bool>>, labels: Seq<usize>) -> bool {
    &&& labels.len() == alike.len()
    &&& forall|k: int| 0 <= k < labels.len() ==> (#[trigger] labels[k]) < labels.len()
    &&& forall|a: int, b: int|
        0 <= a < labels.len() && 0 <= b < labels.len() ==> (#[trigger] labels[a] == #[trigger] labels[b]
            <==> linked(alike, a, b))
}

/// The contents of a list of lists.
pub open spec fn contents(groups: Seq<Vec<usize>>) -> Seq<Seq<usize>> {
    groups.map_values(|g: Vec<usize>| g@)
}

/// Whether some group holds both `x` and `y`.
pub open spec fn together(groups: Seq<Vec<usize>>, x: usize, y: usize) -> bool {
    exists|g: int|
        0 <= g < groups.len() && (#[trigger] groups[g])@.contains(x) && groups[g]@.contains(y)
}

/// Whether some group holds `x`.
pub open spec fn correlated(groups: Seq<Vec<usize>>, x: usize) -> bool {
    exists|g: int| 0 <= g < groups.len() && (#[trigger] groups[g])@.contains(x)
}

/// Whether `groups` are the groups of two or more links that share a bottleneck, each
/// with its links in the order given. The order of the groups is left open.
pub open spec fn groups_bottlenecks(
    links: Seq<usize>,
    alike: Seq<Vec<bool>>,
    groups: Seq<Vec<usize>>,
) -> bool {
    exists|labels: Seq<usize>| #[trigger]
        labels_bottlenecks(alike, labels) && contents(groups) == groups_of(
            links,
            labels,
            links.len(),
        )
}

proof fn members_are_labelled(
    links: Seq<usize>,
    labels: Seq<usize>,
    label: int,
    k: nat,
    x: usize,
)
    requires
        k <= links.len(),
    ensures
        members(links, labels, label, k).contains(x) <==> exists|j: int|
            0 <= j < k && labels[j] == label && #[trigger] links[j] == x,
    decreases k,
{
    let all = members(links, labels, label, k);
    if k > 0 {
        let before = members(links, labels, label, (k - 1) as nat);
        members_are_labelled(links, labels, label, (k - 1) as nat, x);
        if labels[k - 1] == label {
            if before.contains(x) {
                let p = choose|p: int| 0 <= p < before.len() && before[p] == x;
                assert(all[p] == x);
            }
            if links[k - 1] == x {
                assert(all[before.len() as int] == x);
            }
            if all.contains(x) && links[k - 1] != x {
                let p = choose|p: int| 0 <= p < all.len() && all[p] == x;
                assert(before[p] == x);
            }
        }
    }
}

proof fn two_labelled_make_a_group(
    links: Seq<usize>,
    labels: Seq<usize>,
    label: int,
    k: nat,
    a: int,
    b: int,
)
    requires
        0 <= a <= b < k,
        labels[a] == label,
        labels[b] == label,
    ensures
        members(links, labels, label, k).len() >= if a == b {
            1int
        } else {
            2int
        },
    decreases k,
{
    if b < k - 1 {
        two_labelled_make_a_group(links, labels, label, (k - 1) as nat, a, b);
    } else if a < b {
        two_labelled_make_a_group(links, labels, label, (k - 1) as nat, a, a);
    }
}

proof fn one_labelled_makes_no_group(
    links: Seq<usize>,
    labels: Seq<usize>,
    label: int,
    k: nat,
    a: int,
)
    requires
        forall|j: int| 0 <= j < k && j != a ==> #[trigger] labels[j] != label,
    ensures
        members(links, labels, label, k).len() <= if 0 <= a < k {
            1int
        } else {
            0int
        },
    decreases k,
{
    if k > 0 {
        one_labelled_makes_no_group(links, labels, label, (k - 1) as nat, a);
    }
}

proof fn every_large_label_has_its_group(
    links: Seq<usize>,
    labels: Seq<usize>,
    n: nat,
    label: int,
)
    requires
        0 <= label < n,
        members(links, labels, label, links.len()).len() >= 2,
    ensures
        exists|g: int|
            0 <= g < groups_of(links, labels, n).len() && #[trigger] groups_of(links, labels, n)[g]
                == members(links, labels, label, links.len()),
    decreases n,
{
    let all = groups_of(links, labels, n);
    let before = groups_of(links, labels, (n - 1) as nat);
    let group = members(links, labels, label, links.len());
    if label < n - 1 {
        every_large_label_has_its_group(links, labels, (n - 1) as nat, label);
        let g = choose|g: int| 0 <= g < before.len() && #[trigger] before[g] == group;
        assert(all[g] == group);
    } else {
        assert(all[before.len() as int] == group);
    }
}

proof fn every_group_has_its_label(links: Seq<usize>, labels: Seq<usize>, n: nat, g: int)
    requires
        0 <= g < groups_of(links, labels, n).len(),
    ensures
        groups_of(links, labels, n)[g].len() >= 2,
        exists|label: int|
            0 <= label < n && groups_of(links, labels, n)[g] == #[trigger] members(
                links,
                labels,
                label,
                links.len(),
            ),
    decreases n,
{
    if n > 0 {
        let before = groups_of(links, labels, (n - 1) as nat);
        if g < before.len() {
            every_group_has_its_label(links, labels, (n - 1) as nat, g);
        } else {
            let last = members(links, labels, n - 1, links.len());
            assert(groups_of(links, labels, n)[g] == last);
        }
    }
}

/// Every group holds two or more links, and each of them is one of those given.
pub proof fn groups_hold_given_links(
    links: Seq<usize>,
    alike: Seq<Vec<bool>>,
    groups: Seq<Vec<usize>>,
    g: int,
    x: usize,
)
    requires
        groups_bottlenecks(links, alike, groups),
        0 <= g < groups.len(),
    ensures
        groups[g]@.len() >= 2,
        groups[g]@.contains(x) ==> links.contains(x),
{
    let labels = choose|labels: Seq<usize>| #[trigger]
        labels_bottlenecks(alike, labels) && contents(groups) == groups_of(
            links,
            labels,
            links.len(),
        );
    assert(contents(groups)[g] == groups[g]@);
    every_group_has_its_label(links, labels, links.len(), g);
    let label = choose|label: int|
        0 <= label < links.len() && groups_of(links, labels, links.len())[g]
            == #[trigger] members(links, labels, label, links.len());
    members_are_labelled(links, labels, label, links.len(), x);
}

/// Of different links, two stand in one group exactly where they share a bottleneck.
pub proof fn grouped_exactly_where_linked(
    links: Seq<usize>,
    alike: Seq<Vec<bool>>,
    groups: Seq<Vec<usize>>,
    a: int,
    b: int,
)
    requires
        groups_bottlenecks(links, alike, groups),
        alike.len() == links.len(),
        links.no_duplicates(),
        0 <= a < links.len(),
        0 <= b < links.len(),
        a != b,
    ensures
        together(groups, links[a], links[b]) <==> linked(alike, a, b),
{
    let labels = choose|labels: Seq<usize>| #[trigger]
        labels_bottlenecks(alike, labels) && contents(groups) == groups_of(
            links,
            labels,
            links.len(),
        );
    let n = links.len();
    assert(labels[a] == labels[b] <==> linked(alike, a, b));
    if linked(alike, a, b) {
        let label = labels[a] as int;
        if a < b {
            two_labelled_make_a_group(links, labels, label, n, a, b);
        } else {
            two_labelled_make_a_group(links, labels, label, n, b, a);
        }
        every_large_label_has_its_group(links, labels, n, label);
        let g = choose|g: int|
            0 <= g < groups_of(links, labels, n).len() && #[trigger] groups_of(links, labels, n)[g]
                == members(links, labels, label, n);
        assert(contents(groups)[g] == groups[g]@);
        members_are_labelled(links, labels, label, n, links[a]);
        members_are_labelled(links, labels, label, n, links[b]);
        assert(groups[g]@.contains(links[a]) && groups[g]@.contains(links[b]));
    }
    if together(groups, links[a], links[b]) {
        let g = choose|g: int|
            0 <= g < groups.len() && (#[trigger] groups[g])@.contains(links[a])
                && groups[g]@.contains(links[b]);
        assert(contents(groups)[g] == groups[g]@);
        every_group_has_its_label(links, labels, n, g);
        let label = choose|label: int|
            0 <= label < n && groups_of(links, labels, n)[g] == #[trigger] members(
                links,
                labels,
                label,
                n,
            );
        members_are_labelled(links, labels, label, n, links[a]);
        members_are_labelled(links, labels, label, n, links[b]);
        let i = choose|i: int| 0 <= i < n && labels[i] == label && #[trigger] links[i] == links[a];
        let j = choose|j: int| 0 <= j < n && labels[j] == label && #[trigger] links[j] == links[b];
        assert(i == a && j == b);
    }
}

/// Of different links, one is in a group exactly where it shares a bottleneck with
/// another.
pub proof fn correlated_exactly_where_linked(
    links: Seq<usize>,
    alike: Seq<Vec<bool>>,
    groups: Seq<Vec<usize>>,
    a: int,
)
    requires
        groups_bottlenecks(links, alike, groups),
        alike.len() == links.len(),
        links.no_duplicates(),
        0 <= a < links.len(),
    ensures
        correlated(groups, links[a]) <==> exists|b: int|
            0 <= b < links.len() && b != a && #[trigger] linked(alike, a, b),
{
    let labels = choose|labels: Seq<usize>| #[trigger]
        labels_bottlenecks(alike, labels) && contents(groups) == groups_of(
            links,
            labels,
            links.len(),
        );
    let n = links.len();
    if exists|b: int| 0 <= b < n && b != a && #[trigger] linked(alike, a, b) {
        let b = choose|b: int| 0 <= b < n && b != a && #[trigger] linked(alike, a, b);
        grouped_exactly_where_linked(links, alike, groups, a, b);
        let g = choose|g: int|
            0 <= g < groups.len() && (#[trigger] groups[g])@.contains(links[a])
                && groups[g]@.contains(links[b]);
        assert(groups[g]@.contains(links[a]));
    }
    if correlated(groups, links[a]) {
        let g = choose|g: int| 0 <= g < groups.len() && (#[trigger] groups[g])@.contains(links[a]);
        assert(contents(groups)[g] == groups[g]@);
        every_group_has_its_label(links, labels, n, g);
        let label = choose|label: int|
            0 <= label < n && groups_of(links, labels, n)[g] == #[trigger] members(
                links,
                labels,
                label,
                n,
            );
        members_are_labelled(links, labels, label, n, links[a]);
        let i = choose|i: int| 0 <= i < n && labels[i] == label && #[trigger] links[i] == links[a];
        assert(i == a);
        if forall|j: int| 0 <= j < n && j != a ==> #[trigger] labels[j] != label {
            one_labelled_makes_no_group(links, labels, label, n, a);
        }
        let b = choose|b: int| 0 <= b < n && b != a && #[trigger] labels[b] == label;
        assert(labels[a] == labels[b]);
        assert(linked(alike, a, b));
    }
}

fn label_links(alike: &Vec<Vec<bool>>) -> (labels: Vec<usize>)
    requires
        is_table(alike@, alike@.len()),
    ensures
        labels_bottlenecks(alike@, labels@),
{
    let n: usize = alike.len();
    let mut parent: Vec<usize> = Vec::new();
    let mut i: usize = 0;
    while i < n
        invariant
            i <= n,
            parent@.len() == i,
            forall|k: int| 0 <= k < i ==> #[trigger] parent@[k] == k,
        decreases n - i,
    {
        parent.push(i);
        i += 1;
    }
    proof {
        let h = Seq::new(n as nat, |k: int| 0nat);
        assert(heights(parent@, h));
        assert forall|a: int, b: int|
            0 <= a < n && 0 <= b < n && root_of(parent@, a) == root_of(
                parent@,
                b,
            ) implies #[trigger] linked(alike@, a, b) by {
            parent_has_same_root(parent@, h, a);
            parent_has_same_root(parent@, h, b);
            linked_is_an_equivalence(alike@, a, b, b);
        }
    }
    let mut a: usize = 0;
    while a < n
        invariant
            a <= n,
            n == alike@.len(),
            is_table(alike@, n as nat),
            parent@.len() == n,
            is_forest(parent@),
            forall|x: int, y: int|
                0 <= x < n && 0 <= y < n && root_of(parent@, x) == root_of(parent@, y)
                    ==> #[trigger] linked(alike@, x, y),
            forall|x: int, y: int|
                0 <= x < a && x < y < n && #[trigger] edge(alike@, x, y) ==> root_of(parent@, x)
                    == root_of(parent@, y),
        decreases n - a,
    {
        let mut b: usize = a + 1;
        while b < n
            invariant
                a < b <= n,
                n == alike@.len(),
                is_table(alike@, n as nat),
                parent@.len() == n,
                is_forest(parent@),
                forall|x: int, y: int|
                    0 <= x < n && 0 <= y < n && root_of(parent@, x) == root_of(parent@, y)
                        ==> #[trigger] linked(alike@, x, y),
                forall|x: int, y: int|
                    0 <= x < a && x < y < n && #[trigger] edge(alike@, x, y) ==> root_of(
                        parent@,
                        x,
                    ) == root_of(parent@, y),
                forall|y: int|
                    a < y < b && #[trigger] edge(alike@, a as int, y) ==> root_of(
                        parent@,
                        a as int,
                    ) == root_of(parent@, y),
            decreases n - b,
        {
            assert(alike@[a as int]@.len() == n);
            if alike[a][b] {
                let ghost before = parent@;
                union(&mut parent, a, b);
                proof {
                    edge_is_chain(alike@, a as int, b as int);
                    assert(linked(alike@, a as int, b as int));
                    assert forall|x: int, y: int|
                        0 <= x < n && 0 <= y < n && root_of(parent@, x) == root_of(
                            parent@,
                            y,
                        ) implies #[trigger] linked(alike@, x, y) by {
                        let ra = root_of(before, a as int);
                        let rb = root_of(before, b as int);
                        let rx = root_of(before, x);
                        let ry = root_of(before, y);
                        assert(root_of(parent@, x) == if rx == rb { ra } else { rx });
                        assert(root_of(parent@, y) == if ry == rb { ra } else { ry });
                        linked_is_an_equivalence(alike@, a as int, b as int, b as int);
                        if rx == ry {
                            assert(linked(alike@, x, y));
                        } else if rx == rb {
                            assert(linked(alike@, x, b as int));
                            assert(linked(alike@, a as int, y));
                            linked_is_an_equivalence(alike@, x, b as int, a as int);
                            linked_is_an_equivalence(alike@, x, a as int, y);
                        } else {
                            assert(ry == rb && rx == ra);
                            assert(linked(alike@, x, a as int));
                            assert(linked(alike@, b as int, y));
                            linked_is_an_equivalence(alike@, x, a as int, b as int);
                            linked_is_an_equivalence(alike@, x, b as int, y);
                        }
                    }
                    assert(root_of(parent@, a as int) == root_of(parent@, b as int));
                }
            }
            b += 1;
        }
        a += 1;
    }
    proof {
        assert forall|x: int, y: int| #[trigger] edge(alike@, x, y) implies root_of(parent@, x)
            == root_of(parent@, y) by {
            if y < x {
                assert(edge(alike@, y, x));
            }
        }
        assert forall|x: int, y: int|
            0 <= x < n && 0 <= y < n && #[trigger] linked(alike@, x, y) implies root_of(parent@, x)
            == root_of(parent@, y) by {
            let steps = choose|steps: nat| chain(alike@, x, y, steps);
            same_root_along_chain(alike@, parent@, x, y, steps);
        }
    }
    let ghost forest = parent@;
    let mut labels: Vec<usize> = Vec::new();
    let mut k: usize = 0;
    while k < n
        invariant
            k <= n,
            parent@.len() == n,
            forest.len() == n,
            is_forest(parent@),
            forall|x: int| 0 <= x < n ==> #[trigger] root_of(parent@, x) == root_of(forest, x),
            labels@.len() == k,
            forall|x: int|
                0 <= x < k ==> #[trigger] labels@[x] == root_of(forest, x) && labels@[x] < n,
        decreases n - k,
    {
        let ghost now = parent@;
        let root: usize = find(&mut parent, k);
        proof {
            assert(root_of(now, k as int) == root_of(forest, k as int));
            assert forall|x: int| 0 <= x < n implies #[trigger] root_of(parent@, x) == root_of(
                forest,
                x,
            ) by {
                assert(root_of(now, x) == root_of(forest, x));
            }
        }
        labels.push(root);
        k += 1;
    }
    labels
}

/// The groups of links that share a bottleneck, as of the last detection.
pub struct SharedBottleneckDetector {
    pub groups: Vec<Vec<usize>>,
}

impl SharedBottleneckDetector {
    /// No groups.
    pub fn new() -> (sbd: Self)
        ensures
            sbd.groups@ == Seq::<Vec<usize>>::empty(),
    {
        SharedBottleneckDetector { groups: Vec::new() }
    }

    /// The groups.
    pub fn groups(&self) -> (groups: &Vec<Vec<usize>>)
        ensures
            *groups == self.groups,
    {
        &self.groups
    }

    /// Whether a link shares a bottleneck with another.
    pub fn is_correlated(&self, idx: usize) -> (r: bool)
        ensures
            r == correlated(self.groups@, idx),
    {
        let mut g: usize = 0;
        while g < self.groups.len()
            invariant
                g <= self.groups@.len(),
                forall|f: int| 0 <= f < g ==> !(#[trigger] self.groups@[f])@.contains(idx),
            decreases self.groups@.len() - g,
        {
            let group = &self.groups[g];
            let mut k: usize = 0;
            while k < group.len()
                invariant
                    k <= group@.len(),
                    g < self.groups@.len(),
                    group@ == self.groups@[g as int]@,
                    forall|j: int| 0 <= j < k ==> #[trigger] group@[j] != idx,
                decreases group@.len() - k,
            {
                if group[k] == idx {
                    assert(self.groups@[g as int]@.contains(idx));
                    return true;
                }
                k += 1;
            }
            g += 1;
        }
        false
    }

    /// Groups the congested links anew. `alike` says of each pair of them, by their
    /// position in `links`, whether they behave alike. Links end up in one group
    /// exactly where a chain of links that behave alike connects them; a link that
    /// stands alone is in none.
    pub fn detect(&mut self, links: &[usize], alike: &Vec<Vec<bool>>)
        requires
            alike@.len() == links@.len(),
            is_table(alike@, links@.len()),
        ensures
            groups_bottlenecks(links@, alike@, final(self).groups@),
            links@.no_duplicates() ==> forall|a: int, b: int|
                0 <= a < links@.len() && 0 <= b < links@.len() && a != b ==> (
                #[trigger] together(final(self).groups@, links@[a], links@[b]) <==> linked(
                    alike@,
                    a,
                    b,
                )),
            links@.no_duplicates() ==> forall|a: int|
                0 <= a < links@.len() ==> (#[trigger] correlated(final(self).groups@, links@[a])
                    <==> exists|b: int|
                    0 <= b < links@.len() && b != a && #[trigger] linked(alike@, a, b)),
            forall|x: usize| #[trigger]
                correlated(final(self).groups@, x) ==> links@.contains(x),
    {
        let labels: Vec<usize> = label_links(alike);
        let mut groups: Vec<Vec<usize>> = Vec::new();
        let mut label: usize = 0;
        assert(contents(groups@) =~= groups_of(links@, labels@, 0));
        while label < links.len()
            invariant
                label <= links@.len(),
                labels@.len() == links@.len(),
                contents(groups@) == groups_of(links@, labels@, label as nat),
            decreases links@.len() - label,
        {
            let mut group: Vec<usize> = Vec::new();
            let mut k: usize = 0;
            while k < links.len()
                invariant
                    k <= links@.len(),
                    labels@.len() == links@.len(),
                    group@ == members(links@, labels@, label as int, k as nat),
                decreases links@.len() - k,
            {
                if labels[k] == label {
                    group.push(links[k]);
                }
                k += 1;
            }
            let ghost done = groups@;
            if group.len() >= 2 {
                groups.push(group);
                assert(contents(groups@) =~= contents(done).push(group@));
            }
            label += 1;
        }
        self.groups = groups;
        proof {
            assert(labels_bottlenecks(alike@, labels@));
            assert(groups_bottlenecks(links@, alike@, groups@));
            assert forall|x: usize| #[trigger] correlated(groups@, x) implies links@.contains(
                x,
            ) by {
                let g = choose|g: int|
                    0 <= g < groups@.len() && (#[trigger] groups@[g])@.contains(x);
                groups_hold_given_links(links@, alike@, groups@, g, x);
            }
            if links@.no_duplicates() {
                assert forall|a: int, b: int|
                    0 <= a < links@.len() && 0 <= b < links@.len() && a != b implies (
                #[trigger] together(groups@, links@[a], links@[b]) <==> linked(
                    alike@,
                    a,
                    b,
                )) by {
                    grouped_exactly_where_linked(links@, alike@, groups@, a, b);
                }
                assert forall|a: int| 0 <= a < links@.len() implies (#[trigger] correlated(
                    groups@,
                    links@[a],
                ) <==> exists|b: int|
                    0 <= b < links@.len() && b != a && #[trigger] linked(alike@, a, b)) by {
                    correlated_exactly_where_linked(links@, alike@, groups@, a);
                }
            }
        }
    }
}

impl Default for SharedBottleneckDetector {
    fn default() -> (sbd: Self)
        ensures
            sbd.groups@ == Seq::<Vec<usize>>::empty(),
    {
        Self::new()
    }
}

/// Two links that behave alike stand in one group; so do two that each behave like a
/// third.
pub proof fn alike_links_stand_together(
    links: Seq<usize>,
    alike: Seq<Vec<bool>>,
    groups: Seq<Vec<usize>>,
    a: int,
    b: int,
    c: int,
)
    requires
        groups_bottlenecks(links, alike, groups),
        alike.len() == links.len(),
        links.no_duplicates(),
        0 <= a < b < c < links.len(),
    ensures
        alike[a]@[b] ==> together(groups, links[a], links[b]),
        alike[a]@[c] && alike[b]@[c] ==> together(groups, links[a], links[b]),
        alike[a]@[b] && alike[b]@[c] ==> together(groups, links[a], links[c]),
        alike[a]@[b] && alike[a]@[c] ==> together(groups, links[b], links[c]),
{
    grouped_exactly_where_linked(links, alike, groups, a, b);
    grouped_exactly_where_linked(links, alike, groups, a, c);
    grouped_exactly_where_linked(links, alike, groups, b, c);
    if alike[a]@[b] {
        edge_is_chain(alike, a, b);
        assert(linked(alike, a, b));
    }
    if alike[a]@[c] {
        edge_is_chain(alike, a, c);
        assert(linked(alike, a, c));
    }
    if alike[b]@[c] {
        edge_is_chain(alike, b, c);
        assert(linked(alike, b, c));
    }
    linked_is_an_equivalence(alike, a, b, c);
    linked_is_an_equivalence(alike, b, c, c);
    linked_is_an_equivalence(alike, c, b, a);
    linked_is_an_equivalence(alike, b, a, c);
    linked_is_an_equivalence(alike, a, c, b);
}

/// A link that behaves like no other is in no group.
pub proof fn link_that_is_like_no_other_stands_alone(
    links: Seq<usize>,
    alike: Seq<Vec<bool>>,
    groups: Seq<Vec<usize>>,
    a: int,
)
    requires
        groups_bottlenecks(links, alike, groups),
        alike.len() == links.len(),
        links.no_duplicates(),
        0 <= a < links.len(),
        forall|b: int| a < b < links.len() ==> !#[trigger] alike[a]@[b],
        forall|b: int| 0 <= b < a ==> !(#[trigger] alike[b])@[a],
    ensures
        !correlated(groups, links[a]),
{
    correlated_exactly_where_linked(links, alike, groups, a);
    if exists|b: int| 0 <= b < links.len() && b != a && #[trigger] linked(alike, a, b) {
        let b = choose|b: int| 0 <= b < links.len() && b != a && #[trigger] linked(alike, a, b);
        linked_is_an_equivalence(alike, a, b, b);
        let m = choose|m: nat| chain(alike, b, a, m);
        assert(m > 0);
        let c = choose|c: int| chain(alike, b, c, (m - 1) as nat) && #[trigger] edge(alike, c, a);
        assert(edge(alike, c, a));
    }
}

} // verus!
