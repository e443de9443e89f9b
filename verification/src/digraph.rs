//! Directed graphs: cycles, and an order of the nodes `0..n` by their dependencies.
//!
//! An edge `(a, b)` says that `a` depends on `b`.
use vstd::prelude::*;

verus! {

/// Whether `a` depends directly on `b`.
pub open spec fn has_edge<T>(es: Seq<(T, T)>, a: T, b: T) -> bool {
    es.contains((a, b))
}

/// Whether every edge joins two of the nodes `0..n`.
pub open spec fn edges_within(es: Seq<(usize, usize)>, n: int) -> bool {
    forall|i: int| 0 <= i < es.len() ==> (#[trigger] es[i]).0 < n && es[i].1 < n
}

/// Whether `c` is a closed walk: each member depends on the next, the last on the first.
pub open spec fn is_cycle<T>(es: Seq<(T, T)>, c: Seq<T>) -> bool {
    &&& c.len() > 0
    &&& forall|i: int| 0 <= i < c.len() - 1 ==> #[trigger] has_edge(es, c[i], c[i + 1])
    &&& has_edge(es, c[c.len() - 1], c[0])
}

/// Whether the graph contains a cycle.
pub open spec fn has_cycle<T>(es: Seq<(T, T)>) -> bool {
    exists|c: Seq<T>| is_cycle(es, c)
}

/// Whether in `order` everything that a member depends on stands before it.
pub open spec fn respects<T>(es: Seq<(T, T)>, order: Seq<T>) -> bool {
    forall|i: int, j: int|
        0 <= i < es.len() && 0 <= j < order.len() && order[j] == (#[trigger] es[i]).0
            ==> #[trigger] before(order, es[i].1, j)
}

/// Whether `a` stands in `order` at a position below `j`.
pub open spec fn before<T>(order: Seq<T>, a: T, j: int) -> bool {
    order.take(j).contains(a)
}

/// Whether every member of `s` depends on another member of `s`.
pub open spec fn blocked<T>(es: Seq<(T, T)>, s: Set<T>) -> bool {
    forall|a: T| s.contains(a) ==> #[trigger] depends_into(es, s, a)
}

/// Whether `a` depends on a member of `s`.
pub open spec fn depends_into<T>(es: Seq<(T, T)>, s: Set<T>, a: T) -> bool {
    exists|b: T| s.contains(b) && has_edge(es, a, b)
}

/// The number of edges of `es` that leave `a` for a node outside `done`.
spec fn open_edges(es: Seq<(usize, usize)>, done: Set<usize>, a: usize) -> nat
    decreases es.len(),
{
    if es.len() == 0 {
        0
    } else {
        open_edges(es.drop_last(), done, a) + if es.last().0 == a && !done.contains(es.last().1) {
            1nat
        } else {
            0
        }
    }
}

proof fn lemma_open_edges_bound(es: Seq<(usize, usize)>, done: Set<usize>, a: usize)
    ensures
        open_edges(es, done, a) <= es.len(),
    decreases es.len(),
{
    if es.len() > 0 {
        lemma_open_edges_bound(es.drop_last(), done, a);
    }
}

proof fn lemma_open_edges_zero(es: Seq<(usize, usize)>, done: Set<usize>, a: usize)
    ensures
        open_edges(es, done, a) == 0 <==> forall|i: int|
            0 <= i < es.len() && (#[trigger] es[i]).0 == a ==> done.contains(es[i].1),
    decreases es.len(),
{
    if es.len() > 0 {
        let f = es.drop_last();
        lemma_open_edges_zero(f, done, a);
        if open_edges(es, done, a) == 0 {
            assert forall|i: int| 0 <= i < es.len() && (#[trigger] es[i]).0 == a implies done.contains(
                es[i].1,
            ) by {
                if i < f.len() {
                    assert(f[i] == es[i]);
                }
            }
        }
        if forall|i: int| 0 <= i < es.len() && (#[trigger] es[i]).0 == a ==> done.contains(es[i].1) {
            assert forall|i: int| 0 <= i < f.len() && (#[trigger] f[i]).0 == a implies done.contains(
                f[i].1,
            ) by {
                assert(f[i] == es[i]);
            }
            assert(es[es.len() - 1] == es.last());
        }
    }
}

proof fn lemma_open_edges_none_done(es: Seq<(usize, usize)>, done: Set<usize>, p: usize, a: usize)
    requires
        forall|i: int| 0 <= i < es.len() && (#[trigger] es[i]).0 == a ==> es[i].1 != p,
    ensures
        open_edges(es, done.insert(p), a) == open_edges(es, done, a),
    decreases es.len(),
{
    if es.len() > 0 {
        let f = es.drop_last();
        assert forall|i: int| 0 <= i < f.len() && (#[trigger] f[i]).0 == a implies f[i].1 != p by {
            assert(f[i] == es[i]);
        }
        lemma_open_edges_none_done(f, done, p, a);
        assert(es[es.len() - 1] == es.last());
    }
}

/// The edges of `a` still open when those up to `k` have been told that `p` is done.
spec fn open_upto(es: Seq<(usize, usize)>, k: int, done: Set<usize>, p: usize, a: usize) -> int {
    open_edges(es, done, a) - open_edges(es.take(k), done, a) + open_edges(
        es.take(k),
        done.insert(p),
        a,
    )
}

proof fn lemma_open_upto_step(es: Seq<(usize, usize)>, k: int, done: Set<usize>, p: usize, a: usize)
    requires
        0 <= k < es.len(),
        !done.contains(p),
    ensures
        open_upto(es, k + 1, done, p, a) == open_upto(es, k, done, p, a) - if es[k] == (a, p) {
            1int
        } else {
            0
        },
{
    assert(es.take(k + 1).drop_last() =~= es.take(k));
}

proof fn lemma_open_monotone(es: Seq<(usize, usize)>, done: Set<usize>, p: usize, a: usize)
    ensures
        open_edges(es, done.insert(p), a) <= open_edges(es, done, a),
    decreases es.len(),
{
    if es.len() > 0 {
        lemma_open_monotone(es.drop_last(), done, p, a);
    }
}

proof fn lemma_open_take(es: Seq<(usize, usize)>, k: int, done: Set<usize>, a: usize)
    requires
        0 <= k <= es.len(),
    ensures
        open_edges(es.take(k), done, a) <= open_edges(es, done, a),
    decreases es.len() - k,
{
    if k < es.len() {
        lemma_open_take(es, k + 1, done, a);
        assert(es.take(k + 1).drop_last() =~= es.take(k));
    } else {
        assert(es.take(k) =~= es);
    }
}

proof fn lemma_open_take_strict(es: Seq<(usize, usize)>, k: int, done: Set<usize>, a: usize, p: usize)
    requires
        0 <= k < es.len(),
        es[k] == (a, p),
        !done.contains(p),
    ensures
        open_edges(es.take(k), done, a) < open_edges(es, done, a),
{
    lemma_open_take(es, k + 1, done, a);
    assert(es.take(k + 1).drop_last() =~= es.take(k));
}

/// A walk of `k + 1` nodes that starts at `a` and stays in a blocked set.
spec fn walk<T>(es: Seq<(T, T)>, s: Set<T>, a: T, k: nat) -> Seq<T>
    decreases k,
{
    if k == 0 {
        seq![a]
    } else {
        let w = walk(es, s, a, (k - 1) as nat);
        w.push(choose|b: T| s.contains(b) && has_edge(es, w.last(), b))
    }
}

proof fn lemma_walk<T>(es: Seq<(T, T)>, s: Set<T>, a: T, k: nat)
    requires
        blocked(es, s),
        s.contains(a),
    ensures
        walk(es, s, a, k).len() == k + 1,
        forall|i: int| 0 <= i <= k ==> s.contains(#[trigger] walk(es, s, a, k)[i]),
        forall|i: int|
            0 <= i < k ==> #[trigger] has_edge(es, walk(es, s, a, k)[i], walk(es, s, a, k)[i + 1]),
    decreases k,
{
    if k > 0 {
        lemma_walk(es, s, a, (k - 1) as nat);
        let w = walk(es, s, a, (k - 1) as nat);
        assert(s.contains(w[w.len() - 1]));
        assert(depends_into(es, s, w.last()));
        let full = walk(es, s, a, k);
        assert forall|i: int| 0 <= i < k implies #[trigger] has_edge(es, full[i], full[i + 1]) by {
            if i < k - 1 {
                assert(has_edge(es, w[i], w[i + 1]));
            }
        }
        assert forall|i: int| 0 <= i <= k implies s.contains(#[trigger] full[i]) by {
            if i < k {
                assert(s.contains(w[i]));
            }
        }
    }
}

/// A sequence longer than the set its members come from repeats one of them.
proof fn lemma_repeats<T>(w: Seq<T>, s: Set<T>) -> (r: (int, int))
    requires
        s.finite(),
        forall|i: int| 0 <= i < w.len() ==> s.contains(#[trigger] w[i]),
        w.len() > s.len(),
    ensures
        0 <= r.0 < r.1 < w.len(),
        w[r.0] == w[r.1],
{
    if w.no_duplicates() {
        w.unique_seq_to_set();
        assert(w.to_set().subset_of(s)) by {
            assert forall|x: T| w.to_set().contains(x) implies s.contains(x) by {
                let i = choose|i: int| 0 <= i < w.len() && w[i] == x;
                assert(s.contains(w[i]));
            }
        }
        vstd::set_lib::lemma_len_subset(w.to_set(), s);
        (0, 1)
    } else {
        let (x, y) = choose|x: int, y: int|
            #![trigger w[x], w[y]]
            0 <= x < w.len() && 0 <= y < w.len() && x != y && w[x] == w[y];
        if x < y {
            (x, y)
        } else {
            (y, x)
        }
    }
}

/// A non-empty finite set, each member of which depends on another one, holds a cycle.
pub proof fn law_blocked_set_holds_cycle<T>(es: Seq<(T, T)>, s: Set<T>)
    requires
        s.finite(),
        s.len() > 0,
        blocked(es, s),
    ensures
        has_cycle(es),
{
    let a = s.choose();
    let w = walk(es, s, a, s.len());
    lemma_walk(es, s, a, s.len());
    let (i, j) = lemma_repeats(w, s);
    lemma_closed_walk(es, w, i, j);
}

proof fn lemma_closed_walk<T>(es: Seq<(T, T)>, w: Seq<T>, i: int, j: int)
    requires
        0 <= i < j < w.len(),
        w[i] == w[j],
        forall|m: int| 0 <= m < w.len() - 1 ==> #[trigger] has_edge(es, w[m], w[m + 1]),
    ensures
        has_cycle(es),
{
    let c = w.subrange(i, j);
    assert forall|m: int| 0 <= m < c.len() - 1 implies #[trigger] has_edge(es, c[m], c[m + 1]) by {
        assert(has_edge(es, w[i + m], w[i + m + 1]));
    }
    assert(has_edge(es, w[j - 1], w[j - 1 + 1]));
    assert(is_cycle(es, c));
}

/// A graph whose nodes can be put in an order that respects its edges has no cycle.
pub proof fn law_ordered_graph_has_no_cycle<T>(es: Seq<(T, T)>, order: Seq<T>)
    requires
        respects(es, order),
        forall|i: int| 0 <= i < es.len() ==> order.contains((#[trigger] es[i]).0),
    ensures
        !has_cycle(es),
{
    if has_cycle(es) {
        let c = choose|c: Seq<T>| is_cycle(es, c);
        let k = lemma_descend(es, order, c, c.len() - 1);
        // the last member depends on the first one
        let e = choose|e: int| 0 <= e < es.len() && es[e] == (c[c.len() - 1], c[0]);
        assert(before(order, es[e].1, k));
        let m = choose|m: int| 0 <= m < order.take(k).len() && order.take(k)[m] == c[0];
        lemma_no_descent(es, order, c, m);
        assert(order[m] == c[0]);
    }
}

/// The members of a cycle of an ordered graph stand in the order.
proof fn lemma_descend<T>(es: Seq<(T, T)>, order: Seq<T>, c: Seq<T>, i: int) -> (k: int)
    requires
        respects(es, order),
        forall|i: int| 0 <= i < es.len() ==> order.contains((#[trigger] es[i]).0),
        is_cycle(es, c),
        0 <= i < c.len(),
    ensures
        0 <= k < order.len(),
        order[k] == c[i],
{
    let next = if i == c.len() - 1 { c[0] } else { c[i + 1] };
    if i < c.len() - 1 {
        assert(has_edge(es, c[i], c[i + 1]));
    }
    let e = choose|e: int| 0 <= e < es.len() && es[e] == (c[i], next);
    assert(order.contains(es[e].0));
    choose|k: int| 0 <= k < order.len() && order[k] == c[i]
}

/// No position of the order holds the first member of a cycle.
proof fn lemma_no_descent<T>(
    es: Seq<(T, T)>,
    order: Seq<T>,
    c: Seq<T>,
    m: int,
)
    requires
        respects(es, order),
        forall|i: int| 0 <= i < es.len() ==> order.contains((#[trigger] es[i]).0),
        is_cycle(es, c),
        0 <= m < order.len(),
    ensures
        order[m] != c[0],
    decreases m,
{
    if order[m] == c[0] {
        let k = lemma_reach(es, order, c, m, c.len() - 1);
        let e = choose|e: int| 0 <= e < es.len() && es[e] == (c[c.len() - 1], c[0]);
        assert(before(order, es[e].1, k));
        let m2 = choose|m2: int| 0 <= m2 < order.take(k).len() && order.take(k)[m2] == c[0];
        assert(order[m2] == c[0]);
        lemma_no_descent(es, order, c, m2);
    }
}

proof fn lemma_reach<T>(
    es: Seq<(T, T)>,
    order: Seq<T>,
    c: Seq<T>,
    m: int,
    i: int,
) -> (k: int)
    requires
        respects(es, order),
        is_cycle(es, c),
        0 <= m < order.len(),
        order[m] == c[0],
        0 <= i < c.len(),
    ensures
        0 <= k <= m,
        order[k] == c[i],
    decreases i,
{
    if i == 0 {
        m
    } else {
        let k = lemma_reach(es, order, c, m, i - 1);
        assert(has_edge(es, c[i - 1], c[i - 1 + 1]));
        let e = choose|e: int| 0 <= e < es.len() && es[e] == (c[i - 1], c[i]);
        assert(before(order, es[e].1, k));
        let k2 = choose|k2: int| 0 <= k2 < order.take(k).len() && order.take(k)[k2] == c[i];
        assert(order[k2] == c[i]);
        k2
    }
}

/// Tells every node that depends on `p` that `p` is done; nodes left with no open dependency
/// are appended to `order`.
fn release_dependents(
    n: usize,
    es: &Vec<(usize, usize)>,
    p: usize,
    done: Ghost<Set<usize>>,
    remaining: &mut Vec<usize>,
    order: &mut Vec<usize>,
)
    requires
        edges_within(es@, n as int),
        old(remaining)@.len() == n,
        p < n,
        !done@.contains(p),
        order_state(n, es@, done@, old(remaining)@, old(order)@),
        respects(es@, old(order)@),
        old(order)@.contains(p),
        done@.subset_of(old(order)@.to_set()),
    ensures
        final(remaining)@.len() == n,
        order_state(n, es@, done@.insert(p), final(remaining)@, final(order)@),
        respects(es@, final(order)@),
        old(order)@.is_prefix_of(final(order)@),
{
    let mut k: usize = 0;
    let ghost base = order@;
    proof {
        assert(base.take(base.len() as int) =~= base);
        assert forall|a: usize| a < n implies #[trigger] remaining@[a as int] == open_upto(
            es@,
            0,
            done@,
            p,
            a,
        ) by {
            assert(es@.take(0).len() == 0);
        }
    }
    while k < es.len()
        invariant
            k <= es@.len(),
            edges_within(es@, n as int),
            remaining@.len() == n,
            p < n,
            !done@.contains(p),
            forall|a: usize|
                a < n ==> #[trigger] remaining@[a as int] == open_upto(es@, k as int, done@, p, a),
            order@.no_duplicates(),
            forall|j: int| 0 <= j < order@.len() ==> #[trigger] order@[j] < n,
            forall|a: usize| a < n ==> (remaining@[a as int] == 0 <==> #[trigger] order@.contains(a)),
            respects(es@, order@),
            base.is_prefix_of(order@),
            base.contains(p),
            done@.subset_of(base.to_set()),
        decreases es@.len() - k,
    {
        proof {
            assert forall|a: usize| a < n implies #[trigger] open_upto(es@, k + 1, done@, p, a)
                == open_upto(es@, k as int, done@, p, a) - if es@[k as int] == (a, p) {
                1int
            } else {
                0
            } by {
                lemma_open_upto_step(es@, k as int, done@, p, a);
            }
        }
        if es[k].1 == p {
            let d: usize = es[k].0;
            assert(d < n);
            proof {
                lemma_open_take_strict(es@, k as int, done@, d, p);
            }
            assert(remaining@[d as int] > 0);
            let left: usize = remaining[d] - 1;
            let ghost rem0 = remaining@;
            let ghost ord0 = order@;
            remaining.set(d, left);
            if left == 0 {
                order.push(d);
                proof {
                    lemma_release_one(es@, k as int, done@, p, d, ord0, base);
                    assert forall|a: usize| a < n implies (remaining@[a as int] == 0
                        <==> #[trigger] order@.contains(a)) by {
                        assert(order@ =~= ord0.push(d));
                        if a == d {
                            assert(order@[ord0.len() as int] == d);
                        } else {
                            if order@.contains(a) {
                                let j = choose|j: int| 0 <= j < order@.len() && order@[j] == a;
                                assert(ord0[j] == a);
                            }
                            if ord0.contains(a) {
                                let j = choose|j: int| 0 <= j < ord0.len() && ord0[j] == a;
                                assert(order@[j] == a);
                            }
                        }
                    }
                }
            }
        }
        k = k + 1;
    }
    proof {
        assert(es@.take(es@.len() as int) =~= es@);
    }
}

/// The last open edge of `d` has been closed: everything `d` depends on stands in the order.
proof fn lemma_release_one(
    es: Seq<(usize, usize)>,
    k: int,
    done: Set<usize>,
    p: usize,
    d: usize,
    order: Seq<usize>,
    base: Seq<usize>,
)
    requires
        0 <= k < es.len(),
        es[k] == (d, p),
        !done.contains(p),
        open_upto(es, k + 1, done, p, d) == 0,
        respects(es, order),
        !order.contains(d),
        base.is_prefix_of(order),
        base.contains(p),
        done.subset_of(base.to_set()),
    ensures
        respects(es, order.push(d)),
        order.push(d).no_duplicates() || !order.no_duplicates(),
{
    let full = order.push(d);
    assert forall|i: int, j: int|
        0 <= i < es.len() && 0 <= j < full.len() && full[j] == (#[trigger] es[i]).0 implies #[trigger] before(
        full,
        es[i].1,
        j,
    ) by {
        if j < order.len() {
            assert(order[j] == es[i].0);
            assert(before(order, es[i].1, j));
            assert(full.take(j) =~= order.take(j));
        } else {
            assert(full.take(j) =~= order);
            // an open edge behind position k would be counted
            lemma_open_take(es, k + 1, done, d);
            lemma_open_edges_zero(es.take(k + 1), done.insert(p), d);
            let t = es[i].1;
            if i <= k {
                assert(es.take(k + 1)[i] == es[i]);
                assert(done.insert(p).contains(t));
            } else if !done.contains(t) {
                lemma_open_after(es, k + 1, i, done, d);
                assert(false);
            }
            assert(base.to_set().contains(t) || t == p);
            let m = choose|m: int| 0 <= m < base.len() && base[m] == t;
            assert(order[m] == t);
        }
    }
}

proof fn lemma_open_after(es: Seq<(usize, usize)>, k: int, i: int, done: Set<usize>, a: usize)
    requires
        0 <= k <= i < es.len(),
        es[i].0 == a,
        !done.contains(es[i].1),
    ensures
        open_edges(es.take(k), done, a) < open_edges(es, done, a),
{
    lemma_open_take(es.take(i), k, done, a);
    assert(es.take(i).take(k) =~= es.take(k));
    lemma_open_take(es, i + 1, done, a);
    assert(es.take(i + 1).drop_last() =~= es.take(i));
}

/// Between two steps of the search: the counters tell the open edges, and the nodes without an
/// open edge are those in the order.
spec fn order_state(
    n: usize,
    es: Seq<(usize, usize)>,
    done: Set<usize>,
    remaining: Seq<usize>,
    order: Seq<usize>,
) -> bool {
    &&& remaining.len() == n
    &&& forall|a: usize| a < n ==> #[trigger] remaining[a as int] == open_edges(es, done, a)
    &&& order.no_duplicates()
    &&& forall|j: int| 0 <= j < order.len() ==> #[trigger] order[j] < n
    &&& forall|a: usize| a < n ==> (remaining[a as int] == 0 <==> #[trigger] order.contains(a))
}

/// The outcome of a dependency sort: the nodes that could be ordered, and those that could not.
pub struct Sorted {
    pub order: Vec<usize>,
    pub stuck: Vec<usize>,
}

/// Orders the nodes so that each stands behind all it depends on. The nodes left over are the
/// greatest set each member of which depends on another member.
pub fn dependency_order(n: usize, es: &Vec<(usize, usize)>) -> (r: Sorted)
    requires
        edges_within(es@, n as int),
    ensures
        r.order@.no_duplicates(),
        r.stuck@.no_duplicates(),
        forall|a: usize| #![auto] a < n <==> (r.order@.contains(a) || r.stuck@.contains(a)),
        forall|a: usize| !(#[trigger] r.order@.contains(a) && r.stuck@.contains(a)),
        respects(es@, r.order@),
        blocked(es@, r.stuck@.to_set()),
        forall|s: Set<usize>|
            #[trigger] blocked(es@, s) && (forall|a: usize| s.contains(a) ==> a < n) ==> s.subset_of(
                r.stuck@.to_set(),
            ),
        r.stuck@.len() == 0 <==> !has_cycle(es@),
{
    let mut remaining: Vec<usize> = Vec::new();
    let mut i: usize = 0;
    while i < n
        invariant
            i <= n,
            remaining@.len() == i,
            forall|j: int| 0 <= j < i ==> remaining@[j] == 0,
        decreases n - i,
    {
        remaining.push(0);
        i = i + 1;
    }
    let ghost nothing = Set::<usize>::empty();
    let mut k: usize = 0;
    while k < es.len()
        invariant
            k <= es@.len(),
            edges_within(es@, n as int),
            remaining@.len() == n,
            nothing == Set::<usize>::empty(),
            forall|a: usize|
                a < n ==> #[trigger] remaining@[a as int] == open_edges(es@.take(k as int), nothing, a),
        decreases es@.len() - k,
    {
        proof {
            assert(es@.take(k + 1).drop_last() =~= es@.take(k as int));
        }
        let d: usize = es[k].0;
        assert(d < n);
        proof {
            lemma_open_edges_bound(es@.take(k as int), nothing, d);
        }
        assert(remaining@[d as int] <= k);
        remaining.set(d, remaining[d] + 1);
        k = k + 1;
    }
    proof {
        assert(es@.take(es@.len() as int) =~= es@);
    }
    let mut order: Vec<usize> = Vec::new();
    let mut i: usize = 0;
    while i < n
        invariant
            i <= n,
            remaining@.len() == n,
            nothing == Set::<usize>::empty(),
            forall|a: usize| a < n ==> #[trigger] remaining@[a as int] == open_edges(es@, nothing, a),
            order@.no_duplicates(),
            forall|j: int| 0 <= j < order@.len() ==> #[trigger] order@[j] < i,
            forall|a: usize| a < i ==> (remaining@[a as int] == 0 <==> #[trigger] order@.contains(a)),
            respects(es@, order@),
        decreases n - i,
    {
        if remaining[i] == 0 {
            let ghost ord0 = order@;
            order.push(i);
            proof {
                lemma_open_edges_zero(es@, nothing, i);
                assert forall|x: int, j: int|
                    0 <= x < es@.len() && 0 <= j < order@.len() && order@[j] == (#[trigger] es@[x]).0
                    implies #[trigger] before(order@, es@[x].1, j) by {
                    if j < ord0.len() {
                        assert(before(ord0, es@[x].1, j));
                        assert(ord0.take(j) =~= order@.take(j));
                    } else {
                        assert(nothing.contains(es@[x].1));
                    }
                }
                assert forall|a: usize| a < i + 1 implies (remaining@[a as int] == 0
                    <==> #[trigger] order@.contains(a)) by {
                    if a == i {
                        assert(order@[ord0.len() as int] == i);
                    } else {
                        if ord0.contains(a) {
                            let j = choose|j: int| 0 <= j < ord0.len() && ord0[j] == a;
                            assert(order@[j] == a);
                        }
                        if order@.contains(a) {
                            let j = choose|j: int| 0 <= j < order@.len() && order@[j] == a;
                            assert(ord0[j] == a);
                        }
                    }
                }
            }
        }
        i = i + 1;
    }
    let mut head: usize = 0;
    let ghost done = nothing;
    proof {
        assert(order@.take(0).to_set() =~= nothing);
    }
    while head < order.len()
        invariant
            head <= order@.len(),
            edges_within(es@, n as int),
            remaining@.len() == n,
            done == order@.take(head as int).to_set(),
            order_state(n, es@, done, remaining@, order@),
            respects(es@, order@),
        decreases n - head,
    {
        let p: usize = order[head];
        proof {
            assert(p < n);
            assert(!done.contains(p)) by {
                if done.contains(p) {
                    let m = choose|m: int|
                        0 <= m < order@.take(head as int).len() && order@.take(head as int)[m] == p;
                    assert(order@[m] == order@[head as int]);
                }
            }
            assert(done.subset_of(order@.to_set())) by {
                assert forall|x: usize| done.contains(x) implies order@.to_set().contains(x) by {
                    let m = choose|m: int|
                        0 <= m < order@.take(head as int).len() && order@.take(head as int)[m] == x;
                    assert(order@[m] == x);
                }
            }
            lemma_length_bound(order@, n);
        }
        let ghost ord0 = order@;
        release_dependents(n, es, p, Ghost(done), &mut remaining, &mut order);
        proof {
            assert(order@.take(head + 1) =~= ord0.take(head as int).push(p)) by {
                assert forall|m: int| 0 <= m <= head implies order@[m] == ord0[m] by {
                    assert(order@.subrange(0, ord0.len() as int)[m] == ord0[m]);
                }
            }
            assert(order@.take(head + 1).to_set() =~= done.insert(p)) by {
                lemma_push_to_set(ord0.take(head as int), p);
            }
            done = done.insert(p);
            lemma_length_bound(order@, n);
        }
        head = head + 1;
    }
    proof {
        assert(order@.take(order@.len() as int) =~= order@);
    }
    let mut stuck: Vec<usize> = Vec::new();
    let mut i: usize = 0;
    while i < n
        invariant
            i <= n,
            remaining@.len() == n,
            done == order@.to_set(),
            order_state(n, es@, done, remaining@, order@),
            stuck@.no_duplicates(),
            forall|j: int| 0 <= j < stuck@.len() ==> #[trigger] stuck@[j] < i,
            forall|a: usize| a < i ==> (#[trigger] stuck@.contains(a) <==> !order@.contains(a)),
        decreases n - i,
    {
        let ghost st0 = stuck@;
        if remaining[i] != 0 {
            stuck.push(i);
        }
        proof {
            assert(remaining@[i as int] == 0 <==> order@.contains(i));
            assert forall|a: usize| a < i + 1 implies (#[trigger] stuck@.contains(a)
                <==> !order@.contains(a)) by {
                if a < i {
                    if st0.contains(a) {
                        let j = choose|j: int| 0 <= j < st0.len() && st0[j] == a;
                        assert(stuck@[j] == a);
                    }
                    if stuck@.contains(a) {
                        let j = choose|j: int| 0 <= j < stuck@.len() && stuck@[j] == a;
                        assert(st0[j] == a);
                    }
                } else {
                    if remaining@[i as int] != 0 {
                        assert(stuck@[st0.len() as int] == i);
                    }
                }
            }
        }
        i = i + 1;
    }
    proof {
        let s = stuck@.to_set();
        assert(blocked(es@, s)) by {
            assert forall|a: usize| s.contains(a) implies #[trigger] depends_into(es@, s, a) by {
                let j = choose|j: int| 0 <= j < stuck@.len() && stuck@[j] == a;
                assert(a < n);
                assert(stuck@.contains(a));
                assert(!order@.contains(a));
                lemma_open_edges_zero(es@, done, a);
                let x = choose|x: int|
                    0 <= x < es@.len() && (#[trigger] es@[x]).0 == a && !done.contains(es@[x].1);
                let b = es@[x].1;
                assert(b < n);
                assert(stuck@.contains(b));
                assert(s.contains(b) && has_edge(es@, a, b));
            }
        }
        assert forall|t: Set<usize>|
            #[trigger] blocked(es@, t) && (forall|a: usize| t.contains(a) ==> a < n) implies t.subset_of(
            s,
        ) by {
            assert forall|a: usize| t.contains(a) implies s.contains(a) by {
                assert(a < n);
                if order@.contains(a) {
                    let j = choose|j: int| 0 <= j < order@.len() && order@[j] == a;
                    lemma_ordered_not_blocked(es@, order@, t, j);
                }
                assert(stuck@.contains(a));
            }
        }
        if stuck@.len() == 0 {
            assert forall|x: int| 0 <= x < es@.len() implies order@.contains((#[trigger] es@[x]).0) by {
                let a = es@[x].0;
                assert(a < n);
                if !order@.contains(a) {
                    assert(stuck@.contains(a));
                }
            }
            law_ordered_graph_has_no_cycle(es@, order@);
        } else {
            stuck@.unique_seq_to_set();
            law_blocked_set_holds_cycle(es@, s);
        }
        assert forall|a: usize| #![auto] a < n <==> (order@.contains(a) || stuck@.contains(a)) by {
            if order@.contains(a) {
                let j = choose|j: int| 0 <= j < order@.len() && order@[j] == a;
            }
            if stuck@.contains(a) {
                let j = choose|j: int| 0 <= j < stuck@.len() && stuck@[j] == a;
            }
        }
        assert forall|a: usize| !(#[trigger] order@.contains(a) && stuck@.contains(a)) by {
            if stuck@.contains(a) {
                let j = choose|j: int| 0 <= j < stuck@.len() && stuck@[j] == a;
                assert(a < n);
            }
        }
    }
    Sorted { order, stuck }
}

/// No member of an order that respects the edges belongs to a blocked set.
proof fn lemma_ordered_not_blocked<T>(es: Seq<(T, T)>, order: Seq<T>, t: Set<T>, j: int)
    requires
        respects(es, order),
        blocked(es, t),
        0 <= j < order.len(),
    ensures
        !t.contains(order[j]),
    decreases j,
{
    if t.contains(order[j]) {
        assert(depends_into(es, t, order[j]));
        let b = choose|b: T| t.contains(b) && has_edge(es, order[j], b);
        let x = choose|x: int| 0 <= x < es.len() && es[x] == (order[j], b);
        assert(before(order, es[x].1, j));
        let m = choose|m: int| 0 <= m < order.take(j).len() && order.take(j)[m] == b;
        lemma_ordered_not_blocked(es, order, t, m);
    }
}

proof fn lemma_push_to_set(s: Seq<usize>, p: usize)
    ensures
        s.push(p).to_set() =~= s.to_set().insert(p),
{
    assert forall|x: usize| s.push(p).to_set().contains(x) <==> s.to_set().insert(p).contains(x) by {
        if s.contains(x) {
            let j = choose|j: int| 0 <= j < s.len() && s[j] == x;
            assert(s.push(p)[j] == x);
        }
        if x == p {
            assert(s.push(p)[s.len() as int] == p);
        }
        if s.push(p).contains(x) {
            let j = choose|j: int| 0 <= j < s.push(p).len() && s.push(p)[j] == x;
            if j < s.len() {
                assert(s[j] == x);
            }
        }
    }
}

/// Distinct numbers below `n` are at most `n`.
pub proof fn lemma_length_bound(s: Seq<usize>, n: usize)
    requires
        s.no_duplicates(),
        forall|j: int| 0 <= j < s.len() ==> #[trigger] s[j] < n,
    ensures
        s.len() <= n,
{
    let t = s.map_values(|x: usize| x as int);
    assert(t.no_duplicates());
    t.unique_seq_to_set();
    let r = vstd::set_lib::set_int_range(0, n as int);
    vstd::set_lib::lemma_int_range(0, n as int);
    assert(t.to_set().subset_of(r)) by {
        assert forall|x: int| t.to_set().contains(x) implies r.contains(x) by {
            let j = choose|j: int| 0 <= j < t.len() && t[j] == x;
            assert(s[j] < n);
        }
    }
    vstd::set_lib::lemma_len_subset(t.to_set(), r);
}

/// The number of entries that are still `false`.
pub open spec fn unset(v: Seq<bool>) -> nat
    decreases v.len(),
{
    if v.len() == 0 {
        0
    } else {
        unset(v.drop_last()) + if v.last() { 0nat } else { 1 }
    }
}

pub proof fn lemma_unset_set(a: Seq<bool>, v: int)
    requires
        0 <= v < a.len(),
        !a[v],
    ensures
        unset(a.update(v, true)) == unset(a) - 1,
    decreases a.len(),
{
    let b = a.update(v, true);
    if v == a.len() - 1 {
        assert(b.drop_last() =~= a.drop_last());
    } else {
        assert(b.drop_last() =~= a.drop_last().update(v, true));
        lemma_unset_set(a.drop_last(), v);
    }
}

} // verus!
