//! All cycles of a directed graph on the nodes `0..n`.
use crate::digraph::{edges_within, has_cycle, has_edge, is_cycle, lemma_length_bound, lemma_unset_set, unset};
use vstd::prelude::*;

verus! {

/// The sequence that begins at position `k` and goes on at the front behind the end.
pub open spec fn rotated<T>(c: Seq<T>, k: int) -> Seq<T> {
    c.skip(k) + c.take(k)
}

/// Whether `a` is `b`, perhaps begun at another position.
pub open spec fn is_rotation<T>(a: Seq<T>, b: Seq<T>) -> bool {
    exists|k: int| 0 <= k < b.len() && a == #[trigger] rotated(b, k)
}

/// Whether one of the cycles is `c`, perhaps begun at another position.
pub open spec fn holds_rotation<T>(cs: Seq<Seq<T>>, c: Seq<T>) -> bool {
    exists|i: int| 0 <= i < cs.len() && is_rotation(#[trigger] cs[i], c)
}

/// Whether `cs` lists the cycles of a graph: each of them passes no node twice, every such cycle
/// is among them, begun at one of its nodes, and none is listed twice.
pub open spec fn lists_cycles<T>(es: Seq<(T, T)>, cs: Seq<Seq<T>>) -> bool {
    &&& forall|i: int| 0 <= i < cs.len() ==> is_cycle(es, #[trigger] cs[i]) && cs[i].no_duplicates()
    &&& forall|c: Seq<T>| #[trigger] is_cycle(es, c) && c.no_duplicates() ==> holds_rotation(cs, c)
    &&& forall|i: int, j: int|
        0 <= i < cs.len() && 0 <= j < cs.len() && i != j ==> !#[trigger] is_rotation(cs[i], cs[j])
}

/// A graph has a cycle exactly where the list of its cycles is not empty.
pub proof fn law_listed_cycles_decide<T>(es: Seq<(T, T)>, cs: Seq<Seq<T>>)
    requires
        lists_cycles(es, cs),
    ensures
        cs.len() == 0 <==> !has_cycle(es),
{
    if cs.len() > 0 {
        assert(is_cycle(es, cs[0]));
    }
    if has_cycle(es) {
        let c = choose|c: Seq<T>| is_cycle(es, c);
        let d = lemma_simple_cycle(es, c);
        assert(holds_rotation(cs, d));
    }
}

proof fn lemma_simple_cycle<T>(es: Seq<(T, T)>, c: Seq<T>) -> (d: Seq<T>)
    requires
        is_cycle(es, c),
    ensures
        is_cycle(es, d),
        d.no_duplicates(),
    decreases c.len(),
{
    if c.no_duplicates() {
        c
    } else {
        let (x, y) = choose|x: int, y: int|
            #![trigger c[x], c[y]]
            0 <= x < c.len() && 0 <= y < c.len() && x != y && c[x] == c[y];
        let i = if x < y { x } else { y };
        let j = if x < y { y } else { x };
        let d = c.subrange(i, j);
        assert forall|m: int| 0 <= m < d.len() - 1 implies #[trigger] has_edge(es, d[m], d[m + 1]) by {
            assert(has_edge(es, c[i + m], c[i + m + 1]));
        }
        assert(has_edge(es, c[j - 1], c[j - 1 + 1]));
        lemma_simple_cycle(es, d)
    }
}

/// The contents of a list of cycles.
pub open spec fn cycles_v(cs: Seq<Vec<usize>>) -> Seq<Seq<usize>> {
    cs.map_values(|c: Vec<usize>| c@)
}

/// Whether the marked nodes hold every node, from `v` on, that depends on a marked one.
spec fn marks_dependents(es: Seq<(usize, usize)>, v: usize, marked: Seq<bool>, k: int) -> bool {
    forall|j: int|
        0 <= j < k && v <= (#[trigger] es[j]).0 && marked[es[j].1 as int] ==> marked[es[j].0 as int]
}

/// Marks the nodes from `v` on that depend on `v` through such nodes.
fn mark_dependents(n: usize, es: &Vec<(usize, usize)>, v: usize) -> (r: Vec<bool>)
    requires
        edges_within(es@, n as int),
        v < n,
    ensures
        r@.len() == n,
        r@[v as int],
        marks_dependents(es@, v, r@, es@.len() as int),
{
    let mut marked: Vec<bool> = Vec::new();
    let mut i: usize = 0;
    while i < n
        invariant
            i <= n,
            marked@.len() == i,
            v < i ==> marked@[v as int],
        decreases n - i,
    {
        marked.push(i == v);
        i = i + 1;
    }
    let mut changed = true;
    while changed
        invariant
            edges_within(es@, n as int),
            v < n,
            marked@.len() == n,
            marked@[v as int],
            !changed ==> marks_dependents(es@, v, marked@, es@.len() as int),
        decreases unset(marked@), (if changed { 1int } else { 0int }),
    {
        let ghost m0 = marked@;
        changed = false;
        let mut k: usize = 0;
        while k < es.len()
            invariant
                k <= es@.len(),
                edges_within(es@, n as int),
                v < n,
                marked@.len() == n,
                marked@[v as int],
                changed ==> unset(marked@) < unset(m0),
                !changed ==> marked@ == m0 && marks_dependents(es@, v, marked@, k as int),
            decreases es@.len() - k,
        {
            assert(es@[k as int].0 < n && es@[k as int].1 < n);
            let (a, b) = es[k];
            if v <= a && marked[b] && !marked[a] {
                proof {
                    lemma_unset_set(marked@, a as int);
                }
                marked.set(a, true);
                changed = true;
            }
            k = k + 1;
        }
    }
    marked
}

/// Whether `p` is a path from `v` through nodes from `v` on, none of which it passes twice.
spec fn is_trail(n: usize, es: Seq<(usize, usize)>, v: usize, p: Seq<usize>) -> bool {
    &&& p.len() > 0
    &&& p[0] == v
    &&& p.no_duplicates()
    &&& forall|i: int| 0 <= i < p.len() ==> v <= #[trigger] p[i] < n
    &&& forall|i: int| 0 <= i < p.len() - 1 ==> #[trigger] has_edge(es, p[i], p[i + 1])
}

/// Whether `c` is a cycle through nodes from `v` on that begins with the path `p`.
spec fn goes_on(es: Seq<(usize, usize)>, v: usize, p: Seq<usize>, c: Seq<usize>) -> bool {
    &&& is_cycle(es, c)
    &&& c.no_duplicates()
    &&& p.is_prefix_of(c)
    &&& forall|i: int| 0 <= i < c.len() ==> v <= #[trigger] c[i]
}

/// The node behind the path `p` in a cycle that begins with it.
spec fn next_in(p: Seq<usize>, c: Seq<usize>) -> usize {
    if c.len() > p.len() {
        c[p.len() as int]
    } else {
        c[0]
    }
}

/// Whether a cycle goes on behind the path `p` along one of the first `k` edges.
spec fn along(es: Seq<(usize, usize)>, k: int, p: Seq<usize>, c: Seq<usize>) -> bool {
    es.take(k).contains((p.last(), next_in(p, c)))
}

/// Whether `cs` lists, each once, the cycles that begin with the path `p` and go on along one of
/// the first `k` edges.
spec fn lists_from(es: Seq<(usize, usize)>, v: usize, p: Seq<usize>, k: int, cs: Seq<Seq<usize>>) -> bool {
    &&& forall|i: int| 0 <= i < cs.len() ==> goes_on(es, v, p, #[trigger] cs[i]) && along(es, k, p, cs[i])
    &&& forall|c: Seq<usize>| #[trigger] goes_on(es, v, p, c) && along(es, k, p, c) ==> cs.contains(c)
    &&& cs.no_duplicates()
}

proof fn lemma_along_step(es: Seq<(usize, usize)>, k: int, p: Seq<usize>, c: Seq<usize>)
    requires
        0 <= k < es.len(),
    ensures
        along(es, k + 1, p, c) <==> along(es, k, p, c) || es[k] == (p.last(), next_in(p, c)),
{
    let x = (p.last(), next_in(p, c));
    let a = es.take(k);
    let b = es.take(k + 1);
    assert(b =~= a.push(es[k]));
    if a.contains(x) {
        let j = choose|j: int| 0 <= j < a.len() && a[j] == x;
        assert(b[j] == x);
    }
    if b.contains(x) {
        let j = choose|j: int| 0 <= j < b.len() && b[j] == x;
        if j < k {
            assert(a[j] == x);
        }
    }
    if es[k] == x {
        assert(b[k] == x);
    }
}

proof fn lemma_along_all(es: Seq<(usize, usize)>, v: usize, p: Seq<usize>, c: Seq<usize>)
    requires
        p.len() > 0,
        goes_on(es, v, p, c),
    ensures
        along(es, es.len() as int, p, c),
{
    assert(es.take(es.len() as int) =~= es);
    assert(c[p.len() - 1] == p.last());
    if c.len() > p.len() {
        assert(has_edge(es, c[p.len() - 1], c[p.len() - 1 + 1]));
    }
}

/// From every node of a cycle its first node is reached.
proof fn lemma_cycle_marked(es: Seq<(usize, usize)>, v: usize, marked: Seq<bool>, c: Seq<usize>, i: int)
    requires
        marks_dependents(es, v, marked, es.len() as int),
        is_cycle(es, c),
        forall|i: int| 0 <= i < c.len() ==> v <= #[trigger] c[i],
        marked[c[0] as int],
        0 <= i < c.len(),
    ensures
        marked[c[i] as int],
    decreases c.len() - i,
{
    let b = if i + 1 < c.len() { c[i + 1] } else { c[0] };
    if i + 1 < c.len() {
        lemma_cycle_marked(es, v, marked, c, i + 1);
        assert(has_edge(es, c[i], c[i + 1]));
    }
    let j = choose|j: int| 0 <= j < es.len() && es[j] == (c[i], b);
    assert(es[j].0 == c[i]);
}

/// Whether `k` is the first edge of its kind.
fn is_first(es: &Vec<(usize, usize)>, k: usize) -> (r: bool)
    requires
        k < es@.len(),
    ensures
        r == !es@.take(k as int).contains(es@[k as int]),
{
    let mut i: usize = 0;
    while i < k
        invariant
            i <= k < es@.len(),
            forall|j: int| 0 <= j < i ==> es@[j] != es@[k as int],
        decreases k - i,
    {
        if es[i].0 == es[k].0 && es[i].1 == es[k].1 {
            assert(es@.take(k as int)[i as int] == es@[k as int]);
            return false;
        }
        i = i + 1;
    }
    true
}

fn holds(p: &Vec<usize>, t: usize) -> (r: bool)
    ensures
        r == p@.contains(t),
{
    let mut i: usize = 0;
    while i < p.len()
        invariant
            i <= p@.len(),
            forall|j: int| 0 <= j < i ==> p@[j] != t,
        decreases p@.len() - i,
    {
        if p[i] == t {
            return true;
        }
        i = i + 1;
    }
    false
}

fn copy_nodes(p: &Vec<usize>) -> (r: Vec<usize>)
    ensures
        r@ == p@,
{
    let mut out: Vec<usize> = Vec::new();
    let mut i: usize = 0;
    while i < p.len()
        invariant
            i <= p@.len(),
            out@ =~= p@.take(i as int),
        decreases p@.len() - i,
    {
        out.push(p[i]);
        i = i + 1;
    }
    out
}

/// Where no cycle goes on along an edge, the list stays as it is.
proof fn lemma_nothing_along(es: Seq<(usize, usize)>, v: usize, p: Seq<usize>, k: int, cs: Seq<Seq<usize>>)
    requires
        0 <= k < es.len(),
        lists_from(es, v, p, k, cs),
        forall|c: Seq<usize>|
            #[trigger] goes_on(es, v, p, c) && es[k] == (p.last(), next_in(p, c)) ==> along(es, k, p, c),
    ensures
        lists_from(es, v, p, k + 1, cs),
{
    assert forall|i: int| 0 <= i < cs.len() implies goes_on(es, v, p, #[trigger] cs[i]) && along(
        es,
        k + 1,
        p,
        cs[i],
    ) by {
        lemma_along_step(es, k, p, cs[i]);
    }
    assert forall|c: Seq<usize>| #[trigger] goes_on(es, v, p, c) && along(es, k + 1, p, c) implies cs.contains(
        c,
    ) by {
        lemma_along_step(es, k, p, c);
    }
}

/// The cycles along one more edge join those along the edges before it.
proof fn lemma_more_along(
    es: Seq<(usize, usize)>,
    v: usize,
    p: Seq<usize>,
    k: int,
    cs: Seq<Seq<usize>>,
    more: Seq<Seq<usize>>,
)
    requires
        0 <= k < es.len(),
        lists_from(es, v, p, k, cs),
        es[k].0 == p.last(),
        !es.take(k).contains(es[k]),
        more.no_duplicates(),
        forall|i: int|
            0 <= i < more.len() ==> goes_on(es, v, p, #[trigger] more[i]) && next_in(p, more[i]) == es[k].1,
        forall|c: Seq<usize>|
            #[trigger] goes_on(es, v, p, c) && next_in(p, c) == es[k].1 ==> more.contains(c),
    ensures
        lists_from(es, v, p, k + 1, cs + more),
{
    let all = cs + more;
    assert forall|i: int| 0 <= i < all.len() implies goes_on(es, v, p, #[trigger] all[i]) && along(
        es,
        k + 1,
        p,
        all[i],
    ) by {
        lemma_along_step(es, k, p, all[i]);
        if i < cs.len() {
            assert(all[i] == cs[i]);
        } else {
            assert(all[i] == more[i - cs.len()]);
        }
    }
    assert forall|c: Seq<usize>| #[trigger] goes_on(es, v, p, c) && along(es, k + 1, p, c) implies all.contains(
        c,
    ) by {
        lemma_along_step(es, k, p, c);
        if along(es, k, p, c) {
            let i = choose|i: int| 0 <= i < cs.len() && cs[i] == c;
            assert(all[i] == c);
        } else {
            let i = choose|i: int| 0 <= i < more.len() && more[i] == c;
            assert(all[cs.len() + i] == c);
        }
    }
    assert forall|i: int, j: int| 0 <= i < all.len() && 0 <= j < all.len() && i != j implies all[i] != all[j] by {
        if i < cs.len() && j >= cs.len() {
            assert(all[i] == cs[i] && all[j] == more[j - cs.len()]);
            assert(along(es, k, p, cs[i]));
        } else if i >= cs.len() && j < cs.len() {
            assert(all[j] == cs[j] && all[i] == more[i - cs.len()]);
            assert(along(es, k, p, cs[j]));
        }
    }
}

/// The cycles that begin with a path.
fn cycles_from(n: usize, es: &Vec<(usize, usize)>, v: usize, marked: &Vec<bool>, p: &mut Vec<usize>) -> (r: Vec<
    Vec<usize>,
>)
    requires
        edges_within(es@, n as int),
        v < n,
        marked@.len() == n,
        marked@[v as int],
        marks_dependents(es@, v, marked@, es@.len() as int),
        is_trail(n, es@, v, old(p)@),
    ensures
        final(p)@ == old(p)@,
        lists_from(es@, v, old(p)@, es@.len() as int, cycles_v(r@)),
    decreases n - old(p)@.len(),
{
    let ghost q = p@;
    let last = p[p.len() - 1];
    let mut out: Vec<Vec<usize>> = Vec::new();
    let mut k: usize = 0;
    proof {
        assert(cycles_v(out@) =~= Seq::<Seq<usize>>::empty());
    }
    while k < es.len()
        invariant
            k <= es@.len(),
            edges_within(es@, n as int),
            v < n,
            marked@.len() == n,
            marked@[v as int],
            marks_dependents(es@, v, marked@, es@.len() as int),
            is_trail(n, es@, v, q),
            q == old(p)@,
            p@ == q,
            last == q.last(),
            lists_from(es@, v, q, k as int, cycles_v(out@)),
        decreases es@.len() - k,
    {
        assert(es@[k as int].0 < n && es@[k as int].1 < n);
        let (a, t) = es[k];
        let ghost cs = cycles_v(out@);
        if a == last && is_first(es, k) {
            if t == v {
                let c = copy_nodes(p);
                proof {
                    lemma_closed(n, es@, v, q, k as int);
                    lemma_more_along(es@, v, q, k as int, cs, seq![q]);
                    assert(cycles_v(out@.push(c)) =~= cs + seq![q]);
                }
                out.push(c);
            } else if t > v && marked[t] && !holds(p, t) {
                proof {
                    lemma_longer_trail(n, es@, v, q, k as int);
                    lemma_length_bound(q.push(t), n);
                }
                p.push(t);
                let mut more = cycles_from(n, es, v, marked, p);
                let ghost mv = cycles_v(more@);
                let ghost m = more@;
                p.pop();
                proof {
                    assert(p@ =~= q);
                    lemma_through(n, es@, v, q, k as int, mv);
                    lemma_more_along(es@, v, q, k as int, cs, mv);
                    assert(cycles_v(out@ + m) =~= cs + mv);
                }
                out.append(&mut more);
            } else {
                proof {
                    lemma_no_way(n, es@, v, marked@, q, k as int);
                    lemma_nothing_along(es@, v, q, k as int, cs);
                }
            }
        } else {
            proof {
                lemma_nothing_along(es@, v, q, k as int, cs);
            }
        }
        k = k + 1;
    }
    out
}

proof fn lemma_closed(n: usize, es: Seq<(usize, usize)>, v: usize, p: Seq<usize>, k: int)
    requires
        is_trail(n, es, v, p),
        0 <= k < es.len(),
        es[k] == (p.last(), v),
    ensures
        goes_on(es, v, p, p),
        next_in(p, p) == v,
        forall|c: Seq<usize>| #[trigger] goes_on(es, v, p, c) && next_in(p, c) == v ==> seq![p].contains(c),
        seq![p].no_duplicates(),
{
    assert(has_edge(es, p[p.len() - 1], p[0]));
    assert forall|c: Seq<usize>| #[trigger] goes_on(es, v, p, c) && next_in(p, c) == v implies seq![p].contains(c) by {
        assert(c[0] == p[0]);
        if c.len() > p.len() {
            assert(c[p.len() as int] == c[0]);
            assert(false);
        }
        assert(c =~= p);
        assert(seq![p][0] == c);
    }
}

proof fn lemma_longer_trail(n: usize, es: Seq<(usize, usize)>, v: usize, p: Seq<usize>, k: int)
    requires
        is_trail(n, es, v, p),
        edges_within(es, n as int),
        0 <= k < es.len(),
        es[k].0 == p.last(),
        es[k].1 > v,
        !p.contains(es[k].1),
    ensures
        is_trail(n, es, v, p.push(es[k].1)),
        forall|j: int| 0 <= j < p.push(es[k].1).len() ==> #[trigger] p.push(es[k].1)[j] < n,
{
    let q = p.push(es[k].1);
    assert forall|i: int| 0 <= i < q.len() - 1 implies #[trigger] has_edge(es, q[i], q[i + 1]) by {
        if i < p.len() - 1 {
            assert(has_edge(es, p[i], p[i + 1]));
        } else {
            assert(es[k] == (q[i], q[i + 1]));
        }
    }
    assert forall|i: int, j: int| 0 <= i < q.len() && 0 <= j < q.len() && i != j implies q[i] != q[j] by {
        if i < p.len() && j == p.len() {
            assert(p.contains(p[i]));
        } else if j < p.len() && i == p.len() {
            assert(p.contains(p[j]));
        }
    }
    assert forall|i: int| 0 <= i < q.len() implies v <= #[trigger] q[i] < n by {
        if i < p.len() {
            assert(q[i] == p[i]);
        }
    }
}

/// The cycles that begin with a longer path are those of the shorter one along its last edge.
proof fn lemma_through(n: usize, es: Seq<(usize, usize)>, v: usize, p: Seq<usize>, k: int, more: Seq<Seq<usize>>)
    requires
        is_trail(n, es, v, p),
        0 <= k < es.len(),
        es[k].1 != v,
        lists_from(es, v, p.push(es[k].1), es.len() as int, more),
    ensures
        more.no_duplicates(),
        forall|i: int|
            0 <= i < more.len() ==> goes_on(es, v, p, #[trigger] more[i]) && next_in(p, more[i]) == es[k].1,
        forall|c: Seq<usize>|
            #[trigger] goes_on(es, v, p, c) && next_in(p, c) == es[k].1 ==> more.contains(c),
{
    let t = es[k].1;
    let q = p.push(t);
    assert forall|i: int| 0 <= i < more.len() implies goes_on(es, v, p, #[trigger] more[i]) && next_in(p, more[i])
        == t by {
        let c = more[i];
        assert(goes_on(es, v, q, c));
        assert(p =~= c.take(p.len() as int)) by {
            assert forall|x: int| 0 <= x < p.len() implies p[x] == c[x] by {
                assert(q[x] == c[x]);
            }
        }
        assert(q[p.len() as int] == c[p.len() as int]);
    }
    assert forall|c: Seq<usize>| #[trigger] goes_on(es, v, p, c) && next_in(p, c) == t implies more.contains(c) by {
        assert(c[0] == p[0]);
        assert(c.len() > p.len());
        assert(q =~= c.take(q.len() as int)) by {
            assert forall|x: int| 0 <= x < q.len() implies q[x] == c[x] by {
                if x < p.len() {
                    assert(p[x] == c[x]);
                }
            }
        }
        assert(goes_on(es, v, q, c));
        lemma_along_all(es, v, q, c);
    }
}

/// No cycle goes on to a node below its first one, to one from which there is no way back, or to
/// one that it has passed.
proof fn lemma_no_way(n: usize, es: Seq<(usize, usize)>, v: usize, marked: Seq<bool>, p: Seq<usize>, k: int)
    requires
        is_trail(n, es, v, p),
        0 <= k < es.len(),
        marked[v as int],
        marks_dependents(es, v, marked, es.len() as int),
        es[k].1 != v,
        es[k].1 < v || !marked[es[k].1 as int] || p.contains(es[k].1),
    ensures
        forall|c: Seq<usize>| #[trigger] goes_on(es, v, p, c) ==> next_in(p, c) != es[k].1,
{
    assert forall|c: Seq<usize>| #[trigger] goes_on(es, v, p, c) implies next_in(p, c) != es[k].1 by {
        let t = es[k].1;
        assert(c[0] == p[0]);
        if next_in(p, c) == t {
            assert(c.len() > p.len());
            assert(v <= c[p.len() as int]);
            lemma_cycle_marked(es, v, marked, c, p.len() as int);
            if p.contains(t) {
                let j = choose|j: int| 0 <= j < p.len() && p[j] == t;
                assert(c[j] == p[j]);
            }
        }
    }
}

/// Whether a cycle begins at its least node.
spec fn least_first(c: Seq<usize>) -> bool {
    forall|i: int| 0 <= i < c.len() ==> c[0] <= #[trigger] c[i]
}

/// Whether `cs` lists, each once, the cycles that begin at their least node, where it is below
/// `v`.
spec fn lists_below(es: Seq<(usize, usize)>, v: int, cs: Seq<Seq<usize>>) -> bool {
    &&& forall|i: int|
        0 <= i < cs.len() ==> is_cycle(es, #[trigger] cs[i]) && cs[i].no_duplicates() && least_first(cs[i])
            && cs[i][0] < v
    &&& forall|c: Seq<usize>|
        #[trigger] is_cycle(es, c) && c.no_duplicates() && least_first(c) && c[0] < v ==> cs.contains(c)
    &&& cs.no_duplicates()
}

proof fn lemma_more_below(es: Seq<(usize, usize)>, v: usize, cs: Seq<Seq<usize>>, more: Seq<Seq<usize>>)
    requires
        lists_below(es, v as int, cs),
        lists_from(es, v, seq![v], es.len() as int, more),
    ensures
        lists_below(es, v + 1, cs + more),
{
    let all = cs + more;
    let p = seq![v];
    assert forall|i: int| 0 <= i < all.len() implies is_cycle(es, #[trigger] all[i]) && all[i].no_duplicates()
        && least_first(all[i]) && all[i][0] < v + 1 by {
        if i < cs.len() {
            assert(all[i] == cs[i]);
        } else {
            let c = more[i - cs.len()];
            assert(all[i] == c);
            assert(goes_on(es, v, p, c));
            assert(c[0] == p[0]);
        }
    }
    assert forall|c: Seq<usize>|
        #[trigger] is_cycle(es, c) && c.no_duplicates() && least_first(c) && c[0] < v + 1 implies all.contains(c) by {
        if c[0] < v {
            let i = choose|i: int| 0 <= i < cs.len() && cs[i] == c;
            assert(all[i] == c);
        } else {
            assert(p =~= c.take(1));
            assert(goes_on(es, v, p, c));
            lemma_along_all(es, v, p, c);
            let i = choose|i: int| 0 <= i < more.len() && more[i] == c;
            assert(all[cs.len() + i] == c);
        }
    }
    assert forall|i: int, j: int| 0 <= i < all.len() && 0 <= j < all.len() && i != j implies all[i] != all[j] by {
        if i < cs.len() && j >= cs.len() {
            assert(all[i] == cs[i] && all[j] == more[j - cs.len()]);
            assert(goes_on(es, v, p, more[j - cs.len()]));
            assert(p[0] == more[j - cs.len()][0]);
        } else if i >= cs.len() && j < cs.len() {
            assert(all[j] == cs[j] && all[i] == more[i - cs.len()]);
            assert(goes_on(es, v, p, more[i - cs.len()]));
            assert(p[0] == more[i - cs.len()][0]);
        }
    }
}

proof fn lemma_least(c: Seq<usize>, n: int) -> (k: int)
    requires
        0 < n <= c.len(),
    ensures
        0 <= k < n,
        forall|i: int| 0 <= i < n ==> c[k] <= #[trigger] c[i],
    decreases n,
{
    if n == 1 {
        0
    } else {
        let k = lemma_least(c, n - 1);
        if c[k] <= c[n - 1] {
            k
        } else {
            n - 1
        }
    }
}

/// A cycle stays one where it is begun at another position.
proof fn lemma_rotated<T>(es: Seq<(T, T)>, c: Seq<T>, k: int)
    requires
        is_cycle(es, c),
        c.no_duplicates(),
        0 <= k < c.len(),
    ensures
        is_cycle(es, rotated(c, k)),
        rotated(c, k).no_duplicates(),
{
    let d = rotated(c, k);
    let n = c.len() as int;
    assert forall|i: int| 0 <= i < n implies #[trigger] d[i] == (if i + k < n { c[i + k] } else { c[i + k - n] }) by {
    }
    assert forall|i: int| 0 <= i < d.len() - 1 implies #[trigger] has_edge(es, d[i], d[i + 1]) by {
        if i + k + 1 < n {
            assert(has_edge(es, c[i + k], c[i + k + 1]));
        } else if i + k + 1 == n {
            assert(d[i] == c[n - 1] && d[i + 1] == c[0]);
        } else {
            assert(has_edge(es, c[i + k - n], c[i + k - n + 1]));
        }
    }
    if k == 0 {
        assert(d =~= c);
    } else {
        assert(has_edge(es, c[k - 1], c[k - 1 + 1]));
        assert(d[n - 1] == c[k - 1] && d[0] == c[k]);
    }
}

proof fn lemma_is_listed(es: Seq<(usize, usize)>, n: usize, cs: Seq<Seq<usize>>, c: Seq<usize>)
    requires
        edges_within(es, n as int),
        lists_below(es, n as int, cs),
        is_cycle(es, c),
        c.no_duplicates(),
    ensures
        holds_rotation(cs, c),
{
    let k = lemma_least(c, c.len() as int);
    let d = rotated(c, k);
    lemma_rotated(es, c, k);
    assert(d[0] == c[k]);
    assert forall|i: int| 0 <= i < d.len() implies d[0] <= #[trigger] d[i] by {
        if i + k < c.len() {
            assert(d[i] == c[i + k]);
        } else {
            assert(d[i] == c[i + k - c.len()]);
        }
    }
    let b = if d.len() > 1 { d[1] } else { d[0] };
    if d.len() > 1 {
        let first = 0int;
        assert(has_edge(es, d[first], d[first + 1]));
    }
    let j = choose|j: int| 0 <= j < es.len() && es[j] == (d[0], b);
    assert(es[j].0 < n);
    assert(least_first(d));
    let i = choose|i: int| 0 <= i < cs.len() && cs[i] == d;
    assert(is_rotation(cs[i], c));
}

proof fn lemma_no_other_start(a: Seq<usize>, b: Seq<usize>)
    requires
        is_rotation(a, b),
        least_first(a),
        least_first(b),
        b.no_duplicates(),
    ensures
        a == b,
{
    let k = choose|k: int| 0 <= k < b.len() && a == #[trigger] rotated(b, k);
    assert(a[0] == b[k]);
    assert(b[0] <= b[k]);
    let at = if k == 0 { 0 } else { b.len() - k };
    assert(a[at] == b[0]);
    assert(a[0] <= a[at]);
    assert(k == 0);
    assert(a =~= b);
}

proof fn lemma_lists(es: Seq<(usize, usize)>, n: usize, cs: Seq<Seq<usize>>)
    requires
        edges_within(es, n as int),
        lists_below(es, n as int, cs),
    ensures
        lists_cycles(es, cs),
{
    assert forall|c: Seq<usize>| #[trigger] is_cycle(es, c) && c.no_duplicates() implies holds_rotation(cs, c) by {
        lemma_is_listed(es, n, cs, c);
    }
    assert forall|i: int, j: int| 0 <= i < cs.len() && 0 <= j < cs.len() && i != j implies !#[trigger] is_rotation(
        cs[i],
        cs[j],
    ) by {
        if is_rotation(cs[i], cs[j]) {
            lemma_no_other_start(cs[i], cs[j]);
        }
    }
}

/// All cycles of the graph, each begun at its least node.
pub fn find_cycles(n: usize, es: &Vec<(usize, usize)>) -> (r: Vec<Vec<usize>>)
    requires
        edges_within(es@, n as int),
    ensures
        lists_cycles(es@, cycles_v(r@)),
{
    let mut out: Vec<Vec<usize>> = Vec::new();
    let mut v: usize = 0;
    proof {
        assert(cycles_v(out@) =~= Seq::<Seq<usize>>::empty());
    }
    while v < n
        invariant
            v <= n,
            edges_within(es@, n as int),
            lists_below(es@, v as int, cycles_v(out@)),
        decreases n - v,
    {
        let marked = mark_dependents(n, es, v);
        let mut p: Vec<usize> = Vec::new();
        p.push(v);
        assert(p@ =~= seq![v]);
        let mut more = cycles_from(n, es, v, &marked, &mut p);
        let ghost m = more@;
        proof {
            lemma_more_below(es@, v, cycles_v(out@), cycles_v(m));
            assert(cycles_v(out@ + m) =~= cycles_v(out@) + cycles_v(m));
        }
        out.append(&mut more);
        v = v + 1;
    }
    proof {
        lemma_lists(es@, n, cycles_v(out@));
    }
    out
}

} // verus!
