//! Why the breadth-first path search of the runtime graph is right: within
//! its depth it finds a path whenever one exists, and the path it finds is
//! a shortest one.

use vstd::prelude::*;
use crate::graph::{
    kind_ok, nb_init, nb_run, nb_step, neighborhood_spec, scan, touches, visit, NbSt,
    is_chain, lemma_chain_extend, lemma_distinct_bound, lemma_path_settled, path_done, path_init,
    path_run, path_scan, path_spec, path_step, universe, EdgeV, PathSt,
};

verus! {

/// `p` is a walk along edges of `es` from `a` to `b`.
pub open spec fn is_walk(es: Seq<EdgeV>, p: Seq<EdgeV>, a: Seq<char>, b: Seq<char>) -> bool {
    &&& is_chain(p, a, b)
    &&& forall|i: int| 0 <= i < p.len() ==> es.contains(#[trigger] p[i])
}

/// Some walk of exactly `n` edges leads from `from` to `v`.
pub open spec fn walk_len(es: Seq<EdgeV>, from: Seq<char>, v: Seq<char>, n: int) -> bool {
    exists|p: Seq<EdgeV>| #[trigger] is_walk(es, p, from, v) && p.len() == n
}

/// The fewest edges of a walk from `from` to `v` is `n`.
pub open spec fn dist_is(es: Seq<EdgeV>, from: Seq<char>, v: Seq<char>, n: int) -> bool {
    &&& 0 <= n
    &&& walk_len(es, from, v, n)
    &&& forall|m: int| 0 <= m < n ==> !#[trigger] walk_len(es, from, v, m)
}

proof fn lemma_walk_extend(es: Seq<EdgeV>, from: Seq<char>, p: Seq<EdgeV>, u: Seq<char>, e: EdgeV)
    requires
        is_walk(es, p, from, u),
        es.contains(e),
        e.1 == u,
    ensures
        is_walk(es, p.push(e), from, e.2),
        walk_len(es, from, e.2, p.len() + 1int),
{
    lemma_chain_extend(p, from, u, e);
    let q = p.push(e);
    assert forall|i: int| 0 <= i < q.len() implies es.contains(#[trigger] q[i]) by {
        if i < p.len() {
            assert(q[i] == p[i]);
        }
    }
    assert(is_walk(es, q, from, e.2) && q.len() == p.len() + 1);
}

proof fn lemma_walk_last(es: Seq<EdgeV>, from: Seq<char>, p: Seq<EdgeV>, v: Seq<char>)
    requires
        is_walk(es, p, from, v),
        p.len() > 0,
    ensures
        is_walk(es, p.drop_last(), from, p.last().1),
        es.contains(p.last()),
        p.last().2 == v,
{
    let d = p.drop_last();
    assert(es.contains(p[p.len() - 1]));
    if d.len() > 0 {
        assert(d[0] == p[0]);
        let i = d.len() - 1;
        assert(p[i].2 == p[i + 1].1);
        assert forall|i: int| 0 <= i < d.len() - 1 implies d[i].2 == #[trigger] d[i + 1].1 by {
            assert(p[i].2 == p[i + 1].1);
        }
    }
    assert forall|i: int| 0 <= i < d.len() implies es.contains(#[trigger] d[i]) by {
        assert(d[i] == p[i]);
    }
}

proof fn lemma_min_dist(es: Seq<EdgeV>, from: Seq<char>, v: Seq<char>, m: int)
    requires
        0 <= m,
        walk_len(es, from, v, m),
    ensures
        exists|n: int| 0 <= n <= m && dist_is(es, from, v, n),
    decreases m,
{
    if forall|k: int| 0 <= k < m ==> !#[trigger] walk_len(es, from, v, k) {
        assert(dist_is(es, from, v, m));
    } else {
        let k = choose|k: int| 0 <= k < m && #[trigger] walk_len(es, from, v, k);
        lemma_min_dist(es, from, v, k);
    }
}

proof fn lemma_dist_unique(es: Seq<EdgeV>, from: Seq<char>, v: Seq<char>, n: int, m: int)
    requires
        dist_is(es, from, v, n),
        dist_is(es, from, v, m),
    ensures
        n == m,
{
    if n < m {
        assert(!walk_len(es, from, v, n));
    } else if m < n {
        assert(!walk_len(es, from, v, m));
    }
}

/// The node before `v` on a shortest walk, and the edge from it to `v`.
proof fn lemma_pred(es: Seq<EdgeV>, from: Seq<char>, v: Seq<char>, n: int) -> (r: (Seq<char>, EdgeV))
    requires
        dist_is(es, from, v, n),
        n > 0,
    ensures
        es.contains(r.1),
        r.1.1 == r.0,
        r.1.2 == v,
        dist_is(es, from, r.0, n - 1),
{
    let p = choose|p: Seq<EdgeV>| #[trigger] is_walk(es, p, from, v) && p.len() == n;
    lemma_walk_last(es, from, p, v);
    let e = p.last();
    let u = e.1;
    let d = p.drop_last();
    assert(is_walk(es, d, from, u) && d.len() == n - 1);
    assert forall|m: int| 0 <= m < n - 1 implies !#[trigger] walk_len(es, from, u, m) by {
        if walk_len(es, from, u, m) {
            let q = choose|q: Seq<EdgeV>| #[trigger] is_walk(es, q, from, u) && q.len() == m;
            lemma_walk_extend(es, from, q, u, e);
            assert(walk_len(es, from, v, m + 1));
        }
    }
    (u, e)
}

/// A queue entry the scan of `c` adds: a node reached by `path` and an
/// edge of `es` out of `c`.
pub open spec fn added_entry(es: Seq<EdgeV>, c: Seq<char>, path: Seq<EdgeV>, q: (Seq<char>, Seq<EdgeV>)) -> bool {
    &&& q.1 == path.push(q.1.last())
    &&& es.contains(q.1.last())
    &&& q.1.last().1 == c
    &&& q.1.last().2 == q.0
}

/// Facts of the scan of the edges out of `c` from position `j` on: what it
/// adds to the queue and to the reached nodes, and that afterwards every
/// edge out of `c` from `j` on leads to a reached node.
pub open spec fn scan_facts(
    es: Seq<EdgeV>,
    j: int,
    c: Seq<char>,
    path: Seq<EdgeV>,
    st: PathSt,
    r: PathSt,
) -> bool {
    &&& r.2 == st.2
    &&& r.1.len() - st.1.len() == r.0.len() - st.0.len()
    &&& st.1.len() <= r.1.len()
    &&& r.0.subrange(0, st.0.len() as int) == st.0
    &&& r.1.subrange(0, st.1.len() as int) == st.1
    &&& forall|i: int|
        0 <= i < r.0.len() - st.0.len() ==> #[trigger] r.0[st.0.len() + i].0 == r.1[st.1.len() + i]
    &&& forall|i: int|
        st.0.len() <= i < r.0.len() ==> added_entry(es, c, path, #[trigger] r.0[i])
    &&& forall|k: int| j <= k < es.len() && (#[trigger] es[k]).1 == c ==> r.1.contains(es[k].2)
    &&& (st.1.no_duplicates() ==> r.1.no_duplicates())
}

proof fn lemma_scan(es: Seq<EdgeV>, j: int, c: Seq<char>, path: Seq<EdgeV>, st: PathSt)
    requires
        0 <= j <= es.len(),
    ensures
        scan_facts(es, j, c, path, st, path_scan(es, j, c, path, st)),
    decreases es.len() - j,
{
    let r = path_scan(es, j, c, path, st);
    if j >= es.len() {
        assert(r.0.subrange(0, st.0.len() as int) =~= st.0);
        assert(r.1.subrange(0, st.1.len() as int) =~= st.1);
        assert(r == st);
        assert(scan_facts(es, j, c, path, st, r));
    } else if es[j].1 != c || st.1.contains(es[j].2) {
        lemma_scan(es, j + 1, c, path, st);
        assert(r == path_scan(es, j + 1, c, path, st));
        assert forall|k: int| j <= k < es.len() && (#[trigger] es[k]).1 == c implies r.1.contains(es[k].2) by {
            if k == j {
                let x = choose|x: int| 0 <= x < st.1.len() && st.1[x] == es[j].2;
                assert(r.1.subrange(0, st.1.len() as int)[x] == st.1[x]);
                assert(r.1[x] == es[j].2);
            }
        }
        assert(scan_facts(es, j, c, path, st, r));
    } else {
        let e = es[j];
        let st2 = (st.0.push((e.2, path.push(e))), st.1.push(e.2), st.2);
        lemma_scan(es, j + 1, c, path, st2);
        assert(r == path_scan(es, j + 1, c, path, st2));
        assert(r.0.subrange(0, st2.0.len() as int) == st2.0);
        assert(r.1.subrange(0, st2.1.len() as int) == st2.1);
        assert(r.0.subrange(0, st.0.len() as int) =~= st.0) by {
            assert forall|i: int| 0 <= i < st.0.len() implies r.0[i] == st.0[i] by {
                assert(r.0.subrange(0, st2.0.len() as int)[i] == st2.0[i]);
            }
        }
        assert(r.1.subrange(0, st.1.len() as int) =~= st.1) by {
            assert forall|i: int| 0 <= i < st.1.len() implies r.1[i] == st.1[i] by {
                assert(r.1.subrange(0, st2.1.len() as int)[i] == st2.1[i]);
            }
        }
        assert(r.0[st.0.len() as int] == st2.0[st.0.len() as int]) by {
            assert(r.0.subrange(0, st2.0.len() as int)[st.0.len() as int] == st2.0[st.0.len() as int]);
        }
        assert(r.1[st.1.len() as int] == st2.1[st.1.len() as int]) by {
            assert(r.1.subrange(0, st2.1.len() as int)[st.1.len() as int] == st2.1[st.1.len() as int]);
        }
        assert forall|i: int| 0 <= i < r.0.len() - st.0.len() implies #[trigger] r.0[st.0.len() + i].0
            == r.1[st.1.len() + i] by {
            if i > 0 {
                assert(r.0[st2.0.len() + (i - 1)].0 == r.1[st2.1.len() + (i - 1)]);
            }
        }
        assert forall|i: int| st.0.len() <= i < r.0.len() implies added_entry(es, c, path, #[trigger] r.0[i]) by {
            if i == st.0.len() {
                assert(r.0[i] == (e.2, path.push(e)));
                assert(path.push(e).last() == e);
                assert(es.contains(e)) by {
                    assert(es[j] == e);
                }
            } else {
                assert(st2.0.len() <= i < r.0.len());
            }
        }
        assert forall|k: int| j <= k < es.len() && (#[trigger] es[k]).1 == c implies r.1.contains(es[k].2) by {
            if k == j {
                assert(r.1[st.1.len() as int] == e.2);
            }
        }
        if st.1.no_duplicates() {
            assert(st2.1.no_duplicates()) by {
                assert forall|a: int, b: int| 0 <= a < st2.1.len() && 0 <= b < st2.1.len() && a != b implies st2.1[a]
                    != st2.1[b] by {
                    if a == st.1.len() {
                        assert(st.1.contains(st.1[b]));
                    } else if b == st.1.len() {
                        assert(st.1.contains(st.1[a]));
                    }
                }
            }
        }
    }
}

/// Every edge of `es` out of `u` leads to a node of `vis`.
pub open spec fn expanded(es: Seq<EdgeV>, vis: Seq<Seq<char>>, u: Seq<char>) -> bool {
    forall|k: int| 0 <= k < es.len() && (#[trigger] es[k]).1 == u ==> vis.contains(es[k].2)
}

/// `u` is fewer than `max` edges from `from`.
pub open spec fn short_of(es: Seq<EdgeV>, from: Seq<char>, u: Seq<char>, max: int) -> bool {
    exists|n: int| dist_is(es, from, u, n) && n < max
}

/// What the search knows while it runs: the queue is the tail of the
/// reached nodes, each queued with a shortest walk to it, walk lengths
/// growing along the queue by at most one; the nodes taken off the queue
/// are not `to`, and those fewer than `max` edges away had all their edges
/// followed; every node at most `max` edges away and not farther than the
/// head of the queue is reached.
pub open spec fn bfs_inv(es: Seq<EdgeV>, from: Seq<char>, to: Seq<char>, max: int, st: PathSt) -> bool {
    let q = st.0;
    let vis = st.1;
    let np = vis.len() - q.len();
    &&& st.2 is None
    &&& q.len() <= vis.len()
    &&& forall|i: int| 0 <= i < q.len() ==> #[trigger] q[i].0 == vis[np + i]
    &&& vis.no_duplicates()
    &&& forall|i: int| 0 <= i < vis.len() ==> universe(from, es).contains(#[trigger] vis[i])
    &&& forall|i: int|
        0 <= i < q.len() ==> is_walk(es, (#[trigger] q[i]).1, from, q[i].0) && dist_is(es, from, q[i].0, q[i].1.len() as int)
    &&& forall|i: int, j: int| 0 <= i <= j < q.len() ==> (#[trigger] q[i]).1.len() <= (#[trigger] q[j]).1.len()
    &&& q.len() > 0 ==> q[q.len() - 1].1.len() <= q[0].1.len() + 1
    &&& forall|j: int| 0 <= j < np ==> #[trigger] vis[j] != to
    &&& forall|j: int| 0 <= j < np && short_of(es, from, #[trigger] vis[j], max) ==> expanded(es, vis, vis[j])
    &&& forall|v: Seq<char>, n: int|
        #[trigger] dist_is(es, from, v, n) && n <= max && (q.len() == 0 || n <= q[0].1.len()) ==> vis.contains(v)
}

/// A measure that every step of the search lowers.
pub open spec fn potential(es: Seq<EdgeV>, from: Seq<char>, st: PathSt) -> int {
    2 * (universe(from, es).len() - st.1.len()) + st.0.len()
}

proof fn lemma_universe_has_target(from: Seq<char>, es: Seq<EdgeV>, e: EdgeV)
    requires
        es.contains(e),
    ensures
        universe(from, es).contains(e.2),
{
    let k = choose|k: int| 0 <= k < es.len() && es[k] == e;
    let u = universe(from, es);
    assert(u[1 + es.len() + k] == e.2);
}

proof fn lemma_closed(es: Seq<EdgeV>, from: Seq<char>, max: int, vis: Seq<Seq<char>>, n0: int)
    requires
        0 <= n0,
        forall|j: int| 0 <= j < vis.len() && short_of(es, from, #[trigger] vis[j], max) ==> expanded(es, vis, vis[j]),
        forall|v: Seq<char>, n: int| #[trigger] dist_is(es, from, v, n) && n <= n0 ==> vis.contains(v),
    ensures
        forall|v: Seq<char>, n: int| #[trigger] dist_is(es, from, v, n) && n <= max ==> vis.contains(v),
    decreases max - n0,
{
    if n0 < max {
        assert forall|v: Seq<char>, n: int| #[trigger] dist_is(es, from, v, n) && n <= n0 + 1 implies vis.contains(v) by {
            if n == n0 + 1 {
                let (u, e) = lemma_pred(es, from, v, n);
                assert(vis.contains(u));
                let x = choose|x: int| 0 <= x < vis.len() && vis[x] == u;
                assert(short_of(es, from, vis[x], max));
                let k = choose|k: int| 0 <= k < es.len() && es[k] == e;
                assert(es[k].1 == vis[x]);
            }
        }
        lemma_closed(es, from, max, vis, n0 + 1);
    }
}

proof fn lemma_bfs_init(es: Seq<EdgeV>, from: Seq<char>, to: Seq<char>, max: int)
    requires
        0 <= max,
    ensures
        bfs_inv(es, from, to, max, path_init(from)),
{
    let st = path_init(from);
    let e = Seq::<EdgeV>::empty();
    assert(is_walk(es, e, from, from));
    assert(walk_len(es, from, from, 0));
    assert(dist_is(es, from, from, 0));
    assert(st.0[0] == (from, e));
    assert(universe(from, es)[0] == from);
    assert forall|v: Seq<char>, n: int| #[trigger] dist_is(es, from, v, n) && n <= max && (st.0.len() == 0 || n
        <= st.0[0].1.len()) implies st.1.contains(v) by {
        let p = choose|p: Seq<EdgeV>| #[trigger] is_walk(es, p, from, v) && p.len() == n;
        assert(v == from);
        assert(st.1[0] == from);
    }
}

proof fn lemma_step_drop(es: Seq<EdgeV>, from: Seq<char>, to: Seq<char>, max: int, st: PathSt)
    requires
        0 <= max,
        bfs_inv(es, from, to, max, st),
        st.0.len() > 0,
        st.0[0].0 != to,
        st.0[0].1.len() >= max,
    ensures
        bfs_inv(es, from, to, max, (st.0.drop_first(), st.1, st.2)),
{
    let q = st.0;
    let vis = st.1;
    let np = vis.len() - q.len();
    let s0 = (q.drop_first(), vis, st.2);
    let q2 = s0.0;
    let h = q[0].1.len() as int;
    assert(q[0].0 == vis[np + 0]);
    assert forall|i: int| 0 <= i < q2.len() implies #[trigger] q2[i].0 == vis[np + 1 + i] by {
        assert(q2[i] == q[i + 1]);
        assert(q[i + 1].0 == vis[np + (i + 1)]);
    }
    assert forall|i: int| 0 <= i < q2.len() implies is_walk(es, (#[trigger] q2[i]).1, from, q2[i].0) && dist_is(
        es,
        from,
        q2[i].0,
        q2[i].1.len() as int,
    ) by {
        assert(q2[i] == q[i + 1]);
    }
    assert forall|i: int, j: int| 0 <= i <= j < q2.len() implies (#[trigger] q2[i]).1.len() <= (#[trigger] q2[j]).1.len() by {
        assert(q2[i] == q[i + 1] && q2[j] == q[j + 1]);
    }
    if q2.len() > 0 {
        assert(q2[q2.len() - 1] == q[q.len() - 1]);
        assert(q2[0] == q[1]);
        assert(q[0].1.len() <= q[1].1.len());
    }
    assert forall|j: int| 0 <= j < np + 1 && short_of(es, from, #[trigger] vis[j], max) implies expanded(es, vis, vis[j]) by {
        if j == np {
            let n = choose|n: int| dist_is(es, from, vis[j], n) && n < max;
            lemma_dist_unique(es, from, vis[j], n, h);
        }
    }
    assert forall|j: int| 0 <= j < np + 1 implies #[trigger] vis[j] != to by {}
    assert forall|v: Seq<char>, n: int| #[trigger] dist_is(es, from, v, n) && n <= max && (q2.len() == 0 || n
        <= q2[0].1.len()) implies vis.contains(v) by {
        assert(n <= h);
    }
}

proof fn lemma_step_expand(es: Seq<EdgeV>, from: Seq<char>, to: Seq<char>, max: int, st: PathSt)
    requires
        0 <= max,
        bfs_inv(es, from, to, max, st),
        st.0.len() > 0,
        st.0[0].0 != to,
        st.0[0].1.len() < max,
    ensures
        bfs_inv(es, from, to, max, path_scan(es, 0, st.0[0].0, st.0[0].1, (st.0.drop_first(), st.1, st.2))),
        potential(es, from, path_scan(es, 0, st.0[0].0, st.0[0].1, (st.0.drop_first(), st.1, st.2))) < potential(es, from, st),
{
    let q = st.0;
    let vis = st.1;
    let np = vis.len() - q.len();
    let c = q[0].0;
    let p = q[0].1;
    let h = p.len() as int;
    let s0 = (q.drop_first(), vis, st.2);
    lemma_scan(es, 0, c, p, s0);
    let r = path_scan(es, 0, c, p, s0);
    let q2 = r.0;
    let vis2 = r.1;
    let a = vis2.len() - vis.len();
    let np2 = vis2.len() - q2.len();
    assert(np2 == np + 1);
    assert(q[0].0 == vis[np + 0]);
    assert(is_walk(es, p, from, c) && dist_is(es, from, c, h));
    // the old part of the queue and of the reached nodes
    assert forall|i: int| 0 <= i < q.len() - 1 implies q2[i] == q[i + 1] by {
        assert(q2.subrange(0, s0.0.len() as int)[i] == s0.0[i]);
    }
    assert forall|i: int| 0 <= i < vis.len() implies vis2[i] == vis[i] by {
        assert(vis2.subrange(0, vis.len() as int)[i] == vis[i]);
    }
    assert forall|x: Seq<char>| vis.contains(x) implies vis2.contains(x) by {
        let i = choose|i: int| 0 <= i < vis.len() && vis[i] == x;
        assert(vis2[i] == x);
    }
    // added entries
    assert forall|i: int| q.len() - 1 <= i < q2.len() implies (#[trigger] q2[i]).1.len() == h + 1 && !vis.contains(q2[i].0)
        && is_walk(es, q2[i].1, from, q2[i].0) && dist_is(es, from, q2[i].0, h + 1) && es.contains(q2[i].1.last()) by {
        assert(added_entry(es, c, p, q2[i]));
        let e = q2[i].1.last();
        let w = q2[i].0;
        lemma_walk_extend(es, from, p, c, e);
        let ix = i - (q.len() - 1);
        assert(q2[s0.0.len() + ix].0 == vis2[vis.len() + ix]);
        if vis.contains(w) {
            let y = choose|y: int| 0 <= y < vis.len() && vis[y] == w;
            assert(vis2[y] == w);
        }
        assert forall|m: int| 0 <= m < h + 1 implies !#[trigger] walk_len(es, from, w, m) by {
            if walk_len(es, from, w, m) {
                lemma_min_dist(es, from, w, m);
                let n = choose|n: int| 0 <= n <= m && dist_is(es, from, w, n);
                assert(vis.contains(w));
            }
        }
    }
    // the queue is the tail of the reached nodes
    assert forall|i: int| 0 <= i < q2.len() implies #[trigger] q2[i].0 == vis2[np2 + i] by {
        if i < q.len() - 1 {
            assert(q[i + 1].0 == vis[np + (i + 1)]);
            assert(vis2[np + 1 + i] == vis[np + 1 + i]);
        } else {
            let ix = i - (q.len() - 1);
            assert(q2[s0.0.len() + ix].0 == vis2[vis.len() + ix]);
        }
    }
    assert forall|i: int| 0 <= i < vis2.len() implies universe(from, es).contains(#[trigger] vis2[i]) by {
        if i < vis.len() {
            assert(vis2[i] == vis[i]);
        } else {
            let ix = i - vis.len();
            let qi = s0.0.len() + ix;
            assert(q2[qi].0 == vis2[vis.len() + ix]);
            assert(q2[qi].1.len() == h + 1);
            lemma_universe_has_target(from, es, q2[qi].1.last());
            assert(added_entry(es, c, p, q2[qi]));
        }
    }
    assert forall|i: int| 0 <= i < q2.len() implies is_walk(es, (#[trigger] q2[i]).1, from, q2[i].0) && dist_is(
        es,
        from,
        q2[i].0,
        q2[i].1.len() as int,
    ) by {
        if i < q.len() - 1 {
            assert(q2[i] == q[i + 1]);
        } else {
            assert(q2[i].1.len() == h + 1);
        }
    }
    // lengths
    assert forall|i: int| 0 <= i < q2.len() implies h <= (#[trigger] q2[i]).1.len() <= h + 1 by {
        if i < q.len() - 1 {
            assert(q2[i] == q[i + 1]);
            assert(q[0].1.len() <= q[i + 1].1.len());
            assert(q[i + 1].1.len() <= q[q.len() - 1].1.len());
        } else {
            assert(q2[i].1.len() == h + 1);
        }
    }
    assert forall|i: int, j: int| 0 <= i <= j < q2.len() implies (#[trigger] q2[i]).1.len() <= (#[trigger] q2[j]).1.len() by {
        if j < q.len() - 1 {
            assert(q2[i] == q[i + 1] && q2[j] == q[j + 1]);
        } else {
            assert(q2[j].1.len() == h + 1);
            assert(q2[i].1.len() <= h + 1);
        }
    }
    if q2.len() > 0 {
        assert(h <= q2[0].1.len());
        assert(q2[q2.len() - 1].1.len() <= h + 1);
    }
    // taken off the queue
    assert forall|j: int| 0 <= j < np2 implies #[trigger] vis2[j] != to by {
        assert(vis2[j] == vis[j]);
    }
    assert forall|j: int| 0 <= j < np2 && short_of(es, from, #[trigger] vis2[j], max) implies expanded(es, vis2, vis2[j]) by {
        assert(vis2[j] == vis[j]);
        if j < np {
            assert(short_of(es, from, vis[j], max));
            assert(expanded(es, vis, vis[j]));
            assert forall|k: int| 0 <= k < es.len() && (#[trigger] es[k]).1 == vis2[j] implies vis2.contains(es[k].2) by {
                assert(vis.contains(es[k].2));
            }
        } else {
            assert(vis2[j] == c);
        }
    }
    // every node not farther than the head is reached
    assert forall|v: Seq<char>, n: int| #[trigger] dist_is(es, from, v, n) && n <= max && n <= h + 1 && (q2.len() == 0
        || n <= q2[0].1.len()) implies vis2.contains(v) by {
        if n <= h {
            assert(vis.contains(v));
        } else {
            let (u, e) = lemma_pred(es, from, v, n);
            assert(vis.contains(u));
            let x = choose|x: int| 0 <= x < vis.len() && vis[x] == u;
            assert(vis2[x] == u);
            if x >= np2 {
                let qi = x - np2;
                assert(q2[qi].0 == vis2[np2 + qi]);
                lemma_dist_unique(es, from, u, h, q2[qi].1.len() as int);
                assert(q2[0].1.len() <= q2[qi].1.len());
            }
            assert(short_of(es, from, vis2[x], max));
            assert(expanded(es, vis2, vis2[x]));
            let k = choose|k: int| 0 <= k < es.len() && es[k] == e;
            assert(es[k].1 == vis2[x]);
        }
    }
    if q2.len() == 0 {
        assert forall|j: int| 0 <= j < vis2.len() && short_of(es, from, #[trigger] vis2[j], max) implies expanded(
            es,
            vis2,
            vis2[j],
        ) by {
            assert(j < np2);
        }
        lemma_closed(es, from, max, vis2, h + 1);
    }
    assert forall|v: Seq<char>, n: int| #[trigger] dist_is(es, from, v, n) && n <= max && (q2.len() == 0 || n
        <= q2[0].1.len()) implies vis2.contains(v) by {
        if q2.len() > 0 {
            assert(q2[0].1.len() <= h + 1);
        }
    }
    lemma_distinct_bound(vis2, universe(from, es));
}

proof fn lemma_bfs_run(es: Seq<EdgeV>, from: Seq<char>, to: Seq<char>, max: int, k: nat)
    requires
        0 <= max,
    ensures
        path_run(es, to, max, path_init(from), k).2 is None ==> bfs_inv(es, from, to, max, path_run(es, to, max, path_init(from), k))
            && (path_run(es, to, max, path_init(from), k).0.len() > 0 ==> potential(es, from, path_run(es, to, max, path_init(from), k))
            <= potential(es, from, path_init(from)) - k),
        path_run(es, to, max, path_init(from), k).2 matches Some(p) ==> is_walk(es, p, from, to) && dist_is(es, from, to, p.len() as int),
    decreases k,
{
    if k == 0 {
        lemma_bfs_init(es, from, to, max);
    } else {
        lemma_bfs_run(es, from, to, max, (k - 1) as nat);
        let st = path_run(es, to, max, path_init(from), (k - 1) as nat);
        if st.2 is None && st.0.len() > 0 {
            let q0 = st.0[0];
            if q0.0 == to {
            } else if q0.1.len() >= max {
                lemma_step_drop(es, from, to, max, st);
            } else {
                lemma_step_expand(es, from, to, max, st);
            }
        }
    }
}

/// The breadth-first path search finds a path from `from` to `to` whenever
/// a walk of at most `max` edges leads there, and the path it finds has no
/// more edges than any walk from `from` to `to`.
pub proof fn law_path_complete_shortest(es: Seq<EdgeV>, from: Seq<char>, to: Seq<char>, max: int)
    requires
        0 <= max,
    ensures
        (exists|w: Seq<EdgeV>| #[trigger] is_walk(es, w, from, to) && w.len() <= max) ==> path_spec(es, from, to, max) is Some,
        path_spec(es, from, to, max) matches Some(p) ==> forall|w: Seq<EdgeV>|
            #[trigger] is_walk(es, w, from, to) ==> p.len() <= w.len(),
{
    let init = path_init(from);
    lemma_bfs_init(es, from, to, max);
    lemma_distinct_bound(init.1, universe(from, es));
    let kk = (potential(es, from, init) + 1) as nat;
    lemma_bfs_run(es, from, to, max, kk);
    let st = path_run(es, to, max, init, kk);
    if st.2 is None && st.0.len() > 0 {
        lemma_distinct_bound(st.1, universe(from, es));
        assert(false);
    }
    assert(path_done(st));
    let k0 = choose|k: nat| path_done(path_run(es, to, max, init, k));
    if k0 <= kk {
        lemma_path_settled(es, to, max, init, k0, kk);
    } else {
        lemma_path_settled(es, to, max, init, kk, k0);
    }
    assert(path_spec(es, from, to, max) == st.2);
    if exists|w: Seq<EdgeV>| #[trigger] is_walk(es, w, from, to) && w.len() <= max {
        let w = choose|w: Seq<EdgeV>| #[trigger] is_walk(es, w, from, to) && w.len() <= max;
        if st.2 is None {
            assert(walk_len(es, from, to, w.len() as int));
            lemma_min_dist(es, from, to, w.len() as int);
            let n = choose|n: int| 0 <= n <= w.len() && dist_is(es, from, to, n);
            assert(st.1.contains(to));
            let x = choose|x: int| 0 <= x < st.1.len() && st.1[x] == to;
            assert(st.1[x] != to);
        }
    }
    if st.2 is Some {
        let p = st.2->Some_0;
        assert forall|w: Seq<EdgeV>| #[trigger] is_walk(es, w, from, to) implies p.len() <= w.len() by {
            if w.len() < p.len() {
                assert(walk_len(es, from, to, w.len() as int));
            }
        }
    }
}

/// Some edge of `es` that passes the kind filter, has `n` as an end and was
/// taken (its relation id is among `ids`).
pub open spec fn reached_by_taken(es: Seq<EdgeV>, kind: Option<Seq<char>>, ids: Seq<Seq<char>>, n: Seq<char>) -> bool {
    exists|j: int| 0 <= j < es.len() && kind_ok(#[trigger] es[j], kind) && touches(es[j], n) && ids.contains(es[j].3)
}

/// `n` is an end of an edge of `es` that passes the kind filter and whose
/// relation id a listed edge carries.
pub open spec fn end_of_listed(es: Seq<EdgeV>, kind: Option<Seq<char>>, listed: Seq<EdgeV>, n: Seq<char>) -> bool {
    exists|j: int, k: int|
        0 <= j < es.len() && 0 <= k < listed.len() && kind_ok(#[trigger] es[j], kind) && touches(es[j], n) && (
        #[trigger] listed[k]).3 == es[j].3
}

/// Both ends of every edge taken are reached.
pub open spec fn ends_reached(st: NbSt) -> bool {
    forall|k: int| 0 <= k < st.1.len() ==> st.0.contains((#[trigger] st.1[k]).1) && st.0.contains(st.1[k].2)
}

/// The walk's nodes are the start, then only ends of edges it took, and
/// the ends of the edges it took are reached; its relation ids are those of
/// the edges it took.
pub open spec fn nb_taken_inv(es: Seq<EdgeV>, start: Seq<char>, kind: Option<Seq<char>>, st: NbSt) -> bool {
    nb_taken_base(es, start, kind, st) && ends_reached(st)
}

/// The walk's nodes are the start, then only ends of edges it took; its
/// relation ids are those of the edges it took.
pub open spec fn nb_taken_base(es: Seq<EdgeV>, start: Seq<char>, kind: Option<Seq<char>>, st: NbSt) -> bool {
    &&& st.0.len() >= 1
    &&& st.0[0] == start
    &&& st.3.len() == st.1.len()
    &&& forall|k: int| 0 <= k < st.1.len() ==> st.3[k] == (#[trigger] st.1[k]).3
    &&& forall|i: int| 1 <= i < st.0.len() ==> reached_by_taken(es, kind, st.3, #[trigger] st.0[i])
}

proof fn lemma_visit_taken(es: Seq<EdgeV>, start: Seq<char>, kind: Option<Seq<char>>, st: NbSt, n: Seq<char>, d: int, j: int)
    requires
        nb_taken_base(es, start, kind, st),
        0 <= j < es.len(),
        kind_ok(es[j], kind),
        touches(es[j], n),
        st.3.contains(es[j].3),
    ensures
        nb_taken_base(es, start, kind, visit(st, n, d)),
        visit(st, n, d).3 == st.3,
        visit(st, n, d).1 == st.1,
        visit(st, n, d).0.contains(n),
        forall|x: Seq<char>| st.0.contains(x) ==> visit(st, n, d).0.contains(x),
{
    let v = visit(st, n, d);
    assert(v.0.contains(n)) by {
        if !st.0.contains(n) {
            assert(v.0[st.0.len() as int] == n);
        }
    }
    assert forall|x: Seq<char>| st.0.contains(x) implies v.0.contains(x) by {
        if !st.0.contains(n) {
            let y = choose|y: int| 0 <= y < st.0.len() && st.0[y] == x;
            assert(v.0[y] == x);
        }
    }
    if !st.0.contains(n) {
        assert forall|i: int| 1 <= i < v.0.len() implies reached_by_taken(es, kind, v.3, #[trigger] v.0[i]) by {
            if i < st.0.len() {
                assert(v.0[i] == st.0[i]);
            } else {
                assert(v.0[i] == n);
            }
        }
    }
}

proof fn lemma_scan_taken(
    es: Seq<EdgeV>,
    j: int,
    c: Seq<char>,
    d: int,
    start: Seq<char>,
    kind: Option<Seq<char>>,
    limit: int,
    st: NbSt,
)
    requires
        0 <= j,
        nb_taken_inv(es, start, kind, st),
    ensures
        nb_taken_inv(es, start, kind, scan(es, j, c, d, kind, limit, st)),
    decreases es.len() - j,
{
    if j < es.len() {
        if !(kind_ok(es[j], kind) && touches(es[j], c)) {
            lemma_scan_taken(es, j + 1, c, d, start, kind, limit, st);
        } else if st.1.len() >= limit {
        } else {
            let e = es[j];
            let s1 = if st.3.contains(e.3) {
                st
            } else {
                (st.0, st.1.push(e), st.2, st.3.push(e.3))
            };
            if !st.3.contains(e.3) {
                assert forall|k: int| 0 <= k < s1.1.len() implies s1.3[k] == (#[trigger] s1.1[k]).3 by {
                    if k < st.1.len() {
                        assert(s1.1[k] == st.1[k]);
                    }
                }
                assert forall|i: int| 1 <= i < s1.0.len() implies reached_by_taken(es, kind, s1.3, #[trigger] s1.0[i]) by {
                    assert(reached_by_taken(es, kind, st.3, st.0[i]));
                    let w = choose|w: int| 0 <= w < es.len() && kind_ok(#[trigger] es[w], kind) && touches(es[w], st.0[i])
                        && st.3.contains(es[w].3);
                    let x = choose|x: int| 0 <= x < st.3.len() && st.3[x] == es[w].3;
                    assert(s1.3[x] == es[w].3);
                }
                assert(s1.3[st.3.len() as int] == e.3);
            }
            assert(s1.3.contains(e.3));
            lemma_visit_taken(es, start, kind, s1, e.1, d + 1, j);
            let s2 = visit(s1, e.1, d + 1);
            lemma_visit_taken(es, start, kind, s2, e.2, d + 1, j);
            let s3 = visit(s2, e.2, d + 1);
            assert(ends_reached(s3)) by {
                assert forall|k: int| 0 <= k < s3.1.len() implies s3.0.contains((#[trigger] s3.1[k]).1) && s3.0.contains(s3.1[k].2) by {
                    if k < st.1.len() {
                        assert(s3.1[k] == st.1[k]);
                        assert(st.0.contains(st.1[k].1) && st.0.contains(st.1[k].2));
                    } else {
                        assert(s3.1[k] == e);
                    }
                }
            }
            lemma_scan_taken(es, j + 1, c, d, start, kind, limit, s3);
        }
    }
}

proof fn lemma_nb_run_taken(es: Seq<EdgeV>, start: Seq<char>, kind: Option<Seq<char>>, depth: int, limit: int, k: nat)
    ensures
        nb_taken_inv(es, start, kind, nb_run(es, kind, depth, limit, nb_init(start), k)),
    decreases k,
{
    if k == 0 {
        let st = nb_init(start);
        assert(st.0[0] == start);
    } else {
        lemma_nb_run_taken(es, start, kind, depth, limit, (k - 1) as nat);
        let st = nb_run(es, kind, depth, limit, nb_init(start), (k - 1) as nat);
        if st.2.len() > 0 {
            let q = st.2[0];
            let s0 = (st.0, st.1, st.2.drop_first(), st.3);
            if !(q.1 >= depth || s0.1.len() >= limit) {
                lemma_scan_taken(es, 0, q.0, q.1, start, kind, limit, s0);
            }
        }
    }
}

/// The neighbourhood lists its start first, and every other node it lists
/// is an end of an edge that passes the kind filter and that the
/// neighbourhood took: an edge listed, or one whose relation id a listed
/// edge already carries; and both ends of every edge it lists are listed
/// nodes. No node is reached without taking an edge to it, so once the edge
/// limit is reached no further node is listed.
pub proof fn law_neighborhood_nodes_reached_by_taken_edges(
    es: Seq<EdgeV>,
    start: Seq<char>,
    kind: Option<Seq<char>>,
    depth: int,
    limit: int,
)
    ensures
        neighborhood_spec(es, start, kind, depth, limit).0.len() >= 1,
        neighborhood_spec(es, start, kind, depth, limit).0[0] == start,
        forall|i: int|
            1 <= i < neighborhood_spec(es, start, kind, depth, limit).0.len() ==> end_of_listed(
                es,
                kind,
                neighborhood_spec(es, start, kind, depth, limit).1,
                #[trigger] neighborhood_spec(es, start, kind, depth, limit).0[i],
            ),
        forall|k: int|
            0 <= k < neighborhood_spec(es, start, kind, depth, limit).1.len() ==> neighborhood_spec(
                es,
                start,
                kind,
                depth,
                limit,
            ).0.contains((#[trigger] neighborhood_spec(es, start, kind, depth, limit).1[k]).1) && neighborhood_spec(
                es,
                start,
                kind,
                depth,
                limit,
            ).0.contains(neighborhood_spec(es, start, kind, depth, limit).1[k].2),
{
    let kk = choose|kk: nat| nb_run(es, kind, depth, limit, nb_init(start), kk).2.len() == 0;
    lemma_nb_run_taken(es, start, kind, depth, limit, kk);
    let st = neighborhood_spec(es, start, kind, depth, limit);
    assert(st == nb_run(es, kind, depth, limit, nb_init(start), kk));
    assert forall|i: int| 1 <= i < st.0.len() implies end_of_listed(es, kind, st.1, #[trigger] st.0[i]) by {
        assert(reached_by_taken(es, kind, st.3, st.0[i]));
        let w = choose|w: int| 0 <= w < es.len() && kind_ok(#[trigger] es[w], kind) && touches(es[w], st.0[i])
            && st.3.contains(es[w].3);
        let x = choose|x: int| 0 <= x < st.3.len() && st.3[x] == es[w].3;
        assert(st.3[x] == st.1[x].3);
        assert(kind_ok(es[w], kind) && touches(es[w], st.0[i]) && st.1[x].3 == es[w].3);
    }
}

} // verus!
