//! Bounded queries over the runtime graph of a Case: the edges out of and
//! into a node, the neighbourhood of a node to a depth, and a shortest path
//! between two nodes. The graph is loaded by the host; the queries are here.

use vstd::prelude::*;
use vstd::set_lib::lemma_len_subset;
use crate::seqs::views;
use crate::numbers::{decimal_spec, push_decimal};
use crate::observe::{kv_line, push_kv};
use crate::text::{chars_of, owned, push_str, str_eq, string_of};

verus! {

/// An edge of the runtime graph.
pub struct GraphEdge {
    pub edge_kind: String,
    pub from_ref: String,
    pub to_ref: String,
    pub relation_id: String,
}

/// A node of the runtime graph and its kind.
pub struct GraphNode {
    pub node_ref: String,
    pub node_kind: String,
}

/// An edge as kind, source, target and relation id.
pub type EdgeV = (Seq<char>, Seq<char>, Seq<char>, Seq<char>);

pub open spec fn edge_view(e: GraphEdge) -> EdgeV {
    (e.edge_kind@, e.from_ref@, e.to_ref@, e.relation_id@)
}

pub open spec fn edge_views(es: Seq<GraphEdge>) -> Seq<EdgeV> {
    es.map_values(|e: GraphEdge| edge_view(e))
}

/// An edge passes the kind filter: there is none, or the kinds agree.
pub open spec fn kind_ok(e: EdgeV, kind: Option<Seq<char>>) -> bool {
    match kind {
        Some(k) => e.0 == k,
        None => true,
    }
}

pub open spec fn opt_view(o: Option<&str>) -> Option<Seq<char>> {
    match o {
        Some(s) => Some(s@),
        None => None,
    }
}

/// Whether `edge` passes the edge-kind filter.
pub fn edge_matches_kind(edge: &GraphEdge, edge_kind: Option<&str>) -> (r: bool)
    ensures
        r == kind_ok(edge_view(*edge), opt_view(edge_kind)),
{
    match edge_kind {
        Some(k) => str_eq(edge.edge_kind.as_str(), k),
        None => true,
    }
}

fn copy_edge(e: &GraphEdge) -> (out: GraphEdge)
    ensures
        edge_view(out) == edge_view(*e),
{
    GraphEdge {
        edge_kind: e.edge_kind.clone(),
        from_ref: e.from_ref.clone(),
        to_ref: e.to_ref.clone(),
        relation_id: e.relation_id.clone(),
    }
}

/// The kind of the first node listed under `node_ref`, or `unknown`.
pub open spec fn node_kind_spec(nodes: Seq<(Seq<char>, Seq<char>)>, node_ref: Seq<char>) -> Seq<char>
    decreases nodes.len(),
{
    if nodes.len() == 0 {
        "unknown"@
    } else if nodes[0].0 == node_ref {
        nodes[0].1
    } else {
        node_kind_spec(nodes.drop_first(), node_ref)
    }
}

pub open spec fn node_views(ns: Seq<GraphNode>) -> Seq<(Seq<char>, Seq<char>)> {
    ns.map_values(|n: GraphNode| (n.node_ref@, n.node_kind@))
}

/// The kind of a node of the loaded graph.
pub fn runtime_node_kind(nodes: &Vec<GraphNode>, node_ref: &str) -> (out: String)
    ensures
        out@ == node_kind_spec(node_views(nodes@), node_ref@),
{
    let mut i: usize = 0;
    assert(node_views(nodes@).subrange(0, nodes.len() as int) =~= node_views(nodes@));
    while i < nodes.len()
        invariant
            i <= nodes.len(),
            node_kind_spec(node_views(nodes@), node_ref@) == node_kind_spec(
                node_views(nodes@).subrange(i as int, nodes.len() as int),
                node_ref@,
            ),
        decreases nodes.len() - i,
    {
        let ghost rest = node_views(nodes@).subrange(i as int, nodes.len() as int);
        assert(rest[0] == (nodes@[i as int].node_ref@, nodes@[i as int].node_kind@));
        if str_eq(nodes[i].node_ref.as_str(), node_ref) {
            return nodes[i].node_kind.clone();
        }
        assert(rest.drop_first() =~= node_views(nodes@).subrange(i + 1, nodes.len() as int));
        i += 1;
    }
    owned("unknown")
}

/// The edges that pass `keep`, in order.
pub open spec fn kept(es: Seq<EdgeV>, node: Seq<char>, kind: Option<Seq<char>>, outgoing: bool) -> Seq<
    EdgeV,
>
    decreases es.len(),
{
    if es.len() == 0 {
        Seq::empty()
    } else {
        let e = es.last();
        let end = if outgoing {
            e.1
        } else {
            e.2
        };
        kept(es.drop_last(), node, kind, outgoing) + if end == node && kind_ok(e, kind) {
            seq![e]
        } else {
            Seq::empty()
        }
    }
}

/// At most `limit` edges out of `node` (or into it), of the kind asked for,
/// in the order the graph lists them.
pub fn node_edges(
    edges: &Vec<GraphEdge>,
    node: &str,
    edge_kind: Option<&str>,
    limit: usize,
    outgoing: bool,
) -> (out: Vec<GraphEdge>)
    ensures
        edge_views(out@) == kept(edge_views(edges@), node@, opt_view(edge_kind), outgoing).take(
            if kept(edge_views(edges@), node@, opt_view(edge_kind), outgoing).len() < limit {
                kept(edge_views(edges@), node@, opt_view(edge_kind), outgoing).len() as int
            } else {
                limit as int
            },
        ),
{
    let ghost es = edge_views(edges@);
    let ghost kd = opt_view(edge_kind);
    let mut out: Vec<GraphEdge> = Vec::new();
    let mut i: usize = 0;
    while i < edges.len()
        invariant
            i <= edges.len(),
            es == edge_views(edges@),
            kd == opt_view(edge_kind),
            out.len() <= limit,
            out.len() <= kept(es.subrange(0, i as int), node@, kd, outgoing).len(),
            edge_views(out@) == kept(es.subrange(0, i as int), node@, kd, outgoing).take(
                out.len() as int,
            ),
            out.len() < limit ==> out.len() == kept(es.subrange(0, i as int), node@, kd, outgoing).len(),
        decreases edges.len() - i,
    {
        let e = &edges[i];
        let end = if outgoing {
            e.from_ref.as_str()
        } else {
            e.to_ref.as_str()
        };
        let ghost before = edge_views(out@);
        let ghost k0 = kept(es.subrange(0, i as int), node@, kd, outgoing);
        proof {
            assert(es.subrange(0, i + 1).drop_last() =~= es.subrange(0, i as int));
            assert(es.subrange(0, i + 1).last() == edge_view(edges@[i as int]));
        }
        let hit = str_eq(end, node) && edge_matches_kind(e, edge_kind);
        if hit && out.len() < limit {
            out.push(copy_edge(e));
            proof {
                let k1 = kept(es.subrange(0, i + 1), node@, kd, outgoing);
                assert(k1 =~= k0.push(edge_view(edges@[i as int])));
                assert(edge_views(out@) =~= before.push(edge_view(edges@[i as int])));
                assert(k0.take(out.len() - 1) =~= k0);
                assert(k1.take(out.len() as int) =~= k1);
            }
        } else {
            proof {
                let k1 = kept(es.subrange(0, i + 1), node@, kd, outgoing);
                if hit {
                    assert(k1 =~= k0.push(edge_view(edges@[i as int])));
                    assert(k1.take(out.len() as int) =~= k0.take(out.len() as int));
                } else {
                    assert(k1 =~= k0);
                }
            }
        }
        i += 1;
    }
    proof {
        assert(es.subrange(0, edges.len() as int) =~= es);
        let k = kept(es, node@, kd, outgoing);
        if out.len() < limit {
            assert(k.take(out.len() as int) =~= k);
        }
    }
    out
}


/// A neighbourhood walk in progress: nodes reached (in order), edges taken,
/// the queue of nodes with their depth, relation ids already taken.
pub type NbSt = (Seq<Seq<char>>, Seq<EdgeV>, Seq<(Seq<char>, int)>, Seq<Seq<char>>);

/// Reaching node `n` at depth `d`: a node not reached before is listed and queued.
pub open spec fn visit(st: NbSt, n: Seq<char>, d: int) -> NbSt {
    if st.0.contains(n) {
        st
    } else {
        (st.0.push(n), st.1, st.2.push((n, d)), st.3)
    }
}

/// One end of the edge is `c`.
pub open spec fn touches(e: EdgeV, c: Seq<char>) -> bool {
    e.1 == c || e.2 == c
}

/// The edges from position `j` on that touch `c` (and pass the kind
/// filter), each taken once by relation id while fewer than `limit` are
/// taken, both ends reached at depth `d + 1`.
pub open spec fn scan(
    es: Seq<EdgeV>,
    j: int,
    c: Seq<char>,
    d: int,
    kind: Option<Seq<char>>,
    limit: int,
    st: NbSt,
) -> NbSt
    decreases es.len() - j,
{
    if j < 0 || j >= es.len() {
        st
    } else if !(kind_ok(es[j], kind) && touches(es[j], c)) {
        scan(es, j + 1, c, d, kind, limit, st)
    } else if st.1.len() >= limit {
        st
    } else {
        let e = es[j];
        let s1 = if st.3.contains(e.3) {
            st
        } else {
            (st.0, st.1.push(e), st.2, st.3.push(e.3))
        };
        scan(es, j + 1, c, d, kind, limit, visit(visit(s1, e.1, d + 1), e.2, d + 1))
    }
}

/// One step of the walk: the first queued node is taken off the queue and,
/// below the depth and edge limits, its edges are scanned.
pub open spec fn nb_step(es: Seq<EdgeV>, kind: Option<Seq<char>>, depth: int, limit: int, st: NbSt) -> NbSt {
    if st.2.len() == 0 {
        st
    } else {
        let q = st.2[0];
        let s0 = (st.0, st.1, st.2.drop_first(), st.3);
        if q.1 >= depth || s0.1.len() >= limit {
            s0
        } else {
            scan(es, 0, q.0, q.1, kind, limit, s0)
        }
    }
}

/// The walk after `k` steps.
pub open spec fn nb_run(
    es: Seq<EdgeV>,
    kind: Option<Seq<char>>,
    depth: int,
    limit: int,
    st: NbSt,
    k: nat,
) -> NbSt
    decreases k,
{
    if k == 0 {
        st
    } else {
        nb_step(es, kind, depth, limit, nb_run(es, kind, depth, limit, st, (k - 1) as nat))
    }
}

/// The walk starts at `start`, reached at depth 0.
pub open spec fn nb_init(start: Seq<char>) -> NbSt {
    (seq![start], Seq::empty(), seq![(start, 0int)], Seq::empty())
}

/// The walk once its queue is empty.
pub open spec fn neighborhood_spec(
    es: Seq<EdgeV>,
    start: Seq<char>,
    kind: Option<Seq<char>>,
    depth: int,
    limit: int,
) -> NbSt {
    let k = choose|k: nat| nb_run(es, kind, depth, limit, nb_init(start), k).2.len() == 0;
    nb_run(es, kind, depth, limit, nb_init(start), k)
}

/// Once the queue is empty the walk stays where it is.
pub proof fn lemma_nb_settled(
    es: Seq<EdgeV>,
    kind: Option<Seq<char>>,
    depth: int,
    limit: int,
    st: NbSt,
    k1: nat,
    k2: nat,
)
    requires
        nb_run(es, kind, depth, limit, st, k1).2.len() == 0,
        k1 <= k2,
    ensures
        nb_run(es, kind, depth, limit, st, k2) == nb_run(es, kind, depth, limit, st, k1),
    decreases k2,
{
    if k2 > k1 {
        lemma_nb_settled(es, kind, depth, limit, st, k1, (k2 - 1) as nat);
    }
}

/// The neighbourhood walk in the host's terms.
pub struct NbState {
    pub nodes: Vec<String>,
    pub depths: Vec<usize>,
    pub head: usize,
    pub edges: Vec<GraphEdge>,
    pub seen: Vec<String>,
}

pub open spec fn queue_view(nodes: Seq<String>, depths: Seq<usize>, head: int) -> Seq<(Seq<char>, int)> {
    Seq::new((nodes.len() - head) as nat, |i: int| (nodes[head + i]@, depths[head + i] as int))
}

pub open spec fn nb_view(s: NbState) -> NbSt {
    (views(s.nodes@), edge_views(s.edges@), queue_view(s.nodes@, s.depths@, s.head as int), views(s.seen@))
}

/// Every node a walk from `start` over `es` can reach is `start` or an end of an edge.
pub open spec fn universe(start: Seq<char>, es: Seq<EdgeV>) -> Seq<Seq<char>> {
    seq![start] + Seq::new(es.len(), |i: int| es[i].1) + Seq::new(es.len(), |i: int| es[i].2)
}

pub open spec fn nb_wf(s: NbState, start: Seq<char>, es: Seq<EdgeV>) -> bool {
    &&& s.depths.len() == s.nodes.len()
    &&& s.head <= s.nodes.len()
    &&& views(s.nodes@).no_duplicates()
    &&& forall|i: int| 0 <= i < s.nodes.len() ==> universe(start, es).contains(#[trigger] views(s.nodes@)[i])
}

pub proof fn lemma_distinct_bound(a: Seq<Seq<char>>, u: Seq<Seq<char>>)
    requires
        a.no_duplicates(),
        forall|i: int| 0 <= i < a.len() ==> u.contains(#[trigger] a[i]),
    ensures
        a.len() <= u.len(),
{
    a.unique_seq_to_set();
    u.lemma_cardinality_of_set();
    vstd::seq_lib::seq_to_set_is_finite(u);
    assert(a.to_set().subset_of(u.to_set())) by {
        assert forall|x: Seq<char>| a.to_set().contains(x) implies u.to_set().contains(x) by {
            let i = choose|i: int| 0 <= i < a.len() && a[i] == x;
            assert(u.contains(a[i]));
        }
    }
    lemma_len_subset(a.to_set(), u.to_set());
}

fn has_string(v: &Vec<String>, s: &str) -> (r: bool)
    ensures
        r == views(v@).contains(s@),
{
    let mut i: usize = 0;
    while i < v.len()
        invariant
            i <= v.len(),
            forall|k: int| 0 <= k < i ==> (#[trigger] v@[k])@ != s@,
        decreases v.len() - i,
    {
        if str_eq(v[i].as_str(), s) {
            assert(views(v@)[i as int] == s@);
            return true;
        }
        i += 1;
    }
    assert(!views(v@).contains(s@)) by {
        if views(v@).contains(s@) {
            let k = choose|k: int| 0 <= k < views(v@).len() && views(v@)[k] == s@;
            assert(v@[k]@ == s@);
        }
    }
    false
}

fn nb_visit(s: &mut NbState, n: &String, d: usize, Ghost(start): Ghost<Seq<char>>, Ghost(es): Ghost<Seq<EdgeV>>)
    requires
        nb_wf(*old(s), start, es),
        universe(start, es).contains(n@),
    ensures
        nb_wf(*final(s), start, es),
        nb_view(*final(s)) == visit(nb_view(*old(s)), n@, d as int),
        final(s).head == old(s).head,
        final(s).edges@ == old(s).edges@,
        final(s).seen@ == old(s).seen@,
{
    if !has_string(&s.nodes, n.as_str()) {
        let ghost before = nb_view(*s);
        let ghost bn = views(s.nodes@);
        s.nodes.push(n.clone());
        s.depths.push(d);
        proof {
            assert(views(s.nodes@) =~= bn.push(n@));
            assert(queue_view(s.nodes@, s.depths@, s.head as int) =~= before.2.push((n@, d as int)));
            assert forall|i: int, j: int| 0 <= i < j < views(s.nodes@).len() implies views(s.nodes@)[i] != views(s.nodes@)[j] by {
                if j == views(s.nodes@).len() - 1 {
                    assert(views(s.nodes@)[i] == bn[i]);
                }
            }
            assert forall|i: int| 0 <= i < s.nodes.len() implies universe(start, es).contains(#[trigger] views(s.nodes@)[i]) by {
                if i < bn.len() {
                    assert(views(s.nodes@)[i] == bn[i]);
                }
            }
        }
    }
}

fn nb_scan(
    graph: &Vec<GraphEdge>,
    c: &String,
    d: usize,
    kind: Option<&str>,
    limit: usize,
    s: &mut NbState,
    Ghost(start): Ghost<Seq<char>>,
)
    requires
        nb_wf(*old(s), start, edge_views(graph@)),
        d < usize::MAX,
    ensures
        nb_wf(*final(s), start, edge_views(graph@)),
        nb_view(*final(s)) == scan(edge_views(graph@), 0, c@, d as int, opt_view(kind), limit as int, nb_view(*old(s))),
        final(s).head == old(s).head,
{
    let ghost es = edge_views(graph@);
    let ghost target = scan(es, 0, c@, d as int, opt_view(kind), limit as int, nb_view(*s));
    let ghost head0 = s.head;
    let mut j: usize = 0;
    while j < graph.len()
        invariant
            j <= graph.len(),
            es == edge_views(graph@),
            nb_wf(*s, start, es),
            s.head == head0,
            d < usize::MAX,
            scan(es, j as int, c@, d as int, opt_view(kind), limit as int, nb_view(*s)) == target,
        decreases graph.len() - j,
    {
        let e = &graph[j];
        assert(es[j as int] == edge_view(graph@[j as int]));
        let hit = edge_matches_kind(e, kind) && (str_eq(e.from_ref.as_str(), c.as_str()) || str_eq(e.to_ref.as_str(), c.as_str()));
        if !hit {
            j += 1;
        } else if s.edges.len() >= limit {
            j = graph.len();
        } else {
            let ghost st = nb_view(*s);
            if !has_string(&s.seen, e.relation_id.as_str()) {
                s.edges.push(copy_edge(e));
                s.seen.push(e.relation_id.clone());
                proof {
                    assert(edge_views(s.edges@) =~= st.1.push(edge_view(graph@[j as int])));
                    assert(views(s.seen@) =~= st.3.push(e.relation_id@));
                }
            }
            proof {
                let u = universe(start, es);
                assert(u[1 + j as int] == es[j as int].1);
                assert(u[1 + es.len() + j as int] == es[j as int].2);
            }
            nb_visit(s, &e.from_ref, d + 1, Ghost(start), Ghost(es));
            nb_visit(s, &e.to_ref, d + 1, Ghost(start), Ghost(es));
            j += 1;
        }
    }
}

/// The neighbourhood of `start` up to `depth` edges away, at most `limit`
/// edges, only edges of the kind asked for: the nodes in the order they are
/// reached, and the edges in the order they are taken.
pub fn graph_neighborhood(
    graph: &Vec<GraphEdge>,
    start: &str,
    kind: Option<&str>,
    depth: usize,
    limit: usize,
) -> (out: (Vec<String>, Vec<GraphEdge>))
    ensures
        views(out.0@) == neighborhood_spec(edge_views(graph@), start@, opt_view(kind), depth as int, limit as int).0,
        edge_views(out.1@) == neighborhood_spec(edge_views(graph@), start@, opt_view(kind), depth as int, limit as int).1,
{
    let ghost es = edge_views(graph@);
    let ghost kd = opt_view(kind);
    let first = owned(start);
    let mut s = NbState { nodes: Vec::new(), depths: Vec::new(), head: 0, edges: Vec::new(), seen: Vec::new() };
    s.nodes.push(first);
    s.depths.push(0);
    let ghost init = nb_init(start@);
    proof {
        assert(views(s.nodes@) =~= seq![start@]);
        assert(queue_view(s.nodes@, s.depths@, 0) =~= seq![(start@, 0int)]);
        assert(edge_views(s.edges@) =~= Seq::<EdgeV>::empty());
        assert(views(s.seen@) =~= Seq::<Seq<char>>::empty());
        assert(nb_view(s) == init);
        assert(universe(start@, es)[0] == start@);
    }
    let ghost mut k: nat = 0;
    while s.head < s.nodes.len()
        invariant
            es == edge_views(graph@),
            kd == opt_view(kind),
            nb_wf(s, start@, es),
            nb_view(s) == nb_run(es, kd, depth as int, limit as int, init, k),
            s.nodes.len() <= universe(start@, es).len(),
        decreases universe(start@, es).len() - s.head,
    {
        let ghost before = nb_view(s);
        let c = s.nodes[s.head].clone();
        let d = s.depths[s.head];
        s.head = s.head + 1;
        proof {
            assert(nb_view(s).2 =~= before.2.drop_first());
            assert(before.2[0] == (c@, d as int));
        }
        if d < depth && s.edges.len() < limit {
            nb_scan(graph, &c, d, kind, limit, &mut s, Ghost(start@));
        }
        proof {
            k = k + 1;
            lemma_distinct_bound(views(s.nodes@), universe(start@, es));
        }
    }
    proof {
        assert(nb_view(s).2.len() == 0);
        let kk = choose|kk: nat| nb_run(es, kd, depth as int, limit as int, init, kk).2.len() == 0;
        if kk <= k {
            lemma_nb_settled(es, kd, depth as int, limit as int, init, kk, k);
        } else {
            lemma_nb_settled(es, kd, depth as int, limit as int, init, k, kk);
        }
    }
    (s.nodes, s.edges)
}


/// A path search in progress: the queue of nodes with the path that reached
/// each, the nodes already reached, and the path found, if any.
pub type PathSt = (Seq<(Seq<char>, Seq<EdgeV>)>, Seq<Seq<char>>, Option<Seq<EdgeV>>);

/// The edges out of `c` from position `j` on, each leading to a node not
/// reached before: that node is reached, by `path` and the edge.
pub open spec fn path_scan(es: Seq<EdgeV>, j: int, c: Seq<char>, path: Seq<EdgeV>, st: PathSt) -> PathSt
    decreases es.len() - j,
{
    if j < 0 || j >= es.len() {
        st
    } else if es[j].1 != c || st.1.contains(es[j].2) {
        path_scan(es, j + 1, c, path, st)
    } else {
        path_scan(
            es,
            j + 1,
            c,
            path,
            (st.0.push((es[j].2, path.push(es[j]))), st.1.push(es[j].2), st.2),
        )
    }
}

/// One step of the breadth-first search for `to`: the first queued node is
/// taken off the queue; if it is `to` its path is the answer, else, below
/// `max` edges, the nodes its edges lead to are queued.
pub open spec fn path_step(es: Seq<EdgeV>, to: Seq<char>, max: int, st: PathSt) -> PathSt {
    if st.2 is Some || st.0.len() == 0 {
        st
    } else {
        let q = st.0[0];
        let s0 = (st.0.drop_first(), st.1, st.2);
        if q.0 == to {
            (s0.0, s0.1, Some(q.1))
        } else if q.1.len() >= max {
            s0
        } else {
            path_scan(es, 0, q.0, q.1, s0)
        }
    }
}

/// The search after `k` steps.
pub open spec fn path_run(es: Seq<EdgeV>, to: Seq<char>, max: int, st: PathSt, k: nat) -> PathSt
    decreases k,
{
    if k == 0 {
        st
    } else {
        path_step(es, to, max, path_run(es, to, max, st, (k - 1) as nat))
    }
}

/// The search starts at `from` with the empty path.
pub open spec fn path_init(from: Seq<char>) -> PathSt {
    (seq![(from, Seq::<EdgeV>::empty())], seq![from], None)
}

/// The search is over: a path was found, or nothing is left to try.
pub open spec fn path_done(st: PathSt) -> bool {
    st.2 is Some || st.0.len() == 0
}

/// The path that the search finds, if any.
pub open spec fn path_spec(es: Seq<EdgeV>, from: Seq<char>, to: Seq<char>, max: int) -> Option<Seq<EdgeV>> {
    let k = choose|k: nat| path_done(path_run(es, to, max, path_init(from), k));
    path_run(es, to, max, path_init(from), k).2
}

/// Once the search is over it stays over.
pub proof fn lemma_path_settled(es: Seq<EdgeV>, to: Seq<char>, max: int, st: PathSt, k1: nat, k2: nat)
    requires
        path_done(path_run(es, to, max, st, k1)),
        k1 <= k2,
    ensures
        path_run(es, to, max, st, k2) == path_run(es, to, max, st, k1),
    decreases k2,
{
    if k2 > k1 {
        lemma_path_settled(es, to, max, st, k1, (k2 - 1) as nat);
    }
}

fn copy_edges(v: &Vec<GraphEdge>) -> (out: Vec<GraphEdge>)
    ensures
        edge_views(out@) == edge_views(v@),
{
    let mut out: Vec<GraphEdge> = Vec::new();
    let mut i: usize = 0;
    while i < v.len()
        invariant
            i <= v.len(),
            edge_views(out@) == edge_views(v@).subrange(0, i as int),
        decreases v.len() - i,
    {
        let ghost before = edge_views(out@);
        out.push(copy_edge(&v[i]));
        assert(edge_views(out@) =~= before.push(edge_view(v@[i as int])));
        i += 1;
        assert(edge_views(out@) =~= edge_views(v@).subrange(0, i as int));
    }
    assert(edge_views(v@).subrange(0, v.len() as int) =~= edge_views(v@));
    out
}

/// The path search in the host's terms.
pub struct PathState {
    pub nodes: Vec<String>,
    pub paths: Vec<Vec<GraphEdge>>,
    pub head: usize,
}

pub open spec fn path_queue_view(nodes: Seq<String>, paths: Seq<Vec<GraphEdge>>, head: int) -> Seq<(Seq<char>, Seq<EdgeV>)> {
    Seq::new((nodes.len() - head) as nat, |i: int| (nodes[head + i]@, edge_views(paths[head + i]@)))
}

pub open spec fn path_view(s: PathState) -> PathSt {
    (path_queue_view(s.nodes@, s.paths@, s.head as int), views(s.nodes@), None)
}

pub open spec fn path_wf(s: PathState, from: Seq<char>, es: Seq<EdgeV>) -> bool {
    &&& s.paths.len() == s.nodes.len()
    &&& s.head <= s.nodes.len()
    &&& views(s.nodes@).no_duplicates()
    &&& forall|i: int| 0 <= i < s.nodes.len() ==> universe(from, es).contains(#[trigger] views(s.nodes@)[i])
}

fn path_scan_exec(graph: &Vec<GraphEdge>, c: &String, path: &Vec<GraphEdge>, s: &mut PathState, Ghost(from): Ghost<Seq<char>>)
    requires
        path_wf(*old(s), from, edge_views(graph@)),
    ensures
        path_wf(*final(s), from, edge_views(graph@)),
        path_view(*final(s)) == path_scan(edge_views(graph@), 0, c@, edge_views(path@), path_view(*old(s))),
        final(s).head == old(s).head,
{
    let ghost es = edge_views(graph@);
    let ghost target = path_scan(es, 0, c@, edge_views(path@), path_view(*s));
    let ghost head0 = s.head;
    let mut j: usize = 0;
    while j < graph.len()
        invariant
            j <= graph.len(),
            es == edge_views(graph@),
            path_wf(*s, from, es),
            s.head == head0,
            path_scan(es, j as int, c@, edge_views(path@), path_view(*s)) == target,
        decreases graph.len() - j,
    {
        let e = &graph[j];
        assert(es[j as int] == edge_view(graph@[j as int]));
        if str_eq(e.from_ref.as_str(), c.as_str()) && !has_string(&s.nodes, e.to_ref.as_str()) {
            let ghost before = path_view(*s);
            let ghost bn = views(s.nodes@);
            let mut next = copy_edges(path);
            next.push(copy_edge(e));
            s.nodes.push(e.to_ref.clone());
            s.paths.push(next);
            proof {
                assert(edge_views(next@) =~= edge_views(path@).push(es[j as int]));
                assert(views(s.nodes@) =~= bn.push(e.to_ref@));
                assert(path_queue_view(s.nodes@, s.paths@, s.head as int) =~= before.0.push((es[j as int].2, edge_views(path@).push(es[j as int]))));
                assert forall|a: int, b: int| 0 <= a < b < views(s.nodes@).len() implies views(s.nodes@)[a] != views(s.nodes@)[b] by {
                    if b == views(s.nodes@).len() - 1 {
                        assert(views(s.nodes@)[a] == bn[a]);
                    }
                }
                let u = universe(from, es);
                assert(u[1 + es.len() + j as int] == es[j as int].2);
                assert forall|i: int| 0 <= i < s.nodes.len() implies u.contains(#[trigger] views(s.nodes@)[i]) by {
                    if i < bn.len() {
                        assert(views(s.nodes@)[i] == bn[i]);
                    }
                }
            }
        }
        j += 1;
    }
}

/// A shortest path from `from` to `to` of at most `max_depth` edges,
/// following edges from source to target, found breadth first; none where
/// there is no such path.
pub fn graph_path(graph: &Vec<GraphEdge>, from: &str, to: &str, max_depth: usize) -> (out: Option<Vec<GraphEdge>>)
    ensures
        match out {
            Some(p) => path_spec(edge_views(graph@), from@, to@, max_depth as int) == Some(edge_views(p@)),
            None => path_spec(edge_views(graph@), from@, to@, max_depth as int) is None,
        },
{
    let ghost es = edge_views(graph@);
    let mut s = PathState { nodes: Vec::new(), paths: Vec::new(), head: 0 };
    s.nodes.push(owned(from));
    s.paths.push(Vec::new());
    let ghost init = path_init(from@);
    proof {
        assert(views(s.nodes@) =~= seq![from@]);
        assert(edge_views(s.paths@[0]@) =~= Seq::<EdgeV>::empty());
        assert(path_queue_view(s.nodes@, s.paths@, 0) =~= seq![(from@, Seq::<EdgeV>::empty())]);
        assert(path_view(s) == init);
        assert(universe(from@, es)[0] == from@);
    }
    let ghost mut k: nat = 0;
    let mut found: Option<Vec<GraphEdge>> = None;
    while s.head < s.nodes.len() && found.is_none()
        invariant
            es == edge_views(graph@),
            path_wf(s, from@, es),
            s.nodes.len() <= universe(from@, es).len(),
            found is None ==> path_view(s) == path_run(es, to@, max_depth as int, init, k),
            found matches Some(p) ==> path_run(es, to@, max_depth as int, init, k) == (path_view(s).0, path_view(s).1, Some(edge_views(p@))),
        decreases universe(from@, es).len() - s.head,
    {
        let ghost before = path_view(s);
        let c = s.nodes[s.head].clone();
        let p = copy_edges(&s.paths[s.head]);
        s.head = s.head + 1;
        proof {
            assert(path_view(s).0 =~= before.0.drop_first());
            assert(before.0[0] == (c@, edge_views(p@)));
        }
        if str_eq(c.as_str(), to) {
            found = Some(p);
        } else if p.len() < max_depth {
            path_scan_exec(graph, &c, &p, &mut s, Ghost(from@));
        }
        proof {
            k = k + 1;
            lemma_distinct_bound(views(s.nodes@), universe(from@, es));
        }
    }
    proof {
        let st = path_run(es, to@, max_depth as int, init, k);
        assert(path_done(st));
        let kk = choose|kk: nat| path_done(path_run(es, to@, max_depth as int, init, kk));
        if kk <= k {
            lemma_path_settled(es, to@, max_depth as int, init, kk, k);
        } else {
            lemma_path_settled(es, to@, max_depth as int, init, k, kk);
        }
    }
    found
}


/// `p` is a walk along edges from `a` to `b`: each edge starts where the
/// one before it ends.
pub open spec fn is_chain(p: Seq<EdgeV>, a: Seq<char>, b: Seq<char>) -> bool {
    if p.len() == 0 {
        a == b
    } else {
        &&& p[0].1 == a
        &&& p.last().2 == b
        &&& forall|i: int| 0 <= i < p.len() - 1 ==> p[i].2 == #[trigger] p[i + 1].1
    }
}

/// A path of the graph `es` from `a` to `b` of at most `max` edges.
pub open spec fn graph_walk(es: Seq<EdgeV>, p: Seq<EdgeV>, a: Seq<char>, b: Seq<char>, max: int) -> bool {
    &&& is_chain(p, a, b)
    &&& p.len() <= max
    &&& forall|i: int| 0 <= i < p.len() ==> es.contains(#[trigger] p[i])
}

pub open spec fn path_state_ok(es: Seq<EdgeV>, from: Seq<char>, to: Seq<char>, max: int, st: PathSt) -> bool {
    &&& forall|i: int| 0 <= i < st.0.len() ==> graph_walk(es, (#[trigger] st.0[i]).1, from, st.0[i].0, max)
    &&& (st.2 matches Some(p) ==> graph_walk(es, p, from, to, max))
}

pub proof fn lemma_chain_extend(p: Seq<EdgeV>, a: Seq<char>, c: Seq<char>, e: EdgeV)
    requires
        is_chain(p, a, c),
        e.1 == c,
    ensures
        is_chain(p.push(e), a, e.2),
{
    let q = p.push(e);
    if p.len() > 0 {
        assert forall|i: int| 0 <= i < q.len() - 1 implies q[i].2 == #[trigger] q[i + 1].1 by {
            if i < p.len() - 1 {
                assert(q[i] == p[i] && q[i + 1] == p[i + 1]);
            } else {
                assert(q[i] == p.last());
            }
        }
    }
}

proof fn lemma_path_scan_ok(
    es: Seq<EdgeV>,
    j: int,
    c: Seq<char>,
    path: Seq<EdgeV>,
    from: Seq<char>,
    to: Seq<char>,
    max: int,
    st: PathSt,
)
    requires
        0 <= j,
        path_state_ok(es, from, to, max, st),
        graph_walk(es, path, from, c, max),
        path.len() < max,
    ensures
        path_state_ok(es, from, to, max, path_scan(es, j, c, path, st)),
    decreases es.len() - j,
{
    if j < es.len() {
        if es[j].1 != c || st.1.contains(es[j].2) {
            lemma_path_scan_ok(es, j + 1, c, path, from, to, max, st);
        } else {
            let e = es[j];
            let np = path.push(e);
            lemma_chain_extend(path, from, c, e);
            assert forall|i: int| 0 <= i < np.len() implies es.contains(#[trigger] np[i]) by {
                if i < path.len() {
                    assert(np[i] == path[i]);
                } else {
                    assert(np[i] == es[j]);
                }
            }
            let st2 = (st.0.push((e.2, np)), st.1.push(e.2), st.2);
            assert forall|i: int| 0 <= i < st2.0.len() implies graph_walk(es, (#[trigger] st2.0[i]).1, from, st2.0[i].0, max) by {
                if i < st.0.len() {
                    assert(st2.0[i] == st.0[i]);
                }
            }
            lemma_path_scan_ok(es, j + 1, c, path, from, to, max, st2);
        }
    }
}

proof fn lemma_path_run_ok(es: Seq<EdgeV>, from: Seq<char>, to: Seq<char>, max: int, k: nat)
    requires
        max >= 0,
    ensures
        path_state_ok(es, from, to, max, path_run(es, to, max, path_init(from), k)),
    decreases k,
{
    if k == 0 {
        let st = path_init(from);
        assert(is_chain(Seq::<EdgeV>::empty(), from, from));
        assert forall|i: int| 0 <= i < st.0.len() implies graph_walk(es, (#[trigger] st.0[i]).1, from, st.0[i].0, max) by {
            assert(st.0[i] == (from, Seq::<EdgeV>::empty()));
        }
    } else {
        lemma_path_run_ok(es, from, to, max, (k - 1) as nat);
        let st = path_run(es, to, max, path_init(from), (k - 1) as nat);
        if !(st.2 is Some || st.0.len() == 0) {
            let q = st.0[0];
            let s0 = (st.0.drop_first(), st.1, st.2);
            assert(graph_walk(es, q.1, from, q.0, max));
            assert forall|i: int| 0 <= i < s0.0.len() implies graph_walk(es, (#[trigger] s0.0[i]).1, from, s0.0[i].0, max) by {
                assert(s0.0[i] == st.0[i + 1]);
            }
            if q.0 == to {
            } else if q.1.len() >= max {
            } else {
                lemma_path_scan_ok(es, 0, q.0, q.1, from, to, max, s0);
            }
        }
    }
}

/// A path that the search finds is a walk along edges of the graph from
/// `from` to `to` (the empty walk where they are the same node) of at most
/// `max` edges.
pub proof fn law_path_is_walk(es: Seq<EdgeV>, from: Seq<char>, to: Seq<char>, max: int)
    requires
        max >= 0,
    ensures
        path_spec(es, from, to, max) matches Some(p) ==> graph_walk(es, p, from, to, max),
{
    let k = choose|k: nat| path_done(path_run(es, to, max, path_init(from), k));
    lemma_path_run_ok(es, from, to, max, k);
}


pub open spec fn nb_ok(es: Seq<EdgeV>, start: Seq<char>, kind: Option<Seq<char>>, limit: int, st: NbSt) -> bool {
    &&& st.1.len() <= limit
    &&& forall|i: int| 0 <= i < st.1.len() ==> kind_ok(#[trigger] st.1[i], kind) && es.contains(st.1[i])
    &&& st.0.len() > 0 && st.0[0] == start
    &&& st.0.no_duplicates()
}

proof fn lemma_visit_ok(es: Seq<EdgeV>, start: Seq<char>, kind: Option<Seq<char>>, limit: int, st: NbSt, n: Seq<char>, d: int)
    requires
        nb_ok(es, start, kind, limit, st),
    ensures
        nb_ok(es, start, kind, limit, visit(st, n, d)),
{
    if !st.0.contains(n) {
        let ns = st.0.push(n);
        assert(ns[0] == st.0[0]);
        assert forall|a: int, b: int| 0 <= a < b < ns.len() implies ns[a] != ns[b] by {
            if b == ns.len() - 1 {
                assert(ns[a] == st.0[a]);
            } else {
                assert(ns[a] == st.0[a] && ns[b] == st.0[b]);
            }
        }
    }
}

proof fn lemma_scan_ok(
    es: Seq<EdgeV>,
    j: int,
    c: Seq<char>,
    d: int,
    start: Seq<char>,
    kind: Option<Seq<char>>,
    limit: int,
    st: NbSt,
)
    requires
        0 <= j,
        nb_ok(es, start, kind, limit, st),
    ensures
        nb_ok(es, start, kind, limit, scan(es, j, c, d, kind, limit, st)),
    decreases es.len() - j,
{
    if j < es.len() {
        if !(kind_ok(es[j], kind) && touches(es[j], c)) {
            lemma_scan_ok(es, j + 1, c, d, start, kind, limit, st);
        } else if st.1.len() >= limit {
        } else {
            let e = es[j];
            let s1 = if st.3.contains(e.3) {
                st
            } else {
                (st.0, st.1.push(e), st.2, st.3.push(e.3))
            };
            assert forall|i: int| 0 <= i < s1.1.len() implies kind_ok(#[trigger] s1.1[i], kind) && es.contains(s1.1[i]) by {
                if i < st.1.len() {
                    assert(s1.1[i] == st.1[i]);
                } else {
                    assert(s1.1[i] == es[j]);
                }
            }
            lemma_visit_ok(es, start, kind, limit, s1, e.1, d + 1);
            lemma_visit_ok(es, start, kind, limit, visit(s1, e.1, d + 1), e.2, d + 1);
            lemma_scan_ok(es, j + 1, c, d, start, kind, limit, visit(visit(s1, e.1, d + 1), e.2, d + 1));
        }
    }
}

proof fn lemma_nb_run_ok(es: Seq<EdgeV>, start: Seq<char>, kind: Option<Seq<char>>, depth: int, limit: int, k: nat)
    requires
        limit >= 0,
    ensures
        nb_ok(es, start, kind, limit, nb_run(es, kind, depth, limit, nb_init(start), k)),
    decreases k,
{
    if k > 0 {
        lemma_nb_run_ok(es, start, kind, depth, limit, (k - 1) as nat);
        let st = nb_run(es, kind, depth, limit, nb_init(start), (k - 1) as nat);
        if st.2.len() > 0 {
            let q = st.2[0];
            let s0 = (st.0, st.1, st.2.drop_first(), st.3);
            if !(q.1 >= depth || s0.1.len() >= limit) {
                lemma_scan_ok(es, 0, q.0, q.1, start, kind, limit, s0);
            }
        }
    } else {
        assert(nb_init(start).0[0] == start);
    }
}

/// The neighbourhood starts at the node asked about, lists each node once,
/// and holds at most `limit` edges, each an edge of the graph of the kind
/// asked for.
pub proof fn law_neighborhood_bounded(es: Seq<EdgeV>, start: Seq<char>, kind: Option<Seq<char>>, depth: int, limit: int)
    requires
        limit >= 0,
    ensures
        nb_ok(es, start, kind, limit, neighborhood_spec(es, start, kind, depth, limit)),
{
    let k = choose|k: nat| nb_run(es, kind, depth, limit, nb_init(start), k).2.len() == 0;
    lemma_nb_run_ok(es, start, kind, depth, limit, k);
}

/// The listing lines of the edges.
pub open spec fn edge_lines(es: Seq<GraphEdge>) -> Seq<char>
    decreases es.len(),
{
    if es.len() == 0 {
        Seq::empty()
    } else {
        let e = es.last();
        edge_lines(es.drop_last()) + "- edge_kind: "@ + e.edge_kind@ + "\n"@ + "  from_ref: "@ + e.from_ref@ + "\n"@
            + "  to_ref: "@ + e.to_ref@ + "\n"@ + "  relation_id: "@ + e.relation_id@ + "\n"@
    }
}

/// The edge listing of a graph query: `edges: none`, or the edges.
pub open spec fn edges_text_spec(es: Seq<GraphEdge>) -> Seq<char> {
    if es.len() == 0 {
        "edges: none\n"@
    } else {
        "edges:\n"@ + edge_lines(es)
    }
}

fn push_edges(out: &mut Vec<char>, edges: &Vec<GraphEdge>)
    ensures
        final(out)@ == old(out)@ + edges_text_spec(edges@),
{
    if edges.len() == 0 {
        push_str(out, "edges: none\n");
        return;
    }
    push_str(out, "edges:\n");
    let ghost head = out@;
    let mut i: usize = 0;
    while i < edges.len()
        invariant
            i <= edges.len(),
            out@ == head + edge_lines(edges@.subrange(0, i as int)),
        decreases edges.len() - i,
    {
        proof {
            assert(edges@.subrange(0, i + 1).drop_last() =~= edges@.subrange(0, i as int));
        }
        let e = &edges[i];
        push_str(out, "- edge_kind: ");
        push_str(out, e.edge_kind.as_str());
        push_str(out, "\n");
        push_str(out, "  from_ref: ");
        push_str(out, e.from_ref.as_str());
        push_str(out, "\n");
        push_str(out, "  to_ref: ");
        push_str(out, e.to_ref.as_str());
        push_str(out, "\n");
        push_str(out, "  relation_id: ");
        push_str(out, e.relation_id.as_str());
        push_str(out, "\n");
        i += 1;
    }
    assert(edges@.subrange(0, edges.len() as int) =~= edges@);
}

/// What a fan-out (or fan-in) query prints about the edges it found.
pub open spec fn fan_text_spec(
    outgoing: bool,
    case_ref: Seq<char>,
    node: Seq<char>,
    es: Seq<GraphEdge>,
    limit: nat,
    clamped: bool,
    kind: Option<Seq<char>>,
) -> Seq<char> {
    (if outgoing { "graph_fanout:\n"@ } else { "graph_fanin:\n"@ }) + kv_line("case_ref"@, case_ref) + kv_line(
        "node"@,
        node,
    ) + kv_line("edges_total"@, decimal_spec(es.len())) + kv_line("limit"@, decimal_spec(limit)) + (if clamped {
        kv_line("limit_clamped"@, "yes"@)
    } else {
        Seq::empty()
    }) + (match kind {
        Some(k) => kv_line("edge_kind_filter"@, k),
        None => Seq::empty(),
    }) + edges_text_spec(es)
}

/// The output of a fan-out or fan-in query.
pub fn fan_text(
    outgoing: bool,
    case_ref: &str,
    node: &str,
    edges: &Vec<GraphEdge>,
    limit: usize,
    clamped: bool,
    kind: Option<&str>,
) -> (out: String)
    ensures
        out@ == fan_text_spec(outgoing, case_ref@, node@, edges@, limit as nat, clamped, match kind {
            Some(k) => Some(k@),
            None => None,
        }),
{
    let mut o = chars_of(if outgoing { "graph_fanout:\n" } else { "graph_fanin:\n" });
    push_kv(&mut o, "case_ref", case_ref);
    push_kv(&mut o, "node", node);
    push_str(&mut o, "edges_total");
    push_str(&mut o, ": ");
    push_decimal(&mut o, edges.len() as u64);
    push_str(&mut o, "\n");
    push_str(&mut o, "limit");
    push_str(&mut o, ": ");
    push_decimal(&mut o, limit as u64);
    push_str(&mut o, "\n");
    if clamped {
        push_kv(&mut o, "limit_clamped", "yes");
    }
    match kind {
        Some(k) => push_kv(&mut o, "edge_kind_filter", k),
        None => {},
    }
    push_edges(&mut o, edges);
    string_of(&o)
}

/// What a path query prints: the query, then the path found with its hops
/// and edges, or `not_found` with no hops and no edges.
pub open spec fn path_text_spec(
    case_ref: Seq<char>,
    from: Seq<char>,
    to: Seq<char>,
    max_depth: nat,
    clamped: bool,
    found: Option<Seq<GraphEdge>>,
) -> Seq<char> {
    "graph_path:\n"@ + kv_line("case_ref"@, case_ref) + kv_line("from_ref"@, from) + kv_line("to_ref"@, to)
        + kv_line("max_depth"@, decimal_spec(max_depth)) + (if clamped {
        kv_line("max_depth_clamped"@, "yes"@)
    } else {
        Seq::empty()
    }) + match found {
        Some(es) => kv_line("path_status"@, "found"@) + kv_line("hops"@, decimal_spec(es.len())) + edges_text_spec(es),
        None => kv_line("path_status"@, "not_found"@) + kv_line("hops"@, "0"@) + "edges: none\n"@,
    }
}

fn push_path_outcome(out: &mut Vec<char>, found: &Option<Vec<GraphEdge>>)
    ensures
        final(out)@ == old(out)@ + match found {
            Some(es) => kv_line("path_status"@, "found"@) + kv_line("hops"@, decimal_spec(es@.len())) + edges_text_spec(es@),
            None => kv_line("path_status"@, "not_found"@) + kv_line("hops"@, "0"@) + "edges: none\n"@,
        },
{
    let ghost start = out@;
    match found {
        Some(es) => {
            push_kv(out, "path_status", "found");
            push_str(out, "hops");
            push_str(out, ": ");
            push_decimal(out, es.len() as u64);
            push_str(out, "\n");
            let ghost mid = out@;
            assert(mid =~= start + kv_line("path_status"@, "found"@) + kv_line("hops"@, decimal_spec(es@.len())));
            push_edges(out, es);
        },
        None => {
            push_kv(out, "path_status", "not_found");
            push_kv(out, "hops", "0");
            push_str(out, "edges: none\n");
        },
    }
}

/// The output of a path query, from what `graph_path` found.
pub fn path_text(
    case_ref: &str,
    from: &str,
    to: &str,
    max_depth: usize,
    clamped: bool,
    found: &Option<Vec<GraphEdge>>,
) -> (out: String)
    ensures
        out@ == path_text_spec(case_ref@, from@, to@, max_depth as nat, clamped, match found {
            Some(es) => Some(es@),
            None => None,
        }),
{
    let mut o = chars_of("graph_path:\n");
    push_kv(&mut o, "case_ref", case_ref);
    push_kv(&mut o, "from_ref", from);
    push_kv(&mut o, "to_ref", to);
    push_str(&mut o, "max_depth");
    push_str(&mut o, ": ");
    push_decimal(&mut o, max_depth as u64);
    push_str(&mut o, "\n");
    if clamped {
        push_kv(&mut o, "max_depth_clamped", "yes");
    }
    let ghost head = o@;
    assert(head =~= "graph_path:\n"@ + kv_line("case_ref"@, case_ref@) + kv_line("from_ref"@, from@) + kv_line("to_ref"@, to@)
        + kv_line("max_depth"@, decimal_spec(max_depth as nat)) + (if clamped {
        kv_line("max_depth_clamped"@, "yes"@)
    } else {
        Seq::empty()
    }));
    push_path_outcome(&mut o, found);
    string_of(&o)
}

/// What `graph runtime-status` prints; `store_name` is the graph relation store.
pub fn runtime_status_text(args_given: bool, store_name: &str) -> (r: Result<String, String>)
    ensures
        args_given ==> (r matches Err(e) && e@ == "usage: yai graph runtime-status"@),
        !args_given ==> (r matches Ok(t) && t@ == "runtime_graph:\n  status: active_minimal\n  role: in_memory_active_case_working_set\n  working_set: per_command_ephemeral\n  resident_service: planned\n  source: graph_relations\n  durable_truth: graph_persistence\n  hnsw: future_candidate_index\n  context_compiler: future_consumer\n  relation_write_path: active_minimal\n  graph_store: "@
            + store_name@ + "\n  graph_persistence: durable_typed_relations\n  implementation_claim: ephemeral_working_set_only\n"@),
{
    if args_given {
        return Err(owned("usage: yai graph runtime-status"));
    }
    let mut o = chars_of(
        "runtime_graph:\n  status: active_minimal\n  role: in_memory_active_case_working_set\n  working_set: per_command_ephemeral\n  resident_service: planned\n  source: graph_relations\n  durable_truth: graph_persistence\n  hnsw: future_candidate_index\n  context_compiler: future_consumer\n  relation_write_path: active_minimal\n  graph_store: ",
    );
    push_str(&mut o, store_name);
    push_str(&mut o, "\n  graph_persistence: durable_typed_relations\n  implementation_claim: ephemeral_working_set_only\n");
    Ok(string_of(&o))
}

} // verus!
