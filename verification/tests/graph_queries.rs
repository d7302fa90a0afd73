use yai::graph::{
    edge_matches_kind, fan_text, graph_neighborhood, runtime_status_text, graph_path, node_edges, runtime_node_kind, GraphEdge,
    GraphNode,
};
use yai::report::{
    apply_materialize_report, runtime_graph_rebuild_report_json, MaterializeCounts,
    RuntimeGraphRebuildReport, RuntimeGraphSummary,
};

fn edge(kind: &str, from: &str, to: &str, id: &str) -> GraphEdge {
    GraphEdge {
        edge_kind: kind.to_string(),
        from_ref: from.to_string(),
        to_ref: to.to_string(),
        relation_id: id.to_string(),
    }
}

fn ids(edges: &[GraphEdge]) -> Vec<String> {
    edges.iter().map(|e| e.relation_id.clone()).collect()
}

fn sample() -> Vec<GraphEdge> {
    vec![
        edge("uses", "a", "b", "r1"),
        edge("uses", "b", "c", "r2"),
        edge("owns", "a", "c", "r3"),
        edge("uses", "c", "d", "r4"),
        edge("uses", "x", "a", "r5"),
    ]
}

#[test]
fn fanout_and_fanin_filter_and_limit() {
    let g = sample();
    assert_eq!(ids(&node_edges(&g, "a", None, 10, true)), vec!["r1", "r3"]);
    assert_eq!(ids(&node_edges(&g, "a", Some("owns"), 10, true)), vec!["r3"]);
    assert_eq!(ids(&node_edges(&g, "a", None, 1, true)), vec!["r1"]);
    assert_eq!(ids(&node_edges(&g, "c", None, 10, false)), vec!["r2", "r3"]);
    assert!(edge_matches_kind(&g[0], None));
    assert!(!edge_matches_kind(&g[0], Some("owns")));
}

#[test]
fn node_kinds_default_to_unknown() {
    let nodes = vec![
        GraphNode { node_ref: "a".to_string(), node_kind: "file".to_string() },
        GraphNode { node_ref: "a".to_string(), node_kind: "later".to_string() },
    ];
    assert_eq!(runtime_node_kind(&nodes, "a"), "file");
    assert_eq!(runtime_node_kind(&nodes, "z"), "unknown");
}

#[test]
fn neighborhood_walks_breadth_first_to_depth_and_limit() {
    let g = sample();
    let (nodes, edges) = graph_neighborhood(&g, "a", None, 1, 20);
    assert_eq!(nodes, vec!["a", "b", "c", "x"]);
    assert_eq!(ids(&edges), vec!["r1", "r3", "r5"]);
    let (nodes, edges) = graph_neighborhood(&g, "a", None, 2, 20);
    assert_eq!(nodes, vec!["a", "b", "c", "x", "d"]);
    assert_eq!(ids(&edges), vec!["r1", "r3", "r5", "r2", "r4"]);
    let (_, edges) = graph_neighborhood(&g, "a", None, 2, 2);
    assert_eq!(ids(&edges), vec!["r1", "r3"]);
    let (nodes, edges) = graph_neighborhood(&g, "a", Some("owns"), 2, 20);
    assert_eq!(nodes, vec!["a", "c"]);
    assert_eq!(ids(&edges), vec!["r3"]);
    let (nodes, edges) = graph_neighborhood(&g, "lonely", None, 2, 20);
    assert_eq!(nodes, vec!["lonely"]);
    assert!(edges.is_empty());
}

#[test]
fn paths_are_shortest_directed_walks_within_depth() {
    let g = sample();
    assert_eq!(ids(&graph_path(&g, "a", "d", 4).unwrap()), vec!["r3", "r4"]);
    assert_eq!(ids(&graph_path(&g, "x", "d", 4).unwrap()), vec!["r5", "r3", "r4"]);
    assert!(graph_path(&g, "x", "d", 2).is_none());
    assert!(graph_path(&g, "d", "a", 6).is_none());
    assert_eq!(graph_path(&g, "b", "b", 0).unwrap().len(), 0);
    let p = graph_path(&g, "x", "c", 6).unwrap();
    assert_eq!(p.first().unwrap().from_ref, "x");
    assert_eq!(p.last().unwrap().to_ref, "c");
    assert!(p.windows(2).all(|w| w[0].to_ref == w[1].from_ref));
}

#[test]
fn rebuild_report_starts_empty_and_takes_counts() {
    let report = RuntimeGraphRebuildReport::empty("case:1", "journal", "/tmp/lmdb", "graph_relations");
    assert_eq!(report.journal_replay_status, "not_applicable");
    assert_eq!(report.rebuild_status, "not_started");
    let summary = RuntimeGraphSummary {
        nodes_total: 2,
        edges_total: 0,
        outgoing_index_entries: 1,
        incoming_index_entries: 1,
        generation: 7,
        dirty: true,
        stale: false,
    };
    let mut report = report.with_runtime_graph(&summary);
    assert_eq!(report.warnings, vec!["no_graph_relations_for_case".to_string()]);
    assert_eq!(report.runtime_graph_status, "completed");
    apply_materialize_report(
        &mut report,
        &MaterializeCounts { relations_seen: 3, relations_written: 2, relations_duplicate: 1, relations_skipped: 0 },
    );
    assert_eq!((report.relations_seen, report.relations_written), (3, 2));
    report.errors.push("bad \"x\"".to_string());
    let json = runtime_graph_rebuild_report_json(&report);
    assert!(json.starts_with("{\n  \"report_schema\":\"yai.runtime_graph_rebuild_report.v1\",\n  \"case_ref\":\"case:1\",\n"));
    assert!(json.contains("  \"relations_seen\":3,\n"));
    assert!(json.contains("  \"runtime_generation\":7,\n"));
    assert!(json.contains("  \"dirty\":\"yes\",\n  \"stale\":\"no\",\n"));
    assert!(json.ends_with("  \"errors\":[\"bad \\\"x\\\"\"],\n  \"warnings\":[\"no_graph_relations_for_case\"]\n}\n"));
}

#[test]
fn fan_query_output() {
    let edges = vec![edge("supports", "a", "b", "r1"), edge("cites", "a", "c", "r2"), edge("supports", "c", "a", "r3")];
    let out = node_edges(&edges, "a", Some("supports"), 10, true);
    assert_eq!(
        fan_text(true, "case:1", "a", &out, 10, false, Some("supports")),
        "graph_fanout:\ncase_ref: case:1\nnode: a\nedges_total: 1\nlimit: 10\nedge_kind_filter: supports\nedges:\n\
         - edge_kind: supports\n  from_ref: a\n  to_ref: b\n  relation_id: r1\n"
    );
    let none = node_edges(&edges, "z", None, 200, false);
    assert_eq!(
        fan_text(false, "case:1", "z", &none, 200, true, None),
        "graph_fanin:\ncase_ref: case:1\nnode: z\nedges_total: 0\nlimit: 200\nlimit_clamped: yes\nedges: none\n"
    );
    assert_eq!(runtime_status_text(true, "x"), Err("usage: yai graph runtime-status".to_string()));
    let status = runtime_status_text(false, "graph_relations_v1").unwrap();
    assert!(status.starts_with("runtime_graph:\n  status: active_minimal\n"));
    assert!(status.contains("  graph_store: graph_relations_v1\n"));
}
