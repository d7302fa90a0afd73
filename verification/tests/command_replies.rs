use yai::observe::{
    carrier_reply, carrier_target, expected_state_arg, observe_compare_reply, process_observe_reply,
    process_signal_reply, signal_arg,
};
use yai::report::{relations_rebuild_report, runtime_graph_rebuild_text, RuntimeGraphSummary};
use yai::memory::retrieval_args;
use yai::routes::info_text;

fn words(items: &[&str]) -> Vec<String> {
    items.iter().map(|s| s.to_string()).collect()
}

#[test]
fn process_replies() {
    let observed = process_observe_reply(42, "running");
    assert!(observed.starts_with("process_ref: process:42\npid: 42\nstate: running\n"));
    assert!(observed.ends_with("observation_is_enforcement: false\n"));
    assert!(process_observe_reply(-3, "not_found").starts_with("process_ref: process:-3\npid: -3\n"));
    assert_eq!(expected_state_arg(&words(&["--expected", "stopped"])), Ok("stopped".to_string()));
    assert_eq!(expected_state_arg(&words(&[])), Err("--expected is required".to_string()));
    assert_eq!(
        expected_state_arg(&words(&["--expected", "paused"])),
        Err("--expected must be running or stopped".to_string())
    );
    let matched = observe_compare_reply(7, "stopped", "not_found");
    assert!(matched.contains("result: matched\n"));
    assert!(!matched.contains("divergence_candidate"));
    let mismatch = observe_compare_reply(7, "stopped", "running");
    assert!(mismatch.contains("result: mismatch\n"));
    assert!(mismatch.ends_with(
        "divergence_candidate: expected_stopped_but_running\nseverity: warning\nsilent_repair: false\n"
    ));
    assert_eq!(signal_arg(&words(&["--signal", "term"])), Ok("TERM".to_string()));
    assert_eq!(signal_arg(&words(&[])), Err("--signal is required".to_string()));
    let dry = process_signal_reply(5, "TERM", true);
    assert!(dry.starts_with("op: process.signal\npid: 5\nsignal: TERM\ndry_run: true\n"));
    assert!(dry.ends_with("expected_receipt: process_signal_receipt\n"));
    assert!(process_signal_reply(5, "TERM", false).ends_with("outcome: blocked\nreason: unsafe_process_target\n"));
}

#[test]
fn filesystem_carrier() {
    assert_eq!(
        carrier_target(&words(&["--sandbox", "/srv", "--path", "/srv/a"])),
        Ok(("/srv".to_string(), "/srv/a".to_string()))
    );
    assert_eq!(
        carrier_target(&words(&["--sandbox", "/srv", "--path", "/etc/a"])),
        Err("path is outside sandbox".to_string())
    );
    assert_eq!(carrier_target(&words(&["--path", "/srv/a"])), Err("--sandbox is required".to_string()));
    assert_eq!(carrier_target(&words(&["--sandbox", "/srv", "--path"])), Err("--path requires a value".to_string()));
    assert_eq!(
        carrier_reply(false, b"a"),
        "carrier: filesystem\neffect: fs.read\nstatus: observed\nbytes: 1\nhash: af63dc4c8601ec8c\n"
    );
    assert!(carrier_reply(true, b"").contains("effect: fs.write\nstatus: executed\nbytes: 0\nhash: cbf29ce484222325\n"));
}

#[test]
fn rebuild_output_and_info() {
    let missing = relations_rebuild_report("case:1", "/store", "graph_relations", None);
    let text = runtime_graph_rebuild_text(&missing, "/r.json");
    assert!(text.starts_with("runtime_graph_rebuild:\ncase_ref: case:1\nsource_mode: graph_relations\nlmdb_path: /store\n"));
    assert!(text.ends_with("rebuild_report: /r.json\nerrors:\n- record_store_not_ready\n"));
    let graph = RuntimeGraphSummary {
        nodes_total: 2,
        edges_total: 0,
        outgoing_index_entries: 0,
        incoming_index_entries: 0,
        generation: 1,
        dirty: true,
        stale: false,
    };
    let done = relations_rebuild_report("case:1", "/store", "graph_relations", Some(&graph));
    let text = runtime_graph_rebuild_text(&done, "/r.json");
    assert!(text.contains("nodes_total: 2\nedges_total: 0\n"));
    assert!(text.contains("dirty: yes\nstale: no\nrebuild_status: completed\n"));
    assert!(text.ends_with("warnings:\n- no_graph_relations_for_case\n"));
    assert!(info_text().starts_with("yai: technical YAI control command\n"));
    assert_eq!(info_text().lines().count(), 11);
}

#[test]
fn hybrid_retrieval_arguments() {
    let q = retrieval_args(&words(&["--participant", "p", "--resource", "res:1", "--limit", "5", "--include-superseded"]))
        .unwrap();
    assert_eq!(q.participant_id, "p");
    assert_eq!(q.resource_refs, words(&["res:1"]));
    assert!(q.causal_refs.is_empty());
    assert_eq!(q.max_results, 5);
    assert!(q.include_superseded);
    let plain = retrieval_args(&words(&["--participant", "p"])).unwrap();
    assert_eq!((plain.max_results, plain.include_superseded), (20, false));
    assert_eq!(retrieval_args(&words(&[])).err(), Some("--participant is required".to_string()));
    assert_eq!(
        retrieval_args(&words(&["--participant", "p", "--limit", "0"])).err(),
        Some("--limit must be greater than zero".to_string())
    );
}
