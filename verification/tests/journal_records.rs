use yai::observe::{hot_snapshot_status, projection_freshness_view, render_hot_status, HotSnapshotStatus, SnapshotRead};
use yai::preview::RecordKind;
use yai::records::{
    case_entry_record, check_frame_generation, interaction_turn_record, model_interpretation_record,
    model_output_refs, model_prompt_refs, retention_state_record, session_thread, transition_id,
    DEFAULT_THREAD_ID,
};
use yai::report::{
    journal_rebuild_report, relations_rebuild_report, runtime_graph_rebuild_report_json, ImportCounts,
    JournalRebuild, MaterializeCounts, RuntimeGraphSummary,
};
use yai::settings::{colors_enabled, env_var, session_environment};
use yai::threads::JournalRecord;

fn env(items: &[(&str, &str)]) -> Vec<(String, String)> {
    items.iter().map(|(k, v)| (k.to_string(), v.to_string())).collect()
}

#[test]
fn prompt_session_record_ids() {
    let entry = case_entry_record("case:a b", "subject:x:y", "model", "model_context", 7);
    assert_eq!(entry.id, "case-entry:case:a_b:subject-x-y:7");
    assert_eq!(
        entry.summary,
        "case_entry:admitted consumer:model kind:model_context redaction:summary_only raw_journal_access:not_provided filesystem_access:not_provided"
    );
    let p = model_prompt_refs("case:1", "subject:llm", 3);
    assert_eq!(p.attempt_id, "attempt:case:1:model-prompt-3");
    assert_eq!(p.invocation_id, "invocation:case:1:model-prompt-3");
    assert_eq!(p.record_id, "model-prompt:case:1:subject-llm:3");
    let o = model_output_refs("case:1", "subject:llm", 4);
    assert_eq!(o.receipt_id, "receipt:case:1:model-output-4");
    assert_eq!(o.result_id, "provider-result:case:1:model-output-4");
    assert_eq!(o.record_id, "model-output:case:1:subject-llm:4");
    assert_eq!(transition_id("model-output:case:1:subject-llm:4"), "transition:model-output:case:1:subject-llm:4");
    assert_eq!(transition_id("a b/c"), "transition:a_b_c");
}

#[test]
fn interpretation_turn_and_retention_records() {
    let i = model_interpretation_record("case:1", "subject:llm", "  the   answer ", 5);
    assert_eq!(i.record.id, "model-interpretation:case:1:subject-llm:5");
    assert_eq!(
        i.record.summary,
        "model_interpretation:observed source:provider_output authority:not_authoritative_state output_is:claim_or_proposal check_against:decisions_receipts_graph preview:the answer"
    );
    assert_eq!(i.interpretation_id, "interpretation:model-interpretation:case:1:subject-llm:5");
    let t = interaction_turn_record("case:1", "thread:default", "attempt:1", "hello  there", "hi", false, 9);
    assert_eq!(t.record.id, "interaction-turn:case:1:thread-default:9");
    assert_eq!(
        t.record.summary,
        "interaction_turn:9 thread_id:thread:default attempt_id:attempt:1 prompt_preview:hello there output_preview:hi transcript_retention:preview_only lane:selected_thread audit:journal_retained"
    );
    assert_eq!(t.turn_id, "turn:interaction-turn:case:1:thread-default:9");
    assert_eq!(t.operator_input, "hello there");
    let full = interaction_turn_record("c", "t", "a", "p", "o", true, 1);
    assert!(full.record.summary.contains("transcript_retention:full_redacted_case_local"));
    let on = retention_state_record("subject:llm", true, 2);
    assert_eq!(on.id, "prompt-retention:subject-llm:2");
    assert_eq!(
        on.summary,
        "prompt_transcript_retention:enabled scope:case_local redaction:secret_redacted prompt_preview:on provider_output_preview:on full_transcript:on_explicit memory_candidate:derived_not_raw_chat"
    );
    let off = retention_state_record("s", false, 3);
    assert!(off.summary.starts_with("prompt_transcript_retention:disabled "));
    assert!(off.summary.contains("full_transcript:off "));
}

#[test]
fn frame_generation_and_default_thread() {
    assert_eq!(check_frame_generation(4, 4), Ok(()));
    assert_eq!(
        check_frame_generation(3, 4),
        Err("stale_context_frame: frame_generation=3 current_generation=4".to_string())
    );
    let none: Vec<JournalRecord> = vec![];
    assert_eq!(session_thread(&none, "c"), (DEFAULT_THREAD_ID.to_string(), true));
    let active = vec![JournalRecord {
        id: "t".to_string(),
        case_ref: "c".to_string(),
        kind: RecordKind::InteractionThread,
        subject_ref: "s".to_string(),
        summary: String::new(),
        thread_id: Some("thread:x".to_string()),
        state: Some("active".to_string()),
        retention: None,
    }];
    assert_eq!(session_thread(&active, "c"), ("thread:x".to_string(), false));
}

fn snapshot() -> String {
    "{\"schema\":\"yai.hot_state.v1\",\"hot_state_id\":\"h\",\"case_ref\":\"case:1\",\"case_session_id\":\"s\",\
     \"case_context_id\":\"x\",\"case_session_status\":\"open\",\"case_world_status\":\"w\",\
     \"case_context_status\":\"k\",\"projection_freshness\":\"stale\",\"projection_stale_reason\":\"new_receipt_after_projection\",\
     \"case_version\":3,\"updated_at_unix_ms\":1700,\"pending_op_count\":2}"
        .to_string()
}

#[test]
fn hot_snapshot_status_and_freshness() {
    let missing = hot_snapshot_status(SnapshotRead::Missing);
    assert_eq!((missing.status.as_str(), missing.reason.as_str()), ("unavailable", "missing_snapshot"));
    let unreadable = hot_snapshot_status(SnapshotRead::Unreadable);
    assert_eq!(unreadable.reason, "unreadable_snapshot");
    let invalid = hot_snapshot_status(SnapshotRead::Read("{}".to_string()));
    assert_eq!((invalid.status.as_str(), invalid.reason.as_str()), ("unavailable", "invalid_snapshot"));
    assert_eq!(invalid.content, Some("{}".to_string()));
    let active = hot_snapshot_status(SnapshotRead::Read(snapshot()));
    assert_eq!((active.status.as_str(), active.reason.as_str()), ("active", "none"));

    let view = projection_freshness_view("case:1", "model", &active);
    assert_eq!(
        (view.freshness.as_str(), view.stale_reason.as_str(), view.policy.as_str(), view.source.as_str()),
        ("stale", "new_receipt_after_projection", "refresh_required", "hot_state")
    );
    let other = projection_freshness_view("case:2", "model", &active);
    assert_eq!(
        (other.freshness.as_str(), other.policy.as_str(), other.source.as_str()),
        ("fresh", "usable", "projection_record")
    );
    let empty_case = projection_freshness_view("", "operator", &active);
    assert_eq!(empty_case.source, "projection_record");
}

#[test]
fn hot_status_text() {
    let missing = hot_snapshot_status(SnapshotRead::Missing);
    let text = render_hot_status("/y/run/hot-state.json", &missing).unwrap();
    assert!(text.starts_with("hot_state: unavailable\nreason: missing_snapshot\nsnapshot: /y/run/hot-state.json\n"));
    assert!(text.ends_with("freshness_policy: unknown\nstale_reason: unknown\n"));
    let active = hot_snapshot_status(SnapshotRead::Read(snapshot()));
    let text = render_hot_status("/p", &active).unwrap();
    assert!(text.starts_with("hot_state: active\nsnapshot: /p\nsnapshot_path: /p\nsnapshot_status: active\nschema: yai.hot_state.v1\ncase: case:1\n"));
    assert!(text.contains("\nactive_thread: none\n"));
    assert!(text.contains("\ncase_version: 3\nprojection: stale\nprojection_policy: refresh_required\n"));
    assert!(text.contains("\npending_ops: 2\npending_obligations: 0\n"));
    assert!(text.ends_with("updated_at: 1700\n"));
    let broken = HotSnapshotStatus { status: "active".to_string(), reason: "none".to_string(), content: None };
    assert_eq!(render_hot_status("/p", &broken), Err("valid hot snapshot was not loaded".to_string()));
}

fn graph(edges: usize) -> RuntimeGraphSummary {
    RuntimeGraphSummary {
        nodes_total: 4,
        edges_total: edges,
        outgoing_index_entries: edges,
        incoming_index_entries: edges,
        generation: 9,
        dirty: false,
        stale: true,
    }
}

#[test]
fn rebuild_reports() {
    let missing = relations_rebuild_report("case:1", "/store", "graph_relations", None);
    assert_eq!(missing.rebuild_status, "missing_source");
    assert_eq!(missing.errors, vec!["record_store_not_ready".to_string()]);
    let done = relations_rebuild_report("case:1", "/store", "graph_relations", Some(&graph(0)));
    assert_eq!(done.rebuild_status, "completed");
    assert_eq!(done.graph_materialize_status, "not_applicable");
    assert_eq!(done.warnings, vec!["no_graph_relations_for_case".to_string()]);
    assert_eq!((done.nodes_total, done.relations_seen, done.runtime_generation), (4, 0, 9));

    let j = journal_rebuild_report("c", "/s", "g", "/j", JournalRebuild::Missing { journal_identity: "id".to_string() });
    assert_eq!((j.journal_replay_status.as_str(), j.rebuild_status.as_str()), ("failed", "missing_source"));
    assert_eq!((j.journal_path.as_str(), j.journal_identity.as_str()), ("/j", "id"));
    let nr = journal_rebuild_report(
        "c",
        "/s",
        "g",
        "/j",
        JournalRebuild::NotReady { journal_identity: "id".to_string(), valid_entries: 5, reason: "torn_tail".to_string() },
    );
    assert_eq!((nr.records_seen, nr.rebuild_status.as_str()), (5, "failed"));
    assert_eq!(nr.errors, vec!["torn_tail".to_string()]);
    let ok = journal_rebuild_report(
        "c",
        "/s",
        "g",
        "/j",
        JournalRebuild::Imported {
            journal_identity: "id".to_string(),
            import: ImportCounts { records_seen: 10, records_written: 8, records_duplicate: 2 },
            materialized: MaterializeCounts { relations_seen: 3, relations_written: 2, relations_duplicate: 1, relations_skipped: 0 },
            graph: graph(2),
        },
    );
    assert_eq!((ok.records_written, ok.relations_written, ok.edges_total), (8, 2, 2));
    assert_eq!(ok.rebuild_status, "completed");
    assert!(ok.warnings.is_empty());
    let json = runtime_graph_rebuild_report_json(&ok);
    assert!(json.contains("\"journal_path\":\"/j\""));
    assert!(json.contains("\"records_written\":8"));
}

#[test]
fn session_environment_precedence() {
    let process = env(&[("A", ""), ("B", "from-process")]);
    let file = vec![
        "# comment".to_string(),
        "A=from-file".to_string(),
        "B=ignored".to_string(),
        "C=".to_string(),
        "C=second".to_string(),
    ];
    let e = session_environment(&process, &file);
    assert_eq!(env_var(&e, "A"), Some("from-file".to_string()));
    assert_eq!(env_var(&e, "B"), Some("from-process".to_string()));
    assert_eq!(env_var(&e, "C"), Some("second".to_string()));
    assert_eq!(env_var(&e, "D"), None);
    assert!(colors_enabled(true, &env(&[("TERM", "xterm")])));
    assert!(!colors_enabled(false, &env(&[])));
    assert!(!colors_enabled(true, &env(&[("NO_COLOR", "1")])));
    assert!(!colors_enabled(true, &env(&[("TERM", "dumb")])));
}
