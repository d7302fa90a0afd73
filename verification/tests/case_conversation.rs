use yai::conversation::{
    derive_thread_summaries, operator_summary, resolve_conversation_participant, select_executor_check,
    str_lt, verify_provider_result, CaseParticipant, LineageEntry, PrincipalLink, TurnEntry, WorkStep,
};
use yai::preview::{render_legacy_case_entry_preview, render_legacy_case_entry_records, PreviewRecord, ProjectionCounts, RecordKind};
use yai::routes::{
    cli_main, conversation_case_command, handoff_command, memory_case_command, policy_command,
    route_operation, ConversationOp, Handler, HandoffOp, MemoryOp, PolicyOp,
};

fn words(items: &[&str]) -> Vec<String> {
    items.iter().map(|s| s.to_string()).collect()
}

#[test]
fn operations_route_to_their_handlers() {
    assert_eq!(route_operation("yai.init"), Ok((Handler::Security, 1)));
    assert_eq!(route_operation("yai.identity.whoami"), Ok((Handler::Identity, 1)));
    assert_eq!(route_operation("yai.case.participant.role.add"), Ok((Handler::CaseBindParticipantRole, 2)));
    assert_eq!(route_operation("yai.case.handoff.offer"), Ok((Handler::Handoff, 2)));
    assert_eq!(route_operation("yai.case.policy.anything"), Ok((Handler::CasePolicyPorcelain, 2)));
    assert_eq!(route_operation("yai.case.run"), Ok((Handler::CaseRuntimeRun, 2)));
    assert_eq!(
        route_operation("yai.nothing"),
        Err("registry_handler_not_resolved:yai.nothing".to_string())
    );
}

#[test]
fn subcommands_are_named() {
    assert_eq!(handoff_command(&words(&["offer", "x"])), Ok(HandoffOp::Offer));
    assert_eq!(handoff_command(&words(&["reconcile"])), Ok(HandoffOp::Reconcile));
    let usage = "usage: yai case handoff <offer|pending|show|accept|decline|result|reconcile>".to_string();
    assert_eq!(handoff_command(&words(&[])), Err(usage.clone()));
    assert_eq!(handoff_command(&words(&["steal"])), Err(usage));
    assert_eq!(policy_command(&words(&["publish"])), Ok(PolicyOp::Publish));
    assert_eq!(policy_command(&words(&[])), Err("policy command is required".to_string()));
    assert_eq!(policy_command(&words(&["burn"])), Err("unknown policy command: burn".to_string()));
    assert_eq!(memory_case_command("yai.case.memory.search"), Ok(MemoryOp::Search));
    assert_eq!(
        memory_case_command("yai.case.memory.forget"),
        Err("unsupported Case memory operation: yai.case.memory.forget".to_string())
    );
    assert_eq!(
        conversation_case_command("yai.case.conversation.draft.create"),
        Ok(ConversationOp::DraftCreate)
    );
    assert_eq!(
        conversation_case_command("yai.case.conversation.nope"),
        Err("conversation_registry_handler_not_resolved:yai.case.conversation.nope".to_string())
    );
}

#[test]
fn exit_codes() {
    assert_eq!(cli_main(&Ok(())), 0);
    assert_eq!(cli_main(&Err("failed".to_string())), 1);
}

fn participant(id: &str, views: &[(&str, &str)]) -> CaseParticipant {
    CaseParticipant {
        participant_id: id.to_string(),
        admitted_views: views.iter().map(|(a, b)| (a.to_string(), b.to_string())).collect(),
    }
}

fn link(tenant: &str, principal: &str, participant: &str) -> PrincipalLink {
    PrincipalLink {
        tenant_id: tenant.to_string(),
        principal_id: principal.to_string(),
        participant_id: participant.to_string(),
    }
}

#[test]
fn conversation_participant_resolution() {
    let ps = vec![participant("participant:b", &[]), participant("participant:a", &[]), participant("participant:c", &[])];
    let links = vec![
        link("tenant:1", "principal:x", "participant:b"),
        link("tenant:1", "principal:x", "participant:a"),
        link("tenant:2", "principal:x", "participant:c"),
        link("tenant:1", "principal:y", "participant:c"),
    ];
    assert_eq!(
        resolve_conversation_participant(None, &ps, &links, "principal:x", None),
        Err("legacy_unscoped_case_cannot_own_conversation_content".to_string())
    );
    assert_eq!(
        resolve_conversation_participant(Some("tenant:1"), &ps, &links, "principal:x", None),
        Err("conversation_participant_selection_required:participant:a,participant:b".to_string())
    );
    assert_eq!(
        resolve_conversation_participant(Some("tenant:1"), &ps, &links, "principal:x", Some("participant:b")),
        Ok("participant:b".to_string())
    );
    assert_eq!(
        resolve_conversation_participant(Some("tenant:1"), &ps, &links, "principal:x", Some("participant:c")),
        Err("conversation_participant_not_admitted_for_model_context".to_string())
    );
    assert_eq!(
        resolve_conversation_participant(Some("tenant:1"), &ps, &links, "principal:y", None),
        Ok("participant:c".to_string())
    );
    assert_eq!(
        resolve_conversation_participant(Some("tenant:3"), &ps, &links, "principal:y", None),
        Err("conversation_participant_not_admitted_for_model_context".to_string())
    );
}

#[test]
fn executor_and_provider_result_checks() {
    let ps = vec![
        participant("participant:m", &[("model", "model_context")]),
        participant("participant:o", &[("operator", "model_context")]),
    ];
    assert_eq!(select_executor_check(&ps, "participant:m"), Ok(()));
    assert_eq!(
        select_executor_check(&ps, "participant:o"),
        Err("conversation_executor_model_view_not_admitted".to_string())
    );
    let lineage = vec![
        LineageEntry::InvocationStarted { invocation_id: "inv:1".to_string(), participant_id: "participant:m".to_string() },
        LineageEntry::Other,
        LineageEntry::ResultRecorded { result_id: "res:1".to_string(), invocation_id: "inv:1".to_string() },
        LineageEntry::ResultRecorded { result_id: "res:2".to_string(), invocation_id: "inv:2".to_string() },
    ];
    assert_eq!(verify_provider_result(&lineage, "participant:m", "res:1"), Ok(()));
    assert_eq!(
        verify_provider_result(&lineage, "participant:o", "res:1"),
        Err("conversation_derivation_provider_result_not_visible_to_participant".to_string())
    );
    assert_eq!(
        verify_provider_result(&lineage, "participant:m", "res:2"),
        Err("conversation_derivation_provider_result_not_visible_to_participant".to_string())
    );
    assert_eq!(
        verify_provider_result(&lineage, "participant:m", "res:9"),
        Err("conversation_derivation_provider_result_not_in_case".to_string())
    );
}

fn turn(thread: &str, participant: &str, base: u64) -> TurnEntry {
    TurnEntry { thread_id: thread.to_string(), participant_id: participant.to_string(), base_generation: base }
}

#[test]
fn thread_summaries_from_turns() {
    let turns = vec![
        turn("thread:b", "p", 4),
        turn("thread:a", "p", 7),
        turn("thread:b", "p", 1),
        turn("thread:c", "q", 0),
        turn("thread:a", "p", 4),
        turn("thread:z", "p", u64::MAX),
    ];
    let out = derive_thread_summaries(&turns, "p");
    let got: Vec<(String, u64, u64, u64)> = out
        .iter()
        .map(|s| (s.thread_id.clone(), s.committed_turn_count, s.first_generation, s.last_generation))
        .collect();
    assert_eq!(
        got,
        vec![
            ("thread:b".to_string(), 2, 2, 5),
            ("thread:a".to_string(), 2, 5, 8),
            ("thread:z".to_string(), 1, u64::MAX, u64::MAX),
        ]
    );
    assert!(derive_thread_summaries(&turns, "nobody").is_empty());
    assert!(str_lt("thread:a", "thread:b"));
    assert!(str_lt("ab", "abc"));
    assert!(!str_lt("b", "ab"));
    assert!(!str_lt("same", "same"));
}

#[test]
fn operator_work_summary() {
    assert_eq!(operator_summary("req:1", &vec![]), "case_work: req:1");
    let steps = vec![
        WorkStep {
            ordinal: 0,
            plan_id: "plan:1".to_string(),
            lane_id: "lane:1".to_string(),
            target_id: "target:1".to_string(),
            provider_result_id: "res:1".to_string(),
            operation_id: None,
            posture: None,
            review_id: None,
            recovered: false,
        },
        WorkStep {
            ordinal: 1,
            plan_id: "plan:2".to_string(),
            lane_id: "lane:2".to_string(),
            target_id: "target:2".to_string(),
            provider_result_id: "res:2".to_string(),
            operation_id: Some("op:2".to_string()),
            posture: Some("review_required".to_string()),
            review_id: Some("review:2".to_string()),
            recovered: true,
        },
    ];
    assert_eq!(
        operator_summary("req:1", &steps),
        "case_work: req:1\n  1. provider_result reused=false res:1\n  2. review_required reused=true op:2\nreview_id: review:2\
         \ntarget_id: target:2\nlane_id: lane:2\nplan_id: plan:2\nprovider_result_id: res:2"
    );
}

fn preview_record(id: &str, kind: RecordKind, label: &str, case_ref: &str) -> PreviewRecord {
    PreviewRecord {
        id: id.to_string(),
        kind,
        kind_label: label.to_string(),
        case_ref: case_ref.to_string(),
        subject_ref: String::new(),
        attempt_id: "att:1".to_string(),
        decision_id: String::new(),
        receipt_id: String::new(),
        summary: format!("about {id}"),
    }
}

fn counts(case_ref: &str) -> ProjectionCounts {
    ProjectionCounts {
        case_ref: case_ref.to_string(),
        source_record_count: 3,
        case_domain_count: 1,
        case_attachment_count: 0,
        case_binding_count: 0,
        interaction_thread_count: 0,
        interaction_turn_count: 0,
        participant_view_frame_count: 0,
        model_projection_count: 0,
        operator_projection_count: 0,
        filesystem_receipt_count: 0,
        memory_candidate_count: 0,
        projection_rule_count: 0,
        authority_scope_count: 0,
        model_interpretation_count: 0,
        graph_edge_count: 2,
    }
}

#[test]
fn preview_sections() {
    let rs = vec![
        preview_record("r1", RecordKind::CaseDomain, "case_domain", "case:1"),
        preview_record("r2", RecordKind::GraphEdge, "graph_edge", "case:2"),
        preview_record("r3", RecordKind::Decision, "decision", "case:1"),
    ];
    let mut out: Vec<char> = Vec::new();
    render_legacy_case_entry_records(&mut out, "Case World", &rs, Some("case:1"), &vec![RecordKind::CaseDomain]);
    let text: String = out.iter().collect();
    assert_eq!(
        text,
        "## Case World\n- r1 kind:case_domain subject_ref:subject:none attempt_id:att:1 decision_id:none receipt_id:none summary:about r1\n\n"
    );
    let mut empty: Vec<char> = Vec::new();
    render_legacy_case_entry_records(&mut empty, "Graph", &rs, Some("case:1"), &vec![RecordKind::GraphEdge]);
    assert_eq!(empty.iter().collect::<String>(), "## Graph\n- none\n\n");

    let whole = render_legacy_case_entry_preview(&rs, None, &counts("case:1"));
    assert!(whole.starts_with("case_ref: case:1\ncase_world: materialized\n"));
    assert!(whole.contains("records: 3\n"));
    assert!(whole.contains("graph_edges: 2\n"));
    assert!(whole.contains("## Decisions\n- r3 kind:decision"));
    assert!(whole.contains("## Graph\n- none\n"));
    assert!(whole.ends_with("not provided to the model participant view.\n\n"));
    let unknown = render_legacy_case_entry_preview(&rs, None, &counts(""));
    assert!(unknown.starts_with("case_ref: unknown\n"));
    assert!(unknown.contains("## Graph\n- r2 kind:graph_edge"));
}
