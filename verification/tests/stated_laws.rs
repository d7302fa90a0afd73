use yai::graph::{graph_path, path_text, GraphEdge};
use yai::lowering::{catalog_scope_check, lower_call, CallArguments, CatalogScope, Lowering, OfferedShape};
use yai::recovery::{completed_step, recovered_plan, WorkHistoryEntry};
use yai::controller::{controller_status, controller_step, opening_thread, ControllerEvent, ControllerReply, ControllerState};
use yai::conversation::TurnEntry;
use yai::execution::{
    invocation_budget_spent, work_limits_required, work_operation_step, work_output_step,
    AdvancedOperation, OperationOutcome, StepDecision, WorkLimits,
};
use yai::feedback::{feedback_entries, CapabilityEvent, DecodedCall, DecodedOutput, ViewResource};
use yai::http::{
    decode_chunked_body, request_write_step, response_outcome, WriteEvent, WriteStep,
};
use yai::memory::{embedding_order, EmbeddingItem};
use yai::presentation::{block, ExecutionPosture};
use yai::preview::RecordKind;
use yai::semantic::{admit_rendered_input, SemanticArtifactKind};
use yai::settings::{prompt_runtime_settings, JournalRead};
use yai::terminal::{
    command_vocabulary, help_text, interactive_options_check, join_with, scoped_name, unknown_command_reply,
};
use yai::json_scan::{json_escape, parse_json_string_at};
use yai::threads::JournalRecord;
use yai::words::wrap_words;

fn words(items: &[&str]) -> Vec<String> {
    items.iter().map(|s| s.to_string()).collect()
}

fn env(items: &[(&str, &str)]) -> Vec<(String, String)> {
    items.iter().map(|(a, b)| (a.to_string(), b.to_string())).collect()
}

fn record(id: &str, case_ref: &str) -> JournalRecord {
    JournalRecord {
        id: id.to_string(),
        case_ref: case_ref.to_string(),
        kind: RecordKind::InteractionThread,
        subject_ref: "s".to_string(),
        summary: String::new(),
        thread_id: None,
        state: None,
        retention: None,
    }
}

#[test]
fn scoped_name_reads_back_as_itself() {
    let first = scoped_name("case:", " case:demo ").unwrap();
    assert_eq!(first, "case:demo");
    assert_eq!(scoped_name("case:", &first), Ok(first.clone()));
    let plain = scoped_name("case:", "demo").unwrap();
    assert_eq!(plain, "case:demo");
    assert_eq!(scoped_name("case:", "a b"), Err("setup_identifier_invalid".to_string()));
}

#[test]
fn block_closing_marker_stands_once_at_the_end() {
    let out = block("Model", "[/Model]\nline\n[/Model]");
    let marker = "\n[/Model]\n";
    assert_eq!(out.matches(marker).count(), 1);
    assert!(out.ends_with(marker));
    assert!(out.starts_with("\n[Model]\n"));
}

#[test]
fn wrapping_keeps_words_and_fills_greedily() {
    let text = "alpha beta gamma delta epsilon zeta eta theta iota kappa lambda";
    let lines = wrap_words(text, "  ", 30);
    let bodies: Vec<&str> = lines.iter().map(|l| &l[2..]).collect();
    assert_eq!(bodies.join(" "), text);
    for pair in bodies.windows(2) {
        let next_first = pair[1].split(' ').next().unwrap();
        assert!(pair[0].len() + 1 + next_first.len() > 28);
    }
    assert_eq!(lines[0], "  alpha beta gamma delta");
}

#[test]
fn accepted_embedding_reply_indices_are_a_permutation() {
    let item = |ix: u64| EmbeddingItem { index: Some(ix), vector_len: Some(3), finite: true, nonzero: true };
    let items = vec![item(2), item(0), item(1)];
    assert_eq!(embedding_order(Some("m"), Some(&items), "m", 3, 3), Ok(vec![1, 2, 0]));
    let repeated = vec![item(0), item(0), item(1)];
    assert_eq!(
        embedding_order(Some("m"), Some(&repeated), "m", 3, 3),
        Err("memory_encoder_response_index_invalid".to_string())
    );
}

#[test]
fn request_writes_step_through_the_request() {
    assert!(matches!(request_write_step(0, 10, &WriteEvent::Wrote(4)), WriteStep::More(4)));
    assert!(matches!(request_write_step(4, 10, &WriteEvent::Wrote(6)), WriteStep::Sent));
    match request_write_step(0, 10, &WriteEvent::Wrote(0)) {
        WriteStep::Refused(e) => assert_eq!(e, "provider_not_dispatched:zero_write"),
        _ => panic!("zero write must be refused"),
    }
    match request_write_step(4, 10, &WriteEvent::Failed("reset".to_string())) {
        WriteStep::Refused(e) => assert_eq!(e, "provider_delivery_indeterminate:partial_write:4:reset"),
        _ => panic!("failed write must be refused"),
    }
    match request_write_step(0, 10, &WriteEvent::Failed("refused".to_string())) {
        WriteStep::Refused(e) => assert_eq!(e, "provider_not_dispatched:write:refused"),
        _ => panic!("failed write must be refused"),
    }
}

#[test]
fn accepted_request_then_drop_is_delivery_indeterminate() {
    let read: Result<Vec<u8>, String> = Ok(b"HTTP/1.1 200 OK".to_vec());
    assert_eq!(
        response_outcome(64, &read).err(),
        Some("provider_delivery_indeterminate:invalid_http_response:bytes=64".to_string())
    );
    let failed: Result<Vec<u8>, String> = Err("reset".to_string());
    assert_eq!(
        response_outcome(64, &failed).err(),
        Some("provider_delivery_indeterminate:response_read:bytes=64:reset".to_string())
    );
    let good: Result<Vec<u8>, String> = Ok(b"HTTP/1.1 200 OK\r\nX: y\r\n\r\nbody".to_vec());
    let reply = response_outcome(64, &good).unwrap();
    assert_eq!((reply.status, reply.body), (200, b"body".to_vec()));
}

#[test]
fn empty_chunked_body_decodes_to_nothing() {
    assert_eq!(decode_chunked_body(b"0\r\n\r\n"), Ok(vec![]));
    assert_eq!(decode_chunked_body(b"3\r\nabc\r\n0\r\n\r\n"), Ok(b"abc".to_vec()));
}

fn native_history() -> Vec<CapabilityEvent> {
    vec![
        CapabilityEvent::SelectionRecorded {
            selection_id: "sel:1".to_string(),
            causal_refs: words(&[
                "provider-normalization-contract:schema.v1",
                "provider-realization-shape:text_functions_to_text_or_call",
            ]),
        },
        CapabilityEvent::InvocationStarted {
            invocation_id: "inv:1".to_string(),
            participant_id: "p".to_string(),
            governed_selection: Some("sel:1".to_string()),
        },
        CapabilityEvent::ResultRecorded {
            case_id: "c".to_string(),
            result_id: "res:1".to_string(),
            invocation_id: "inv:1".to_string(),
            output: "{}".to_string(),
        },
        CapabilityEvent::OperationRecorded {
            operation_id: "op:1".to_string(),
            participant_id: "p".to_string(),
            provider_result_id: Some("res:1".to_string()),
        },
        CapabilityEvent::Terminal { operation_id: "op:1".to_string(), transition_id: "tr:1".to_string(), denied: true },
    ]
}

fn decoded_call(call: Option<&str>) -> Option<DecodedOutput> {
    Some(DecodedOutput {
        schema: "schema.v1".to_string(),
        call: call.map(|c| DecodedCall {
            call_id: c.to_string(),
            function_name: "fs_write".to_string(),
            resource_id: "res:fs".to_string(),
            configuration_digest: "d".to_string(),
        }),
    })
}

#[test]
fn feedback_pairs_each_call_with_its_answer() {
    let h = native_history();
    let view: Vec<ViewResource> = vec![];
    let es = feedback_entries(&h, "c", "p", &view, "schema.v1", &words(&["res:1"]), &vec![decoded_call(Some("call_1"))])
        .unwrap();
    assert_eq!(es.len(), 1);
    assert_eq!(
        (es[0].result_id.as_str(), es[0].call_id.as_str(), es[0].function_name.as_str()),
        ("res:1", "call_1", "fs_write")
    );
    assert_eq!((es[0].operation_id.as_str(), es[0].transition_id.as_str(), es[0].denied), ("op:1", "tr:1", true));
    assert_eq!(
        feedback_entries(&h, "c", "p", &view, "schema.v1", &words(&["res:1", "res:1"]), &vec![decoded_call(Some("a")), decoded_call(Some("a"))])
            .err(),
        Some("capability_feedback_duplicate".to_string())
    );
    assert_eq!(
        feedback_entries(&h, "c", "p", &view, "schema.v1", &words(&["res:1"]), &vec![decoded_call(None)]).err(),
        Some("capability_feedback_request_missing".to_string())
    );
    assert_eq!(
        feedback_entries(&h, "c", "p", &view, "schema.v1", &words(&["res:1"]), &vec![None]).err(),
        Some("capability_feedback_output_invalid".to_string())
    );
    let other = Some(DecodedOutput { schema: "schema.v0".to_string(), call: None });
    assert_eq!(
        feedback_entries(&h, "c", "p", &view, "schema.v1", &words(&["res:1"]), &vec![other]).err(),
        Some("capability_feedback_schema_invalid".to_string())
    );
    let many: Vec<String> = (0..25).map(|i| format!("r{i}")).collect();
    let none: Vec<Option<DecodedOutput>> = (0..25).map(|_| None).collect();
    assert_eq!(
        feedback_entries(&h, "c", "p", &view, "schema.v1", &many, &none).err(),
        Some("capability_feedback_bound".to_string())
    );
    assert_eq!(
        feedback_entries(&h, "c", "p", &view, "schema.v1", &words(&["res:9", "res:9"]), &vec![None, None]).err(),
        Some("capability_feedback_result_not_canonical".to_string())
    );
}

#[test]
fn work_budget_and_step_refusals() {
    let limits = WorkLimits { invocations: 2, operations: 2, effects: 1 };
    assert!(!invocation_budget_spent(1, &limits));
    assert!(invocation_budget_spent(2, &limits));
    assert!(work_limits_required(None).is_err());
    assert_eq!(work_limits_required(None).err(), Some("case_work_intent_required".to_string()));
    assert_eq!(work_limits_required(Some(WorkLimits { invocations: 1, operations: 1, effects: 0 })).unwrap().invocations, 1);
    assert_eq!(work_output_step(None, "s", 0, 0, &limits, true, false), Err("case_work_output_invalid".to_string()));
    assert_eq!(
        work_output_step(Some("t"), "s", 0, 0, &limits, true, false),
        Err("case_work_output_contract_mismatch".to_string())
    );
    assert_eq!(work_output_step(Some("s"), "s", 0, 0, &limits, true, false), Ok(StepDecision::Dispatch));
    assert_eq!(work_output_step(Some("s"), "s", 0, 1, &limits, true, true), Ok(StepDecision::Stop));
    assert_eq!(work_output_step(Some("s"), "s", 0, 0, &limits, false, false), Ok(StepDecision::Complete));
    assert_eq!(
        work_operation_step(true, AdvancedOperation::Unsupported, None),
        Err("conversation_cancelled_before_dispatch".to_string())
    );
    assert_eq!(
        work_operation_step(false, AdvancedOperation::Unsupported, None),
        Err("case_work_operation_kind_not_supported".to_string())
    );
    assert_eq!(
        work_operation_step(false, AdvancedOperation::FilesystemWrite(OperationOutcome::AwaitingReview), None),
        Ok(Some(ExecutionPosture::AwaitingReview))
    );
    assert_eq!(
        work_operation_step(false, AdvancedOperation::ResourceAccess(OperationOutcome::Settled), Some("after-capability-outcome")),
        Err("case_work_failpoint_after_capability_outcome".to_string())
    );
    assert_eq!(work_operation_step(false, AdvancedOperation::ResourceAccess(OperationOutcome::Settled), None), Ok(None));
}

#[test]
fn over_budget_invocation_persists_nothing() {
    let (units, kinds) = admit_rendered_input(9, 3).unwrap();
    assert_eq!(units, 3);
    assert_eq!(
        kinds,
        vec![
            SemanticArtifactKind::Projection,
            SemanticArtifactKind::ContextFrame,
            SemanticArtifactKind::RenderedInputMetadata,
            SemanticArtifactKind::ResidencyPlan,
        ]
    );
    assert_eq!(
        admit_rendered_input(13, 3).err(),
        Some("provider_input_budget_exceeded: estimated_units=4 max_units=3".to_string())
    );
}

#[test]
fn prompt_runtime_keeps_its_promises() {
    let e = env(&[("YAI_CASE_REF", "c"), ("YAI_PROVIDER_BASE_URL", "http://u"), ("YAI_PROVIDER_MODEL", "m")]);
    let none: Vec<String> = vec![];
    assert_eq!(
        prompt_runtime_settings(&none, &e, &JournalRead::Missing("/tmp/j.jsonl".to_string())).err(),
        Some("explicit Case journal does not exist: /tmp/j.jsonl".to_string())
    );
    assert_eq!(
        prompt_runtime_settings(&none, &e, &JournalRead::Unlocated("no journal".to_string())).err(),
        Some("no journal".to_string())
    );
    assert_eq!(
        prompt_runtime_settings(&words(&["--language-mode", "full"]), &e, &JournalRead::LoadFailed("x".to_string())).err(),
        Some("--language-mode must be auto or none".to_string())
    );
    assert_eq!(
        prompt_runtime_settings(&none, &e, &JournalRead::LoadFailed("failed to load j".to_string())).err(),
        Some("failed to load j".to_string())
    );
    assert_eq!(
        prompt_runtime_settings(&none, &e, &JournalRead::Loaded(vec![record("r1", "c"), record("r2", "d")])).err(),
        Some("journal_case_identity_mismatch: expected=c observed=d record_id=r2".to_string())
    );
    let s = prompt_runtime_settings(&none, &e, &JournalRead::Loaded(vec![record("r1", "c")])).unwrap();
    assert_eq!((s.case_ref.as_str(), s.language_mode.as_str()), ("c", "none"));
    let governed = words(&[
        "--selection-id", "sel", "--target-id", "t", "--logical-turn-id", "l", "--attempt-number", "2",
        "--continuation-ref", "ref",
    ]);
    let g = prompt_runtime_settings(&governed, &e, &JournalRead::Loaded(vec![])).unwrap();
    assert!(g.governance.is_some());
    assert_eq!(g.continuation, None);
}

#[test]
fn unknown_command_and_help_replies() {
    let all = command_vocabulary();
    assert_eq!(all.len(), 67);
    assert_eq!(all[0], "/help");
    assert_eq!(all[66], "/quit");
    assert_eq!(join_with(&words(&["a", "b", "c"]), " | "), "a | b | c");
    assert_eq!(join_with(&words(&[]), " | "), "");
    assert_eq!(help_text(true), all.join("\n"));
    assert!(help_text(false).starts_with("Case: /case /participants"));
    assert!(help_text(false).ends_with("Exit: /exit"));
    let reply = unknown_command_reply("/nope\u{1b}");
    assert!(reply.starts_with("unknown_command: /nope"));
    assert!(!reply.contains('\u{1b}'));
    assert!(reply.ends_with(&format!("\ncommands: {}", all.join(" | "))));
}

#[test]
fn path_search_finds_a_shortest_path_within_depth() {
    let edge = |from: &str, to: &str, id: &str| GraphEdge {
        edge_kind: "k".to_string(),
        from_ref: from.to_string(),
        to_ref: to.to_string(),
        relation_id: id.to_string(),
    };
    let g = vec![
        edge("a", "b", "1"),
        edge("b", "c", "2"),
        edge("c", "d", "3"),
        edge("d", "e", "4"),
        edge("a", "x", "5"),
        edge("x", "e", "6"),
    ];
    let p = graph_path(&g, "a", "e", 6).unwrap();
    let ids: Vec<&str> = p.iter().map(|e| e.relation_id.as_str()).collect();
    assert_eq!(ids, vec!["5", "6"]);
    assert_eq!(graph_path(&g, "a", "e", 2).unwrap().len(), 2);
    assert!(graph_path(&g, "a", "e", 1).is_none());
    assert_eq!(graph_path(&g, "a", "d", 3).unwrap().len(), 3);
    assert!(graph_path(&g, "a", "d", 2).is_none());
}

#[test]
fn lowering_matches_only_offered_functions() {
    let offered = vec![
        OfferedShape { name: "yai_write".to_string(), filesystem_write: true, template_keys: Some(vec![]), tool_call: false },
        OfferedShape {
            name: "yai_read".to_string(),
            filesystem_write: false,
            template_keys: Some(words(&["action"])),
            tool_call: false,
        },
        OfferedShape {
            name: "yai_tool".to_string(),
            filesystem_write: false,
            template_keys: Some(words(&["action", "name", "catalog_digest"])),
            tool_call: true,
        },
        OfferedShape { name: "yai_broken".to_string(), filesystem_write: false, template_keys: None, tool_call: false },
    ];
    let args = |path: Option<&str>, content: Option<&str>, keys: Option<&[&str]>| CallArguments {
        path: path.map(|s| s.to_string()),
        content: content.map(|s| s.to_string()),
        keys: keys.map(words),
    };
    assert_eq!(lower_call(&offered, "yai_other", &args(None, None, None)).err(), Some("capability_not_offered".to_string()));
    match lower_call(&offered, "yai_write", &args(Some("a.txt"), Some("hi"), None)).unwrap() {
        Lowering::Write { offered, path, content } => assert_eq!((offered, path.as_str(), content.as_str()), (0, "a.txt", "hi")),
        _ => panic!("a write is lowered as a write"),
    }
    assert_eq!(
        lower_call(&offered, "yai_write", &args(None, Some("hi"), None)).err(),
        Some("capability_path_missing".to_string())
    );
    assert_eq!(
        lower_call(&offered, "yai_write", &args(Some("a"), None, None)).err(),
        Some("capability_content_missing".to_string())
    );
    assert!(matches!(lower_call(&offered, "yai_read", &args(None, None, Some(&["path"]))), Ok(Lowering::Merge { offered: 1 })));
    assert_eq!(
        lower_call(&offered, "yai_read", &args(None, None, Some(&["path", "action"]))).err(),
        Some("capability_template_override".to_string())
    );
    assert_eq!(
        lower_call(&offered, "yai_read", &args(None, None, None)).err(),
        Some("capability_arguments_invalid".to_string())
    );
    assert!(matches!(lower_call(&offered, "yai_tool", &args(None, None, Some(&["action"]))), Ok(Lowering::ToolCall { offered: 2 })));
    assert_eq!(
        lower_call(&offered, "yai_broken", &args(None, None, Some(&[]))).err(),
        Some("capability_template_invalid".to_string())
    );
    let scope = |case: &str, participant: &str, catalog: bool, refusal: Option<&str>| CatalogScope {
        case_id: case.to_string(),
        participant_id: participant.to_string(),
        is_mcp_catalog: catalog,
        refusal: refusal.map(|s| s.to_string()),
    };
    assert_eq!(catalog_scope_check(&vec![scope("c", "p", true, None)], "c", "p"), Ok(()));
    assert_eq!(
        catalog_scope_check(&vec![scope("c", "q", true, None)], "c", "p"),
        Err("capability_catalog_scope_mismatch".to_string())
    );
    assert_eq!(
        catalog_scope_check(&vec![scope("c", "p", false, None)], "c", "p"),
        Err("capability_catalog_scope_mismatch".to_string())
    );
    assert_eq!(
        catalog_scope_check(&vec![scope("c", "p", true, Some("observation_invalid")), scope("d", "p", true, None)], "c", "p"),
        Err("observation_invalid".to_string())
    );
    let many: Vec<CatalogScope> = (0..17).map(|_| scope("c", "p", true, None)).collect();
    assert_eq!(catalog_scope_check(&many, "c", "p"), Err("capability_catalog_bound".to_string()));
}

#[test]
fn completed_step_is_recovered_not_repeated() {
    let selection = |id: &str, req: &str, refs: &[&str]| WorkHistoryEntry::SelectionRecorded {
        selection_id: id.to_string(),
        requirement_id: req.to_string(),
        logical_turn_id: "cognitive-realization:plan:1".to_string(),
        causal_refs: words(refs),
    };
    let started = |inv: &str, sel: &str| WorkHistoryEntry::InvocationStarted {
        invocation_id: inv.to_string(),
        governed_selection: Some(sel.to_string()),
    };
    let refs = ["provider-normalization-contract:schema.v1", "binding:1"];
    let h = vec![
        WorkHistoryEntry::BindingRecorded { binding_id: "binding:1".to_string() },
        selection("sel:1", "req:1", &refs),
        started("inv:1", "sel:1"),
        WorkHistoryEntry::ResultRecorded {
            result_id: "res:1".to_string(),
            invocation_id: "inv:1".to_string(),
            output: "{}".to_string(),
        },
    ];
    let s = completed_step(&h, "req:1", "schema.v1").unwrap().unwrap();
    assert_eq!(
        (s.selection_id.as_str(), s.invocation_id.as_str(), s.result_id.as_str(), s.binding_id.as_str()),
        ("sel:1", "inv:1", "res:1", "binding:1")
    );
    assert_eq!(recovered_plan(&s.logical_turn_id), Ok("plan:1".to_string()));
    assert_eq!(recovered_plan("plan:1"), Err("case_work_exact_plan_missing".to_string()));
    assert!(completed_step(&h, "req:2", "schema.v1").unwrap().is_none());
    assert_eq!(
        completed_step(&h, "req:1", "schema.v2").err(),
        Some("case_work_step_contract_mismatch".to_string())
    );
    let pending = vec![selection("sel:2", "req:1", &refs), started("inv:2", "sel:2")];
    assert_eq!(
        completed_step(&pending, "req:1", "schema.v1").err(),
        Some("case_work_prior_delivery_indeterminate".to_string())
    );
    let mut safe = vec![selection("sel:2", "req:1", &refs), started("inv:2", "sel:2")];
    safe.push(WorkHistoryEntry::AttemptOutcome { selection_id: "sel:2".to_string(), retry_safe: true });
    assert!(completed_step(&safe, "req:1", "schema.v1").unwrap().is_none());
    let unbound = vec![
        selection("sel:3", "req:1", &["provider-normalization-contract:schema.v1"]),
        started("inv:3", "sel:3"),
        WorkHistoryEntry::ResultRecorded {
            result_id: "res:3".to_string(),
            invocation_id: "inv:3".to_string(),
            output: "{}".to_string(),
        },
    ];
    assert_eq!(
        completed_step(&unbound, "req:1", "schema.v1").err(),
        Some("case_work_historical_binding_missing".to_string())
    );
}

#[test]
fn controller_selects_only_committed_threads() {
    let s = ControllerState { active_thread_id: "thread:a".to_string(), cancel_requested: false };
    assert_eq!(
        controller_step(&s, &ControllerEvent::UseThread { thread_id: "thread:z".to_string(), committed: words(&["thread:a"]) })
            .err(),
        Some("conversation_thread_not_in_committed_history".to_string())
    );
    let (s2, r) = controller_step(&s, &ControllerEvent::UseThread {
        thread_id: "thread:b".to_string(),
        committed: words(&["thread:a", "thread:b"]),
    })
    .unwrap();
    assert_eq!(s2.active_thread_id, "thread:b");
    assert!(matches!(r, ControllerReply::ThreadSelected { durable: true, .. }));
    let (s3, r) = controller_step(&s2, &ControllerEvent::NewThread { fresh_id: "thread:new".to_string() }).unwrap();
    assert_eq!(s3.active_thread_id, "thread:new");
    assert!(matches!(r, ControllerReply::ThreadSelected { durable: false, .. }));
    let (s4, r) = controller_step(&s3, &ControllerEvent::Cancel).unwrap();
    assert!(s4.cancel_requested);
    assert!(matches!(r, ControllerReply::CancellationRequested));
    assert_eq!(
        controller_step(&s4, &ControllerEvent::Submit { part_count: 0 }).err(),
        Some("conversation_turn_requires_content".to_string())
    );
    let (s5, r) = controller_step(&s4, &ControllerEvent::Retry).unwrap();
    assert!(!s5.cancel_requested);
    assert!(matches!(r, ControllerReply::Proceed));
    match controller_step(&s5, &ControllerEvent::Inspect { committed: words(&["thread:a"]) }).unwrap().1 {
        ControllerReply::Status { active_thread_id, durable } => assert_eq!((active_thread_id.as_str(), durable), ("thread:new", false)),
        _ => panic!("inspect answers with the status"),
    }
    let turn = |t: &str, p: &str| TurnEntry { thread_id: t.to_string(), participant_id: p.to_string(), base_generation: 1 };
    let turns = vec![turn("thread:1", "p"), turn("thread:2", "q"), turn("thread:3", "p"), turn("thread:4", "q")];
    assert_eq!(opening_thread(&turns, "p", "thread:fresh"), "thread:3");
    assert_eq!(opening_thread(&turns, "r", "thread:fresh"), "thread:fresh");
}

#[test]
fn chunked_sizes_past_the_body_are_truncated() {
    assert_eq!(decode_chunked_body(b"ffffffffffffffff\r\n"), Err("truncated chunked response".to_string()));
    assert_eq!(decode_chunked_body(b"5\r\nab"), Err("truncated chunked response".to_string()));
    assert_eq!(decode_chunked_body(b"3\r\nabc\r\n9\r\nxy\r\n"), Err("truncated chunked response".to_string()));
    assert_eq!(decode_chunked_body(b"abc"), Err("invalid chunked response".to_string()));
    assert_eq!(decode_chunked_body(b"2;ext=1\r\nab\r\n1\r\nc\r\n0\r\n\r\n"), Ok(b"abc".to_vec()));
}

#[test]
fn path_reply_prints_found_and_not_found() {
    let e = GraphEdge {
        edge_kind: "k".to_string(),
        from_ref: "a".to_string(),
        to_ref: "b".to_string(),
        relation_id: "r1".to_string(),
    };
    assert_eq!(
        path_text("case:x", "a", "b", 4, false, &Some(vec![e])),
        "graph_path:\ncase_ref: case:x\nfrom_ref: a\nto_ref: b\nmax_depth: 4\npath_status: found\nhops: 1\nedges:\n- edge_kind: k\n  from_ref: a\n  to_ref: b\n  relation_id: r1\n"
    );
    assert_eq!(
        path_text("case:x", "a", "z", 6, true, &None),
        "graph_path:\ncase_ref: case:x\nfrom_ref: a\nto_ref: z\nmax_depth: 6\nmax_depth_clamped: yes\npath_status: not_found\nhops: 0\nedges: none\n"
    );
    assert_eq!(
        path_text("c", "a", "a", 4, false, &Some(vec![])),
        "graph_path:\ncase_ref: c\nfrom_ref: a\nto_ref: a\nmax_depth: 4\npath_status: found\nhops: 0\nedges: none\n"
    );
}

#[test]
fn interactive_prompt_refuses_direct_provider_options() {
    assert_eq!(interactive_options_check(&words(&["--case", "c"])), Ok(()));
    assert_eq!(
        interactive_options_check(&words(&["--model", "m"])),
        Err("interactive_prompt_uses_governed_provider_binding: configure `yai case provider bind`; direct invocation options remain available with --once or --dry-run".to_string())
    );
    assert_eq!(interactive_options_check(&words(&["--model", "m", "--dry-run"])), Ok(()));
    assert!(interactive_options_check(&words(&["--continuation-ref", "r"])).is_err());
}

#[test]
fn block_lines_unindent_to_the_text_lines() {
    let text = "first\n\nthird\n";
    let out = block("S", text);
    let body = &out["\n[S]\n".len()..out.len() - "\n[/S]\n".len()];
    let lines: Vec<&str> = body.split('\n').map(|l| l.strip_prefix("  ").unwrap_or(l)).collect();
    assert_eq!(lines, text.lines().collect::<Vec<_>>());
    assert_eq!(block("S", ""), "\n[S]\n\n[/S]\n");
}

#[test]
fn escaped_json_string_reads_back() {
    let s = "say \"hi\"\\ now\u{1}\t";
    let q = format!("\"{}\"", json_escape(s));
    assert_eq!(parse_json_string_at(q.as_bytes(), 0), Some((s.to_string(), q.len())));
}

#[test]
fn status_reports_the_derived_threads() {
    let s = ControllerState { active_thread_id: "thread:2".to_string(), cancel_requested: false };
    let turn = |t: &str, p: &str, g: u64| TurnEntry { thread_id: t.to_string(), participant_id: p.to_string(), base_generation: g };
    let turns = vec![turn("thread:2", "p", 3), turn("thread:1", "p", 1), turn("thread:2", "p", 5), turn("thread:9", "q", 0)];
    let st = controller_status(&s, &turns, "p");
    assert_eq!(st.active_thread_id, "thread:2");
    assert!(st.active_thread_durable);
    let ids: Vec<&str> = st.committed_threads.iter().map(|t| t.thread_id.as_str()).collect();
    assert_eq!(ids, vec!["thread:1", "thread:2"]);
    assert_eq!(st.committed_threads[1].committed_turn_count, 2);
    assert_eq!((st.committed_threads[1].first_generation, st.committed_threads[1].last_generation), (4, 6));
    let none = controller_status(&s, &vec![turn("thread:9", "q", 0)], "p");
    assert!(none.committed_threads.is_empty());
    assert!(!none.active_thread_durable);
}
