use yai::conversation::CaseParticipant;
use yai::execution::{
    connect_admission, connect_executor_check, connect_generation_check, connect_probe_check,
    effects_after_dispatch, execution_route, extend_targets, invocation_budget_spent, outcome_posture,
    prerequisite_parts, prior_delivery_error, prior_delivery_unsafe, turn_executor, step_decision, turn_error_posture, work_error_posture,
    BindingEntry, ExecutionRoute, OperationOutcome, StepDecision, TurnHistoryEntry, WorkLimits,
};
use yai::feedback::{
    feedback_ids_check, feedback_lineage, feedback_outcome, feedback_posture, feedback_size_check,
    CapabilityEvent, ViewResource,
};
use yai::presentation::ExecutionPosture;
use yai::semantic::{
    admit_selected_view, artifact_case, context_artifact_id, input_budget_check, resource_refs,
    structured_output_supported, OutputContractKind,
};
use yai::settings::SelectionEntry;

fn words(items: &[&str]) -> Vec<String> {
    items.iter().map(|s| s.to_string()).collect()
}

fn started(inv: &str, selection: Option<&str>, refs: &[&str]) -> TurnHistoryEntry {
    TurnHistoryEntry::InvocationStarted {
        invocation_id: inv.to_string(),
        governed_selection: selection.map(|s| s.to_string()),
        causal_refs: words(refs),
    }
}

#[test]
fn prior_delivery_of_a_turn() {
    let open = vec![started("inv:1", Some("sel:1"), &["turn:1"])];
    assert!(prior_delivery_unsafe(&open, "turn:1"));
    assert!(!prior_delivery_unsafe(&open, "turn:2"));
    let answered = vec![
        started("inv:1", Some("sel:1"), &["turn:1"]),
        TurnHistoryEntry::ResultRecorded { invocation_id: "inv:1".to_string() },
    ];
    assert!(!prior_delivery_unsafe(&answered, "turn:1"));
    let retry_safe = vec![
        started("inv:1", Some("sel:1"), &["turn:1"]),
        TurnHistoryEntry::AttemptOutcome { selection_id: "sel:1".to_string(), retry_safe: true },
    ];
    assert!(!prior_delivery_unsafe(&retry_safe, "turn:1"));
    let unsafe_outcome = vec![
        started("inv:1", Some("sel:1"), &["turn:1"]),
        TurnHistoryEntry::AttemptOutcome { selection_id: "sel:1".to_string(), retry_safe: false },
        TurnHistoryEntry::Other,
    ];
    assert!(prior_delivery_unsafe(&unsafe_outcome, "turn:1"));
    let ungoverned = vec![
        started("inv:1", None, &["turn:1"]),
        TurnHistoryEntry::AttemptOutcome { selection_id: "sel:1".to_string(), retry_safe: true },
    ];
    assert!(prior_delivery_unsafe(&ungoverned, "turn:1"));
}

#[test]
fn execution_routes_and_postures() {
    assert_eq!(execution_route(false, true, true), ExecutionRoute::Work);
    assert_eq!(execution_route(true, true, false), ExecutionRoute::PriorDeliveryUnresolved);
    assert_eq!(execution_route(false, false, true), ExecutionRoute::Workflow);
    assert_eq!(execution_route(false, false, false), ExecutionRoute::Composition);
    assert_eq!(prior_delivery_error(), "conversation_prior_delivery_indeterminate_requires_resolution");
    assert_eq!(work_error_posture("case_work_prior_delivery_indeterminate"), ExecutionPosture::DeliveryIndeterminate);
    assert_eq!(work_error_posture("conversation_cancelled_before_dispatch"), ExecutionPosture::CancelledBeforeDispatch);
    assert_eq!(work_error_posture("case_work_output_invalid"), ExecutionPosture::Unresolved);
    assert_eq!(turn_error_posture("x cancelled_before_dispatch", true), ExecutionPosture::CancelledBeforeDispatch);
    assert_eq!(turn_error_posture("DeliveryIndeterminate", true), ExecutionPosture::DeliveryIndeterminate);
    assert_eq!(turn_error_posture("derived_text_invalid", true), ExecutionPosture::ProviderFailed);
    assert_eq!(turn_error_posture("no binding", false), ExecutionPosture::ProviderUnavailable);
    assert_eq!(turn_error_posture("other", true), ExecutionPosture::Unresolved);
}

#[test]
fn case_work_limits() {
    let limits = WorkLimits { invocations: 3, operations: 2, effects: 1 };
    assert!(!invocation_budget_spent(2, &limits));
    assert!(invocation_budget_spent(3, &limits));
    assert_eq!(step_decision(0, 0, &limits, false, false), StepDecision::Complete);
    assert_eq!(step_decision(0, 0, &limits, true, true), StepDecision::Dispatch);
    assert_eq!(step_decision(1, 1, &limits, true, true), StepDecision::Stop);
    assert_eq!(step_decision(1, 1, &limits, true, false), StepDecision::Dispatch);
    assert_eq!(step_decision(2, 0, &limits, true, false), StepDecision::Stop);
    assert_eq!(effects_after_dispatch(0, true, &limits), 1);
    assert_eq!(effects_after_dispatch(1, false, &limits), 1);
    assert_eq!(outcome_posture(OperationOutcome::AwaitingReview), Some(ExecutionPosture::AwaitingReview));
    assert_eq!(outcome_posture(OperationOutcome::Indeterminate), Some(ExecutionPosture::DeliveryIndeterminate));
    assert_eq!(outcome_posture(OperationOutcome::Rejected), Some(ExecutionPosture::Unresolved));
    assert_eq!(outcome_posture(OperationOutcome::Settled), None);
}

#[test]
fn provider_connection_checks() {
    assert_eq!(connect_admission(true, None), Ok(()));
    assert_eq!(connect_admission(true, Some("evidence:run-1")), Ok(()));
    let refused = Err("case_connect_requires_explicit_trust_and_evidence_reference".to_string());
    assert_eq!(connect_admission(false, None), refused);
    assert_eq!(connect_admission(true, Some("run-1")), refused);
    let long = format!("evidence:{}", "x".repeat(232));
    assert_eq!(connect_admission(true, Some(&long)), refused);
    assert_eq!(connect_admission(true, Some(&long[..240])), Ok(()));
    assert_eq!(connect_generation_check(None, 4), Ok(()));
    assert_eq!(connect_generation_check(Some(4), 4), Ok(()));
    assert_eq!(
        connect_generation_check(Some(3), 4),
        Err("case_connect_approval_stale: inspect current Case and confirm again".to_string())
    );
    let bindings = vec![BindingEntry { participant_id: "p".to_string(), primary: true }];
    assert_eq!(
        connect_executor_check(None, false, &bindings, None),
        Err("case_connect_select_executor_first".to_string())
    );
    assert_eq!(
        connect_executor_check(Some("p"), false, &bindings, None),
        Err("case_connect_existing_primary_requires_explicit_replace".to_string())
    );
    assert_eq!(connect_executor_check(Some("p"), true, &bindings, Some("p")), Ok("p".to_string()));
    assert_eq!(
        connect_executor_check(Some("q"), false, &bindings, Some("p")),
        Err("case_connect_provider_envelope_participant_conflict".to_string())
    );
    assert_eq!(connect_probe_check(5, 5), Ok(()));
    assert!(connect_probe_check(5, 6).is_err());
    assert_eq!(extend_targets(&words(&["t1", "t2"]), "t3"), words(&["t1", "t2", "t3"]));
    assert_eq!(extend_targets(&words(&["t1", "t2"]), "t1"), words(&["t1", "t2"]));
}

fn selection() -> SelectionEntry {
    SelectionEntry {
        selection_id: "sel".to_string(),
        selected_target_id: "target".to_string(),
        logical_turn_id: "turn".to_string(),
        attempt_number: 1,
        participant_id: "p".to_string(),
        selected_model_id: "m".to_string(),
    }
}

#[test]
fn governed_selection_admits_the_view() {
    let g = ("sel".to_string(), "target".to_string(), "turn".to_string(), 1u32);
    let mut ps = vec![
        CaseParticipant { participant_id: "o".to_string(), admitted_views: vec![] },
        CaseParticipant { participant_id: "p".to_string(), admitted_views: vec![] },
    ];
    assert_eq!(admit_selected_view(&vec![selection()], &g, "p", &mut ps, "model", "model_context"), Ok(()));
    assert_eq!(ps[1].admitted_views, vec![("model".to_string(), "model_context".to_string())]);
    assert!(ps[0].admitted_views.is_empty());
    assert_eq!(admit_selected_view(&vec![selection()], &g, "p", &mut ps, "model", "model_context"), Ok(()));
    assert_eq!(ps[1].admitted_views.len(), 1);
    let other = ("sel".to_string(), "target".to_string(), "turn".to_string(), 2u32);
    assert_eq!(
        admit_selected_view(&vec![selection()], &other, "p", &mut ps, "model", "model_context"),
        Err("provider_selection_projection_admission_invalid".to_string())
    );
    let mut nobody: Vec<CaseParticipant> = vec![];
    assert_eq!(
        admit_selected_view(&vec![selection()], &g, "p", &mut nobody, "model", "model_context"),
        Err("provider_selection_participant_not_bound".to_string())
    );
}

#[test]
fn output_contracts_and_budget() {
    let write = OutputContractKind::FilesystemWriteProposal { attachment_id: "res:fs".to_string() };
    assert_eq!(resource_refs(&write), words(&["res:fs"]));
    assert_eq!(resource_refs(&OutputContractKind::NaturalLanguage), Vec::<String>::new());
    assert!(structured_output_supported(&OutputContractKind::WorkflowPlanPatch));
    assert!(!structured_output_supported(&OutputContractKind::NaturalLanguage));
    assert_eq!(input_budget_check(9, 3), Ok(3));
    assert_eq!(input_budget_check(8, 2), Ok(2));
    assert_eq!(
        input_budget_check(13, 3),
        Err("provider_input_budget_exceeded: estimated_units=4 max_units=3".to_string())
    );
    assert_eq!(context_artifact_id(&words(&["--frame", "f", "--projection", "p"])), Ok("p".to_string()));
    assert_eq!(context_artifact_id(&words(&["--frame", "f"])), Ok("f".to_string()));
    assert_eq!(
        context_artifact_id(&words(&[])),
        Err("context inspect requires --id, --projection, or --frame".to_string())
    );
    assert_eq!(artifact_case(Some("c"), Some("d")), Ok("c".to_string()));
    assert_eq!(artifact_case(None, Some("d")), Ok("d".to_string()));
    assert_eq!(artifact_case(None, None), Err("context_artifact_not_visible".to_string()));
}

fn native_history() -> Vec<CapabilityEvent> {
    vec![
        CapabilityEvent::SelectionRecorded {
            selection_id: "sel:1".to_string(),
            causal_refs: words(&[
                "provider-normalization-contract:schema.v1",
                "provider-realization-shape:text_functions_to_text_or_call",
            ]),
        },
        CapabilityEvent::InvocationStarted {
            invocation_id: "inv:1".to_string(),
            participant_id: "p".to_string(),
            governed_selection: Some("sel:1".to_string()),
        },
        CapabilityEvent::ResultRecorded {
            case_id: "c".to_string(),
            result_id: "res:1".to_string(),
            invocation_id: "inv:1".to_string(),
            output: "{\"schema\":\"schema.v1\"}".to_string(),
        },
        CapabilityEvent::OperationRecorded {
            operation_id: "op:1".to_string(),
            participant_id: "p".to_string(),
            provider_result_id: Some("res:1".to_string()),
        },
        CapabilityEvent::Terminal { operation_id: "op:1".to_string(), transition_id: "tr:1".to_string(), denied: false },
        CapabilityEvent::Terminal { operation_id: "op:1".to_string(), transition_id: "tr:2".to_string(), denied: true },
    ]
}

#[test]
fn capability_feedback_checks() {
    assert_eq!(feedback_ids_check(&words(&["a", "b"])), Ok(()));
    assert_eq!(feedback_ids_check(&words(&["a", "b", "a"])), Err("capability_feedback_duplicate".to_string()));
    let many: Vec<String> = (0..25).map(|i| format!("r{i}")).collect();
    assert_eq!(feedback_ids_check(&many), Err("capability_feedback_bound".to_string()));
    let h = native_history();
    assert_eq!(feedback_lineage(&h, "c", "p", "res:1", "schema.v1"), Ok("{\"schema\":\"schema.v1\"}".to_string()));
    assert_eq!(
        feedback_lineage(&h, "other", "p", "res:1", "schema.v1"),
        Err("capability_feedback_result_not_canonical".to_string())
    );
    assert_eq!(
        feedback_lineage(&h, "c", "q", "res:1", "schema.v1"),
        Err("capability_feedback_participant_mismatch".to_string())
    );
    assert_eq!(
        feedback_lineage(&h, "c", "p", "res:1", "schema.v2"),
        Err("capability_feedback_native_lineage_required".to_string())
    );
    let view: Vec<ViewResource> = vec![];
    let denied = feedback_outcome(&h, "p", "res:1", &view, "res:fs", "digest").unwrap();
    assert_eq!((denied.operation_id.as_str(), denied.transition_id.as_str(), denied.denied), ("op:1", "tr:2", true));
    assert_eq!(feedback_posture(denied.denied), "denied");
    let mut h2 = h;
    h2.pop();
    assert_eq!(
        feedback_outcome(&h2, "p", "res:1", &view, "res:fs", "digest").err(),
        Some("capability_feedback_resource_no_longer_visible".to_string())
    );
    let visible = vec![ViewResource { attachment_id: "res:fs".to_string(), configuration_digest: Some("digest".to_string()) }];
    let seen = feedback_outcome(&h2, "p", "res:1", &visible, "res:fs", "digest").unwrap();
    assert_eq!((seen.transition_id.as_str(), seen.denied), ("tr:1", false));
    assert_eq!(feedback_posture(false), "recorded_outcome");
    assert_eq!(
        feedback_outcome(&h2, "p", "res:9", &visible, "res:fs", "digest").err(),
        Some("capability_feedback_operation_missing".to_string())
    );
    assert_eq!(feedback_size_check(262144), Ok(()));
    assert_eq!(feedback_size_check(262145), Err("capability_feedback_bytes_exceeded".to_string()));
}

#[test]
fn intent_binding() {
    let parts = words(&["part:0", "part:1", "part:2"]);
    assert_eq!(prerequisite_parts(&parts, &vec![2, 0]), Ok(words(&["part:2", "part:0"])));
    assert_eq!(prerequisite_parts(&parts, &vec![]), Ok(vec![]));
    assert_eq!(prerequisite_parts(&parts, &vec![1, 3]), Err("conversation_intent_ordinal_not_found".to_string()));
    assert_eq!(turn_executor(Some("participant:model"), "participant:op"), "participant:model");
    assert_eq!(turn_executor(None, "participant:op"), "participant:op");
}
