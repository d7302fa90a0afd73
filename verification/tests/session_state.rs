use yai::observe::{
    bool_word, default_redaction_for_consumer, divergence_candidate_for, expected_matches_observed,
    fnv_hash, parse_env_assignment, path_inside_sandbox, process_state_for_pid, projection_policy_for,
    yes_no, ProcessProbe,
};
use yai::paths::{
    facts_store_dir, facts_store_path, hot_state_path, memory_index_root, record_store_path,
    replay_report_dir, replay_report_path, runtime_graph_rebuild_report_dir,
    runtime_graph_rebuild_report_path, yai_home,
};
use yai::preview::RecordKind;
use yai::settings::{
    env_var, provider_admission_check, provider_settings, ParticipantEntry, ProviderBinding,
    SelectionEntry,
};
use yai::threads::{
    active_thread_id, render_thread_context, thread_record_id, thread_record_summary, thread_turn_count,
    transcript_retention_enabled, validate_loaded_journal_case_binding, JournalRecord,
};

fn words(items: &[&str]) -> Vec<String> {
    items.iter().map(|s| s.to_string()).collect()
}

fn env(items: &[(&str, &str)]) -> Vec<(String, String)> {
    items.iter().map(|(k, v)| (k.to_string(), v.to_string())).collect()
}

#[test]
fn environment_lookup_takes_first_entry() {
    let e = env(&[("A", "1"), ("B", "2"), ("A", "3")]);
    assert_eq!(env_var(&e, "A"), Some("1".to_string()));
    assert_eq!(env_var(&e, "C"), None);
}

#[test]
fn provider_settings_from_arguments_and_environment() {
    let e = env(&[
        ("YAI_CASE_REF", "case:env"),
        ("YAI_LLM_BASE_URL", "http://llm"),
        ("YAI_PROVIDER_MODEL", "model:a"),
        ("MY_KEY", "SECRET-REDACTED"),
        ("YAI_PROVIDER_CONTINUATION_CAPABLE", "1"),
    ]);
    let s = provider_settings(&words(&["--api-key-env", "MY_KEY", "--continuation-ref", "ref:1"]), &e).unwrap();
    assert_eq!(s.case_ref, "case:env");
    assert_eq!(s.subject_ref, "subject:llm-provider");
    assert_eq!(s.base_url, "http://llm");
    assert_eq!(s.model, "model:a");
    assert_eq!(s.provider_id, "provider:openai-compatible");
    assert_eq!(s.api_key, Some("SECRET-REDACTED".to_string()));
    assert_eq!(s.language_mode, "none");
    assert!(s.continuation_supported);
    assert_eq!(
        s.continuation,
        Some(("provider:openai-compatible".to_string(), "runtime:unspecified".to_string(), "ref:1".to_string()))
    );
    assert_eq!(s.governance, None);

    let over = provider_settings(&words(&["--case", "case:arg"]), &e).unwrap();
    assert_eq!(over.case_ref, "case:arg");
}

#[test]
fn provider_settings_refusals() {
    assert_eq!(
        provider_settings(&words(&[]), &env(&[])).err(),
        Some("YAI_CASE_REF is required; run `yai case enter` first".to_string())
    );
    assert_eq!(
        provider_settings(&words(&["--case", "c"]), &env(&[])).err(),
        Some("provider base URL missing; run `yai case attach-provider` or export YAI_PROVIDER_BASE_URL".to_string())
    );
    assert_eq!(
        provider_settings(&words(&["--case", "c", "--base-url", "u"]), &env(&[])).err(),
        Some("provider model missing; run `yai case attach-provider` or export YAI_PROVIDER_MODEL".to_string())
    );
    let base = ["--case", "c", "--base-url", "u", "--model", "m"];
    let mut bad_language = words(&base);
    bad_language.extend(words(&["--language-mode", "fr"]));
    assert_eq!(provider_settings(&bad_language, &env(&[])).err(), Some("--language-mode must be auto or none".to_string()));
    let mut partial = words(&base);
    partial.extend(words(&["--selection-id", "s1"]));
    assert_eq!(provider_settings(&partial, &env(&[])).err(), Some("--target-id is required".to_string()));
    let mut governed = words(&base);
    governed.extend(words(&[
        "--selection-id", "s1", "--target-id", "t1", "--logical-turn-id", "l1", "--attempt-number", "2",
        "--continuation-ref", "r",
    ]));
    let g = provider_settings(&governed, &env(&[])).unwrap();
    assert_eq!(g.governance, Some(("s1".to_string(), "t1".to_string(), "l1".to_string(), 2)));
    assert_eq!(g.continuation, None);
    let mut bad_attempt = words(&base);
    bad_attempt.extend(words(&[
        "--selection-id", "s1", "--target-id", "t1", "--logical-turn-id", "l1", "--attempt-number", "x",
    ]));
    assert_eq!(provider_settings(&bad_attempt, &env(&[])).err(), Some("provider_attempt_number_invalid".to_string()));
}

#[test]
fn provider_admission() {
    let s = provider_settings(&words(&["--case", "c", "--base-url", "u", "--model", "m", "--subject", "p"]), &env(&[]))
        .unwrap();
    let none: Vec<SelectionEntry> = vec![];
    let absent = vec![ParticipantEntry { participant_id: "p".to_string(), admitted_views: 0 }];
    assert_eq!(
        provider_admission_check(&s, &absent, &none, None).err(),
        Some("p has not entered c; run `yai case enter` first or bind a governed provider target".to_string())
    );
    let present = vec![ParticipantEntry { participant_id: "p".to_string(), admitted_views: 1 }];
    assert_eq!(
        provider_admission_check(&s, &present, &none, None).err(),
        Some("p has no provider attachment in c; run `yai case attach-provider` first".to_string())
    );
    let binding = ProviderBinding {
        participant_id: "p".to_string(),
        provider_id: String::new(),
        provider_kind: "openai_compatible".to_string(),
        model_id: "m".to_string(),
    };
    assert_eq!(provider_admission_check(&s, &present, &none, Some(&binding)), Ok(()));
    let other_model = ProviderBinding { model_id: "other".to_string(), ..binding };
    assert!(provider_admission_check(&s, &present, &none, Some(&other_model)).is_err());
}

fn record(id: &str, case_ref: &str, kind: RecordKind, thread: Option<&str>, state: Option<&str>) -> JournalRecord {
    JournalRecord {
        id: id.to_string(),
        case_ref: case_ref.to_string(),
        kind,
        subject_ref: "subject:a".to_string(),
        summary: format!("summary of {id}"),
        thread_id: thread.map(|t| t.to_string()),
        state: state.map(|t| t.to_string()),
        retention: None,
    }
}

#[test]
fn threads_from_the_journal() {
    let rs = vec![
        record("t1", "c", RecordKind::InteractionThread, Some("thread:1"), Some("active")),
        record("u1", "c", RecordKind::InteractionTurn, Some("thread:1"), None),
        record("t2", "c", RecordKind::InteractionThread, Some("thread:2"), Some("active")),
        record("t3", "c", RecordKind::InteractionThread, Some("thread:3"), Some("archived")),
        record("u2", "c", RecordKind::InteractionTurn, Some("thread:1"), None),
        record("x", "other", RecordKind::InteractionThread, Some("thread:9"), Some("active")),
    ];
    assert_eq!(active_thread_id(&rs, "c"), Some("thread:2".to_string()));
    assert_eq!(active_thread_id(&rs, "none"), None);
    assert_eq!(thread_turn_count(&rs, "c", "thread:1"), 2);
    assert_eq!(thread_turn_count(&rs, "c", "thread:2"), 0);
    assert_eq!(
        render_thread_context(&rs, "c", "thread:1"),
        "## Active Interaction Thread\ninteraction_thread: thread:1\njournal_role: replay_audit_not_chat_memory\n\
         - kind:interaction_turn record_id:u1 summary:summary of u1\n\
         - kind:interaction_turn record_id:u2 summary:summary of u2\nincluded_turn_count: 2\n"
    );
    assert!(render_thread_context(&rs, "c", "thread:2").ends_with("included_turn_count: 0\nthread_state: empty\n"));
    assert_eq!(
        validate_loaded_journal_case_binding(&rs, "c"),
        Err("journal_case_identity_mismatch: expected=c observed=other record_id=x".to_string())
    );
    let mut own = rs;
    own.pop();
    assert_eq!(validate_loaded_journal_case_binding(&own, "c"), Ok(()));
}

#[test]
fn transcript_retention_follows_last_setting() {
    let mut on = record("s1", "c", RecordKind::SubjectState, None, None);
    on.retention = Some("enabled".to_string());
    let mut odd = record("s2", "c", RecordKind::SubjectState, None, None);
    odd.retention = Some("sometimes".to_string());
    let mut off = record("s3", "c", RecordKind::SubjectState, None, None);
    off.retention = Some("disabled".to_string());
    assert!(!transcript_retention_enabled(&vec![], "c", "subject:a"));
    let rs = vec![on, odd];
    assert!(transcript_retention_enabled(&rs, "c", "subject:a"));
    assert!(!transcript_retention_enabled(&rs, "c", "subject:b"));
    let mut rs2 = rs;
    rs2.push(off);
    assert!(!transcript_retention_enabled(&rs2, "c", "subject:a"));
}

#[test]
fn thread_record_texts() {
    assert_eq!(thread_record_id("thread:a:b", 12), "interaction-thread:thread-a-b:12");
    assert_eq!(
        thread_record_summary("thread:1", "  my   label ", "active"),
        "interaction_thread:thread:1 thread_id:thread:1 state:active label:my label journal_role:replay_audit active_context:thread_plus_projection"
    );
}

#[test]
fn observation_decisions() {
    assert_eq!(bool_word(true), "yes");
    assert_eq!(yes_no(false), "no");
    let probe = |delivered, errno, proc_is_dir, proc_entry_exists| ProcessProbe {
        signal_delivered: delivered,
        errno,
        proc_is_dir,
        proc_entry_exists,
    };
    assert_eq!(process_state_for_pid(0, Some(&probe(true, None, true, true))), "not_found");
    assert_eq!(process_state_for_pid(5, None), "unknown");
    assert_eq!(process_state_for_pid(5, Some(&probe(true, None, true, true))), "running");
    assert_eq!(process_state_for_pid(5, Some(&probe(false, Some(3), true, true))), "not_found");
    assert_eq!(process_state_for_pid(5, Some(&probe(false, Some(1), true, true))), "permission_denied");
    assert_eq!(process_state_for_pid(5, Some(&probe(false, Some(99), true, false))), "not_found");
    assert_eq!(process_state_for_pid(5, Some(&probe(false, Some(99), false, false))), "unknown");
    assert!(expected_matches_observed("stopped", "not_found"));
    assert!(!expected_matches_observed("stopped", "running"));
    assert!(expected_matches_observed("running", "running"));
    assert_eq!(divergence_candidate_for("stopped", "running"), "expected_stopped_but_running");
    assert_eq!(divergence_candidate_for("running", "not_found"), "expected_running_but_not_found");
    assert_eq!(divergence_candidate_for("running", "x"), "unknown");
    assert_eq!(projection_policy_for("model", "fresh", "none"), "usable");
    assert_eq!(projection_policy_for("operator", "stale", "x"), "refresh_recommended");
    assert_eq!(projection_policy_for("robot", "stale", "x"), "unknown");
    assert_eq!(projection_policy_for("agent", "rebuilding", "x"), "refresh_required");
    assert_eq!(projection_policy_for("model", "stale", "new_memory_after_projection"), "refresh_required");
    assert_eq!(projection_policy_for("model", "stale", "other"), "blocked_for_model");
    assert_eq!(default_redaction_for_consumer("agent"), "summary_only");
    assert_eq!(default_redaction_for_consumer("debug"), "refs_only");
    assert_eq!(default_redaction_for_consumer("operator"), "none");
}

#[test]
fn environment_file_lines() {
    assert_eq!(parse_env_assignment("  export KEY_1 = \"a b\" "), Some(("KEY_1".to_string(), "a b".to_string())));
    assert_eq!(parse_env_assignment("K='v'"), Some(("K".to_string(), "v".to_string())));
    assert_eq!(parse_env_assignment("K=v=w"), Some(("K".to_string(), "v=w".to_string())));
    assert_eq!(parse_env_assignment("# comment"), None);
    assert_eq!(parse_env_assignment("   "), None);
    assert_eq!(parse_env_assignment("1K=v"), None);
    assert_eq!(parse_env_assignment("K-1=v"), None);
    assert_eq!(parse_env_assignment("no assignment"), None);
}

#[test]
fn sandbox_and_hash() {
    assert!(path_inside_sandbox("/srv/box", "/srv/box"));
    assert!(path_inside_sandbox("/srv/box", "/srv/box/a/b.txt"));
    assert!(!path_inside_sandbox("/srv/box", "/srv/boxed"));
    assert!(!path_inside_sandbox("/srv/box", "/srv/box/../etc"));
    assert!(path_inside_sandbox("/srv/box", "/srv/box/a..b"));
    assert!(!path_inside_sandbox("", "/x"));
    assert_eq!(fnv_hash(b""), "cbf29ce484222325");
    assert_eq!(fnv_hash(b"a"), "af63dc4c8601ec8c");
    assert_eq!(fnv_hash(b"a").len(), 16);
}

#[test]
fn state_paths() {
    assert_eq!(yai_home(Some("/y"), Some("/home/u")), words(&["/y"]));
    assert_eq!(yai_home(None, Some("/home/u")), words(&["/home/u", ".yai"]));
    assert_eq!(yai_home(None, None), words(&[".", ".yai"]));
    assert_eq!(hot_state_path(), words(&["run", "hot-state.json"]));
    assert_eq!(record_store_path(), words(&["store", "lmdb"]));
    assert_eq!(facts_store_dir(), words(&["store", "facts"]));
    assert_eq!(facts_store_path(), words(&["store", "facts", "yai-facts.duckdb"]));
    assert_eq!(replay_report_dir(), words(&["store", "replay", "reports"]));
    assert_eq!(replay_report_path("j1"), words(&["store", "replay", "reports", "j1.replay-report.json"]));
    assert_eq!(runtime_graph_rebuild_report_dir(), words(&["store", "graph", "rebuild-reports"]));
    assert_eq!(
        runtime_graph_rebuild_report_path("case:a/b"),
        words(&["store", "graph", "rebuild-reports", "case_a_b.runtime-graph-rebuild-report.json"])
    );
    assert_eq!(memory_index_root(), words(&["store", "derived-memory"]));
}
