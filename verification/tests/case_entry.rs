use yai::conversation::CaseParticipant;
use yai::entry::{
    admission_transition, already_attached, attachment_plan, attachment_recorded, attachment_status,
    case_enter_reply, case_enter_shell, entry_recorded, projection_available_check, provider_attach_reply,
    provider_attach_shell, shell_supported, subject_bound_check, view_admitted, ProviderBindingState,
    SummaryRecord,
};
use yai::preview::RecordKind;
use yai::prompt::{
    fixed_reply, new_thread_id, prompt_command, refresh_reply, thread_archive_reply, thread_list_reply,
    thread_new_reply, thread_status_reply, thread_use_reply, transcript_status_reply, transcript_switch_reply,
};
use yai::threads::JournalRecord;

fn summary_record(case_ref: &str, kind: RecordKind, subject: &str, summary: &str) -> SummaryRecord {
    let tokens = summary
        .split_whitespace()
        .filter_map(|t| t.split_once(':'))
        .map(|(k, v)| (k.to_string(), v.to_string()))
        .collect();
    SummaryRecord {
        case_ref: case_ref.to_string(),
        kind,
        subject_ref: subject.to_string(),
        summary: summary.to_string(),
        tokens,
    }
}

#[test]
fn case_entry_checks() {
    let ids = vec!["subject:a".to_string()];
    let records = vec![
        summary_record("c", RecordKind::SubjectBinding, "subject:b", "subject_binding:bound"),
        summary_record("c", RecordKind::ProjectionResult, "", "consumer:model kind:model_context redaction:summary_only"),
        summary_record(
            "c",
            RecordKind::SubjectState,
            "subject:a",
            "case_entry:admitted consumer:model kind:model_context redaction:summary_only",
        ),
    ];
    assert_eq!(subject_bound_check(&ids, &records, "c", "subject:a"), Ok(()));
    assert_eq!(subject_bound_check(&ids, &records, "c", "subject:b"), Ok(()));
    assert_eq!(
        subject_bound_check(&ids, &records, "c", "subject:z"),
        Err("subject subject:z is not bound to case c".to_string())
    );
    assert_eq!(projection_available_check(&records, "c", "model", "model_context"), Ok(()));
    assert_eq!(
        projection_available_check(&records, "c", "operator", "model_context"),
        Err("no governed operator/model_context projection is available for case c".to_string())
    );
    assert!(entry_recorded(&records, "c", "subject:a", "model", "model_context"));
    assert!(!entry_recorded(&records, "c", "subject:b", "model", "model_context"));
    let ps = vec![CaseParticipant {
        participant_id: "subject:a".to_string(),
        admitted_views: vec![("model".to_string(), "model_context".to_string())],
    }];
    assert!(view_admitted(&ps, "subject:a", "model", "model_context"));
    assert!(!view_admitted(&ps, "subject:a", "operator", "model_context"));
    assert!(!view_admitted(&ps, "subject:b", "model", "model_context"));
    assert_eq!(
        admission_transition("case 1", "subject:a", "model", "model_context"),
        (
            "transition:case-admission:case_1:subject:a:model:model_context".to_string(),
            "Participant admitted to model/model_context view for compatibility command output".to_string()
        )
    );
    assert_eq!(shell_supported("zsh"), Ok(()));
    assert_eq!(shell_supported("fish"), Err("unsupported shell: fish".to_string()));
}

#[test]
fn case_entry_output() {
    let reply = case_enter_reply(false, "c", "s", "model", "model_context");
    assert!(reply.starts_with("case_entry: accepted\ncase_entry_status: admitted\ncase_session: active\n"));
    assert!(reply.ends_with("authority_scope: model interpretation_only\n\n"));
    assert!(case_enter_reply(true, "c", "s", "m", "k").contains("case_entry_status: already_admitted\n"));
    let script = case_enter_shell("/tmp/it's.jsonl", "case:1", "subject:a");
    assert!(script.starts_with("printf '%s\\n' 'case_entry: accepted'\n"));
    assert!(script.contains("export YAI_JOURNAL='/tmp/it'\\''s.jsonl'\n"));
    assert!(script.contains("export YAI_CASE_PROMPT_FLAG='[yai:case:1]'\n"));
    assert!(script.ends_with("export RPROMPT=\"$YAI_RPROMPT_BASE\"\n"));
}

#[test]
fn provider_attachment() {
    let plan = attachment_plan("case:1", "subject:a", "provider:x", "http://h", "m", "KEY", 4);
    assert_eq!(plan.record_id, "provider-attachment:case:1:subject-a:4");
    assert_eq!(
        plan.summary,
        "provider_attachment:attached provider_id:provider:x provider:openai_compatible base_url:http://h model:m api_key_env:KEY prompt_surface:vendored_linenoise context:typed_projection_context_frame"
    );
    assert_eq!(plan.credential_ref, "env:KEY");
    let binding = ProviderBindingState {
        participant_id: "subject:a".to_string(),
        provider_id: String::new(),
        provider_kind: "openai_compatible".to_string(),
        base_url: "http://h".to_string(),
        model_id: "m".to_string(),
        credential_ref: "env:KEY".to_string(),
    };
    assert!(already_attached(Some(&binding), "subject:a", "provider:x", "http://h", "m", "KEY"));
    assert!(!already_attached(Some(&binding), "subject:a", "provider:x", "http://h", "m", "OTHER"));
    assert!(!already_attached(None, "subject:a", "provider:x", "http://h", "m", "KEY"));
    let records = vec![summary_record("case:1", RecordKind::SubjectState, "subject:a", &plan.summary)];
    assert!(attachment_recorded(&records, "case:1", "subject:a", &plan.summary));
    assert!(!attachment_recorded(&records, "case:2", "subject:a", &plan.summary));
    assert_eq!(attachment_status(true), "already_attached");
    assert_eq!(attachment_status(false), "attached");
    let reply = provider_attach_reply("attached", "case:1", "subject:a", "provider:x", "http://h", "m", "KEY");
    assert!(reply.starts_with("provider_attachment: accepted\nprovider_attachment_status: attached\n"));
    assert!(reply.ends_with("provider_model: m\napi_key_env: KEY\n"));
    let script = provider_attach_shell("attached", "case:1", "subject:a", "provider:x", "http://h", "m", "KEY");
    assert!(script.contains("printf '%s\\n' 'provider_model: m'\n"));
    assert!(script.ends_with("export YAI_PROVIDER_API_KEY_ENV='KEY'\n"));
}

fn thread_record(id: &str, kind: RecordKind, thread: &str) -> JournalRecord {
    JournalRecord {
        id: id.to_string(),
        case_ref: "c".to_string(),
        kind,
        subject_ref: "s".to_string(),
        summary: String::new(),
        thread_id: Some(thread.to_string()),
        state: Some("active".to_string()),
        retention: None,
    }
}

#[test]
fn prompt_command_replies() {
    assert_eq!(
        refresh_reply("thread:default", false),
        "case_prompt: refreshed\nsemantic_context: rebuild_on_next_invocation\ninteraction_thread: thread:default\ntranscript_retention: preview_only\n"
    );
    assert!(transcript_status_reply(true).contains("full_transcript: on_explicit_redacted_case_local\n"));
    assert!(transcript_status_reply(false).contains("prompt_transcript_retention: disabled\n"));
    let rs = vec![
        thread_record("t1", RecordKind::InteractionThread, "thread:a"),
        thread_record("u1", RecordKind::InteractionTurn, "thread:a"),
        thread_record("t2", RecordKind::InteractionThread, "thread:b"),
        thread_record("t3", RecordKind::InteractionThread, "thread:a"),
    ];
    assert_eq!(thread_list_reply(&rs, "c"), "interaction_thread: thread:a turns:1\ninteraction_thread: thread:b turns:0\n");
    assert_eq!(thread_list_reply(&rs, "other"), "interaction_thread: none\n");
    assert!(thread_status_reply(&rs, "c", "thread:a").starts_with("interaction_thread: thread:a\nthread_turn_count: 1\n"));
    assert_eq!(new_thread_id(12), "thread:12");
    assert!(thread_new_reply("thread:12").ends_with("journal:audit retained\n"));
    assert_eq!(
        thread_use_reply(&rs, "c", "thread:a"),
        "interaction_thread: restored previous\nthread_id: thread:a\nthread_turn_count: 1\n"
    );
    assert_eq!(
        thread_archive_reply("thread:a", "thread:default"),
        "interaction_thread: archived\nthread_id: thread:a\nactive_thread_id: thread:default\n"
    );
    assert!(transcript_switch_reply(true).ends_with("redaction: secret_redacted\n"));
    assert_eq!(
        transcript_switch_reply(false),
        "prompt_transcript_retention: disabled\ntranscript_retention: preview_only\nfull_transcript: off\n"
    );
    let unknown = prompt_command("/frobnicate");
    let reply = fixed_reply(unknown.kind, "/frobnicate").unwrap();
    assert!(reply.starts_with("unknown_command: /frobnicate\ncommands: /thread status "));
    let missing = prompt_command("/thread use   ");
    assert_eq!(fixed_reply(missing.kind, "/thread use"), Some("thread_use: missing_thread_id\n".to_string()));
    assert_eq!(fixed_reply(prompt_command("hello").kind, "hello"), None);
}
