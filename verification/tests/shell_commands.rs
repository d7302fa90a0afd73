use yai::prompt::{prompt_command, runtime_state_note, thread_after_archive, PromptCommandKind};
use yai::terminal::{
    parse_shell_command, scoped_name, CaseSection, CommandKind, HandoffOutcome, ProviderLocality,
    ResourceKind, ReviewAction,
};

fn read(line: &str) -> (CommandKind, Vec<String>) {
    let c = parse_shell_command(line).unwrap();
    (c.kind, c.args)
}

fn refused(line: &str) -> String {
    match parse_shell_command(line) {
        Ok(_) => panic!("{line} should be refused"),
        Err(e) => e,
    }
}

#[test]
fn standalone_commands() {
    assert_eq!(read("/help").0, CommandKind::Help);
    assert_eq!(read("/help all").0, CommandKind::HelpAll);
    assert_eq!(read("/connect").0, CommandKind::ConnectInteractive);
    assert_eq!(read("/retry").0, CommandKind::RetryLatest);
    assert_eq!(read("/rebuild").0, CommandKind::Rebuild);
    assert_eq!(read("/operation  op:1 "), (CommandKind::Operation, vec!["op:1".to_string()]));
    assert_eq!(read("/history").0, CommandKind::Inspect { section: CaseSection::History });
    assert_eq!(read("/handoffs").0, CommandKind::Inspect { section: CaseSection::Handoffs });
    assert_eq!(read("/nonsense").0, CommandKind::Unknown);
}

#[test]
fn handoff_commands() {
    assert_eq!(
        read("/handoff offer participant:b auditor please check this"),
        (CommandKind::HandoffOffer, vec!["participant:b".to_string(), "auditor".to_string(), "please check this".to_string()])
    );
    assert_eq!(
        read("/handoff accept participant:a h1"),
        (CommandKind::HandoffAccept, vec!["participant:a".to_string(), "h1".to_string()])
    );
    assert_eq!(
        read("/handoff result h1 failed evidence:1 it broke"),
        (
            CommandKind::HandoffResult { outcome: HandoffOutcome::Failed },
            vec!["h1".to_string(), "evidence:1".to_string(), "it broke".to_string()]
        )
    );
    assert_eq!(read("/handoff reconcile h1"), (CommandKind::HandoffReconcile, vec!["h1".to_string()]));
    assert_eq!(refused("/handoff offer"), "handoff_action_required");
    assert_eq!(refused("/handoff offer target"), "handoff_role_required");
    assert_eq!(refused("/handoff offer target role"), "handoff_text_required");
    assert_eq!(refused("/handoff accept source"), "handoff_syntax: /handoff accept SOURCE ID");
    assert_eq!(refused("/handoff result h1 maybe e t"), "handoff_outcome_required: succeeded|failed|cancelled");
    assert_eq!(refused("/handoff result h1 succeeded"), "handoff_local_evidence_required");
    assert_eq!(refused("/handoff result h1 succeeded e"), "handoff_text_required");
    assert_eq!(refused("/handoff steal x"), "handoff_action_unknown");
}

#[test]
fn connect_command_options() {
    let (kind, args) = read("/connect http://h/v1 m --trust approve --attest evidence:1 --locality remote --credential-ref env:K --replace");
    assert_eq!(
        kind,
        CommandKind::Connect { locality: ProviderLocality::Remote, trust_approved: true, replace: true }
    );
    assert_eq!(args, vec!["http://h/v1", "m", "env:K", "evidence:1"]);
    let (kind, args) = read("/connect e m --attest a --trust approve");
    assert_eq!(
        kind,
        CommandKind::Connect { locality: ProviderLocality::Loopback, trust_approved: true, replace: false }
    );
    assert_eq!(args, vec!["e", "m", "none", "a"]);
    assert!(refused("/connect e m --trust approve").starts_with("connect_syntax:"));
    assert_eq!(refused("/connect e m --trust approve --trust approve"), "connect_duplicate_option");
    assert_eq!(refused("/connect e m --trust approve --replace --attest"), "connect_option_requires_value");
    assert_eq!(refused("/connect e m --trust deny --attest a"), "connect_option_invalid");
    assert_eq!(refused("/connect e m --attest a --locality moon"), "connect_locality_invalid");
    assert_eq!(refused("/connect e m --trust approve --replace --x"), "connect_option_requires_value");
    assert_eq!(refused("/connect e m --trust approve --locality remote"), "connect_explicit_attestation_required");
}

#[test]
fn resource_commands() {
    assert_eq!(
        read("/read workspace src/lib.rs"),
        (CommandKind::Resource { request: ResourceKind::FilesystemRead }, vec!["resource:workspace".to_string(), "src/lib.rs".to_string()])
    );
    assert_eq!(
        read("/catalog resource:tools"),
        (CommandKind::Resource { request: ResourceKind::McpCatalog }, vec!["resource:tools".to_string()])
    );
    assert_eq!(
        read("/admit ws sha256:ab path/to/file"),
        (
            CommandKind::Resource { request: ResourceKind::AdmitContent },
            vec!["resource:ws".to_string(), "sha256:ab".to_string(), "path/to/file".to_string()]
        )
    );
    assert_eq!(refused("/catalog tools extra"), "resource_action_syntax_invalid");
    assert_eq!(refused("/admit ws digest"), "admit_syntax: /admit RESOURCE DIGEST PATH");
    assert_eq!(refused("/read bad/name path"), "setup_identifier_invalid");
}

#[test]
fn work_workflow_review_and_thread_commands() {
    assert_eq!(read("/work  fix it "), (CommandKind::Work, vec![" fix it ".to_string()]));
    assert_eq!(read("/workflow run node-1 "), (CommandKind::WorkflowRun, vec!["node-1".to_string()]));
    assert_eq!(read("/workflow input n some text"), (CommandKind::WorkflowInput, vec!["n".to_string(), "some text".to_string()]));
    assert_eq!(refused("/workflow input n"), "workflow_input_syntax: NODE TEXT");
    assert_eq!(read("/workflow advance").0, CommandKind::WorkflowAdvance);
    assert_eq!(
        read("/review deny r1 participant:h not now"),
        (
            CommandKind::Review { action: ReviewAction::Deny },
            vec!["r1".to_string(), "participant:h".to_string(), "not now".to_string()]
        )
    );
    assert_eq!(refused("/review maybe r1 p why"), "review_syntax: /review approve|deny|defer REVIEW PARTICIPANT reason");
    assert_eq!(refused("/review approve"), "review_id_required");
    assert_eq!(refused("/review approve r1"), "reviewer_required");
    assert_eq!(refused("/review approve r1 p"), "review_reason_required");
    assert_eq!(read("/thread new label").0, CommandKind::ThreadNew);
    assert_eq!(read("/thread use  t2 "), (CommandKind::ThreadUse, vec!["t2".to_string()]));
    assert_eq!(read("/retry turn:3").1, vec!["turn:3".to_string()]);
    assert_eq!(read("/policy publish p.json because").1, vec!["p.json", "because"]);
    assert_eq!(refused("/policy publish p.json"), "policy_syntax: /policy publish FILE REASON");
    assert_eq!(read("/transcript on").0, CommandKind::Compatibility);
    assert_eq!(read("/memory proposes").0, CommandKind::Compatibility);
}

#[test]
fn short_names_spell_exact_ids() {
    assert_eq!(scoped_name("resource:", " workspace ").unwrap(), "resource:workspace");
    assert_eq!(scoped_name("resource:", "resource:ws").unwrap(), "resource:ws");
    assert_eq!(scoped_name("resource:", "").unwrap_err(), "setup_identifier_invalid");
    assert_eq!(scoped_name("resource:", "a b").unwrap_err(), "setup_identifier_invalid");
    assert_eq!(scoped_name("p:", &"x".repeat(161)).unwrap_err(), "setup_identifier_invalid");
    assert!(scoped_name("p:", &"x".repeat(160)).is_ok());
}

#[test]
fn prompt_commands() {
    let c = prompt_command("/thread new");
    assert_eq!((c.kind, c.arg.as_str()), (PromptCommandKind::ThreadNew, "thread"));
    let c = prompt_command("/thread new  research ");
    assert_eq!((c.kind, c.arg.as_str()), (PromptCommandKind::ThreadNew, "research"));
    let c = prompt_command("/thread use  ");
    assert_eq!(c.kind, PromptCommandKind::ThreadUseMissing);
    let c = prompt_command("/thread archive t1");
    assert_eq!((c.kind, c.arg.as_str()), (PromptCommandKind::ThreadArchive, "t1"));
    assert_eq!(prompt_command("/transcript off").kind, PromptCommandKind::TranscriptOff);
    assert_eq!(prompt_command("/memory propose x").kind, PromptCommandKind::MemoryPropose);
    assert_eq!(prompt_command("/what").kind, PromptCommandKind::Unknown);
    assert_eq!(prompt_command("hello").kind, PromptCommandKind::Prompt);
    assert_eq!(thread_after_archive("t1", "t1"), ("thread:default".to_string(), true));
    assert_eq!(thread_after_archive("t1", "t2"), ("t1".to_string(), false));
    assert_eq!(
        runtime_state_note("subject:x", "s"),
        "## Prompt Runtime State\n- kind:subject_state subject_ref:subject:x summary:s\n\n"
    );
}
