//! Entering a Case and attaching a provider to a subject: the checks on the
//! Case's participants and journal, the records and transitions they call
//! for, and what the commands print, as text or as a shell script that sets
//! the session's environment.

use vstd::prelude::*;
use crate::conversation::CaseParticipant;
use crate::observe::{kv_line, push_kv};
use crate::preview::RecordKind;
use crate::records::{dashed, scoped_record_id};
use crate::render::{canonical_id_component, canonical_id_spec, shell_quote, shell_quote_body};
use crate::semantic::{first_participant, pair_views};
use crate::seqs::views;
use crate::text::{chars_of, owned, push_str, str_eq, string_of};

verus! {

/// A journal record with the `key:value` tokens of its summary.
pub struct SummaryRecord {
    pub case_ref: String,
    pub kind: RecordKind,
    pub subject_ref: String,
    pub summary: String,
    pub tokens: Vec<(String, String)>,
}

/// The value of the first token named `key`.
pub open spec fn token_value(tokens: Seq<(String, String)>, key: Seq<char>) -> Option<Seq<char>>
    decreases tokens.len(),
{
    if tokens.len() == 0 {
        None
    } else if tokens[0].0@ == key {
        Some(tokens[0].1@)
    } else {
        token_value(tokens.drop_first(), key)
    }
}

/// The record's summary token `key` is `value`.
pub open spec fn token_is(r: SummaryRecord, key: Seq<char>, value: Seq<char>) -> bool {
    token_value(r.tokens@, key) == Some(value)
}

fn token_equals(tokens: &Vec<(String, String)>, key: &str, value: &str) -> (b: bool)
    ensures
        b == (token_value(tokens@, key@) == Some(value@)),
{
    let mut i: usize = 0;
    assert(tokens@.subrange(0, tokens.len() as int) =~= tokens@);
    while i < tokens.len()
        invariant
            i <= tokens.len(),
            token_value(tokens@, key@) == token_value(tokens@.subrange(i as int, tokens.len() as int), key@),
        decreases tokens.len() - i,
    {
        assert(tokens@.subrange(i as int, tokens.len() as int).drop_first() =~= tokens@.subrange(
            i + 1,
            tokens.len() as int,
        ));
        if str_eq(tokens[i].0.as_str(), key) {
            return str_eq(tokens[i].1.as_str(), value);
        }
        i += 1;
    }
    false
}

/// A subject binding of the subject in the Case.
pub open spec fn binds_subject(r: SummaryRecord, case_ref: Seq<char>, subject: Seq<char>) -> bool {
    r.case_ref@ == case_ref && r.kind == RecordKind::SubjectBinding && r.subject_ref@ == subject
}

/// The subject is a participant of the Case, or the journal binds it.
pub open spec fn subject_bound_spec(
    participant_ids: Seq<Seq<char>>,
    records: Seq<SummaryRecord>,
    case_ref: Seq<char>,
    subject: Seq<char>,
) -> bool {
    participant_ids.contains(subject) || exists|k: int|
        0 <= k < records.len() && binds_subject(#[trigger] records[k], case_ref, subject)
}

fn ids_contain(ids: &Vec<String>, id: &str) -> (b: bool)
    ensures
        b == views(ids@).contains(id@),
{
    let mut i: usize = 0;
    while i < ids.len()
        invariant
            i <= ids.len(),
            forall|j: int| 0 <= j < i ==> (#[trigger] ids@[j])@ != id@,
        decreases ids.len() - i,
    {
        if str_eq(ids[i].as_str(), id) {
            assert(views(ids@)[i as int] == id@);
            return true;
        }
        i += 1;
    }
    proof {
        if views(ids@).contains(id@) {
            let j = choose|j: int| 0 <= j < views(ids@).len() && views(ids@)[j] == id@;
            assert(ids@[j]@ == id@);
        }
    }
    false
}

/// Whether the subject may act in the Case; the refusal where it may not.
pub fn subject_bound_check(
    participant_ids: &Vec<String>,
    records: &Vec<SummaryRecord>,
    case_ref: &str,
    subject: &str,
) -> (r: Result<(), String>)
    ensures
        subject_bound_spec(views(participant_ids@), records@, case_ref@, subject@) ==> r is Ok,
        !subject_bound_spec(views(participant_ids@), records@, case_ref@, subject@) ==> (r matches Err(e) && e@
            == "subject "@ + subject@ + " is not bound to case "@ + case_ref@),
{
    if ids_contain(participant_ids, subject) {
        return Ok(());
    }
    let mut k: usize = 0;
    while k < records.len()
        invariant
            k <= records.len(),
            !views(participant_ids@).contains(subject@),
            forall|j: int| 0 <= j < k ==> !binds_subject(#[trigger] records@[j], case_ref@, subject@),
        decreases records.len() - k,
    {
        let r = &records[k];
        if str_eq(r.case_ref.as_str(), case_ref) && r.kind == RecordKind::SubjectBinding && str_eq(
            r.subject_ref.as_str(),
            subject,
        ) {
            assert(binds_subject(records@[k as int], case_ref@, subject@));
            return Ok(());
        }
        k += 1;
    }
    let mut m = chars_of("subject ");
    push_str(&mut m, subject);
    push_str(&mut m, " is not bound to case ");
    push_str(&mut m, case_ref);
    Err(string_of(&m))
}

/// A governed projection result of the Case for the consumer's view kind.
pub open spec fn offers_projection(r: SummaryRecord, case_ref: Seq<char>, consumer: Seq<char>, kind: Seq<char>) -> bool {
    &&& r.case_ref@ == case_ref
    &&& r.kind == RecordKind::ProjectionResult
    &&& token_is(r, "consumer"@, consumer)
    &&& token_is(r, "kind"@, kind)
    &&& token_is(r, "redaction"@, "summary_only"@)
}

/// A Case entry already recorded for the subject's view.
pub open spec fn records_entry(r: SummaryRecord, case_ref: Seq<char>, subject: Seq<char>, consumer: Seq<char>, kind: Seq<char>) -> bool {
    &&& r.case_ref@ == case_ref
    &&& r.kind == RecordKind::SubjectState
    &&& r.subject_ref@ == subject
    &&& token_is(r, "case_entry"@, "admitted"@)
    &&& token_is(r, "consumer"@, consumer)
    &&& token_is(r, "kind"@, kind)
}

/// A governed projection of the consumer's view kind is available for the
/// Case; the refusal where none is.
pub fn projection_available_check(records: &Vec<SummaryRecord>, case_ref: &str, consumer: &str, kind: &str) -> (r: Result<(), String>)
    ensures
        (exists|k: int| 0 <= k < records@.len() && offers_projection(#[trigger] records@[k], case_ref@, consumer@, kind@))
            ==> r is Ok,
        !(exists|k: int| 0 <= k < records@.len() && offers_projection(#[trigger] records@[k], case_ref@, consumer@, kind@))
            ==> (r matches Err(e) && e@ == "no governed "@ + consumer@ + "/"@ + kind@ + " projection is available for case "@
            + case_ref@),
{
    let mut k: usize = 0;
    while k < records.len()
        invariant
            k <= records.len(),
            forall|j: int| 0 <= j < k ==> !offers_projection(#[trigger] records@[j], case_ref@, consumer@, kind@),
        decreases records.len() - k,
    {
        let r = &records[k];
        if str_eq(r.case_ref.as_str(), case_ref) && r.kind == RecordKind::ProjectionResult && token_equals(
            &r.tokens,
            "consumer",
            consumer,
        ) && token_equals(&r.tokens, "kind", kind) && token_equals(&r.tokens, "redaction", "summary_only") {
            assert(offers_projection(records@[k as int], case_ref@, consumer@, kind@));
            return Ok(());
        }
        k += 1;
    }
    let mut m = chars_of("no governed ");
    push_str(&mut m, consumer);
    push_str(&mut m, "/");
    push_str(&mut m, kind);
    push_str(&mut m, " projection is available for case ");
    push_str(&mut m, case_ref);
    Err(string_of(&m))
}

/// Whether the journal already records the subject's entry into the view.
pub fn entry_recorded(records: &Vec<SummaryRecord>, case_ref: &str, subject: &str, consumer: &str, kind: &str) -> (b: bool)
    ensures
        b == exists|k: int| 0 <= k < records@.len() && records_entry(#[trigger] records@[k], case_ref@, subject@, consumer@, kind@),
{
    let mut k: usize = 0;
    while k < records.len()
        invariant
            k <= records.len(),
            forall|j: int| 0 <= j < k ==> !records_entry(#[trigger] records@[j], case_ref@, subject@, consumer@, kind@),
        decreases records.len() - k,
    {
        let r = &records[k];
        if str_eq(r.case_ref.as_str(), case_ref) && r.kind == RecordKind::SubjectState && str_eq(
            r.subject_ref.as_str(),
            subject,
        ) && token_equals(&r.tokens, "case_entry", "admitted") && token_equals(&r.tokens, "consumer", consumer)
            && token_equals(&r.tokens, "kind", kind) {
            assert(records_entry(records@[k as int], case_ref@, subject@, consumer@, kind@));
            return true;
        }
        k += 1;
    }
    false
}

/// The subject's participant (the first with its id) holds the view.
pub open spec fn view_admitted_spec(ps: Seq<CaseParticipant>, subject: Seq<char>, consumer: Seq<char>, kind: Seq<char>) -> bool {
    let p = first_participant(ps, subject, 0);
    p >= 0 && pair_views(ps[p].admitted_views@).contains((consumer, kind))
}

/// Whether the subject was already admitted to the view.
pub fn view_admitted(participants: &Vec<CaseParticipant>, subject: &str, consumer: &str, kind: &str) -> (b: bool)
    ensures
        b == view_admitted_spec(participants@, subject@, consumer@, kind@),
{
    let mut i: usize = 0;
    while i < participants.len()
        invariant
            i <= participants.len(),
            first_participant(participants@, subject@, 0) == first_participant(participants@, subject@, i as int),
        decreases participants.len() - i,
    {
        if str_eq(participants[i].participant_id.as_str(), subject) {
            let vs = &participants[i].admitted_views;
            let ghost pv = pair_views(vs@);
            assert(first_participant(participants@, subject@, 0) == i as int);
            let mut j: usize = 0;
            while j < vs.len()
                invariant
                    j <= vs.len(),
                    i < participants.len(),
                    first_participant(participants@, subject@, 0) == i as int,
                    vs@ == participants@[i as int].admitted_views@,
                    pv == pair_views(vs@),
                    forall|m: int| 0 <= m < j ==> pv[m] != (consumer@, kind@),
                decreases vs.len() - j,
            {
                if str_eq(vs[j].0.as_str(), consumer) && str_eq(vs[j].1.as_str(), kind) {
                    assert(pv[j as int] == (consumer@, kind@));
                    return true;
                }
                j += 1;
            }
            proof {
                if pv.contains((consumer@, kind@)) {
                    let m = choose|m: int| 0 <= m < pv.len() && pv[m] == (consumer@, kind@);
                    assert(pv[m] != (consumer@, kind@));
                }
            }
            return false;
        }
        i += 1;
    }
    false
}

/// The transition that admits the subject to the view.
pub open spec fn admission_transition_spec(case_ref: Seq<char>, subject: Seq<char>, consumer: Seq<char>, kind: Seq<char>) -> Seq<char> {
    "transition:case-admission:"@ + canonical_id_spec(case_ref) + ":"@ + canonical_id_spec(subject) + ":"@
        + canonical_id_spec(consumer) + ":"@ + canonical_id_spec(kind)
}

/// The id and summary of the transition admitting the subject to the view.
pub fn admission_transition(case_ref: &str, subject: &str, consumer: &str, kind: &str) -> (r: (String, String))
    ensures
        r.0@ == admission_transition_spec(case_ref@, subject@, consumer@, kind@),
        r.1@ == "Participant admitted to "@ + consumer@ + "/"@ + kind@ + " view for compatibility command output"@,
{
    let mut id = chars_of("transition:case-admission:");
    push_str(&mut id, canonical_id_component(case_ref).as_str());
    push_str(&mut id, ":");
    push_str(&mut id, canonical_id_component(subject).as_str());
    push_str(&mut id, ":");
    push_str(&mut id, canonical_id_component(consumer).as_str());
    push_str(&mut id, ":");
    push_str(&mut id, canonical_id_component(kind).as_str());
    let mut s = chars_of("Participant admitted to ");
    push_str(&mut s, consumer);
    push_str(&mut s, "/");
    push_str(&mut s, kind);
    push_str(&mut s, " view for compatibility command output");
    (string_of(&id), string_of(&s))
}

/// Only a zsh or sh script can be printed.
pub fn shell_supported(shell: &str) -> (r: Result<(), String>)
    ensures
        (shell@ == "zsh"@ || shell@ == "sh"@) ==> r is Ok,
        !(shell@ == "zsh"@ || shell@ == "sh"@) ==> (r matches Err(e) && e@ == "unsupported shell: "@ + shell@),
{
    if str_eq(shell, "zsh") || str_eq(shell, "sh") {
        Ok(())
    } else {
        let mut m = chars_of("unsupported shell: ");
        push_str(&mut m, shell);
        Err(string_of(&m))
    }
}

/// `value` quoted as one shell word.
pub open spec fn quoted(value: Seq<char>) -> Seq<char> {
    seq!['\''] + shell_quote_body(value) + seq!['\'']
}

/// A script line that prints `text`.
pub open spec fn printf_line(text: Seq<char>) -> Seq<char> {
    "printf '%s\\n' "@ + quoted(text) + "\n"@
}

/// A script line that exports `name` with `value`.
pub open spec fn export_line(name: Seq<char>, value: Seq<char>) -> Seq<char> {
    "export "@ + name + "="@ + quoted(value) + "\n"@
}

fn push_printf(out: &mut Vec<char>, text: &str)
    ensures
        final(out)@ == old(out)@ + printf_line(text@),
{
    push_str(out, "printf '%s\\n' ");
    push_str(out, shell_quote(text).as_str());
    push_str(out, "\n");
}

fn push_printf_kv(out: &mut Vec<char>, name: &str, value: &str)
    ensures
        final(out)@ == old(out)@ + printf_line(name@ + ": "@ + value@),
{
    let mut t = chars_of(name);
    push_str(&mut t, ": ");
    push_str(&mut t, value);
    push_printf(out, string_of(&t).as_str());
}

fn push_export(out: &mut Vec<char>, name: &str, value: &str)
    ensures
        final(out)@ == old(out)@ + export_line(name@, value@),
{
    push_str(out, "export ");
    push_str(out, name);
    push_str(out, "=");
    push_str(out, shell_quote(value).as_str());
    push_str(out, "\n");
}

/// The lines that make the prompt show the Case.
pub open spec fn prompt_hook_lines() -> Seq<char> {
    "if [ -z \"${YAI_PROMPT_BASE+x}\" ]; then export YAI_PROMPT_BASE=\"${PROMPT:-${PS1:-}}\"; fi\n"@
        + "if [ -z \"${YAI_RPROMPT_BASE+x}\" ]; then export YAI_RPROMPT_BASE=\"${RPROMPT:-}\"; fi\n"@
        + "export PROMPT=\"$YAI_CASE_PROMPT_FLAG $YAI_PROMPT_BASE\"\n"@ + "export PS1=\"$PROMPT\"\n"@
        + "export RPROMPT=\"$YAI_RPROMPT_BASE\"\n"@
}

/// The script `yai case enter --shell` prints: the entry's report, then the
/// journal, Case and subject of the session and its prompt flag.
pub open spec fn enter_shell_spec(journal_path: Seq<char>, case_ref: Seq<char>, subject: Seq<char>) -> Seq<char> {
    printf_line("case_entry: accepted"@) + printf_line("case_entry_status: shell_scoped"@) + printf_line(
        "case_session: active"@,
    ) + printf_line("case_world: materialized"@) + printf_line("case_context: active"@) + printf_line(
        "case_ref"@ + ": "@ + case_ref,
    ) + printf_line("subject_ref"@ + ": "@ + subject) + printf_line("participant_view: model_context"@)
        + printf_line("consumer: model"@) + printf_line("redaction: summary_only"@) + printf_line(
        "raw_journal_access: not_provided"@,
    ) + printf_line("filesystem_access: not_provided"@) + export_line("YAI_JOURNAL"@, journal_path) + export_line(
        "YAI_CASE_REF"@,
        case_ref,
    ) + export_line("YAI_SUBJECT_REF"@, subject) + export_line(
        "YAI_CASE_PROMPT_FLAG"@,
        "[yai:"@ + case_ref + "]"@,
    ) + prompt_hook_lines()
}

fn enter_shell_report(case_ref: &str, subject: &str) -> (out: Vec<char>)
    ensures
        out@ == printf_line("case_entry: accepted"@) + printf_line("case_entry_status: shell_scoped"@) + printf_line(
            "case_session: active"@,
        ) + printf_line("case_world: materialized"@) + printf_line("case_context: active"@) + printf_line(
            "case_ref"@ + ": "@ + case_ref@,
        ) + printf_line("subject_ref"@ + ": "@ + subject@) + printf_line("participant_view: model_context"@)
            + printf_line("consumer: model"@) + printf_line("redaction: summary_only"@) + printf_line(
            "raw_journal_access: not_provided"@,
        ) + printf_line("filesystem_access: not_provided"@),
{
    let mut o: Vec<char> = Vec::new();
    push_printf(&mut o, "case_entry: accepted");
    push_printf(&mut o, "case_entry_status: shell_scoped");
    push_printf(&mut o, "case_session: active");
    push_printf(&mut o, "case_world: materialized");
    push_printf(&mut o, "case_context: active");
    push_printf_kv(&mut o, "case_ref", case_ref);
    push_printf_kv(&mut o, "subject_ref", subject);
    push_printf(&mut o, "participant_view: model_context");
    push_printf(&mut o, "consumer: model");
    push_printf(&mut o, "redaction: summary_only");
    push_printf(&mut o, "raw_journal_access: not_provided");
    push_printf(&mut o, "filesystem_access: not_provided");
    o
}

/// The shell script of a Case entry.
pub fn case_enter_shell(journal_path: &str, case_ref: &str, subject: &str) -> (out: String)
    ensures
        out@ == enter_shell_spec(journal_path@, case_ref@, subject@),
{
    let mut o = enter_shell_report(case_ref, subject);
    push_export(&mut o, "YAI_JOURNAL", journal_path);
    push_export(&mut o, "YAI_CASE_REF", case_ref);
    push_export(&mut o, "YAI_SUBJECT_REF", subject);
    let mut flag = chars_of("[yai:");
    push_str(&mut flag, case_ref);
    push_str(&mut flag, "]");
    push_export(&mut o, "YAI_CASE_PROMPT_FLAG", string_of(&flag).as_str());
    push_str(&mut o, "if [ -z \"${YAI_PROMPT_BASE+x}\" ]; then export YAI_PROMPT_BASE=\"${PROMPT:-${PS1:-}}\"; fi\n");
    push_str(&mut o, "if [ -z \"${YAI_RPROMPT_BASE+x}\" ]; then export YAI_RPROMPT_BASE=\"${RPROMPT:-}\"; fi\n");
    push_str(&mut o, "export PROMPT=\"$YAI_CASE_PROMPT_FLAG $YAI_PROMPT_BASE\"\n");
    push_str(&mut o, "export PS1=\"$PROMPT\"\n");
    push_str(&mut o, "export RPROMPT=\"$YAI_RPROMPT_BASE\"\n");
    string_of(&o)
}

/// The report of a Case entry (before the entry preview).
pub open spec fn enter_reply_spec(already: bool, case_ref: Seq<char>, subject: Seq<char>, consumer: Seq<char>, kind: Seq<char>) -> Seq<char> {
    kv_line("case_entry"@, "accepted"@) + kv_line(
        "case_entry_status"@,
        if already { "already_admitted"@ } else { "admitted"@ },
    ) + kv_line("case_session"@, "active"@) + kv_line("case_world"@, "materialized"@) + kv_line(
        "case_context"@,
        "active"@,
    ) + kv_line("case_ref"@, case_ref) + kv_line("subject_ref"@, subject) + kv_line("participant_view"@, kind)
        + kv_line("consumer"@, consumer) + kv_line("redaction"@, "summary_only"@) + kv_line(
        "raw_journal_access"@,
        "not_provided"@,
    ) + kv_line("filesystem_access"@, "not_provided"@) + kv_line(
        "authority_scope"@,
        "model interpretation_only"@,
    ) + "\n"@
}

/// The report of a Case entry.
pub fn case_enter_reply(already: bool, case_ref: &str, subject: &str, consumer: &str, kind: &str) -> (out: String)
    ensures
        out@ == enter_reply_spec(already, case_ref@, subject@, consumer@, kind@),
{
    let mut o: Vec<char> = Vec::new();
    push_kv(&mut o, "case_entry", "accepted");
    push_kv(&mut o, "case_entry_status", if already { "already_admitted" } else { "admitted" });
    push_kv(&mut o, "case_session", "active");
    push_kv(&mut o, "case_world", "materialized");
    push_kv(&mut o, "case_context", "active");
    push_kv(&mut o, "case_ref", case_ref);
    push_kv(&mut o, "subject_ref", subject);
    push_kv(&mut o, "participant_view", kind);
    push_kv(&mut o, "consumer", consumer);
    push_kv(&mut o, "redaction", "summary_only");
    push_kv(&mut o, "raw_journal_access", "not_provided");
    push_kv(&mut o, "filesystem_access", "not_provided");
    push_kv(&mut o, "authority_scope", "model interpretation_only");
    push_str(&mut o, "\n");
    string_of(&o)
}

/// The summary of a provider attachment.
pub open spec fn attachment_summary_spec(provider_id: Seq<char>, base_url: Seq<char>, model: Seq<char>, key_env: Seq<char>) -> Seq<char> {
    "provider_attachment:attached provider_id:"@ + provider_id + " provider:openai_compatible base_url:"@ + base_url
        + " model:"@ + model + " api_key_env:"@ + key_env
        + " prompt_surface:vendored_linenoise context:typed_projection_context_frame"@
}

/// A provider attachment to record: the record and the credential reference.
pub struct AttachmentPlan {
    pub record_id: String,
    pub summary: String,
    pub credential_ref: String,
}

/// The record of attaching the provider to the subject, and the reference
/// to the variable that holds its key.
pub fn attachment_plan(
    case_ref: &str,
    subject: &str,
    provider_id: &str,
    base_url: &str,
    model: &str,
    key_env: &str,
    sequence: u64,
) -> (r: AttachmentPlan)
    ensures
        r.record_id@ == scoped_record_id("provider-attachment:"@, case_ref@, subject@, sequence as nat),
        r.summary@ == attachment_summary_spec(provider_id@, base_url@, model@, key_env@),
        r.credential_ref@ == "env:"@ + key_env@,
{
    let mut s = chars_of("provider_attachment:attached provider_id:");
    push_str(&mut s, provider_id);
    push_str(&mut s, " provider:openai_compatible base_url:");
    push_str(&mut s, base_url);
    push_str(&mut s, " model:");
    push_str(&mut s, model);
    push_str(&mut s, " api_key_env:");
    push_str(&mut s, key_env);
    push_str(&mut s, " prompt_surface:vendored_linenoise context:typed_projection_context_frame");
    let mut c = chars_of("env:");
    push_str(&mut c, key_env);
    AttachmentPlan {
        record_id: crate::records::scoped_record_id_exec("provider-attachment:", case_ref, subject, sequence),
        summary: string_of(&s),
        credential_ref: string_of(&c),
    }
}

/// The provider binding the Case holds for a participant.
pub struct ProviderBindingState {
    pub participant_id: String,
    pub provider_id: String,
    pub provider_kind: String,
    pub base_url: String,
    pub model_id: String,
    pub credential_ref: String,
}

/// The Case already binds this provider to the subject, as asked (a binding
/// without a provider id accepts any).
pub open spec fn already_attached_spec(
    b: ProviderBindingState,
    subject: Seq<char>,
    provider_id: Seq<char>,
    base_url: Seq<char>,
    model: Seq<char>,
    key_env: Seq<char>,
) -> bool {
    &&& b.participant_id@ == subject
    &&& (b.provider_id@.len() == 0 || b.provider_id@ == provider_id)
    &&& b.provider_kind@ == "openai_compatible"@
    &&& b.base_url@ == base_url
    &&& b.model_id@ == model
    &&& b.credential_ref@ == "env:"@ + key_env
}

/// Whether the attachment asked for is the Case's binding already.
pub fn already_attached(
    binding: Option<&ProviderBindingState>,
    subject: &str,
    provider_id: &str,
    base_url: &str,
    model: &str,
    key_env: &str,
) -> (r: bool)
    ensures
        r == match binding {
            Some(b) => already_attached_spec(*b, subject@, provider_id@, base_url@, model@, key_env@),
            None => false,
        },
{
    match binding {
        None => false,
        Some(b) => {
            let mut c = chars_of("env:");
            push_str(&mut c, key_env);
            let cred = string_of(&c);
            str_eq(b.participant_id.as_str(), subject) && (chars_of(b.provider_id.as_str()).len() == 0 || str_eq(
                b.provider_id.as_str(),
                provider_id,
            )) && str_eq(b.provider_kind.as_str(), "openai_compatible") && str_eq(b.base_url.as_str(), base_url)
                && str_eq(b.model_id.as_str(), model) && str_eq(b.credential_ref.as_str(), cred.as_str())
        },
    }
}

/// A subject state record of the Case with exactly this summary.
pub open spec fn records_summary(r: SummaryRecord, case_ref: Seq<char>, subject: Seq<char>, summary: Seq<char>) -> bool {
    r.case_ref@ == case_ref && r.kind == RecordKind::SubjectState && r.subject_ref@ == subject && r.summary@ == summary
}

/// Whether the journal already records this attachment.
pub fn attachment_recorded(records: &Vec<SummaryRecord>, case_ref: &str, subject: &str, summary: &str) -> (b: bool)
    ensures
        b == exists|k: int| 0 <= k < records@.len() && records_summary(#[trigger] records@[k], case_ref@, subject@, summary@),
{
    let mut k: usize = 0;
    while k < records.len()
        invariant
            k <= records.len(),
            forall|j: int| 0 <= j < k ==> !records_summary(#[trigger] records@[j], case_ref@, subject@, summary@),
        decreases records.len() - k,
    {
        let r = &records[k];
        if str_eq(r.case_ref.as_str(), case_ref) && r.kind == RecordKind::SubjectState && str_eq(
            r.subject_ref.as_str(),
            subject,
        ) && str_eq(r.summary.as_str(), summary) {
            assert(records_summary(records@[k as int], case_ref@, subject@, summary@));
            return true;
        }
        k += 1;
    }
    false
}

/// The status an attachment reports.
pub fn attachment_status(already: bool) -> (s: &'static str)
    ensures
        s@ == if already { "already_attached"@ } else { "attached"@ },
{
    if already { "already_attached" } else { "attached" }
}

/// The report of a provider attachment.
pub open spec fn attach_reply_spec(
    status: Seq<char>,
    case_ref: Seq<char>,
    subject: Seq<char>,
    provider_id: Seq<char>,
    base_url: Seq<char>,
    model: Seq<char>,
    key_env: Seq<char>,
) -> Seq<char> {
    kv_line("provider_attachment"@, "accepted"@) + kv_line("provider_attachment_status"@, status) + kv_line(
        "case_ref"@,
        case_ref,
    ) + kv_line("subject_ref"@, subject) + kv_line("provider_id"@, provider_id) + kv_line("case_session"@, "active"@)
        + kv_line("case_context"@, "active"@) + kv_line("authority_scope"@, "model interpretation_only"@) + kv_line(
        "provider_base_url"@,
        base_url,
    ) + kv_line("provider_model"@, model) + kv_line("api_key_env"@, key_env)
}

/// The report of a provider attachment.
pub fn provider_attach_reply(
    status: &str,
    case_ref: &str,
    subject: &str,
    provider_id: &str,
    base_url: &str,
    model: &str,
    key_env: &str,
) -> (out: String)
    ensures
        out@ == attach_reply_spec(status@, case_ref@, subject@, provider_id@, base_url@, model@, key_env@),
{
    let mut o: Vec<char> = Vec::new();
    push_kv(&mut o, "provider_attachment", "accepted");
    push_kv(&mut o, "provider_attachment_status", status);
    push_kv(&mut o, "case_ref", case_ref);
    push_kv(&mut o, "subject_ref", subject);
    push_kv(&mut o, "provider_id", provider_id);
    push_kv(&mut o, "case_session", "active");
    push_kv(&mut o, "case_context", "active");
    push_kv(&mut o, "authority_scope", "model interpretation_only");
    push_kv(&mut o, "provider_base_url", base_url);
    push_kv(&mut o, "provider_model", model);
    push_kv(&mut o, "api_key_env", key_env);
    string_of(&o)
}

/// The script `yai case attach-provider --shell` prints: the report, then
/// the provider settings of the session.
pub open spec fn attach_shell_spec(
    status: Seq<char>,
    case_ref: Seq<char>,
    subject: Seq<char>,
    provider_id: Seq<char>,
    base_url: Seq<char>,
    model: Seq<char>,
    key_env: Seq<char>,
) -> Seq<char> {
    printf_line("provider_attachment: accepted"@) + printf_line("provider_attachment_status"@ + ": "@ + status)
        + printf_line("case_ref"@ + ": "@ + case_ref) + printf_line("subject_ref"@ + ": "@ + subject) + printf_line(
        "provider_id"@ + ": "@ + provider_id,
    ) + printf_line("provider_base_url"@ + ": "@ + base_url) + printf_line("provider_model"@ + ": "@ + model)
        + printf_line("case_session: active"@) + printf_line("case_context: active"@) + printf_line(
        "authority_scope: model interpretation_only"@,
    ) + export_line("YAI_PROVIDER_BASE_URL"@, base_url) + export_line("YAI_PROVIDER_ID"@, provider_id) + export_line(
        "YAI_PROVIDER_MODEL"@,
        model,
    ) + export_line("YAI_PROVIDER_SUBJECT_REF"@, subject) + export_line("YAI_PROVIDER_API_KEY_ENV"@, key_env)
}

/// The shell script of a provider attachment.
pub fn provider_attach_shell(
    status: &str,
    case_ref: &str,
    subject: &str,
    provider_id: &str,
    base_url: &str,
    model: &str,
    key_env: &str,
) -> (out: String)
    ensures
        out@ == attach_shell_spec(status@, case_ref@, subject@, provider_id@, base_url@, model@, key_env@),
{
    let mut o: Vec<char> = Vec::new();
    push_printf(&mut o, "provider_attachment: accepted");
    push_printf_kv(&mut o, "provider_attachment_status", status);
    push_printf_kv(&mut o, "case_ref", case_ref);
    push_printf_kv(&mut o, "subject_ref", subject);
    push_printf_kv(&mut o, "provider_id", provider_id);
    push_printf_kv(&mut o, "provider_base_url", base_url);
    push_printf_kv(&mut o, "provider_model", model);
    push_printf(&mut o, "case_session: active");
    push_printf(&mut o, "case_context: active");
    push_printf(&mut o, "authority_scope: model interpretation_only");
    push_export(&mut o, "YAI_PROVIDER_BASE_URL", base_url);
    push_export(&mut o, "YAI_PROVIDER_ID", provider_id);
    push_export(&mut o, "YAI_PROVIDER_MODEL", model);
    push_export(&mut o, "YAI_PROVIDER_SUBJECT_REF", subject);
    push_export(&mut o, "YAI_PROVIDER_API_KEY_ENV", key_env);
    string_of(&o)
}

} // verus!
