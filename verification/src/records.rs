//! Identifiers and summaries of the journal records a prompt session writes:
//! the Case entry, the prompt attempt and its invocation, the provider
//! output and its receipt, the model interpretation, the interaction turn
//! and the transcript retention state. The journal's sequence number of the
//! new record is given; writing the record is left to the caller.

use vstd::prelude::*;
use crate::numbers::{decimal_spec, push_decimal};
use crate::provider::transcript_retention_label;
use crate::render::{canonical_id_component, canonical_id_spec};
use crate::text::{chars_of, push_str, string_of};
use crate::threads::{active_thread_id, active_thread_spec, JournalRecord};
use crate::words::{compact_spec, compact_text};

verus! {

/// `s` with every `:` turned to `-`.
pub open spec fn dashed(s: Seq<char>) -> Seq<char> {
    s.map_values(|c: char| if c == ':' { '-' } else { c })
}

fn push_dashed(out: &mut Vec<char>, s: &str)
    ensures
        final(out)@ == old(out)@ + dashed(s@),
{
    let t = chars_of(s);
    let ghost start = out@;
    let mut i: usize = 0;
    while i < t.len()
        invariant
            i <= t.len(),
            t@ == s@,
            out@ == start + dashed(t@.subrange(0, i as int)),
        decreases t.len() - i,
    {
        let ghost before = out@;
        if t[i] == ':' {
            out.push('-');
        } else {
            out.push(t[i]);
        }
        proof {
            assert(dashed(t@.subrange(0, i + 1)) =~= dashed(t@.subrange(0, i as int)).push(
                if t@[i as int] == ':' {
                    '-'
                } else {
                    t@[i as int]
                },
            ));
            assert(out@ =~= start + dashed(t@.subrange(0, i + 1)));
        }
        i += 1;
    }
    proof {
        assert(t@.subrange(0, t.len() as int) =~= t@);
    }
}

/// `{head}{case}:{owner}:{sequence}`: the Case as an identifier component,
/// the owner (a subject or a thread) with its colons turned to dashes.
pub open spec fn scoped_record_id(head: Seq<char>, case_ref: Seq<char>, owner: Seq<char>, sequence: nat) -> Seq<char> {
    head + canonical_id_spec(case_ref) + ":"@ + dashed(owner) + ":"@ + decimal_spec(sequence)
}

pub(crate) fn scoped_record_id_exec(head: &str, case_ref: &str, owner: &str, sequence: u64) -> (out: String)
    ensures
        out@ == scoped_record_id(head@, case_ref@, owner@, sequence as nat),
{
    let mut o = chars_of(head);
    push_str(&mut o, canonical_id_component(case_ref).as_str());
    push_str(&mut o, ":");
    push_dashed(&mut o, owner);
    push_str(&mut o, ":");
    push_decimal(&mut o, sequence);
    string_of(&o)
}

/// `{head}{case}{tail}{sequence}`.
pub open spec fn case_ref_id(head: Seq<char>, case_ref: Seq<char>, tail: Seq<char>, sequence: nat) -> Seq<char> {
    head + canonical_id_spec(case_ref) + tail + decimal_spec(sequence)
}

fn case_ref_id_exec(head: &str, case_ref: &str, tail: &str, sequence: u64) -> (out: String)
    ensures
        out@ == case_ref_id(head@, case_ref@, tail@, sequence as nat),
{
    let mut o = chars_of(head);
    push_str(&mut o, canonical_id_component(case_ref).as_str());
    push_str(&mut o, tail);
    push_decimal(&mut o, sequence);
    string_of(&o)
}

/// A record to be appended: its id and its summary.
pub struct RecordDraft {
    pub id: String,
    pub summary: String,
}

/// The summary of a Case entry.
pub open spec fn case_entry_summary_spec(consumer: Seq<char>, kind: Seq<char>) -> Seq<char> {
    "case_entry:admitted consumer:"@ + consumer + " kind:"@ + kind
        + " redaction:summary_only raw_journal_access:not_provided filesystem_access:not_provided"@
}

/// The record of a subject's entry into a Case as `consumer` of a view of
/// `kind`.
pub fn case_entry_record(case_ref: &str, subject_ref: &str, consumer: &str, kind: &str, sequence: u64) -> (r: RecordDraft)
    ensures
        r.id@ == scoped_record_id("case-entry:"@, case_ref@, subject_ref@, sequence as nat),
        r.summary@ == case_entry_summary_spec(consumer@, kind@),
{
    let id = scoped_record_id_exec("case-entry:", case_ref, subject_ref, sequence);
    let mut s = chars_of("case_entry:admitted consumer:");
    push_str(&mut s, consumer);
    push_str(&mut s, " kind:");
    push_str(&mut s, kind);
    push_str(&mut s, " redaction:summary_only raw_journal_access:not_provided filesystem_access:not_provided");
    RecordDraft { id, summary: string_of(&s) }
}

/// The references of a prompt attempt: the attempt, the provider invocation
/// it starts and the journal record of the prompt.
pub struct PromptRefs {
    pub attempt_id: String,
    pub invocation_id: String,
    pub record_id: String,
}

/// The references of a prompt sent by `subject_ref` in the Case.
pub fn model_prompt_refs(case_ref: &str, subject_ref: &str, sequence: u64) -> (r: PromptRefs)
    ensures
        r.attempt_id@ == case_ref_id("attempt:"@, case_ref@, ":model-prompt-"@, sequence as nat),
        r.invocation_id@ == case_ref_id("invocation:"@, case_ref@, ":model-prompt-"@, sequence as nat),
        r.record_id@ == scoped_record_id("model-prompt:"@, case_ref@, subject_ref@, sequence as nat),
{
    PromptRefs {
        attempt_id: case_ref_id_exec("attempt:", case_ref, ":model-prompt-", sequence),
        invocation_id: case_ref_id_exec("invocation:", case_ref, ":model-prompt-", sequence),
        record_id: scoped_record_id_exec("model-prompt:", case_ref, subject_ref, sequence),
    }
}

/// The references of a provider output: its receipt, the provider result
/// and the journal record of the output.
pub struct OutputRefs {
    pub receipt_id: String,
    pub result_id: String,
    pub record_id: String,
}

/// The references of the output the provider gave to `subject_ref`.
pub fn model_output_refs(case_ref: &str, subject_ref: &str, sequence: u64) -> (r: OutputRefs)
    ensures
        r.receipt_id@ == case_ref_id("receipt:"@, case_ref@, ":model-output-"@, sequence as nat),
        r.result_id@ == case_ref_id("provider-result:"@, case_ref@, ":model-output-"@, sequence as nat),
        r.record_id@ == scoped_record_id("model-output:"@, case_ref@, subject_ref@, sequence as nat),
{
    OutputRefs {
        receipt_id: case_ref_id_exec("receipt:", case_ref, ":model-output-", sequence),
        result_id: case_ref_id_exec("provider-result:", case_ref, ":model-output-", sequence),
        record_id: scoped_record_id_exec("model-output:", case_ref, subject_ref, sequence),
    }
}

/// The id of the transition that commits a record.
pub open spec fn transition_id_spec(record_id: Seq<char>) -> Seq<char> {
    "transition:"@ + canonical_id_spec(record_id)
}

/// The id of the transition that commits the record `record_id`.
pub fn transition_id(record_id: &str) -> (out: String)
    ensures
        out@ == transition_id_spec(record_id@),
{
    let mut o = chars_of("transition:");
    push_str(&mut o, canonical_id_component(record_id).as_str());
    string_of(&o)
}

/// The summary of a model interpretation: an observed claim, not state.
pub open spec fn interpretation_summary_spec(output: Seq<char>) -> Seq<char> {
    "model_interpretation:observed source:provider_output authority:not_authoritative_state output_is:claim_or_proposal check_against:decisions_receipts_graph preview:"@
        + compact_spec(output, 140)
}

/// A model interpretation to record: the record, and the id of the
/// interpretation it commits.
pub struct InterpretationDraft {
    pub record: RecordDraft,
    pub interpretation_id: String,
}

/// The record of how the provider output was taken: as a claim to be
/// checked against decisions, receipts and the graph.
pub fn model_interpretation_record(case_ref: &str, subject_ref: &str, output: &str, sequence: u64) -> (r: InterpretationDraft)
    ensures
        r.record.id@ == scoped_record_id("model-interpretation:"@, case_ref@, subject_ref@, sequence as nat),
        r.record.summary@ == interpretation_summary_spec(output@),
        r.interpretation_id@ == "interpretation:"@ + canonical_id_spec(r.record.id@),
{
    let id = scoped_record_id_exec("model-interpretation:", case_ref, subject_ref, sequence);
    let mut s = chars_of(
        "model_interpretation:observed source:provider_output authority:not_authoritative_state output_is:claim_or_proposal check_against:decisions_receipts_graph preview:",
    );
    push_str(&mut s, compact_text(output, 140).as_str());
    let mut i = chars_of("interpretation:");
    push_str(&mut i, canonical_id_component(id.as_str()).as_str());
    InterpretationDraft { record: RecordDraft { id, summary: string_of(&s) }, interpretation_id: string_of(&i) }
}

/// The summary of an interaction turn.
pub open spec fn turn_summary_spec(
    sequence: nat,
    thread_id: Seq<char>,
    attempt_id: Seq<char>,
    prompt: Seq<char>,
    output: Seq<char>,
    transcript_enabled: bool,
) -> Seq<char> {
    "interaction_turn:"@ + decimal_spec(sequence) + " thread_id:"@ + thread_id + " attempt_id:"@ + attempt_id
        + " prompt_preview:"@ + compact_spec(prompt, 100) + " output_preview:"@ + compact_spec(output, 120)
        + " transcript_retention:"@ + (if transcript_enabled {
        "full_redacted_case_local"@
    } else {
        "preview_only"@
    }) + " lane:selected_thread audit:journal_retained"@
}

/// An interaction turn to record: the record, the id of the turn it
/// commits, and the operator's input as the turn keeps it.
pub struct TurnDraft {
    pub record: RecordDraft,
    pub turn_id: String,
    pub operator_input: String,
}

fn turn_summary(
    sequence: u64,
    thread_id: &str,
    attempt_id: &str,
    prompt: &str,
    output: &str,
    transcript_enabled: bool,
) -> (out: String)
    ensures
        out@ == turn_summary_spec(sequence as nat, thread_id@, attempt_id@, prompt@, output@, transcript_enabled),
{
    let mut s = chars_of("interaction_turn:");
    push_decimal(&mut s, sequence);
    push_str(&mut s, " thread_id:");
    push_str(&mut s, thread_id);
    push_str(&mut s, " attempt_id:");
    push_str(&mut s, attempt_id);
    push_str(&mut s, " prompt_preview:");
    push_str(&mut s, compact_text(prompt, 100).as_str());
    push_str(&mut s, " output_preview:");
    push_str(&mut s, compact_text(output, 120).as_str());
    push_str(&mut s, " transcript_retention:");
    push_str(&mut s, transcript_retention_label(transcript_enabled));
    push_str(&mut s, " lane:selected_thread audit:journal_retained");
    string_of(&s)
}

/// The record of one exchange of the active thread: the operator's prompt
/// and the provider's output, as previews.
pub fn interaction_turn_record(
    case_ref: &str,
    thread_id: &str,
    attempt_id: &str,
    prompt: &str,
    output: &str,
    transcript_enabled: bool,
    sequence: u64,
) -> (r: TurnDraft)
    ensures
        r.record.id@ == scoped_record_id("interaction-turn:"@, case_ref@, thread_id@, sequence as nat),
        r.record.summary@ == turn_summary_spec(sequence as nat, thread_id@, attempt_id@, prompt@, output@, transcript_enabled),
        r.turn_id@ == "turn:"@ + canonical_id_spec(r.record.id@),
        r.operator_input@ == compact_spec(prompt@, 2048),
{
    let id = scoped_record_id_exec("interaction-turn:", case_ref, thread_id, sequence);
    let summary = turn_summary(sequence, thread_id, attempt_id, prompt, output, transcript_enabled);
    let mut t = chars_of("turn:");
    push_str(&mut t, canonical_id_component(id.as_str()).as_str());
    TurnDraft { record: RecordDraft { id, summary }, turn_id: string_of(&t), operator_input: compact_text(prompt, 2048) }
}

/// The summary of a transcript retention setting.
pub open spec fn retention_summary_spec(enabled: bool) -> Seq<char> {
    "prompt_transcript_retention:"@ + (if enabled {
        "enabled"@
    } else {
        "disabled"@
    }) + " scope:case_local redaction:secret_redacted prompt_preview:on provider_output_preview:on full_transcript:"@
        + (if enabled {
        "on_explicit"@
    } else {
        "off"@
    }) + " memory_candidate:derived_not_raw_chat"@
}

/// The record of the subject turning full transcripts on or off.
pub fn retention_state_record(subject_ref: &str, enabled: bool, sequence: u64) -> (r: RecordDraft)
    ensures
        r.id@ == "prompt-retention:"@ + dashed(subject_ref@) + ":"@ + decimal_spec(sequence as nat),
        r.summary@ == retention_summary_spec(enabled),
{
    let mut id = chars_of("prompt-retention:");
    push_dashed(&mut id, subject_ref);
    push_str(&mut id, ":");
    push_decimal(&mut id, sequence);
    let mut s = chars_of("prompt_transcript_retention:");
    push_str(&mut s, if enabled { "enabled" } else { "disabled" });
    push_str(
        &mut s,
        " scope:case_local redaction:secret_redacted prompt_preview:on provider_output_preview:on full_transcript:",
    );
    push_str(&mut s, if enabled { "on_explicit" } else { "off" });
    push_str(&mut s, " memory_candidate:derived_not_raw_chat");
    RecordDraft { id: string_of(&id), summary: string_of(&s) }
}

/// A prompt is compiled against a Case generation; it may only be sent
/// while the Case is still at that generation.
pub fn check_frame_generation(frame_generation: u64, current_generation: u64) -> (r: Result<(), String>)
    ensures
        frame_generation == current_generation ==> r is Ok,
        frame_generation != current_generation ==> (r matches Err(e) && e@ == "stale_context_frame: frame_generation="@
            + decimal_spec(frame_generation as nat) + " current_generation="@ + decimal_spec(current_generation as nat)),
{
    if frame_generation == current_generation {
        return Ok(());
    }
    let mut m = chars_of("stale_context_frame: frame_generation=");
    push_decimal(&mut m, frame_generation);
    push_str(&mut m, " current_generation=");
    push_decimal(&mut m, current_generation);
    Err(string_of(&m))
}

/// The thread a session speaks in when none was chosen.
pub const DEFAULT_THREAD_ID: &'static str = "thread:default";

/// The thread of a new session: the Case's active thread, else the default
/// thread, which must then be recorded as active (the flag).
pub fn session_thread(records: &Vec<JournalRecord>, case_ref: &str) -> (r: (String, bool))
    ensures
        match active_thread_spec(records@, case_ref@) {
            Some(t) => r.0@ == t && !r.1,
            None => r.0@ == DEFAULT_THREAD_ID@ && r.1,
        },
{
    match active_thread_id(records, case_ref) {
        Some(t) => (t, false),
        None => (crate::text::owned(DEFAULT_THREAD_ID), true),
    }
}

} // verus!
