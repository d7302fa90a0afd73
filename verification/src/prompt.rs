//! The commands of the compatibility prompt: a line read into the command it
//! names, and the texts the prompt shows and records for them.

use vstd::prelude::*;
use crate::numbers::{decimal_spec, push_decimal};
use crate::observe::{kv_line, push_kv};
use crate::preview::RecordKind;
use crate::terminal::strip_spec;
use crate::threads::{ov, thread_turn_count, turn_count_spec, JournalRecord};
use crate::text::{chars_of, owned, push_str, slice_chars, str_eq, string_of, trim_chars, trim_spec};

verus! {

/// What a line typed at the compatibility prompt asks for.
#[derive(Clone, Copy, Debug, PartialEq, Eq, Structural)]
pub enum PromptCommandKind {
    Refresh,
    TranscriptStatus,
    ThreadStatus,
    ThreadList,
    /// A new thread; the argument is its label.
    ThreadNew,
    /// Switch to the thread the argument names.
    ThreadUse,
    ThreadUseMissing,
    /// Archive the thread the argument names.
    ThreadArchive,
    ThreadArchiveMissing,
    TranscriptOn,
    TranscriptOff,
    MemoryPropose,
    /// A line that begins with `/` but names no command.
    Unknown,
    /// Not a command: a prompt for the model.
    Prompt,
}

/// A prompt line read.
pub struct PromptCommand {
    pub kind: PromptCommandKind,
    pub arg: String,
}

/// What a prompt line asks for, and its argument (empty where none).
pub open spec fn prompt_command_spec(c: Seq<char>) -> (PromptCommandKind, Seq<char>) {
    if c == "/refresh"@ {
        (PromptCommandKind::Refresh, Seq::empty())
    } else if c == "/transcript status"@ {
        (PromptCommandKind::TranscriptStatus, Seq::empty())
    } else if c == "/thread status"@ {
        (PromptCommandKind::ThreadStatus, Seq::empty())
    } else if c == "/thread list"@ {
        (PromptCommandKind::ThreadList, Seq::empty())
    } else if c == "/thread new"@ || strip_spec(c, "/thread new "@) is Some {
        let label = trim_spec(strip_spec(c, "/thread new"@).unwrap());
        (PromptCommandKind::ThreadNew, if label.len() == 0 { "thread"@ } else { label })
    } else if strip_spec(c, "/thread use "@) is Some {
        let id = trim_spec(strip_spec(c, "/thread use "@).unwrap());
        if id.len() == 0 {
            (PromptCommandKind::ThreadUseMissing, Seq::empty())
        } else {
            (PromptCommandKind::ThreadUse, id)
        }
    } else if strip_spec(c, "/thread archive "@) is Some {
        let id = trim_spec(strip_spec(c, "/thread archive "@).unwrap());
        if id.len() == 0 {
            (PromptCommandKind::ThreadArchiveMissing, Seq::empty())
        } else {
            (PromptCommandKind::ThreadArchive, id)
        }
    } else if c == "/transcript on"@ {
        (PromptCommandKind::TranscriptOn, Seq::empty())
    } else if c == "/transcript off"@ {
        (PromptCommandKind::TranscriptOff, Seq::empty())
    } else if c == "/memory propose"@ || strip_spec(c, "/memory propose "@) is Some {
        (PromptCommandKind::MemoryPropose, Seq::empty())
    } else if c.len() > 0 && c[0] == '/' {
        (PromptCommandKind::Unknown, Seq::empty())
    } else {
        (PromptCommandKind::Prompt, Seq::empty())
    }
}

/// The line that names a command with no argument.
pub open spec fn command_line(k: PromptCommandKind) -> Option<Seq<char>> {
    match k {
        PromptCommandKind::Refresh => Some("/refresh"@),
        PromptCommandKind::TranscriptStatus => Some("/transcript status"@),
        PromptCommandKind::ThreadStatus => Some("/thread status"@),
        PromptCommandKind::ThreadList => Some("/thread list"@),
        PromptCommandKind::TranscriptOn => Some("/transcript on"@),
        PromptCommandKind::TranscriptOff => Some("/transcript off"@),
        _ => None,
    }
}

/// A command without argument is read only from the very line that names
/// it: `/transcript on` switches retention on and never off, `/transcript
/// off` off and never on, and so for `/refresh`, `/transcript status`,
/// `/thread status` and `/thread list`. A thread to use or archive is the
/// non-empty trimmed rest of its line; a new thread's label is never empty;
/// a line that begins with `/` is never sent as a prompt, and only such a
/// line is an unknown command.
pub proof fn law_prompt_command_named_by_its_line(c: Seq<char>)
    ensures
        command_line(prompt_command_spec(c).0) matches Some(line) ==> c == line,
        prompt_command_spec(c).0 == PromptCommandKind::ThreadUse ==> (strip_spec(c, "/thread use "@) matches Some(rest)
            && prompt_command_spec(c).1 == trim_spec(rest) && prompt_command_spec(c).1.len() > 0),
        prompt_command_spec(c).0 == PromptCommandKind::ThreadArchive ==> (strip_spec(c, "/thread archive "@) matches Some(rest)
            && prompt_command_spec(c).1 == trim_spec(rest) && prompt_command_spec(c).1.len() > 0),
        prompt_command_spec(c).0 == PromptCommandKind::ThreadNew ==> strip_spec(c, "/thread new"@) is Some
            && prompt_command_spec(c).1.len() > 0,
        prompt_command_spec(c).0 == PromptCommandKind::Prompt ==> !(c.len() > 0 && c[0] == '/'),
        prompt_command_spec(c).0 == PromptCommandKind::MemoryPropose ==> c == "/memory propose"@ || strip_spec(
            c,
            "/memory propose "@,
        ) is Some,
        prompt_command_spec(c).0 == PromptCommandKind::Unknown ==> c.len() > 0 && c[0] == '/',
{
    reveal_strlit("thread");
    if prompt_command_spec(c).0 == PromptCommandKind::ThreadNew {
        reveal_strlit("/thread new");
        reveal_strlit("/thread new ");
        let p = "/thread new"@;
        if c == p {
            assert(c.subrange(0, p.len() as int) =~= p);
        } else if strip_spec(c, "/thread new "@) is Some {
            assert(c.subrange(0, p.len() as int) =~= c.subrange(0, 12).subrange(0, 11));
            assert("/thread new "@.subrange(0, 11) =~= p);
        }
    }
}

fn lit_eq(t: &Vec<char>, lit: &str) -> (r: bool)
    ensures
        r == (t@ == lit@),
{
    let ls = chars_of(lit);
    if ls.len() != t.len() {
        return false;
    }
    let r = crate::text::chars_match_at(t, &ls, 0);
    proof {
        assert(t@.subrange(0, ls.len() as int) =~= t@);
    }
    r
}

fn strip(t: &Vec<char>, lit: &str) -> (r: Option<Vec<char>>)
    ensures
        match r {
            Some(v) => strip_spec(t@, lit@) == Some(v@),
            None => strip_spec(t@, lit@) is None,
        },
{
    let ls = chars_of(lit);
    if ls.len() > t.len() {
        return None;
    }
    if crate::text::chars_match_at(t, &ls, 0) {
        Some(slice_chars(t, ls.len(), t.len()))
    } else {
        None
    }
}

fn cmd(kind: PromptCommandKind, arg: &Vec<char>) -> (r: PromptCommand)
    ensures
        r.kind == kind && r.arg@ == arg@,
{
    PromptCommand { kind, arg: string_of(arg) }
}

/// Read a line of the compatibility prompt (already trimmed).
pub fn prompt_command(command: &str) -> (r: PromptCommand)
    ensures
        (r.kind, r.arg@) == prompt_command_spec(command@),
{
    let c = chars_of(command);
    let none: Vec<char> = Vec::new();
    if lit_eq(&c, "/refresh") {
        return cmd(PromptCommandKind::Refresh, &none);
    }
    if lit_eq(&c, "/transcript status") {
        return cmd(PromptCommandKind::TranscriptStatus, &none);
    }
    if lit_eq(&c, "/thread status") {
        return cmd(PromptCommandKind::ThreadStatus, &none);
    }
    if lit_eq(&c, "/thread list") {
        return cmd(PromptCommandKind::ThreadList, &none);
    }
    if lit_eq(&c, "/thread new") || strip(&c, "/thread new ").is_some() {
        let rest = match strip(&c, "/thread new") {
            Some(r) => r,
            None => Vec::new(),
        };
        proof {
            reveal_strlit("/thread new");
            reveal_strlit("/thread new ");
            let p = "/thread new"@;
            let q = "/thread new "@;
            assert(q =~= p + seq![' ']);
            assert(q.subrange(0, p.len() as int) =~= p);
            if c@ == p {
                assert(c@.subrange(0, p.len() as int) =~= c@);
            } else {
                assert(c@.subrange(0, q.len() as int) == q);
                assert(c@.subrange(0, p.len() as int) =~= c@.subrange(0, q.len() as int).subrange(0, p.len() as int));
            }
            assert(strip_spec(c@, p) is Some);
        }
        let label = trim_chars(&rest);
        if label.len() == 0 {
            return cmd(PromptCommandKind::ThreadNew, &chars_of("thread"));
        }
        return cmd(PromptCommandKind::ThreadNew, &label);
    }
    if let Some(rest) = strip(&c, "/thread use ") {
        let id = trim_chars(&rest);
        if id.len() == 0 {
            return cmd(PromptCommandKind::ThreadUseMissing, &none);
        }
        return cmd(PromptCommandKind::ThreadUse, &id);
    }
    if let Some(rest) = strip(&c, "/thread archive ") {
        let id = trim_chars(&rest);
        if id.len() == 0 {
            return cmd(PromptCommandKind::ThreadArchiveMissing, &none);
        }
        return cmd(PromptCommandKind::ThreadArchive, &id);
    }
    if lit_eq(&c, "/transcript on") {
        return cmd(PromptCommandKind::TranscriptOn, &none);
    }
    if lit_eq(&c, "/transcript off") {
        return cmd(PromptCommandKind::TranscriptOff, &none);
    }
    if lit_eq(&c, "/memory propose") || strip(&c, "/memory propose ").is_some() {
        return cmd(PromptCommandKind::MemoryPropose, &none);
    }
    if c.len() > 0 && c[0] == '/' {
        return cmd(PromptCommandKind::Unknown, &none);
    }
    cmd(PromptCommandKind::Prompt, &none)
}

/// The thread that stays active when `archived` is archived: the default
/// thread where the active one is archived (its record is then written),
/// else the active one.
pub fn thread_after_archive(active: &str, archived: &str) -> (r: (String, bool))
    ensures
        active@ == archived@ ==> r.0@ == "thread:default"@ && r.1,
        active@ != archived@ ==> r.0@ == active@ && !r.1,
{
    if str_eq(active, archived) {
        (owned("thread:default"), true)
    } else {
        (owned(active), false)
    }
}

/// The note the prompt keeps after a retention change.
pub fn runtime_state_note(subject_ref: &str, summary: &str) -> (out: String)
    ensures
        out@ == "## Prompt Runtime State\n"@ + "- kind:subject_state subject_ref:"@ + subject_ref@
            + " summary:"@ + summary@ + "\n"@ + "\n"@,
{
    let mut m = chars_of("## Prompt Runtime State\n");
    push_str(&mut m, "- kind:subject_state subject_ref:");
    push_str(&mut m, subject_ref);
    push_str(&mut m, " summary:");
    push_str(&mut m, summary);
    push_str(&mut m, "\n");
    push_str(&mut m, "\n");
    string_of(&m)
}

/// What `/refresh` shows: the thread, and the retention now read from the journal.
pub open spec fn refresh_reply_spec(thread_id: Seq<char>, transcript_enabled: bool) -> Seq<char> {
    kv_line("case_prompt"@, "refreshed"@) + kv_line("semantic_context"@, "rebuild_on_next_invocation"@) + kv_line(
        "interaction_thread"@,
        thread_id,
    ) + kv_line(
        "transcript_retention"@,
        if transcript_enabled {
            "full_redacted_case_local"@
        } else {
            "preview_only"@
        },
    )
}

/// The reply to `/refresh`.
pub fn refresh_reply(thread_id: &str, transcript_enabled: bool) -> (out: String)
    ensures
        out@ == refresh_reply_spec(thread_id@, transcript_enabled),
{
    let mut o: Vec<char> = Vec::new();
    push_kv(&mut o, "case_prompt", "refreshed");
    push_kv(&mut o, "semantic_context", "rebuild_on_next_invocation");
    push_kv(&mut o, "interaction_thread", thread_id);
    push_kv(&mut o, "transcript_retention", crate::provider::transcript_retention_label(transcript_enabled));
    string_of(&o)
}

/// What `/transcript status` shows.
pub open spec fn transcript_status_spec(enabled: bool) -> Seq<char> {
    kv_line("transcript_retention"@, if enabled { "full_redacted_case_local"@ } else { "preview_only"@ })
        + kv_line("prompt_transcript_retention"@, if enabled { "enabled"@ } else { "disabled"@ })
        + kv_line("prompt_preview"@, "on"@) + kv_line("provider_output_preview"@, "on"@) + kv_line(
        "full_transcript"@,
        if enabled { "on_explicit_redacted_case_local"@ } else { "off"@ },
    ) + kv_line("memory_candidate"@, "derived_not_raw_chat"@)
}

/// The reply to `/transcript status`.
pub fn transcript_status_reply(enabled: bool) -> (out: String)
    ensures
        out@ == transcript_status_spec(enabled),
{
    let mut o: Vec<char> = Vec::new();
    push_kv(&mut o, "transcript_retention", crate::provider::transcript_retention_label(enabled));
    push_kv(&mut o, "prompt_transcript_retention", if enabled { "enabled" } else { "disabled" });
    push_kv(&mut o, "prompt_preview", "on");
    push_kv(&mut o, "provider_output_preview", "on");
    push_kv(&mut o, "full_transcript", if enabled { "on_explicit_redacted_case_local" } else { "off" });
    push_kv(&mut o, "memory_candidate", "derived_not_raw_chat");
    string_of(&o)
}

/// The reply to `/thread status`: the thread and how many turns it holds.
pub fn thread_status_reply(records: &Vec<JournalRecord>, case_ref: &str, thread_id: &str) -> (out: String)
    ensures
        out@ == kv_line("interaction_thread"@, thread_id@) + kv_line(
            "thread_turn_count"@,
            decimal_spec(turn_count_spec(records@, case_ref@, thread_id@)),
        ) + kv_line("semantic_context"@, "typed_projection_plus_active_thread_metadata"@) + kv_line(
            "journal_role"@,
            "replay_audit_not_chat_memory"@,
        ),
{
    let n = thread_turn_count(records, case_ref, thread_id);
    let mut o: Vec<char> = Vec::new();
    push_kv(&mut o, "interaction_thread", thread_id);
    push_str(&mut o, "thread_turn_count");
    push_str(&mut o, ": ");
    push_decimal(&mut o, n as u64);
    push_str(&mut o, "\n");
    push_kv(&mut o, "semantic_context", "typed_projection_plus_active_thread_metadata");
    push_kv(&mut o, "journal_role", "replay_audit_not_chat_memory");
    string_of(&o)
}

/// A thread record of the Case that names its thread.
pub open spec fn names_thread(r: JournalRecord, case_ref: Seq<char>) -> bool {
    r.case_ref@ == case_ref && r.kind == RecordKind::InteractionThread && r.thread_id is Some
}

/// The threads the Case's thread records name, each once, in the order first named.
pub open spec fn listed_threads(rs: Seq<JournalRecord>, case_ref: Seq<char>) -> Seq<Seq<char>>
    decreases rs.len(),
{
    if rs.len() == 0 {
        Seq::empty()
    } else {
        let prev = listed_threads(rs.drop_last(), case_ref);
        let r = rs.last();
        if names_thread(r, case_ref) && !prev.contains(ov(r.thread_id)->Some_0) {
            prev.push(ov(r.thread_id)->Some_0)
        } else {
            prev
        }
    }
}

/// A line of the thread list for each thread, with its turns in `rs`.
pub open spec fn thread_list_lines(ts: Seq<Seq<char>>, rs: Seq<JournalRecord>, case_ref: Seq<char>) -> Seq<char>
    decreases ts.len(),
{
    if ts.len() == 0 {
        Seq::empty()
    } else {
        thread_list_lines(ts.drop_last(), rs, case_ref) + "interaction_thread: "@ + ts.last() + " turns:"@
            + decimal_spec(turn_count_spec(rs, case_ref, ts.last())) + "\n"@
    }
}

/// What `/thread list` shows.
pub open spec fn thread_list_spec(rs: Seq<JournalRecord>, case_ref: Seq<char>) -> Seq<char> {
    let ts = listed_threads(rs, case_ref);
    if ts.len() == 0 {
        "interaction_thread: none\n"@
    } else {
        thread_list_lines(ts, rs, case_ref)
    }
}

fn seen_contains(seen: &Vec<String>, t: &str) -> (b: bool)
    ensures
        b == crate::seqs::views(seen@).contains(t@),
{
    let mut i: usize = 0;
    while i < seen.len()
        invariant
            i <= seen.len(),
            forall|j: int| 0 <= j < i ==> (#[trigger] seen@[j])@ != t@,
        decreases seen.len() - i,
    {
        if str_eq(seen[i].as_str(), t) {
            assert(crate::seqs::views(seen@)[i as int] == t@);
            return true;
        }
        i += 1;
    }
    proof {
        if crate::seqs::views(seen@).contains(t@) {
            let j = choose|j: int| 0 <= j < crate::seqs::views(seen@).len() && crate::seqs::views(seen@)[j] == t@;
            assert(seen@[j]@ == t@);
        }
    }
    false
}

/// The reply to `/thread list`: each thread of the Case once, with its turns.
pub fn thread_list_reply(records: &Vec<JournalRecord>, case_ref: &str) -> (out: String)
    ensures
        out@ == thread_list_spec(records@, case_ref@),
{
    let mut seen: Vec<String> = Vec::new();
    let mut o: Vec<char> = Vec::new();
    let mut i: usize = 0;
    while i < records.len()
        invariant
            i <= records.len(),
            crate::seqs::views(seen@) == listed_threads(records@.subrange(0, i as int), case_ref@),
            o@ == thread_list_lines(crate::seqs::views(seen@), records@, case_ref@),
        decreases records.len() - i,
    {
        let ghost pre = records@.subrange(0, i as int);
        assert(records@.subrange(0, i + 1).drop_last() =~= pre);
        let r = &records[i];
        if str_eq(r.case_ref.as_str(), case_ref) && r.kind == RecordKind::InteractionThread {
            match &r.thread_id {
                Some(t) => {
                    if !seen_contains(&seen, t.as_str()) {
                        let ghost before = crate::seqs::views(seen@);
                        let n = thread_turn_count(records, case_ref, t.as_str());
                        push_str(&mut o, "interaction_thread: ");
                        push_str(&mut o, t.as_str());
                        push_str(&mut o, " turns:");
                        push_decimal(&mut o, n as u64);
                        push_str(&mut o, "\n");
                        seen.push(t.clone());
                        assert(crate::seqs::views(seen@) =~= before.push(t@));
                        assert(crate::seqs::views(seen@).drop_last() =~= before);
                    }
                },
                None => {},
            }
        }
        i += 1;
    }
    assert(records@.subrange(0, records.len() as int) =~= records@);
    if seen.len() == 0 {
        return owned("interaction_thread: none\n");
    }
    string_of(&o)
}

/// The id of a new thread: its record's journal sequence number.
pub fn new_thread_id(sequence: u64) -> (out: String)
    ensures
        out@ == "thread:"@ + decimal_spec(sequence as nat),
{
    let mut o = chars_of("thread:");
    push_decimal(&mut o, sequence);
    string_of(&o)
}

/// The reply to `/thread new`.
pub fn thread_new_reply(thread_id: &str) -> (out: String)
    ensures
        out@ == kv_line("interaction_thread"@, "new active"@) + kv_line("thread_id"@, thread_id@) + kv_line(
            "semantic_context"@,
            "new_thread_projection_rebuild_required"@,
        ) + "journal:audit retained\n"@,
{
    let mut o: Vec<char> = Vec::new();
    push_kv(&mut o, "interaction_thread", "new active");
    push_kv(&mut o, "thread_id", thread_id);
    push_kv(&mut o, "semantic_context", "new_thread_projection_rebuild_required");
    push_str(&mut o, "journal:audit retained\n");
    string_of(&o)
}

/// The reply to `/thread use`, after the thread's record was written.
pub fn thread_use_reply(records: &Vec<JournalRecord>, case_ref: &str, thread_id: &str) -> (out: String)
    ensures
        out@ == kv_line("interaction_thread"@, "restored previous"@) + kv_line("thread_id"@, thread_id@) + kv_line(
            "thread_turn_count"@,
            decimal_spec(turn_count_spec(records@, case_ref@, thread_id@)),
        ),
{
    let n = thread_turn_count(records, case_ref, thread_id);
    let mut o: Vec<char> = Vec::new();
    push_kv(&mut o, "interaction_thread", "restored previous");
    push_kv(&mut o, "thread_id", thread_id);
    push_str(&mut o, "thread_turn_count");
    push_str(&mut o, ": ");
    push_decimal(&mut o, n as u64);
    push_str(&mut o, "\n");
    string_of(&o)
}

/// The reply to `/thread archive`.
pub fn thread_archive_reply(thread_id: &str, active_thread_id: &str) -> (out: String)
    ensures
        out@ == kv_line("interaction_thread"@, "archived"@) + kv_line("thread_id"@, thread_id@) + kv_line(
            "active_thread_id"@,
            active_thread_id@,
        ),
{
    let mut o: Vec<char> = Vec::new();
    push_kv(&mut o, "interaction_thread", "archived");
    push_kv(&mut o, "thread_id", thread_id);
    push_kv(&mut o, "active_thread_id", active_thread_id);
    string_of(&o)
}

/// The reply to `/transcript on` or `/transcript off`.
pub open spec fn transcript_switch_spec(enabled: bool) -> Seq<char> {
    if enabled {
        kv_line("prompt_transcript_retention"@, "enabled"@) + kv_line("transcript_retention"@, "full_redacted_case_local"@)
            + kv_line("full_transcript"@, "on_explicit_redacted_case_local"@) + kv_line("redaction"@, "secret_redacted"@)
    } else {
        kv_line("prompt_transcript_retention"@, "disabled"@) + kv_line("transcript_retention"@, "preview_only"@)
            + kv_line("full_transcript"@, "off"@)
    }
}

/// The reply to a transcript retention switch.
pub fn transcript_switch_reply(enabled: bool) -> (out: String)
    ensures
        out@ == transcript_switch_spec(enabled),
{
    let mut o: Vec<char> = Vec::new();
    if enabled {
        push_kv(&mut o, "prompt_transcript_retention", "enabled");
        push_kv(&mut o, "transcript_retention", "full_redacted_case_local");
        push_kv(&mut o, "full_transcript", "on_explicit_redacted_case_local");
        push_kv(&mut o, "redaction", "secret_redacted");
    } else {
        push_kv(&mut o, "prompt_transcript_retention", "disabled");
        push_kv(&mut o, "transcript_retention", "preview_only");
        push_kv(&mut o, "full_transcript", "off");
    }
    string_of(&o)
}

/// The reply to a missing thread id, to `/memory propose`, and to an unknown
/// command; none for a prompt or a command with a reply of its own.
pub open spec fn fixed_reply_spec(kind: PromptCommandKind, command: Seq<char>) -> Option<Seq<char>> {
    match kind {
        PromptCommandKind::ThreadUseMissing => Some(kv_line("thread_use"@, "missing_thread_id"@)),
        PromptCommandKind::ThreadArchiveMissing => Some(kv_line("thread_archive"@, "missing_thread_id"@)),
        PromptCommandKind::MemoryPropose => Some(kv_line("memory_proposal"@, "retired"@) + kv_line(
            "authority"@,
            "compatibility_only"@,
        ) + kv_line("replacement"@, "canonical Transition-derived operational memory"@) + kv_line(
            "canonical_history_mutated"@,
            "no"@,
        )),
        PromptCommandKind::Unknown => Some(kv_line("unknown_command"@, command) + kv_line(
            "commands"@,
            "/thread status /thread new [label] /thread list /thread use <thread_id> /thread archive <thread_id> /refresh /transcript on /transcript off /transcript status /exit"@,
        )),
        _ => None,
    }
}

/// The reply that needs no journal: to a missing thread id, `/memory
/// propose` and an unknown `command`.
pub fn fixed_reply(kind: PromptCommandKind, command: &str) -> (out: Option<String>)
    ensures
        match fixed_reply_spec(kind, command@) {
            Some(t) => out matches Some(o) && o@ == t,
            None => out is None,
        },
{
    let mut o: Vec<char> = Vec::new();
    match kind {
        PromptCommandKind::ThreadUseMissing => push_kv(&mut o, "thread_use", "missing_thread_id"),
        PromptCommandKind::ThreadArchiveMissing => push_kv(&mut o, "thread_archive", "missing_thread_id"),
        PromptCommandKind::MemoryPropose => {
            push_kv(&mut o, "memory_proposal", "retired");
            push_kv(&mut o, "authority", "compatibility_only");
            push_kv(&mut o, "replacement", "canonical Transition-derived operational memory");
            push_kv(&mut o, "canonical_history_mutated", "no");
        },
        PromptCommandKind::Unknown => {
            push_kv(&mut o, "unknown_command", command);
            push_kv(
                &mut o,
                "commands",
                "/thread status /thread new [label] /thread list /thread use <thread_id> /thread archive <thread_id> /refresh /transcript on /transcript off /transcript status /exit",
            );
        },
        _ => return None,
    }
    Some(string_of(&o))
}

/// The thread list names each thread once, and names every thread a thread
/// record of the Case names.
pub proof fn law_thread_list_distinct_and_complete(rs: Seq<JournalRecord>, case_ref: Seq<char>)
    ensures
        forall|i: int, j: int|
            0 <= i < j < listed_threads(rs, case_ref).len() ==> listed_threads(rs, case_ref)[i] != listed_threads(
                rs,
                case_ref,
            )[j],
        forall|k: int|
            0 <= k < rs.len() && names_thread(#[trigger] rs[k], case_ref) ==> listed_threads(rs, case_ref).contains(
                ov(rs[k].thread_id)->Some_0,
            ),
    decreases rs.len(),
{
    if rs.len() > 0 {
        let pre = rs.drop_last();
        law_thread_list_distinct_and_complete(pre, case_ref);
        let prev = listed_threads(pre, case_ref);
        let cur = listed_threads(rs, case_ref);
        assert forall|k: int| 0 <= k < rs.len() && names_thread(#[trigger] rs[k], case_ref) implies cur.contains(
            ov(rs[k].thread_id)->Some_0,
        ) by {
            if k < rs.len() - 1 {
                assert(pre[k] == rs[k]);
                let t = ov(rs[k].thread_id)->Some_0;
                assert(prev.contains(t));
                let m = choose|m: int| 0 <= m < prev.len() && prev[m] == t;
                assert(cur[m] == t);
            } else {
                let t = ov(rs.last().thread_id)->Some_0;
                if !prev.contains(t) {
                    assert(cur[cur.len() - 1] == t);
                } else {
                    let m = choose|m: int| 0 <= m < prev.len() && prev[m] == t;
                    assert(cur[m] == t);
                }
            }
        }
    }
}

} // verus!
