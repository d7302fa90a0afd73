//! Interaction threads of the compatibility prompt, read from the Case
//! journal: the active thread, the turns of a thread, the context text of a
//! thread, whether transcripts are kept, and the journal's Case binding.

use vstd::prelude::*;
use crate::numbers::{decimal_spec, push_decimal};
use crate::preview::RecordKind;
use crate::text::{chars_of, owned, push_all, push_str, str_eq, string_of};
use crate::words::{compact_spec, compact_text};

verus! {

/// A journal record as the thread logic reads it; `thread_id`, `state` and
/// `retention` are the `thread_id`, `state` and
/// `prompt_transcript_retention` tokens of its summary, where present.
pub struct JournalRecord {
    pub id: String,
    pub case_ref: String,
    pub kind: RecordKind,
    pub subject_ref: String,
    pub summary: String,
    pub thread_id: Option<String>,
    pub state: Option<String>,
    pub retention: Option<String>,
}

pub open spec fn ov(o: Option<String>) -> Option<Seq<char>> {
    match o {
        Some(s) => Some(s@),
        None => None,
    }
}

/// The thread the last active-state thread record of the Case names.
pub open spec fn active_thread_spec(rs: Seq<JournalRecord>, case_ref: Seq<char>) -> Option<Seq<char>>
    decreases rs.len(),
{
    if rs.len() == 0 {
        None
    } else {
        let r = rs.last();
        if r.case_ref@ == case_ref && r.kind == RecordKind::InteractionThread && ov(r.state) == Some(
            "active"@,
        ) && r.thread_id is Some {
            ov(r.thread_id)
        } else {
            active_thread_spec(rs.drop_last(), case_ref)
        }
    }
}

fn opt_is(o: &Option<String>, lit: &str) -> (r: bool)
    ensures
        r == (ov(*o) == Some(lit@)),
{
    match o {
        Some(v) => str_eq(v.as_str(), lit),
        None => false,
    }
}

/// The active interaction thread of the Case, if a thread record made one active.
pub fn active_thread_id(records: &Vec<JournalRecord>, case_ref: &str) -> (r: Option<String>)
    ensures
        ov(r) == active_thread_spec(records@, case_ref@),
{
    let mut i = records.len();
    assert(records@.subrange(0, records.len() as int) =~= records@);
    while i > 0
        invariant
            i <= records.len(),
            active_thread_spec(records@, case_ref@) == active_thread_spec(records@.subrange(0, i as int), case_ref@),
        decreases i,
    {
        let ghost pre = records@.subrange(0, i as int);
        assert(pre.last() == records@[i - 1]);
        assert(pre.drop_last() =~= records@.subrange(0, i - 1));
        let r = &records[i - 1];
        if str_eq(r.case_ref.as_str(), case_ref) && r.kind == RecordKind::InteractionThread && opt_is(&r.state, "active") && r.thread_id.is_some() {
            return r.thread_id.clone();
        }
        i -= 1;
    }
    None
}

/// A turn record of the thread in the Case.
pub open spec fn is_thread_turn(r: JournalRecord, case_ref: Seq<char>, thread_id: Seq<char>) -> bool {
    r.case_ref@ == case_ref && r.kind == RecordKind::InteractionTurn && ov(r.thread_id) == Some(thread_id)
}

/// The number of turn records of the thread.
pub open spec fn turn_count_spec(rs: Seq<JournalRecord>, case_ref: Seq<char>, thread_id: Seq<char>) -> nat
    decreases rs.len(),
{
    if rs.len() == 0 {
        0
    } else {
        turn_count_spec(rs.drop_last(), case_ref, thread_id) + if is_thread_turn(rs.last(), case_ref, thread_id) {
            1nat
        } else {
            0nat
        }
    }
}

/// The turn lines of the thread context.
pub open spec fn turn_lines(rs: Seq<JournalRecord>, case_ref: Seq<char>, thread_id: Seq<char>) -> Seq<char>
    decreases rs.len(),
{
    if rs.len() == 0 {
        Seq::empty()
    } else {
        turn_lines(rs.drop_last(), case_ref, thread_id) + if is_thread_turn(rs.last(), case_ref, thread_id) {
            "- kind:interaction_turn record_id:"@ + rs.last().id@ + " summary:"@ + rs.last().summary@ + "\n"@
        } else {
            Seq::empty()
        }
    }
}

/// The number of turns recorded in a thread.
pub fn thread_turn_count(records: &Vec<JournalRecord>, case_ref: &str, thread_id: &str) -> (n: usize)
    ensures
        n == turn_count_spec(records@, case_ref@, thread_id@),
{
    let mut n: usize = 0;
    let mut i: usize = 0;
    while i < records.len()
        invariant
            i <= records.len(),
            n == turn_count_spec(records@.subrange(0, i as int), case_ref@, thread_id@),
            n <= i,
        decreases records.len() - i,
    {
        let r = &records[i];
        proof {
            assert(records@.subrange(0, i + 1).drop_last() =~= records@.subrange(0, i as int));
            assert(records@.subrange(0, i + 1).last() == records@[i as int]);
        }
        if str_eq(r.case_ref.as_str(), case_ref) && r.kind == RecordKind::InteractionTurn && opt_is(&r.thread_id, thread_id) {
            n += 1;
        }
        i += 1;
    }
    assert(records@.subrange(0, records.len() as int) =~= records@);
    n
}

/// The context text of a thread: its id, the role of the journal, each turn
/// of the thread, the number of turns, and a note where there is none.
pub open spec fn thread_context_spec(rs: Seq<JournalRecord>, case_ref: Seq<char>, thread_id: Seq<char>) -> Seq<char> {
    let count = turn_count_spec(rs, case_ref, thread_id);
    "## Active Interaction Thread\n"@ + "interaction_thread: "@ + thread_id + "\n"@
        + "journal_role: replay_audit_not_chat_memory\n"@ + turn_lines(rs, case_ref, thread_id)
        + "included_turn_count: "@ + decimal_spec(count) + "\n"@ + if count == 0 {
        "thread_state: empty\n"@
    } else {
        Seq::empty()
    }
}

/// The context text of the active thread.
pub fn render_thread_context(records: &Vec<JournalRecord>, case_ref: &str, thread_id: &str) -> (out: String)
    ensures
        out@ == thread_context_spec(records@, case_ref@, thread_id@),
{
    let mut o = chars_of("## Active Interaction Thread\n");
    push_str(&mut o, "interaction_thread: ");
    push_str(&mut o, thread_id);
    push_str(&mut o, "\n");
    push_str(&mut o, "journal_role: replay_audit_not_chat_memory\n");
    let ghost head = o@;
    let mut count: usize = 0;
    let mut i: usize = 0;
    while i < records.len()
        invariant
            i <= records.len(),
            count <= i,
            count == turn_count_spec(records@.subrange(0, i as int), case_ref@, thread_id@),
            o@ == head + turn_lines(records@.subrange(0, i as int), case_ref@, thread_id@),
        decreases records.len() - i,
    {
        let r = &records[i];
        proof {
            assert(records@.subrange(0, i + 1).drop_last() =~= records@.subrange(0, i as int));
            assert(records@.subrange(0, i + 1).last() == records@[i as int]);
        }
        if str_eq(r.case_ref.as_str(), case_ref) && r.kind == RecordKind::InteractionTurn && opt_is(&r.thread_id, thread_id) {
            let ghost before = o@;
            count += 1;
            push_str(&mut o, "- kind:interaction_turn record_id:");
            push_str(&mut o, r.id.as_str());
            push_str(&mut o, " summary:");
            push_str(&mut o, r.summary.as_str());
            push_str(&mut o, "\n");
            assert(o@ =~= before + ("- kind:interaction_turn record_id:"@ + r.id@ + " summary:"@ + r.summary@ + "\n"@));
        }
        i += 1;
    }
    assert(records@.subrange(0, records.len() as int) =~= records@);
    let ghost mid = o@;
    push_str(&mut o, "included_turn_count: ");
    push_decimal(&mut o, count as u64);
    push_str(&mut o, "\n");
    if count == 0 {
        push_str(&mut o, "thread_state: empty\n");
    }
    proof {
        let tail = "included_turn_count: "@ + decimal_spec(count as nat) + "\n"@ + if count == 0 {
            "thread_state: empty\n"@
        } else {
            Seq::empty()
        };
        assert(o@ =~= mid + tail);
        assert(o@ =~= thread_context_spec(records@, case_ref@, thread_id@));
    }
    string_of(&o)
}

/// Whether prompts and outputs of the subject are kept in full: the last
/// retention setting recorded for the subject in the Case; off where none is.
pub open spec fn retention_spec(rs: Seq<JournalRecord>, case_ref: Seq<char>, subject_ref: Seq<char>) -> bool
    decreases rs.len(),
{
    if rs.len() == 0 {
        false
    } else {
        let r = rs.last();
        let before = retention_spec(rs.drop_last(), case_ref, subject_ref);
        if r.case_ref@ == case_ref && r.kind == RecordKind::SubjectState && r.subject_ref@ == subject_ref && r.retention is Some {
            if ov(r.retention) == Some("enabled"@) {
                true
            } else if ov(r.retention) == Some("disabled"@) {
                false
            } else {
                before
            }
        } else {
            before
        }
    }
}

/// Whether the subject keeps full, redacted transcripts in the Case.
pub fn transcript_retention_enabled(records: &Vec<JournalRecord>, case_ref: &str, subject_ref: &str) -> (r: bool)
    ensures
        r == retention_spec(records@, case_ref@, subject_ref@),
{
    let mut enabled = false;
    let mut i: usize = 0;
    while i < records.len()
        invariant
            i <= records.len(),
            enabled == retention_spec(records@.subrange(0, i as int), case_ref@, subject_ref@),
        decreases records.len() - i,
    {
        let r = &records[i];
        proof {
            assert(records@.subrange(0, i + 1).drop_last() =~= records@.subrange(0, i as int));
            assert(records@.subrange(0, i + 1).last() == records@[i as int]);
        }
        if str_eq(r.case_ref.as_str(), case_ref) && r.kind == RecordKind::SubjectState && str_eq(r.subject_ref.as_str(), subject_ref) && r.retention.is_some() {
            if opt_is(&r.retention, "enabled") {
                enabled = true;
            } else if opt_is(&r.retention, "disabled") {
                enabled = false;
            }
        }
        i += 1;
    }
    assert(records@.subrange(0, records.len() as int) =~= records@);
    enabled
}

/// The first record of another Case, if the journal holds one.
pub open spec fn first_foreign(rs: Seq<JournalRecord>, case_ref: Seq<char>) -> Option<JournalRecord>
    decreases rs.len(),
{
    if rs.len() == 0 {
        None
    } else if rs[0].case_ref@ != case_ref {
        Some(rs[0])
    } else {
        first_foreign(rs.drop_first(), case_ref)
    }
}

/// Where no record is foreign, every record belongs to the Case.
pub proof fn lemma_no_foreign(rs: Seq<JournalRecord>, case_ref: Seq<char>)
    requires
        first_foreign(rs, case_ref) is None,
    ensures
        forall|i: int| 0 <= i < rs.len() ==> (#[trigger] rs[i]).case_ref@ == case_ref,
    decreases rs.len(),
{
    if rs.len() > 0 {
        lemma_no_foreign(rs.drop_first(), case_ref);
        assert forall|i: int| 0 <= i < rs.len() implies (#[trigger] rs[i]).case_ref@ == case_ref by {
            if i > 0 {
                assert(rs[i] == rs.drop_first()[i - 1]);
            }
        }
    }
}

/// A journal of one Case holds only records of that Case.
pub fn validate_loaded_journal_case_binding(records: &Vec<JournalRecord>, case_ref: &str) -> (r: Result<(), String>)
    ensures
        match first_foreign(records@, case_ref@) {
            None => r is Ok,
            Some(x) => r matches Err(e) && e@ == "journal_case_identity_mismatch: expected="@ + case_ref@
                + " observed="@ + x.case_ref@ + " record_id="@ + x.id@,
        },
{
    let mut i: usize = 0;
    assert(records@.subrange(0, records.len() as int) =~= records@);
    while i < records.len()
        invariant
            i <= records.len(),
            first_foreign(records@, case_ref@) == first_foreign(records@.subrange(i as int, records.len() as int), case_ref@),
        decreases records.len() - i,
    {
        let ghost rest = records@.subrange(i as int, records.len() as int);
        assert(rest[0] == records@[i as int]);
        let r = &records[i];
        if !str_eq(r.case_ref.as_str(), case_ref) {
            let mut m = chars_of("journal_case_identity_mismatch: expected=");
            push_str(&mut m, case_ref);
            push_str(&mut m, " observed=");
            push_str(&mut m, r.case_ref.as_str());
            push_str(&mut m, " record_id=");
            push_str(&mut m, r.id.as_str());
            return Err(string_of(&m));
        }
        assert(rest.drop_first() =~= records@.subrange(i + 1, records.len() as int));
        i += 1;
    }
    Ok(())
}

/// The summary of a thread record.
pub open spec fn thread_summary_spec(thread_id: Seq<char>, label: Seq<char>, state: Seq<char>) -> Seq<char> {
    "interaction_thread:"@ + thread_id + " thread_id:"@ + thread_id + " state:"@ + state + " label:"@
        + compact_spec(label, 48) + " journal_role:replay_audit active_context:thread_plus_projection"@
}

/// The summary written for a thread made active or archived.
pub fn thread_record_summary(thread_id: &str, label: &str, state: &str) -> (out: String)
    ensures
        out@ == thread_summary_spec(thread_id@, label@, state@),
{
    let mut m = chars_of("interaction_thread:");
    push_str(&mut m, thread_id);
    push_str(&mut m, " thread_id:");
    push_str(&mut m, thread_id);
    push_str(&mut m, " state:");
    push_str(&mut m, state);
    push_str(&mut m, " label:");
    push_str(&mut m, compact_text(label, 48).as_str());
    push_str(&mut m, " journal_role:replay_audit active_context:thread_plus_projection");
    string_of(&m)
}

/// The id of the thread record with journal sequence `sequence`: colons of
/// the thread id become dashes.
pub open spec fn thread_record_id_spec(thread_id: Seq<char>, sequence: nat) -> Seq<char> {
    "interaction-thread:"@ + thread_id.map_values(|c: char| if c == ':' { '-' } else { c }) + ":"@
        + decimal_spec(sequence)
}

/// The id of a thread record.
pub fn thread_record_id(thread_id: &str, sequence: u64) -> (out: String)
    ensures
        out@ == thread_record_id_spec(thread_id@, sequence as nat),
{
    let t = chars_of(thread_id);
    let mut d: Vec<char> = Vec::new();
    let mut i: usize = 0;
    while i < t.len()
        invariant
            i <= t.len(),
            d@ == t@.subrange(0, i as int).map_values(|c: char| if c == ':' { '-' } else { c }),
        decreases t.len() - i,
    {
        if t[i] == ':' {
            d.push('-');
        } else {
            d.push(t[i]);
        }
        i += 1;
        assert(d@ =~= t@.subrange(0, i as int).map_values(|c: char| if c == ':' { '-' } else { c }));
    }
    assert(t@.subrange(0, t.len() as int) =~= t@);
    let mut m = chars_of("interaction-thread:");
    push_all(&mut m, &d);
    push_str(&mut m, ":");
    push_decimal(&mut m, sequence);
    string_of(&m)
}

} // verus!
