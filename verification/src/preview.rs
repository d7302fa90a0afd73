//! The legacy Case entry preview: the summary of a Case's journal that the
//! compatibility prompt shows, listing the records of each part of the Case
//! world and the authority boundaries of the model's view.

use vstd::prelude::*;
use crate::display::display_field;
use crate::numbers::{decimal_spec, push_decimal};
use crate::text::{push_str, str_eq, string_of};

verus! {

/// The kinds of journal record the preview lists.
#[derive(Clone, Copy, Debug, PartialEq, Eq, Structural)]
pub enum RecordKind {
    CaseDomain,
    CaseAttachment,
    CaseBinding,
    SubjectBinding,
    PolicyRule,
    ProjectionRule,
    AuthorityScope,
    Decision,
    FilesystemReceipt,
    MemoryCandidate,
    GraphEdge,
    ProjectionRequest,
    ProjectionResult,
    ModelInterpretation,
    InteractionThread,
    InteractionTurn,
    SubjectState,
    Other,
}

/// A journal record as the preview reads it; `kind_label` is the record
/// kind as the journal writes it.
pub struct PreviewRecord {
    pub id: String,
    pub kind: RecordKind,
    pub kind_label: String,
    pub case_ref: String,
    pub subject_ref: String,
    pub attempt_id: String,
    pub decision_id: String,
    pub receipt_id: String,
    pub summary: String,
}

/// The counts of the model projection of a journal.
pub struct ProjectionCounts {
    pub case_ref: String,
    pub source_record_count: usize,
    pub case_domain_count: usize,
    pub case_attachment_count: usize,
    pub case_binding_count: usize,
    pub interaction_thread_count: usize,
    pub interaction_turn_count: usize,
    pub participant_view_frame_count: usize,
    pub model_projection_count: usize,
    pub operator_projection_count: usize,
    pub filesystem_receipt_count: usize,
    pub memory_candidate_count: usize,
    pub projection_rule_count: usize,
    pub authority_scope_count: usize,
    pub model_interpretation_count: usize,
    pub graph_edge_count: usize,
}

/// A record belongs to the Case asked about; every record does where none is.
pub open spec fn in_case(r: PreviewRecord, case_ref: Option<Seq<char>>) -> bool {
    match case_ref {
        Some(c) => r.case_ref@ == c,
        None => true,
    }
}

/// A field, or its stand-in where it is empty.
pub open spec fn shown(value: Seq<char>, fallback: Seq<char>) -> Seq<char> {
    if value.len() == 0 {
        fallback
    } else {
        value
    }
}

/// The listing line of a record.
pub open spec fn record_line(r: PreviewRecord) -> Seq<char> {
    "- "@ + r.id@ + " kind:"@ + r.kind_label@ + " subject_ref:"@ + shown(
        r.subject_ref@,
        "subject:none"@,
    ) + " attempt_id:"@ + shown(r.attempt_id@, "none"@) + " decision_id:"@ + shown(
        r.decision_id@,
        "none"@,
    ) + " receipt_id:"@ + shown(r.receipt_id@, "none"@) + " summary:"@ + r.summary@ + "\n"@
}

/// The lines of the records of the Case whose kind is listed.
pub open spec fn record_lines(rs: Seq<PreviewRecord>, case_ref: Option<Seq<char>>, kinds: Seq<RecordKind>) -> Seq<char>
    decreases rs.len(),
{
    if rs.len() == 0 {
        Seq::empty()
    } else {
        record_lines(rs.drop_last(), case_ref, kinds) + if in_case(rs.last(), case_ref)
            && kinds.contains(rs.last().kind) {
            record_line(rs.last())
        } else {
            Seq::empty()
        }
    }
}

/// A section of the preview: a heading, then, in journal order, exactly the
/// records of the Case whose kind the section shows, or `- none`, then an
/// empty line.
pub open spec fn section_spec(title: Seq<char>, rs: Seq<PreviewRecord>, case_ref: Option<Seq<char>>, kinds: Seq<RecordKind>) -> Seq<char> {
    titled(title, listing(rs, case_ref, kinds))
}

fn kind_listed(kinds: &Vec<RecordKind>, k: RecordKind) -> (r: bool)
    ensures
        r == kinds@.contains(k),
{
    let mut i: usize = 0;
    while i < kinds.len()
        invariant
            i <= kinds.len(),
            forall|m: int| 0 <= m < i ==> kinds@[m] != k,
        decreases kinds.len() - i,
    {
        if kinds[i] == k {
            return true;
        }
        i += 1;
    }
    false
}

fn record_line_exec(r: &PreviewRecord) -> (h: Vec<char>)
    ensures
        h@ == record_line(*r),
{
    let mut h = crate::text::chars_of("- ");
    push_str(&mut h, r.id.as_str());
    push_str(&mut h, " kind:");
    push_str(&mut h, r.kind_label.as_str());
    push_str(&mut h, " subject_ref:");
    push_str(&mut h, display_field(r.subject_ref.as_str(), "subject:none").as_str());
    push_str(&mut h, " attempt_id:");
    push_str(&mut h, display_field(r.attempt_id.as_str(), "none").as_str());
    push_str(&mut h, " decision_id:");
    push_str(&mut h, display_field(r.decision_id.as_str(), "none").as_str());
    push_str(&mut h, " receipt_id:");
    push_str(&mut h, display_field(r.receipt_id.as_str(), "none").as_str());
    push_str(&mut h, " summary:");
    push_str(&mut h, r.summary.as_str());
    push_str(&mut h, "\n");
    h
}

/// Append a section of the preview.
pub fn render_legacy_case_entry_records(
    out: &mut Vec<char>,
    title: &str,
    records: &Vec<PreviewRecord>,
    case_ref: Option<&str>,
    kinds: &Vec<RecordKind>,
)
    ensures
        final(out)@ == old(out)@ + section_spec(
            title@,
            records@,
            match case_ref {
                Some(c) => Some(c@),
                None => None,
            },
            kinds@,
        ),
{
    let ghost cr = match case_ref {
        Some(c) => Some(c@),
        None => None,
    };
    let ghost start = out@;
    push_str(out, "## ");
    push_str(out, title);
    push_str(out, "\n");
    let ghost head = out@;
    let mut count: usize = 0;
    let mut i: usize = 0;
    while i < records.len()
        invariant
            i <= records.len(),
            count <= i,
            cr == (match case_ref {
                Some(c) => Some(c@),
                None => None,
            }),
            out@ == head + record_lines(records@.subrange(0, i as int), cr, kinds@),
            (count == 0) == (record_lines(records@.subrange(0, i as int), cr, kinds@).len() == 0),
        decreases records.len() - i,
    {
        let r = &records[i];
        let inside = match case_ref {
            Some(c) => str_eq(r.case_ref.as_str(), c),
            None => true,
        };
        let ghost before = out@;
        proof {
            assert(records@.subrange(0, i + 1).drop_last() =~= records@.subrange(0, i as int));
            assert(records@.subrange(0, i + 1).last() == records@[i as int]);
        }
        if inside && kind_listed(kinds, r.kind) {
            let line = record_line_exec(r);
            crate::text::push_all(out, &line);
            count += 1;
            proof {
                assert(record_line(*r).len() > 0) by {
                    reveal_strlit("- ");
                    assert(record_line(*r)[0] == '-');
                }
            }
        }
        i += 1;
    }
    assert(records@.subrange(0, records.len() as int) =~= records@);
    if count == 0 {
        push_str(out, "- none\n");
    }
    push_str(out, "\n");
    proof {
        law_record_lines_picked(records@, cr, kinds@);
    }
    assert(out@ =~= start + section_spec(title@, records@, cr, kinds@));
}

/// A count line of the preview head.
pub open spec fn count_line(name: Seq<char>, n: usize) -> Seq<char> {
    name + ": "@ + decimal_spec(n as nat) + "\n"@
}

fn push_count_line(out: &mut Vec<char>, name: &str, n: usize)
    ensures
        final(out)@ == old(out)@ + count_line(name@, n),
{
    push_str(out, name);
    push_str(out, ": ");
    push_decimal(out, n as u64);
    push_str(out, "\n");
    assert(final(out)@ =~= old(out)@ + count_line(name@, n));
}

/// The Case the preview is of: the one asked about, else the one the
/// projection names, else none.
pub open spec fn preview_case(case_ref: Option<Seq<char>>, projection_case: Seq<char>) -> Option<Seq<char>> {
    match case_ref {
        Some(c) => Some(c),
        None => if projection_case.len() > 0 {
            Some(projection_case)
        } else {
            None
        },
    }
}

/// The head of the preview: the Case, what the model's view is and is not
/// given, and the projection counts.
pub open spec fn preview_head(case_ref: Option<Seq<char>>, p: ProjectionCounts) -> Seq<char> {
    "case_ref: "@ + (match case_ref {
        Some(c) => c,
        None => "unknown"@,
    }) + "\n"@ + "case_world: materialized\n"@ + "case_context: active\n"@ + "consumer: model\n"@
        + "authority: legacy_compatibility_preview_not_provider_input\n"@
        + "projection_kind: model_context\n"@ + "redaction: summary_only\n"@
        + "source: case_projection_graph_memory\n"@ + "raw_journal_access: not_provided\n"@
        + "filesystem_access: not_provided\n"@ + "decision_authority: not_provided\n"@
        + "receipt_authority: not_provided\n"@
        + "terminal_authority: prompt_surface_only_no_decision_authority\n"@ + count_line(
        "records"@,
        p.source_record_count,
    ) + count_line("case_domains"@, p.case_domain_count) + count_line(
        "case_attachments"@,
        p.case_attachment_count,
    ) + count_line("case_bindings"@, p.case_binding_count) + count_line(
        "interaction_threads"@,
        p.interaction_thread_count,
    ) + count_line("interaction_turns"@, p.interaction_turn_count) + count_line(
        "participant_view_frames"@,
        p.participant_view_frame_count,
    ) + count_line("model_projection_records"@, p.model_projection_count) + count_line(
        "operator_projection_records"@,
        p.operator_projection_count,
    ) + count_line("filesystem_receipts"@, p.filesystem_receipt_count) + count_line(
        "memory_candidates"@,
        p.memory_candidate_count,
    ) + count_line("projection_rules"@, p.projection_rule_count) + count_line(
        "authority_scopes"@,
        p.authority_scope_count,
    ) + count_line("model_interpretations"@, p.model_interpretation_count) + count_line(
        "graph_edges"@,
        p.graph_edge_count,
    ) + "\n"@
}

fn preview_head_exec(case_ref: Option<&str>, p: &ProjectionCounts) -> (h: Vec<char>)
    ensures
        h@ == preview_head(
            match case_ref {
                Some(c) => Some(c@),
                None => None,
            },
            *p,
        ),
{
    let mut h = crate::text::chars_of("case_ref: ");
    match case_ref {
        Some(c) => push_str(&mut h, c),
        None => push_str(&mut h, "unknown"),
    }
    push_str(&mut h, "\n");
    push_str(&mut h, "case_world: materialized\n");
    push_str(&mut h, "case_context: active\n");
    push_str(&mut h, "consumer: model\n");
    push_str(&mut h, "authority: legacy_compatibility_preview_not_provider_input\n");
    push_str(&mut h, "projection_kind: model_context\n");
    push_str(&mut h, "redaction: summary_only\n");
    push_str(&mut h, "source: case_projection_graph_memory\n");
    push_str(&mut h, "raw_journal_access: not_provided\n");
    push_str(&mut h, "filesystem_access: not_provided\n");
    push_str(&mut h, "decision_authority: not_provided\n");
    push_str(&mut h, "receipt_authority: not_provided\n");
    push_str(&mut h, "terminal_authority: prompt_surface_only_no_decision_authority\n");
    push_count_line(&mut h, "records", p.source_record_count);
    push_count_line(&mut h, "case_domains", p.case_domain_count);
    push_count_line(&mut h, "case_attachments", p.case_attachment_count);
    push_count_line(&mut h, "case_bindings", p.case_binding_count);
    push_count_line(&mut h, "interaction_threads", p.interaction_thread_count);
    push_count_line(&mut h, "interaction_turns", p.interaction_turn_count);
    push_count_line(&mut h, "participant_view_frames", p.participant_view_frame_count);
    push_count_line(&mut h, "model_projection_records", p.model_projection_count);
    push_count_line(&mut h, "operator_projection_records", p.operator_projection_count);
    push_count_line(&mut h, "filesystem_receipts", p.filesystem_receipt_count);
    push_count_line(&mut h, "memory_candidates", p.memory_candidate_count);
    push_count_line(&mut h, "projection_rules", p.projection_rule_count);
    push_count_line(&mut h, "authority_scopes", p.authority_scope_count);
    push_count_line(&mut h, "model_interpretations", p.model_interpretation_count);
    push_count_line(&mut h, "graph_edges", p.graph_edge_count);
    push_str(&mut h, "\n");
    h
}

/// The closing part of the preview: what each participant may and may not
/// take as authority.
pub const AUTHORITY_BOUNDARIES: &'static str = "## Authority Boundaries\n- case_domain, case_attachment and case_binding records define the operational case world visible to this participant.\n- subject:linenoise-terminal is a vendored prompt surface only; it does not generate decisions, authorize writes, mutate receipts or own provider semantics.\n- subject:llm-provider may produce claims, proposals and model_interpretation records; those are not authoritative state until checked against decisions, receipts, graph and memory.\n- filesystem decisions are represented by decision records; existing decisions/receipts are historical residue, not mutable by model output.\n- When answering, state authority granted by the current projection, not physical capability of the host process.\n- raw_journal_access, filesystem_access, decision_authority and receipt_authority are not provided to the model participant view.\n\n";

/// The closing part of the preview, as characters.
pub open spec fn boundaries_spec() -> Seq<char> {
    AUTHORITY_BOUNDARIES@
}

/// The whole preview: the head, the sections of the Case world, subjects,
/// policy, projection rules, authority scopes, decisions, filesystem
/// receipts, memory, graph, projection records and model interpretations,
/// then the authority boundaries.
pub open spec fn preview_spec(rs: Seq<PreviewRecord>, case_ref: Option<Seq<char>>, p: ProjectionCounts) -> Seq<char> {
    let c = preview_case(case_ref, p.case_ref@);
    preview_head(c, p)
        + section_spec("Case World"@, rs, c, seq![RecordKind::CaseDomain, RecordKind::CaseAttachment, RecordKind::CaseBinding])
        + section_spec("Subjects"@, rs, c, seq![RecordKind::SubjectBinding])
        + section_spec("Policy"@, rs, c, seq![RecordKind::PolicyRule])
        + section_spec("Projection Rules"@, rs, c, seq![RecordKind::ProjectionRule])
        + section_spec("Authority Scopes"@, rs, c, seq![RecordKind::AuthorityScope])
        + section_spec("Decisions"@, rs, c, seq![RecordKind::Decision])
        + section_spec("Filesystem Receipts"@, rs, c, seq![RecordKind::FilesystemReceipt])
        + section_spec("Memory"@, rs, c, seq![RecordKind::MemoryCandidate])
        + section_spec("Graph"@, rs, c, seq![RecordKind::GraphEdge])
        + section_spec("Projection Records"@, rs, c, seq![RecordKind::ProjectionRequest, RecordKind::ProjectionResult])
        + section_spec("Model Interpretations"@, rs, c, seq![RecordKind::ModelInterpretation])
        + boundaries_spec()
}

/// The records of the Case whose kind is listed, in journal order.
pub open spec fn picked(rs: Seq<PreviewRecord>, case_ref: Option<Seq<char>>, kinds: Seq<RecordKind>) -> Seq<PreviewRecord> {
    rs.filter(|r: PreviewRecord| in_case(r, case_ref) && kinds.contains(r.kind))
}

/// The listing lines of records, one after the other.
pub open spec fn lines_of(rs: Seq<PreviewRecord>) -> Seq<char>
    decreases rs.len(),
{
    if rs.len() == 0 {
        Seq::empty()
    } else {
        lines_of(rs.drop_last()) + record_line(rs.last())
    }
}

/// What a section lists: the lines of the records picked, or `- none`.
pub open spec fn listing(rs: Seq<PreviewRecord>, case_ref: Option<Seq<char>>, kinds: Seq<RecordKind>) -> Seq<char> {
    if picked(rs, case_ref, kinds).len() == 0 {
        "- none\n"@
    } else {
        lines_of(picked(rs, case_ref, kinds))
    }
}

/// A titled section around its listing.
pub open spec fn titled(title: Seq<char>, body: Seq<char>) -> Seq<char> {
    "## "@ + title + "\n"@ + body + "\n"@
}

/// Building a section record by record lists exactly the records picked:
/// the lines of the records of the Case whose kind is shown, in journal
/// order, and nothing where none is.
pub proof fn law_record_lines_picked(rs: Seq<PreviewRecord>, case_ref: Option<Seq<char>>, kinds: Seq<RecordKind>)
    ensures
        record_lines(rs, case_ref, kinds) == lines_of(picked(rs, case_ref, kinds)),
        picked(rs, case_ref, kinds).len() == 0 <==> record_lines(rs, case_ref, kinds).len() == 0,
    decreases rs.len(),
{
    reveal(Seq::filter);
    if rs.len() > 0 {
        law_record_lines_picked(rs.drop_last(), case_ref, kinds);
        let prev = picked(rs.drop_last(), case_ref, kinds);
        let keep = in_case(rs.last(), case_ref) && kinds.contains(rs.last().kind);
        assert(picked(rs, case_ref, kinds) == if keep { prev.push(rs.last()) } else { prev });
        if keep {
            assert(prev.push(rs.last()).drop_last() =~= prev);
            reveal_strlit("- ");
            assert(record_line(rs.last()).len() > 0);
        }
    }
}

fn kinds1(a: RecordKind) -> (v: Vec<RecordKind>)
    ensures
        v@ == seq![a],
{
    let mut v: Vec<RecordKind> = Vec::new();
    v.push(a);
    assert(v@ =~= seq![a]);
    v
}

fn kinds2(a: RecordKind, b: RecordKind) -> (v: Vec<RecordKind>)
    ensures
        v@ == seq![a, b],
{
    let mut v: Vec<RecordKind> = Vec::new();
    v.push(a);
    v.push(b);
    assert(v@ =~= seq![a, b]);
    v
}

fn kinds3(a: RecordKind, b: RecordKind, c: RecordKind) -> (v: Vec<RecordKind>)
    ensures
        v@ == seq![a, b, c],
{
    let mut v: Vec<RecordKind> = Vec::new();
    v.push(a);
    v.push(b);
    v.push(c);
    assert(v@ =~= seq![a, b, c]);
    v
}

/// The legacy Case entry preview of a journal's records, for the Case asked
/// about or, where none is, the Case of the projection.
pub fn render_legacy_case_entry_preview(
    records: &Vec<PreviewRecord>,
    case_ref: Option<&str>,
    projection: &ProjectionCounts,
) -> (out: String)
    ensures
        out@ == preview_spec(
            records@,
            match case_ref {
                Some(c) => Some(c@),
                None => None,
            },
            *projection,
        ),
{
    let chosen: Option<&str> = match case_ref {
        Some(c) => Some(c),
        None => if crate::text::chars_of(projection.case_ref.as_str()).len() > 0 {
            Some(projection.case_ref.as_str())
        } else {
            None
        },
    };
    let ghost c = match chosen {
        Some(x) => Some(x@),
        None => None,
    };
    proof {
        let cr = match case_ref {
            Some(x) => Some(x@),
            None => None,
        };
        assert(c == preview_case(cr, projection.case_ref@));
    }
    let mut o = preview_head_exec(chosen, projection);
    render_legacy_case_entry_records(&mut o, "Case World", records, chosen, &kinds3(RecordKind::CaseDomain, RecordKind::CaseAttachment, RecordKind::CaseBinding));
    render_legacy_case_entry_records(&mut o, "Subjects", records, chosen, &kinds1(RecordKind::SubjectBinding));
    render_legacy_case_entry_records(&mut o, "Policy", records, chosen, &kinds1(RecordKind::PolicyRule));
    render_legacy_case_entry_records(&mut o, "Projection Rules", records, chosen, &kinds1(RecordKind::ProjectionRule));
    render_legacy_case_entry_records(&mut o, "Authority Scopes", records, chosen, &kinds1(RecordKind::AuthorityScope));
    render_legacy_case_entry_records(&mut o, "Decisions", records, chosen, &kinds1(RecordKind::Decision));
    render_legacy_case_entry_records(&mut o, "Filesystem Receipts", records, chosen, &kinds1(RecordKind::FilesystemReceipt));
    render_legacy_case_entry_records(&mut o, "Memory", records, chosen, &kinds1(RecordKind::MemoryCandidate));
    render_legacy_case_entry_records(&mut o, "Graph", records, chosen, &kinds1(RecordKind::GraphEdge));
    render_legacy_case_entry_records(&mut o, "Projection Records", records, chosen, &kinds2(RecordKind::ProjectionRequest, RecordKind::ProjectionResult));
    render_legacy_case_entry_records(&mut o, "Model Interpretations", records, chosen, &kinds1(RecordKind::ModelInterpretation));
    push_str(&mut o, AUTHORITY_BOUNDARIES);
    string_of(&o)
}

} // verus!
