//! How the conversation commands list a draft and a committed turn: each
//! content part with its type, size, digest and provenance.

use vstd::prelude::*;
use crate::numbers::{decimal_spec, push_decimal};
use crate::observe::{kv_line, push_kv};
use crate::text::{chars_of, push_str, string_of};

verus! {

/// Where the content of a part comes from.
#[derive(Clone, Copy, Debug, PartialEq, Eq, Structural)]
pub enum PartProvenance {
    Original,
    HumanEdited,
    /// Derived by a machine or a deterministic transformation.
    Derived,
}

pub open spec fn provenance_label_spec(p: PartProvenance) -> Seq<char> {
    match p {
        PartProvenance::Original => "original"@,
        PartProvenance::HumanEdited => "human_edited_derived"@,
        PartProvenance::Derived => "machine_or_deterministic_derived"@,
    }
}

/// The label of a part's provenance.
pub fn provenance_label(p: PartProvenance) -> (out: &'static str)
    ensures
        out@ == provenance_label_spec(p),
{
    match p {
        PartProvenance::Original => "original",
        PartProvenance::HumanEdited => "human_edited_derived",
        PartProvenance::Derived => "machine_or_deterministic_derived",
    }
}

/// A content part of a draft.
pub struct DraftPart {
    pub modality: String,
    pub media_type: String,
    pub byte_length: u64,
    pub content_digest: String,
    pub provenance: PartProvenance,
}

/// A draft of the participant in the Case.
pub struct DraftView {
    pub draft_id: String,
    pub case_id: String,
    pub participant_id: String,
    pub parts: Vec<DraftPart>,
}

/// The line of the draft's part `ordinal`.
pub open spec fn draft_part_line(ordinal: nat, p: DraftPart) -> Seq<char> {
    "part: "@ + decimal_spec(ordinal) + " type="@ + p.modality@ + " mime="@ + p.media_type@ + " bytes="@
        + decimal_spec(p.byte_length as nat) + " digest="@ + p.content_digest@ + " provenance="@
        + provenance_label_spec(p.provenance) + "\n"@
}

/// The lines of the first `n` parts.
pub open spec fn draft_part_lines(parts: Seq<DraftPart>, n: int) -> Seq<char>
    decreases n,
{
    if n <= 0 || n > parts.len() {
        Seq::empty()
    } else {
        draft_part_lines(parts, n - 1) + draft_part_line((n - 1) as nat, parts[n - 1])
    }
}

fn part_line(ordinal: usize, p: &DraftPart) -> (out: Vec<char>)
    ensures
        out@ == draft_part_line(ordinal as nat, *p),
{
    let mut o = chars_of("part: ");
    push_decimal(&mut o, ordinal as u64);
    push_str(&mut o, " type=");
    push_str(&mut o, p.modality.as_str());
    push_str(&mut o, " mime=");
    push_str(&mut o, p.media_type.as_str());
    push_str(&mut o, " bytes=");
    push_decimal(&mut o, p.byte_length);
    push_str(&mut o, " digest=");
    push_str(&mut o, p.content_digest.as_str());
    push_str(&mut o, " provenance=");
    push_str(&mut o, provenance_label(p.provenance));
    push_str(&mut o, "\n");
    o
}

/// What `draft show` prints: the draft, its part count, that it is not
/// canonical, and its parts in order.
pub open spec fn draft_text_spec(d: DraftView) -> Seq<char> {
    kv_line("draft_id"@, d.draft_id@) + kv_line("case_id"@, d.case_id@) + kv_line("participant_id"@, d.participant_id@)
        + kv_line("parts"@, decimal_spec(d.parts@.len())) + kv_line("canonical"@, "no"@) + draft_part_lines(
        d.parts@,
        d.parts@.len() as int,
    )
}

/// The listing of a draft.
pub fn draft_text(d: &DraftView) -> (out: String)
    ensures
        out@ == draft_text_spec(*d),
{
    let mut o: Vec<char> = Vec::new();
    push_kv(&mut o, "draft_id", d.draft_id.as_str());
    push_kv(&mut o, "case_id", d.case_id.as_str());
    push_kv(&mut o, "participant_id", d.participant_id.as_str());
    push_str(&mut o, "parts");
    push_str(&mut o, ": ");
    push_decimal(&mut o, d.parts.len() as u64);
    push_str(&mut o, "\n");
    push_kv(&mut o, "canonical", "no");
    let ghost head = o@;
    let mut i: usize = 0;
    while i < d.parts.len()
        invariant
            i <= d.parts.len(),
            o@ == head + draft_part_lines(d.parts@, i as int),
        decreases d.parts.len() - i,
    {
        let line = part_line(i, &d.parts[i]);
        crate::text::push_all(&mut o, &line);
        i += 1;
    }
    string_of(&o)
}

/// The report of a part added to a draft.
pub fn draft_mutation_text(draft_id: &str, added_part: u64, part_count: u64, posture: &str) -> (out: String)
    ensures
        out@ == kv_line("draft_id"@, draft_id@) + kv_line("added_part"@, decimal_spec(added_part as nat)) + kv_line(
            "part_count"@,
            decimal_spec(part_count as nat),
        ) + kv_line("provenance"@, posture@) + kv_line("canonical"@, "no"@),
{
    let mut o: Vec<char> = Vec::new();
    push_kv(&mut o, "draft_id", draft_id);
    push_str(&mut o, "added_part");
    push_str(&mut o, ": ");
    push_decimal(&mut o, added_part);
    push_str(&mut o, "\n");
    push_str(&mut o, "part_count");
    push_str(&mut o, ": ");
    push_decimal(&mut o, part_count);
    push_str(&mut o, "\n");
    push_kv(&mut o, "provenance", posture);
    push_kv(&mut o, "canonical", "no");
    string_of(&o)
}

/// Whether a conversation command's result is printed as JSON.
pub fn wants_json(args: &[String]) -> (r: bool)
    ensures
        r == crate::seqs::views(args@).contains("--json"@),
{
    let mut i: usize = 0;
    while i < args.len()
        invariant
            i <= args.len(),
            forall|j: int| 0 <= j < i ==> (#[trigger] args@[j])@ != "--json"@,
        decreases args.len() - i,
    {
        if crate::text::str_eq(args[i].as_str(), "--json") {
            assert(crate::seqs::views(args@)[i as int] == "--json"@);
            return true;
        }
        i += 1;
    }
    proof {
        if crate::seqs::views(args@).contains("--json"@) {
            let j = choose|j: int| 0 <= j < crate::seqs::views(args@).len() && crate::seqs::views(args@)[j] == "--json"@;
            assert(args@[j]@ == "--json"@);
        }
    }
    false
}

} // verus!
