//! Decisions of the semantic compilation of a provider invocation: the view
//! a governed selection admits, the resources and structured output an
//! output contract implies, the input budget, and the choice of the artifact
//! a context inspection shows.

use vstd::prelude::*;
use crate::args::{arg_value, optional_arg, or_else_spec};
use crate::conversation::CaseParticipant;
use crate::numbers::{decimal_spec, push_decimal};
use crate::seqs::views;
use crate::settings::SelectionEntry;
use crate::text::{chars_of, owned, push_str, str_eq, string_of};

verus! {

/// A selection of the Case matches the governance of the invocation and
/// its subject.
pub open spec fn selection_canonical(
    sels: Seq<SelectionEntry>,
    g: (Seq<char>, Seq<char>, Seq<char>, int),
    subject: Seq<char>,
) -> bool {
    exists|k: int|
        0 <= k < sels.len() && {
            let s = #[trigger] sels[k];
            &&& s.selection_id@ == g.0
            &&& s.selected_target_id@ == g.1
            &&& s.logical_turn_id@ == g.2
            &&& s.attempt_number as int == g.3
            &&& s.participant_id@ == subject
        }
}

/// Position of the first participant with this id from `i` on, or -1.
pub open spec fn first_participant(ps: Seq<CaseParticipant>, id: Seq<char>, i: int) -> int
    decreases ps.len() - i,
{
    if i < 0 || i >= ps.len() {
        -1
    } else if ps[i].participant_id@ == id {
        i
    } else {
        first_participant(ps, id, i + 1)
    }
}

proof fn lemma_first_participant(ps: Seq<CaseParticipant>, id: Seq<char>, i: int)
    requires
        0 <= i <= ps.len(),
    ensures
        first_participant(ps, id, i) == -1 || (i <= first_participant(ps, id, i) < ps.len()
            && ps[first_participant(ps, id, i)].participant_id@ == id),
    decreases ps.len() - i,
{
    if i < ps.len() && ps[i].participant_id@ != id {
        lemma_first_participant(ps, id, i + 1);
    }
}

/// The views of admitted view pairs.
pub open spec fn pair_views(v: Seq<(String, String)>) -> Seq<(Seq<char>, Seq<char>)> {
    v.map_values(|p: (String, String)| (p.0@, p.1@))
}

fn selection_found(
    selections: &Vec<SelectionEntry>,
    governance: &(String, String, String, u32),
    subject: &str,
) -> (r: bool)
    ensures
        r == selection_canonical(selections@, (governance.0@, governance.1@, governance.2@, governance.3 as int), subject@),
{
    let ghost g = (governance.0@, governance.1@, governance.2@, governance.3 as int);
    let mut k: usize = 0;
    while k < selections.len()
        invariant
            k <= selections.len(),
            g == (governance.0@, governance.1@, governance.2@, governance.3 as int),
            forall|j: int|
                0 <= j < k ==> !({
                    let s = #[trigger] selections@[j];
                    &&& s.selection_id@ == g.0
                    &&& s.selected_target_id@ == g.1
                    &&& s.logical_turn_id@ == g.2
                    &&& s.attempt_number as int == g.3
                    &&& s.participant_id@ == subject@
                }),
        decreases selections.len() - k,
    {
        let s = &selections[k];
        if str_eq(s.selection_id.as_str(), governance.0.as_str()) && str_eq(s.selected_target_id.as_str(), governance.1.as_str())
            && str_eq(s.logical_turn_id.as_str(), governance.2.as_str()) && s.attempt_number == governance.3
            && str_eq(s.participant_id.as_str(), subject) {
            assert(selection_canonical(selections@, g, subject@)) by {
                let t = selections@[k as int];
                assert(t.selection_id@ == g.0 && t.selected_target_id@ == g.1);
            }
            return true;
        }
        k += 1;
    }
    false
}

fn participant_position(ps: &Vec<CaseParticipant>, id: &str) -> (r: Option<usize>)
    ensures
        match r {
            Some(p) => first_participant(ps@, id@, 0) == p as int && p < ps.len(),
            None => first_participant(ps@, id@, 0) == -1,
        },
{
    let mut i: usize = 0;
    while i < ps.len()
        invariant
            i <= ps.len(),
            first_participant(ps@, id@, 0) == first_participant(ps@, id@, i as int),
        decreases ps.len() - i,
    {
        if str_eq(ps[i].participant_id.as_str(), id) {
            return Some(i);
        }
        i += 1;
    }
    None
}

fn has_view(views_of: &Vec<(String, String)>, consumer: &str, view_kind: &str) -> (r: bool)
    ensures
        r == pair_views(views_of@).contains((consumer@, view_kind@)),
{
    let ghost pv = pair_views(views_of@);
    let mut i: usize = 0;
    while i < views_of.len()
        invariant
            i <= views_of.len(),
            pv == pair_views(views_of@),
            forall|j: int| 0 <= j < i ==> pv[j] != (consumer@, view_kind@),
        decreases views_of.len() - i,
    {
        if str_eq(views_of[i].0.as_str(), consumer) && str_eq(views_of[i].1.as_str(), view_kind) {
            assert(pv[i as int] == (consumer@, view_kind@));
            return true;
        }
        i += 1;
    }
    proof {
        if pv.contains((consumer@, view_kind@)) {
            let j = choose|j: int| 0 <= j < pv.len() && pv[j] == (consumer@, view_kind@);
            assert(pv[j] != (consumer@, view_kind@));
        }
    }
    false
}

/// A governed invocation may only compile a projection for a selection the
/// Case recorded for this subject; the subject's participant is then
/// admitted to the invocation's view (once).
pub fn admit_selected_view(
    selections: &Vec<SelectionEntry>,
    governance: &(String, String, String, u32),
    subject: &str,
    participants: &mut Vec<CaseParticipant>,
    consumer: &str,
    view_kind: &str,
) -> (r: Result<(), String>)
    ensures
        !selection_canonical(selections@, (governance.0@, governance.1@, governance.2@, governance.3 as int), subject@)
            ==> (r matches Err(e) && e@ == "provider_selection_projection_admission_invalid"@ && final(participants)@
            == old(participants)@),
        selection_canonical(selections@, (governance.0@, governance.1@, governance.2@, governance.3 as int), subject@)
            && first_participant(old(participants)@, subject@, 0) == -1 ==> (r matches Err(e) && e@
            == "provider_selection_participant_not_bound"@ && final(participants)@ == old(participants)@),
        selection_canonical(selections@, (governance.0@, governance.1@, governance.2@, governance.3 as int), subject@)
            && first_participant(old(participants)@, subject@, 0) >= 0 ==> ({
            let p = first_participant(old(participants)@, subject@, 0);
            let before = old(participants)@[p];
            &&& r is Ok
            &&& final(participants)@.len() == old(participants)@.len()
            &&& forall|i: int| 0 <= i < old(participants)@.len() && i != p ==> final(participants)@[i] == old(participants)@[i]
            &&& final(participants)@[p].participant_id == before.participant_id
            &&& pair_views(final(participants)@[p].admitted_views@) == if pair_views(before.admitted_views@).contains(
                (consumer@, view_kind@),
            ) {
                pair_views(before.admitted_views@)
            } else {
                pair_views(before.admitted_views@).push((consumer@, view_kind@))
            }
        }),
{
    if !selection_found(selections, governance, subject) {
        return Err(owned("provider_selection_projection_admission_invalid"));
    }
    let p = match participant_position(participants, subject) {
        Some(p) => p,
        None => return Err(owned("provider_selection_participant_not_bound")),
    };
    proof {
        lemma_first_participant(participants@, subject@, 0);
    }
    let ghost old_ps = participants@;
    let mut part = participants.remove(p);
    let ghost before_views = pair_views(part.admitted_views@);
    if !has_view(&part.admitted_views, consumer, view_kind) {
        part.admitted_views.push((owned(consumer), owned(view_kind)));
        assert(pair_views(part.admitted_views@) =~= before_views.push((consumer@, view_kind@)));
    }
    participants.insert(p, part);
    proof {
        assert forall|i: int| 0 <= i < old_ps.len() && i != p implies participants@[i] == old_ps[i] by {
            if i < p {
                assert(participants@[i] == old_ps.remove(p as int)[i]);
            } else {
                assert(participants@[i] == old_ps.remove(p as int)[i - 1]);
            }
        }
    }
    Ok(())
}

/// The output a provider invocation must give, with the resource it
/// concerns where it proposes an action.
pub enum OutputContractKind {
    NaturalLanguage,
    WorkflowPlanPatch,
    FilesystemWriteProposal { attachment_id: String },
    ProcessSignalProposal { attachment_id: String },
    CaseRuntimeTurn { attachment_id: String },
}

/// The resources whose memory the compilation retrieves: the one an action
/// proposal concerns.
pub open spec fn resource_refs_spec(c: OutputContractKind) -> Seq<Seq<char>> {
    match c {
        OutputContractKind::FilesystemWriteProposal { attachment_id } => seq![attachment_id@],
        OutputContractKind::ProcessSignalProposal { attachment_id } => seq![attachment_id@],
        OutputContractKind::CaseRuntimeTurn { attachment_id } => seq![attachment_id@],
        _ => Seq::empty(),
    }
}

/// The resources of an output contract.
pub fn resource_refs(c: &OutputContractKind) -> (out: Vec<String>)
    ensures
        views(out@) == resource_refs_spec(*c),
{
    let mut out: Vec<String> = Vec::new();
    match c {
        OutputContractKind::FilesystemWriteProposal { attachment_id } => out.push(attachment_id.clone()),
        OutputContractKind::ProcessSignalProposal { attachment_id } => out.push(attachment_id.clone()),
        OutputContractKind::CaseRuntimeTurn { attachment_id } => out.push(attachment_id.clone()),
        _ => {},
    }
    assert(views(out@) =~= resource_refs_spec(*c));
    out
}

/// Every contract but natural language asks the model for structured output.
pub fn structured_output_supported(c: &OutputContractKind) -> (r: bool)
    ensures
        r == !(c is NaturalLanguage),
{
    match c {
        OutputContractKind::NaturalLanguage => false,
        _ => true,
    }
}

/// The estimated input units of a rendered input: a unit per four
/// characters, rounded up.
pub open spec fn input_units(content_chars: int) -> int {
    content_chars / 4 + if content_chars % 4 == 0 {
        0int
    } else {
        1int
    }
}

/// The rendered input must fit the invocation's budget; its estimated
/// units where it does.
pub fn input_budget_check(content_chars: usize, max_units: usize) -> (r: Result<usize, String>)
    ensures
        input_units(content_chars as int) <= max_units ==> r == Ok::<usize, String>(input_units(content_chars as int) as usize),
        input_units(content_chars as int) > max_units ==> (r matches Err(e) && e@
            == "provider_input_budget_exceeded: estimated_units="@ + decimal_spec(input_units(content_chars as int) as nat)
            + " max_units="@ + decimal_spec(max_units as nat)),
{
    let units: usize = content_chars / 4 + if content_chars % 4 == 0 { 0 } else { 1 };
    if units > max_units {
        let mut m = chars_of("provider_input_budget_exceeded: estimated_units=");
        push_decimal(&mut m, units as u64);
        push_str(&mut m, " max_units=");
        push_decimal(&mut m, max_units as u64);
        return Err(string_of(&m));
    }
    Ok(units)
}

/// An artifact of a compiled semantic invocation that the record store keeps.
#[derive(Clone, Copy, Debug, PartialEq, Eq, Structural)]
pub enum SemanticArtifactKind {
    Projection,
    ContextFrame,
    RenderedInputMetadata,
    ResidencyPlan,
}

/// The artifacts an admitted invocation persists, in the order they are put.
pub open spec fn persisted_artifacts() -> Seq<SemanticArtifactKind> {
    seq![
        SemanticArtifactKind::Projection,
        SemanticArtifactKind::ContextFrame,
        SemanticArtifactKind::RenderedInputMetadata,
        SemanticArtifactKind::ResidencyPlan,
    ]
}

/// The admission of a rendered input of `content_chars` characters under a
/// budget of `max_units`: its units and the artifacts to persist, or the
/// refusal, which persists nothing.
pub open spec fn rendered_admission_spec(content_chars: int, max_units: int) -> Result<
    (int, Seq<SemanticArtifactKind>),
    Seq<char>,
> {
    if input_units(content_chars) > max_units {
        Err(
            "provider_input_budget_exceeded: estimated_units="@ + decimal_spec(
                input_units(content_chars) as nat,
            ) + " max_units="@ + decimal_spec(max_units as nat),
        )
    } else {
        Ok((input_units(content_chars), persisted_artifacts()))
    }
}

/// Admits a rendered input: within the budget, its units and the artifacts
/// the store is to keep; over it, the refusal and nothing to keep.
pub fn admit_rendered_input(content_chars: usize, max_units: usize) -> (r: Result<(usize, Vec<SemanticArtifactKind>), String>)
    ensures
        match r {
            Ok((u, ks)) => rendered_admission_spec(content_chars as int, max_units as int) == Ok::<
                (int, Seq<SemanticArtifactKind>),
                Seq<char>,
            >((u as int, ks@)),
            Err(e) => rendered_admission_spec(content_chars as int, max_units as int) == Err::<
                (int, Seq<SemanticArtifactKind>),
                Seq<char>,
            >(e@),
        },
{
    let units = input_budget_check(content_chars, max_units)?;
    let mut ks: Vec<SemanticArtifactKind> = Vec::new();
    ks.push(SemanticArtifactKind::Projection);
    ks.push(SemanticArtifactKind::ContextFrame);
    ks.push(SemanticArtifactKind::RenderedInputMetadata);
    ks.push(SemanticArtifactKind::ResidencyPlan);
    assert(ks@ =~= persisted_artifacts());
    Ok((units, ks))
}

/// A semantic invocation over its input budget is refused with
/// `provider_input_budget_exceeded:` and persists no artifact; an admitted
/// one fits the budget and persists the projection, the context frame, the
/// rendered input's metadata and the residency plan.
pub proof fn law_semantic_budget(content_chars: int, max_units: int)
    requires
        0 <= content_chars,
        0 <= max_units,
    ensures
        input_units(content_chars) > max_units ==> (rendered_admission_spec(content_chars, max_units) matches Err(e)
            && e.subrange(0, 31) == "provider_input_budget_exceeded:"@),
        rendered_admission_spec(content_chars, max_units) matches Ok(a) ==> a.0 <= max_units && a.0 * 4
            >= content_chars && a.1 == persisted_artifacts(),
{
    reveal_strlit("provider_input_budget_exceeded: estimated_units=");
    reveal_strlit("provider_input_budget_exceeded:");
    if input_units(content_chars) > max_units {
        let e = rendered_admission_spec(content_chars, max_units)->Err_0;
        assert(e.subrange(0, 31) =~= "provider_input_budget_exceeded:"@);
    }
}

/// The artifact a context inspection names: `--id`, else `--projection`,
/// else `--frame`.
pub fn context_artifact_id(args: &[String]) -> (r: Result<String, String>)
    ensures
        match or_else_spec(
            arg_value(views(args@), "--id"@),
            or_else_spec(arg_value(views(args@), "--projection"@), arg_value(views(args@), "--frame"@)),
        ) {
            Some(v) => r matches Ok(x) && x@ == v,
            None => r matches Err(e) && e@ == "context inspect requires --id, --projection, or --frame"@,
        },
{
    match optional_arg(args, "--id") {
        Some(v) => Ok(v),
        None => match optional_arg(args, "--projection") {
            Some(v) => Ok(v),
            None => match optional_arg(args, "--frame") {
                Some(v) => Ok(v),
                None => Err(owned("context inspect requires --id, --projection, or --frame")),
            },
        },
    }
}

/// The Case of an inspected artifact: its own, else (for rendered input
/// metadata) that of its context frame; an artifact of no Case is not shown.
pub fn artifact_case(own_case: Option<&str>, frame_case: Option<&str>) -> (r: Result<String, String>)
    ensures
        own_case matches Some(c) ==> (r matches Ok(x) && x@ == c@),
        own_case is None ==> (frame_case matches Some(c) ==> (r matches Ok(x) && x@ == c@)),
        own_case is None && frame_case is None ==> (r matches Err(e) && e@ == "context_artifact_not_visible"@),
{
    match own_case {
        Some(c) => Ok(owned(c)),
        None => match frame_case {
            Some(c) => Ok(owned(c)),
            None => Err(owned("context_artifact_not_visible")),
        },
    }
}

} // verus!
