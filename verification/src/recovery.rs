//! Recovery of a completed step of Case work from the Case history: a step
//! whose provider result is already recorded is reused, never run again,
//! and a step that may have been delivered without a result stops the work.

use vstd::prelude::*;
use crate::feedback::contract_ref;
use crate::seqs::views;
use crate::text::{chars_match_at, chars_of, owned, slice_chars, str_eq, string_of};

verus! {

/// What the Case history records about the steps of Case work.
pub enum WorkHistoryEntry {
    /// A provider selection for a step requirement, under a logical turn,
    /// with the references it was recorded with.
    SelectionRecorded { selection_id: String, requirement_id: String, logical_turn_id: String, causal_refs: Vec<String> },
    /// A provider invocation, under a selection where governed.
    InvocationStarted { invocation_id: String, governed_selection: Option<String> },
    /// A provider result of an invocation and its output.
    ResultRecorded { result_id: String, invocation_id: String, output: String },
    /// The outcome of an attempt under a selection, and whether a retry is safe.
    AttemptOutcome { selection_id: String, retry_safe: bool },
    /// A cognitive binding of the Case.
    BindingRecorded { binding_id: String },
    Other,
}

/// The first invocation governed by the selection.
pub open spec fn first_invocation(h: Seq<WorkHistoryEntry>, selection: Seq<char>) -> Option<Seq<char>>
    decreases h.len(),
{
    if h.len() == 0 {
        None
    } else {
        match h[0] {
            WorkHistoryEntry::InvocationStarted { invocation_id, governed_selection: Some(s) } if s@ == selection => Some(
                invocation_id@,
            ),
            _ => first_invocation(h.drop_first(), selection),
        }
    }
}

/// The first result of the invocation: its id and output.
pub open spec fn first_result(h: Seq<WorkHistoryEntry>, invocation: Seq<char>) -> Option<(Seq<char>, Seq<char>)>
    decreases h.len(),
{
    if h.len() == 0 {
        None
    } else {
        match h[0] {
            WorkHistoryEntry::ResultRecorded { result_id, invocation_id, output } if invocation_id@ == invocation => Some(
                (result_id@, output@),
            ),
            _ => first_result(h.drop_first(), invocation),
        }
    }
}

/// Some outcome under the selection says a retry is safe.
pub open spec fn retry_safe_under(h: Seq<WorkHistoryEntry>, selection: Seq<char>) -> bool
    decreases h.len(),
{
    if h.len() == 0 {
        false
    } else {
        match h[0] {
            WorkHistoryEntry::AttemptOutcome { selection_id, retry_safe } if retry_safe && selection_id@ == selection => true,
            _ => retry_safe_under(h.drop_first(), selection),
        }
    }
}

/// The first binding whose id is among `refs`.
pub open spec fn first_binding(h: Seq<WorkHistoryEntry>, refs: Seq<Seq<char>>) -> Option<Seq<char>>
    decreases h.len(),
{
    if h.len() == 0 {
        None
    } else {
        match h[0] {
            WorkHistoryEntry::BindingRecorded { binding_id } if refs.contains(binding_id@) => Some(binding_id@),
            _ => first_binding(h.drop_first(), refs),
        }
    }
}

/// A recovered step as plain values: selection, logical turn, invocation,
/// result, output and binding.
pub type RecoveredV = (Seq<char>, Seq<char>, Seq<char>, Seq<char>, Seq<char>, Seq<char>);

/// The completed step for the requirement, looking from the `n`-th entry
/// back: the latest selection for it must be under the capability output
/// contract `schema`; a selection with no invocation, or whose invocation
/// has no result but a safe retry, is passed over; an invocation with
/// neither may have been delivered; a result needs the binding the
/// selection names.
pub open spec fn completed_from(h: Seq<WorkHistoryEntry>, requirement: Seq<char>, schema: Seq<char>, n: int) -> Result<
    Option<RecoveredV>,
    Seq<char>,
>
    decreases n,
{
    if n <= 0 || n > h.len() {
        Ok(None)
    } else {
        match h[n - 1] {
            WorkHistoryEntry::SelectionRecorded { selection_id, requirement_id, logical_turn_id, causal_refs } => {
                if requirement_id@ != requirement {
                    completed_from(h, requirement, schema, n - 1)
                } else if !views(causal_refs@).contains(contract_ref(schema)) {
                    Err("case_work_step_contract_mismatch"@)
                } else {
                    match first_invocation(h, selection_id@) {
                        None => completed_from(h, requirement, schema, n - 1),
                        Some(inv) => match first_result(h, inv) {
                            None => if retry_safe_under(h, selection_id@) {
                                completed_from(h, requirement, schema, n - 1)
                            } else {
                                Err("case_work_prior_delivery_indeterminate"@)
                            },
                            Some((rid, out)) => match first_binding(h, views(causal_refs@)) {
                                None => Err("case_work_historical_binding_missing"@),
                                Some(b) => Ok(Some((selection_id@, logical_turn_id@, inv, rid, out, b))),
                            },
                        },
                    }
                }
            },
            _ => completed_from(h, requirement, schema, n - 1),
        }
    }
}

/// A step recovered from the history.
pub struct RecoveredStep {
    pub selection_id: String,
    pub logical_turn_id: String,
    pub invocation_id: String,
    pub result_id: String,
    pub output: String,
    pub binding_id: String,
}

pub open spec fn recovered_view(r: RecoveredStep) -> RecoveredV {
    (r.selection_id@, r.logical_turn_id@, r.invocation_id@, r.result_id@, r.output@, r.binding_id@)
}

fn find_invocation(h: &Vec<WorkHistoryEntry>, selection: &str) -> (r: Option<String>)
    ensures
        match r {
            Some(s) => first_invocation(h@, selection@) == Some(s@),
            None => first_invocation(h@, selection@) is None,
        },
{
    let mut i: usize = 0;
    assert(h@.subrange(0, h.len() as int) =~= h@);
    while i < h.len()
        invariant
            i <= h.len(),
            first_invocation(h@, selection@) == first_invocation(h@.subrange(i as int, h.len() as int), selection@),
        decreases h.len() - i,
    {
        assert(h@.subrange(i as int, h.len() as int).drop_first() =~= h@.subrange(i + 1, h.len() as int));
        match &h[i] {
            WorkHistoryEntry::InvocationStarted { invocation_id, governed_selection: Some(s) } => {
                if str_eq(s.as_str(), selection) {
                    return Some(invocation_id.clone());
                }
            },
            _ => {},
        }
        i += 1;
    }
    None
}

fn find_result(h: &Vec<WorkHistoryEntry>, invocation: &str) -> (r: Option<(String, String)>)
    ensures
        match r {
            Some(p) => first_result(h@, invocation@) == Some((p.0@, p.1@)),
            None => first_result(h@, invocation@) is None,
        },
{
    let mut i: usize = 0;
    assert(h@.subrange(0, h.len() as int) =~= h@);
    while i < h.len()
        invariant
            i <= h.len(),
            first_result(h@, invocation@) == first_result(h@.subrange(i as int, h.len() as int), invocation@),
        decreases h.len() - i,
    {
        assert(h@.subrange(i as int, h.len() as int).drop_first() =~= h@.subrange(i + 1, h.len() as int));
        match &h[i] {
            WorkHistoryEntry::ResultRecorded { result_id, invocation_id, output } => {
                if str_eq(invocation_id.as_str(), invocation) {
                    return Some((result_id.clone(), output.clone()));
                }
            },
            _ => {},
        }
        i += 1;
    }
    None
}

fn find_retry_safe(h: &Vec<WorkHistoryEntry>, selection: &str) -> (b: bool)
    ensures
        b == retry_safe_under(h@, selection@),
{
    let mut i: usize = 0;
    assert(h@.subrange(0, h.len() as int) =~= h@);
    while i < h.len()
        invariant
            i <= h.len(),
            retry_safe_under(h@, selection@) == retry_safe_under(h@.subrange(i as int, h.len() as int), selection@),
        decreases h.len() - i,
    {
        assert(h@.subrange(i as int, h.len() as int).drop_first() =~= h@.subrange(i + 1, h.len() as int));
        match &h[i] {
            WorkHistoryEntry::AttemptOutcome { selection_id, retry_safe } => {
                if *retry_safe && str_eq(selection_id.as_str(), selection) {
                    return true;
                }
            },
            _ => {},
        }
        i += 1;
    }
    false
}

fn refs_hold(refs: &Vec<String>, r: &str) -> (b: bool)
    ensures
        b == views(refs@).contains(r@),
{
    let mut i: usize = 0;
    while i < refs.len()
        invariant
            i <= refs.len(),
            forall|j: int| 0 <= j < i ==> (#[trigger] refs@[j])@ != r@,
        decreases refs.len() - i,
    {
        if str_eq(refs[i].as_str(), r) {
            assert(views(refs@)[i as int] == r@);
            return true;
        }
        i += 1;
    }
    proof {
        if views(refs@).contains(r@) {
            let j = choose|j: int| 0 <= j < views(refs@).len() && views(refs@)[j] == r@;
            assert(refs@[j]@ == r@);
        }
    }
    false
}

fn find_binding(h: &Vec<WorkHistoryEntry>, refs: &Vec<String>) -> (r: Option<String>)
    ensures
        match r {
            Some(s) => first_binding(h@, views(refs@)) == Some(s@),
            None => first_binding(h@, views(refs@)) is None,
        },
{
    let mut i: usize = 0;
    assert(h@.subrange(0, h.len() as int) =~= h@);
    while i < h.len()
        invariant
            i <= h.len(),
            first_binding(h@, views(refs@)) == first_binding(h@.subrange(i as int, h.len() as int), views(refs@)),
        decreases h.len() - i,
    {
        assert(h@.subrange(i as int, h.len() as int).drop_first() =~= h@.subrange(i + 1, h.len() as int));
        match &h[i] {
            WorkHistoryEntry::BindingRecorded { binding_id } => {
                if refs_hold(refs, binding_id.as_str()) {
                    return Some(binding_id.clone());
                }
            },
            _ => {},
        }
        i += 1;
    }
    None
}

/// The completed step of Case work for the requirement, if the history
/// holds one; `schema` is the capability output contract.
pub fn completed_step(history: &Vec<WorkHistoryEntry>, requirement_id: &str, schema: &str) -> (r: Result<
    Option<RecoveredStep>,
    String,
>)
    ensures
        match r {
            Ok(Some(s)) => completed_from(history@, requirement_id@, schema@, history.len() as int) == Ok::<
                Option<RecoveredV>,
                Seq<char>,
            >(Some(recovered_view(s))),
            Ok(None) => completed_from(history@, requirement_id@, schema@, history.len() as int) == Ok::<
                Option<RecoveredV>,
                Seq<char>,
            >(None),
            Err(e) => completed_from(history@, requirement_id@, schema@, history.len() as int) == Err::<
                Option<RecoveredV>,
                Seq<char>,
            >(e@),
        },
{
    let mut contract = chars_of("provider-normalization-contract:");
    crate::text::push_str(&mut contract, schema);
    let contract = string_of(&contract);
    let mut n: usize = history.len();
    while n > 0
        invariant
            n <= history.len(),
            contract@ == contract_ref(schema@),
            completed_from(history@, requirement_id@, schema@, history.len() as int) == completed_from(
                history@,
                requirement_id@,
                schema@,
                n as int,
            ),
        decreases n,
    {
        match &history[n - 1] {
            WorkHistoryEntry::SelectionRecorded { selection_id, requirement_id: req, logical_turn_id, causal_refs } => {
                if str_eq(req.as_str(), requirement_id) {
                    if !refs_hold(causal_refs, contract.as_str()) {
                        return Err(owned("case_work_step_contract_mismatch"));
                    }
                    match find_invocation(history, selection_id.as_str()) {
                        None => {},
                        Some(inv) => match find_result(history, inv.as_str()) {
                            None => {
                                if !find_retry_safe(history, selection_id.as_str()) {
                                    return Err(owned("case_work_prior_delivery_indeterminate"));
                                }
                            },
                            Some((rid, out)) => match find_binding(history, causal_refs) {
                                None => return Err(owned("case_work_historical_binding_missing")),
                                Some(b) => {
                                    return Ok(Some(RecoveredStep {
                                        selection_id: selection_id.clone(),
                                        logical_turn_id: logical_turn_id.clone(),
                                        invocation_id: inv,
                                        result_id: rid,
                                        output: out,
                                        binding_id: b,
                                    }));
                                },
                            },
                        },
                    }
                }
            },
            _ => {},
        }
        n -= 1;
    }
    Ok(None)
}

/// The plan a recovered step ran under: its logical turn without the
/// `cognitive-realization:` prefix, which it must carry.
pub open spec fn recovered_plan_spec(logical_turn: Seq<char>) -> Result<Seq<char>, Seq<char>> {
    let p = "cognitive-realization:"@;
    if p.len() <= logical_turn.len() && logical_turn.subrange(0, p.len() as int) == p {
        Ok(logical_turn.subrange(p.len() as int, logical_turn.len() as int))
    } else {
        Err("case_work_exact_plan_missing"@)
    }
}

/// The plan a recovered step ran under.
pub fn recovered_plan(logical_turn_id: &str) -> (r: Result<String, String>)
    ensures
        match r {
            Ok(p) => recovered_plan_spec(logical_turn_id@) == Ok::<Seq<char>, Seq<char>>(p@),
            Err(e) => recovered_plan_spec(logical_turn_id@) == Err::<Seq<char>, Seq<char>>(e@),
        },
{
    let t = chars_of(logical_turn_id);
    let p = chars_of("cognitive-realization:");
    if p.len() <= t.len() && chars_match_at(&t, &p, 0) {
        Ok(string_of(&slice_chars(&t, p.len(), t.len())))
    } else {
        Err(owned("case_work_exact_plan_missing"))
    }
}

/// A recovered step is one that already completed: its invocation ran under
/// the latest selection for the requirement and its result is recorded, so
/// the work reuses it and never runs that step again.
pub proof fn law_recovered_step_completed(h: Seq<WorkHistoryEntry>, requirement: Seq<char>, schema: Seq<char>, n: int)
    ensures
        completed_from(h, requirement, schema, n) matches Ok(Some(r)) ==> first_invocation(h, r.0) == Some(r.2)
            && first_result(h, r.2) == Some((r.3, r.4)),
    decreases n,
{
    if 0 < n <= h.len() {
        law_recovered_step_completed(h, requirement, schema, n - 1);
    }
}

} // verus!
