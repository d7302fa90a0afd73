//! The checks behind the native-function feedback of Case capability work:
//! which earlier provider results may be shown back to the model, and the
//! recorded outcome each is answered with. The exchange itself is written by
//! the caller from what these checks return.

use vstd::prelude::*;
use crate::seqs::views;
use crate::text::{join2, owned, str_eq};

verus! {

/// What the Case history records, as the feedback reads it.
pub enum CapabilityEvent {
    /// A provider result of the Case, its invocation and its output text.
    ResultRecorded { case_id: String, result_id: String, invocation_id: String, output: String },
    /// A provider invocation of a participant, under a selection where governed.
    InvocationStarted { invocation_id: String, participant_id: String, governed_selection: Option<String> },
    /// A provider selection and the references it was recorded with.
    SelectionRecorded { selection_id: String, causal_refs: Vec<String> },
    /// An operation a participant's provider result requested.
    OperationRecorded { operation_id: String, participant_id: String, provider_result_id: Option<String> },
    /// A terminal outcome of an operation: an observation, a finalised
    /// effect, admitted content, or a denying decision.
    Terminal { operation_id: String, transition_id: String, denied: bool },
    Other,
}

/// The causal reference a selection under the output contract `schema` carries.
pub open spec fn contract_ref(schema: Seq<char>) -> Seq<char> {
    "provider-normalization-contract:"@ + schema
}

/// The causal reference a selection of native function calling carries.
pub open spec fn shape_ref() -> Seq<char> {
    "provider-realization-shape:text_functions_to_text_or_call"@
}

/// Not more than this many results are fed back.
pub const FEEDBACK_MAX_RESULTS: usize = 24;

/// The feedback exchange may not be larger than this many bytes.
pub const FEEDBACK_MAX_BYTES: usize = 262144;

/// No two of the first `n` ids are equal.
pub open spec fn distinct_prefix(ids: Seq<Seq<char>>, n: int) -> bool {
    forall|i: int, j: int| 0 <= i < j < n ==> ids[i] != ids[j]
}

/// The result ids to feed back: at most the bound, none twice.
pub fn feedback_ids_check(result_ids: &Vec<String>) -> (r: Result<(), String>)
    ensures
        result_ids.len() > FEEDBACK_MAX_RESULTS ==> (r matches Err(e) && e@ == "capability_feedback_bound"@),
        result_ids.len() <= FEEDBACK_MAX_RESULTS && !distinct_prefix(views(result_ids@), result_ids.len() as int)
            ==> (r matches Err(e) && e@ == "capability_feedback_duplicate"@),
        result_ids.len() <= FEEDBACK_MAX_RESULTS && distinct_prefix(views(result_ids@), result_ids.len() as int)
            ==> r is Ok,
{
    if result_ids.len() > FEEDBACK_MAX_RESULTS {
        return Err(owned("capability_feedback_bound"));
    }
    let ghost ids = views(result_ids@);
    let mut j: usize = 0;
    while j < result_ids.len()
        invariant
            j <= result_ids.len() <= FEEDBACK_MAX_RESULTS,
            ids == views(result_ids@),
            distinct_prefix(ids, j as int),
        decreases result_ids.len() - j,
    {
        let mut i: usize = 0;
        while i < j
            invariant
                i <= j < result_ids.len() <= FEEDBACK_MAX_RESULTS,
                ids == views(result_ids@),
                forall|m: int| 0 <= m < i ==> ids[m] != ids[j as int],
            decreases j - i,
        {
            if str_eq(result_ids[i].as_str(), result_ids[j].as_str()) {
                assert(!distinct_prefix(ids, result_ids.len() as int)) by {
                    assert(ids[i as int] == ids[j as int]);
                }
                return Err(owned("capability_feedback_duplicate"));
            }
            i += 1;
        }
        assert(distinct_prefix(ids, j + 1));
        j += 1;
    }
    Ok(())
}

/// The first result of the Case with this id: its invocation and output.
pub open spec fn result_of(h: Seq<CapabilityEvent>, case_id: Seq<char>, result_id: Seq<char>) -> Option<(Seq<char>, Seq<char>)>
    decreases h.len(),
{
    if h.len() == 0 {
        None
    } else {
        match h[0] {
            CapabilityEvent::ResultRecorded { case_id: c, result_id: r, invocation_id, output } => if r@ == result_id
                && c@ == case_id {
                Some((invocation_id@, output@))
            } else {
                result_of(h.drop_first(), case_id, result_id)
            },
            _ => result_of(h.drop_first(), case_id, result_id),
        }
    }
}

/// The selection of the first governed start of the invocation by the participant.
pub open spec fn governed_start(h: Seq<CapabilityEvent>, invocation: Seq<char>, participant: Seq<char>) -> Option<Seq<char>>
    decreases h.len(),
{
    if h.len() == 0 {
        None
    } else {
        match h[0] {
            CapabilityEvent::InvocationStarted { invocation_id, participant_id, governed_selection } => if invocation_id@
                == invocation && participant_id@ == participant && governed_selection is Some {
                Some(governed_selection->Some_0@)
            } else {
                governed_start(h.drop_first(), invocation, participant)
            },
            _ => governed_start(h.drop_first(), invocation, participant),
        }
    }
}

pub open spec fn is_native_selection(e: CapabilityEvent, selection: Seq<char>, schema: Seq<char>) -> bool {
    match e {
        CapabilityEvent::SelectionRecorded { selection_id, causal_refs } => selection_id@ == selection && views(
            causal_refs@,
        ).contains(contract_ref(schema)) && views(causal_refs@).contains(shape_ref()),
        _ => false,
    }
}

/// The selection was made for native function calling under the capability
/// output contract `schema`.
pub open spec fn native_selection(h: Seq<CapabilityEvent>, selection: Seq<char>, schema: Seq<char>) -> bool {
    exists|k: int| 0 <= k < h.len() && is_native_selection(#[trigger] h[k], selection, schema)
}

/// A result may be fed back: it is the Case's, the participant's governed
/// invocation produced it under a native selection. Its output, or the
/// first refusal.
pub open spec fn lineage_spec(
    h: Seq<CapabilityEvent>,
    case_id: Seq<char>,
    participant: Seq<char>,
    result_id: Seq<char>,
    schema: Seq<char>,
) -> Result<Seq<char>, Seq<char>> {
    match result_of(h, case_id, result_id) {
        None => Err("capability_feedback_result_not_canonical"@),
        Some((inv, output)) => match governed_start(h, inv, participant) {
            None => Err("capability_feedback_participant_mismatch"@),
            Some(sel) => if !native_selection(h, sel, schema) {
                Err("capability_feedback_native_lineage_required"@)
            } else {
                Ok(output)
            },
        },
    }
}

fn find_result(h: &Vec<CapabilityEvent>, case_id: &str, result_id: &str) -> (r: Option<(String, String)>)
    ensures
        match r {
            Some(p) => result_of(h@, case_id@, result_id@) == Some((p.0@, p.1@)),
            None => result_of(h@, case_id@, result_id@) is None,
        },
{
    let mut i: usize = 0;
    assert(h@.subrange(0, h.len() as int) =~= h@);
    while i < h.len()
        invariant
            i <= h.len(),
            result_of(h@, case_id@, result_id@) == result_of(h@.subrange(i as int, h.len() as int), case_id@, result_id@),
        decreases h.len() - i,
    {
        assert(h@.subrange(i as int, h.len() as int).drop_first() =~= h@.subrange(i + 1, h.len() as int));
        match &h[i] {
            CapabilityEvent::ResultRecorded { case_id: c, result_id: r, invocation_id, output } => {
                if str_eq(r.as_str(), result_id) && str_eq(c.as_str(), case_id) {
                    return Some((invocation_id.clone(), output.clone()));
                }
            },
            _ => {},
        }
        i += 1;
    }
    None
}

fn find_governed_start(h: &Vec<CapabilityEvent>, invocation: &str, participant: &str) -> (r: Option<String>)
    ensures
        match r {
            Some(s) => governed_start(h@, invocation@, participant@) == Some(s@),
            None => governed_start(h@, invocation@, participant@) is None,
        },
{
    let mut i: usize = 0;
    assert(h@.subrange(0, h.len() as int) =~= h@);
    while i < h.len()
        invariant
            i <= h.len(),
            governed_start(h@, invocation@, participant@) == governed_start(
                h@.subrange(i as int, h.len() as int),
                invocation@,
                participant@,
            ),
        decreases h.len() - i,
    {
        assert(h@.subrange(i as int, h.len() as int).drop_first() =~= h@.subrange(i + 1, h.len() as int));
        match &h[i] {
            CapabilityEvent::InvocationStarted { invocation_id, participant_id, governed_selection } => {
                if str_eq(invocation_id.as_str(), invocation) && str_eq(participant_id.as_str(), participant) {
                    match governed_selection {
                        Some(s) => return Some(s.clone()),
                        None => {},
                    }
                }
            },
            _ => {},
        }
        i += 1;
    }
    None
}

fn refs_contain(refs: &Vec<String>, r: &str) -> (b: bool)
    ensures
        b == views(refs@).contains(r@),
{
    let mut i: usize = 0;
    while i < refs.len()
        invariant
            i <= refs.len(),
            forall|j: int| 0 <= j < i ==> (#[trigger] refs@[j])@ != r@,
        decreases refs.len() - i,
    {
        if str_eq(refs[i].as_str(), r) {
            assert(views(refs@)[i as int] == r@);
            return true;
        }
        i += 1;
    }
    proof {
        if views(refs@).contains(r@) {
            let j = choose|j: int| 0 <= j < views(refs@).len() && views(refs@)[j] == r@;
            assert(refs@[j]@ == r@);
        }
    }
    false
}

fn find_native_selection(h: &Vec<CapabilityEvent>, selection: &str, schema: &str) -> (b: bool)
    ensures
        b == native_selection(h@, selection@, schema@),
{
    let contract = join2("provider-normalization-contract:", schema);
    let mut i: usize = 0;
    while i < h.len()
        invariant
            i <= h.len(),
            contract@ == contract_ref(schema@),
            forall|j: int| 0 <= j < i ==> !is_native_selection(#[trigger] h@[j], selection@, schema@),
        decreases h.len() - i,
    {
        match &h[i] {
            CapabilityEvent::SelectionRecorded { selection_id, causal_refs } => {
                if str_eq(selection_id.as_str(), selection) && refs_contain(causal_refs, contract.as_str())
                    && refs_contain(causal_refs, "provider-realization-shape:text_functions_to_text_or_call") {
                    assert(is_native_selection(h@[i as int], selection@, schema@));
                    return true;
                }
            },
            _ => {},
        }
        i += 1;
    }
    false
}

/// The output of a result that may be fed back, or why it may not;
/// `schema` is the capability output contract.
pub fn feedback_lineage(
    history: &Vec<CapabilityEvent>,
    case_id: &str,
    participant_id: &str,
    result_id: &str,
    schema: &str,
) -> (r: Result<String, String>)
    ensures
        match lineage_spec(history@, case_id@, participant_id@, result_id@, schema@) {
            Ok(o) => r matches Ok(x) && x@ == o,
            Err(m) => r matches Err(e) && e@ == m,
        },
{
    let (invocation, output) = match find_result(history, case_id, result_id) {
        Some(p) => p,
        None => return Err(owned("capability_feedback_result_not_canonical")),
    };
    let selection = match find_governed_start(history, invocation.as_str(), participant_id) {
        Some(s) => s,
        None => return Err(owned("capability_feedback_participant_mismatch")),
    };
    if !find_native_selection(history, selection.as_str(), schema) {
        return Err(owned("capability_feedback_native_lineage_required"));
    }
    Ok(output)
}

/// The first operation the participant's result requested.
pub open spec fn operation_of(h: Seq<CapabilityEvent>, participant: Seq<char>, result_id: Seq<char>) -> Option<Seq<char>>
    decreases h.len(),
{
    if h.len() == 0 {
        None
    } else {
        match h[0] {
            CapabilityEvent::OperationRecorded { operation_id, participant_id, provider_result_id } => if participant_id@
                == participant && provider_result_id is Some && provider_result_id->Some_0@ == result_id {
                Some(operation_id@)
            } else {
                operation_of(h.drop_first(), participant, result_id)
            },
            _ => operation_of(h.drop_first(), participant, result_id),
        }
    }
}

/// The last terminal outcome of the operation: its transition and whether it was a denial.
pub open spec fn last_terminal(h: Seq<CapabilityEvent>, operation: Seq<char>) -> Option<(Seq<char>, bool)>
    decreases h.len(),
{
    if h.len() == 0 {
        None
    } else {
        match h.last() {
            CapabilityEvent::Terminal { operation_id, transition_id, denied } => if operation_id@ == operation {
                Some((transition_id@, denied))
            } else {
                last_terminal(h.drop_last(), operation)
            },
            _ => last_terminal(h.drop_last(), operation),
        }
    }
}

/// A resource of the capability view: its attachment and the digest of its
/// access configuration, where it has one.
pub struct ViewResource {
    pub attachment_id: String,
    pub configuration_digest: Option<String>,
}

/// The resource a call named is still visible with the same configuration.
pub open spec fn still_visible(view: Seq<ViewResource>, resource_id: Seq<char>, digest: Seq<char>) -> bool {
    exists|k: int|
        0 <= k < view.len() && (#[trigger] view[k]).attachment_id@ == resource_id && view[k].configuration_digest
            is Some && view[k].configuration_digest->Some_0@ == digest
}

/// How a fed-back call ended: its operation, the transition of its terminal
/// outcome, and whether that was a denial.
pub struct FeedbackOutcome {
    pub operation_id: String,
    pub transition_id: String,
    pub denied: bool,
}

/// The outcome a call of the result is answered with, or the first refusal:
/// no operation; no terminal outcome; a resource no longer visible (unless
/// the call was denied).
pub open spec fn outcome_spec(
    h: Seq<CapabilityEvent>,
    participant: Seq<char>,
    result_id: Seq<char>,
    view: Seq<ViewResource>,
    resource_id: Seq<char>,
    digest: Seq<char>,
) -> Result<(Seq<char>, Seq<char>, bool), Seq<char>> {
    match operation_of(h, participant, result_id) {
        None => Err("capability_feedback_operation_missing"@),
        Some(op) => match last_terminal(h, op) {
            None => Err("capability_feedback_terminal_outcome_missing"@),
            Some((t, denied)) => if !denied && !still_visible(view, resource_id, digest) {
                Err("capability_feedback_resource_no_longer_visible"@)
            } else {
                Ok((op, t, denied))
            },
        },
    }
}

fn find_operation(h: &Vec<CapabilityEvent>, participant: &str, result_id: &str) -> (r: Option<String>)
    ensures
        match r {
            Some(o) => operation_of(h@, participant@, result_id@) == Some(o@),
            None => operation_of(h@, participant@, result_id@) is None,
        },
{
    let mut i: usize = 0;
    assert(h@.subrange(0, h.len() as int) =~= h@);
    while i < h.len()
        invariant
            i <= h.len(),
            operation_of(h@, participant@, result_id@) == operation_of(
                h@.subrange(i as int, h.len() as int),
                participant@,
                result_id@,
            ),
        decreases h.len() - i,
    {
        assert(h@.subrange(i as int, h.len() as int).drop_first() =~= h@.subrange(i + 1, h.len() as int));
        match &h[i] {
            CapabilityEvent::OperationRecorded { operation_id, participant_id, provider_result_id } => {
                if str_eq(participant_id.as_str(), participant) {
                    match provider_result_id {
                        Some(p) => if str_eq(p.as_str(), result_id) {
                            return Some(operation_id.clone());
                        },
                        None => {},
                    }
                }
            },
            _ => {},
        }
        i += 1;
    }
    None
}

fn find_last_terminal(h: &Vec<CapabilityEvent>, operation: &str) -> (r: Option<(String, bool)>)
    ensures
        match r {
            Some(t) => last_terminal(h@, operation@) == Some((t.0@, t.1)),
            None => last_terminal(h@, operation@) is None,
        },
{
    let mut i: usize = h.len();
    assert(h@.subrange(0, h.len() as int) =~= h@);
    while i > 0
        invariant
            i <= h.len(),
            last_terminal(h@, operation@) == last_terminal(h@.subrange(0, i as int), operation@),
        decreases i,
    {
        assert(h@.subrange(0, i as int).drop_last() =~= h@.subrange(0, i - 1));
        match &h[i - 1] {
            CapabilityEvent::Terminal { operation_id, transition_id, denied } => {
                if str_eq(operation_id.as_str(), operation) {
                    return Some((transition_id.clone(), *denied));
                }
            },
            _ => {},
        }
        i -= 1;
    }
    None
}

fn resource_visible(view: &Vec<ViewResource>, resource_id: &str, digest: &str) -> (b: bool)
    ensures
        b == still_visible(view@, resource_id@, digest@),
{
    let mut k: usize = 0;
    while k < view.len()
        invariant
            k <= view.len(),
            forall|j: int|
                0 <= j < k ==> !((#[trigger] view@[j]).attachment_id@ == resource_id@ && view@[j].configuration_digest
                    is Some && view@[j].configuration_digest->Some_0@ == digest@),
        decreases view.len() - k,
    {
        if str_eq(view[k].attachment_id.as_str(), resource_id) {
            match &view[k].configuration_digest {
                Some(d) => if str_eq(d.as_str(), digest) {
                    return true;
                },
                None => {},
            }
        }
        k += 1;
    }
    false
}

/// The recorded outcome a fed-back call is answered with.
pub fn feedback_outcome(
    history: &Vec<CapabilityEvent>,
    participant_id: &str,
    result_id: &str,
    view: &Vec<ViewResource>,
    resource_id: &str,
    configuration_digest: &str,
) -> (r: Result<FeedbackOutcome, String>)
    ensures
        match outcome_spec(history@, participant_id@, result_id@, view@, resource_id@, configuration_digest@) {
            Ok((op, t, denied)) => r matches Ok(o) && o.operation_id@ == op && o.transition_id@ == t && o.denied == denied,
            Err(m) => r matches Err(e) && e@ == m,
        },
{
    let operation_id = match find_operation(history, participant_id, result_id) {
        Some(o) => o,
        None => return Err(owned("capability_feedback_operation_missing")),
    };
    let (transition_id, denied) = match find_last_terminal(history, operation_id.as_str()) {
        Some(t) => t,
        None => return Err(owned("capability_feedback_terminal_outcome_missing")),
    };
    if !denied && !resource_visible(view, resource_id, configuration_digest) {
        return Err(owned("capability_feedback_resource_no_longer_visible"));
    }
    Ok(FeedbackOutcome { operation_id, transition_id, denied })
}

/// The call a capability output requests, as its output was decoded: the
/// provider's call id and function name, and the resource with the
/// configuration it was offered under.
pub struct DecodedCall {
    pub call_id: String,
    pub function_name: String,
    pub resource_id: String,
    pub configuration_digest: String,
}

/// A result's output decoded as a capability output: its schema and the
/// call it requests, where it requests one.
pub struct DecodedOutput {
    pub schema: String,
    pub call: Option<DecodedCall>,
}

/// One call fed back to the model and its answer: the assistant message
/// carries the call under `call_id` and `function_name`, and the tool
/// message answering it carries the same `call_id`, the provider result,
/// the operation and the terminal transition, denied or recorded.
pub struct FeedbackEntry {
    pub result_id: String,
    pub call_id: String,
    pub function_name: String,
    pub operation_id: String,
    pub transition_id: String,
    pub denied: bool,
}

/// A fed-back call as plain values: result id, call id, function name,
/// operation id, transition id and whether it was denied.
pub type EntryV = (Seq<char>, Seq<char>, Seq<char>, Seq<char>, Seq<char>, bool);

pub open spec fn entry_view(e: FeedbackEntry) -> EntryV {
    (e.result_id@, e.call_id@, e.function_name@, e.operation_id@, e.transition_id@, e.denied)
}

pub open spec fn entry_views(es: Seq<FeedbackEntry>) -> Seq<EntryV> {
    es.map_values(|e: FeedbackEntry| entry_view(e))
}

/// The fed-back call of the result `result_id`, whose output was decoded as
/// `decoded` (none where it is no capability output), or the first
/// refusal: its lineage, the output, its schema, the call it requests, then
/// the operation and terminal outcome that answer it.
pub open spec fn entry_spec(
    h: Seq<CapabilityEvent>,
    case_id: Seq<char>,
    participant: Seq<char>,
    view: Seq<ViewResource>,
    schema: Seq<char>,
    result_id: Seq<char>,
    decoded: Option<DecodedOutput>,
) -> Result<EntryV, Seq<char>> {
    match lineage_spec(h, case_id, participant, result_id, schema) {
        Err(e) => Err(e),
        Ok(_) => match decoded {
            None => Err("capability_feedback_output_invalid"@),
            Some(d) => if d.schema@ != schema {
                Err("capability_feedback_schema_invalid"@)
            } else {
                match d.call {
                    None => Err("capability_feedback_request_missing"@),
                    Some(c) => match outcome_spec(h, participant, result_id, view, c.resource_id@, c.configuration_digest@) {
                        Err(e) => Err(e),
                        Ok((op, t, denied)) => Ok((result_id, c.call_id@, c.function_name@, op, t, denied)),
                    },
                }
            },
        },
    }
}

/// Some id before position `n` equals the one at `n`.
pub open spec fn repeats_earlier(ids: Seq<Seq<char>>, n: int) -> bool {
    exists|j: int| 0 <= j < n && ids[j] == ids[n]
}

/// The calls fed back for the first `n` result ids, in order, or the first
/// refusal: an id seen before, or the refusal of its call.
pub open spec fn feedback_prefix(
    h: Seq<CapabilityEvent>,
    case_id: Seq<char>,
    participant: Seq<char>,
    view: Seq<ViewResource>,
    schema: Seq<char>,
    ids: Seq<Seq<char>>,
    decoded: Seq<Option<DecodedOutput>>,
    n: int,
) -> Result<Seq<EntryV>, Seq<char>>
    decreases n,
{
    if n <= 0 {
        Ok(Seq::empty())
    } else {
        match feedback_prefix(h, case_id, participant, view, schema, ids, decoded, n - 1) {
            Err(e) => Err(e),
            Ok(es) => if repeats_earlier(ids, n - 1) {
                Err("capability_feedback_duplicate"@)
            } else {
                match entry_spec(h, case_id, participant, view, schema, ids[n - 1], decoded[n - 1]) {
                    Err(e) => Err(e),
                    Ok(en) => Ok(es.push(en)),
                }
            },
        }
    }
}

/// The calls fed back for the result ids, or the refusal: more ids than the
/// bound, or the first refusal in their order.
pub open spec fn feedback_spec(
    h: Seq<CapabilityEvent>,
    case_id: Seq<char>,
    participant: Seq<char>,
    view: Seq<ViewResource>,
    schema: Seq<char>,
    ids: Seq<Seq<char>>,
    decoded: Seq<Option<DecodedOutput>>,
) -> Result<Seq<EntryV>, Seq<char>> {
    if ids.len() > FEEDBACK_MAX_RESULTS {
        Err("capability_feedback_bound"@)
    } else {
        feedback_prefix(h, case_id, participant, view, schema, ids, decoded, ids.len() as int)
    }
}

fn copy_string(s: &String) -> (out: String)
    ensures
        out@ == s@,
{
    crate::text::owned(s.as_str())
}

proof fn lemma_prefix_err(
    h: Seq<CapabilityEvent>,
    case_id: Seq<char>,
    participant: Seq<char>,
    view: Seq<ViewResource>,
    schema: Seq<char>,
    ids: Seq<Seq<char>>,
    decoded: Seq<Option<DecodedOutput>>,
    k: int,
    m: int,
)
    requires
        0 <= k <= m,
        feedback_prefix(h, case_id, participant, view, schema, ids, decoded, k) is Err,
    ensures
        feedback_prefix(h, case_id, participant, view, schema, ids, decoded, m) == feedback_prefix(
            h,
            case_id,
            participant,
            view,
            schema,
            ids,
            decoded,
            k,
        ),
    decreases m,
{
    if m > k {
        lemma_prefix_err(h, case_id, participant, view, schema, ids, decoded, k, m - 1);
    }
}

fn feedback_entry_step(
    history: &Vec<CapabilityEvent>,
    case_id: &str,
    participant_id: &str,
    view: &Vec<ViewResource>,
    schema: &str,
    result_id: &str,
    decoded: &Option<DecodedOutput>,
) -> (r: Result<(String, String, FeedbackOutcome), String>)
    ensures
        match r {
            Ok((c, f, o)) => entry_spec(history@, case_id@, participant_id@, view@, schema@, result_id@, *decoded)
                == Ok::<EntryV, Seq<char>>((result_id@, c@, f@, o.operation_id@, o.transition_id@, o.denied)),
            Err(e) => entry_spec(history@, case_id@, participant_id@, view@, schema@, result_id@, *decoded)
                == Err::<EntryV, Seq<char>>(e@),
        },
{
    let _output = feedback_lineage(history, case_id, participant_id, result_id, schema)?;
    let d = match decoded {
        None => return Err(owned("capability_feedback_output_invalid")),
        Some(d) => d,
    };
    if !str_eq(d.schema.as_str(), schema) {
        return Err(owned("capability_feedback_schema_invalid"));
    }
    let c = match &d.call {
        None => return Err(owned("capability_feedback_request_missing")),
        Some(c) => c,
    };
    let o = feedback_outcome(history, participant_id, result_id, view, c.resource_id.as_str(), c.configuration_digest.as_str())?;
    Ok((copy_string(&c.call_id), copy_string(&c.function_name), o))
}

/// The calls to feed back to the model for `result_ids`, whose outputs the
/// caller decoded as `decoded`, position by position; each becomes an
/// assistant message with its call and the tool message answering it.
pub fn feedback_entries(
    history: &Vec<CapabilityEvent>,
    case_id: &str,
    participant_id: &str,
    view: &Vec<ViewResource>,
    schema: &str,
    result_ids: &Vec<String>,
    decoded: &Vec<Option<DecodedOutput>>,
) -> (r: Result<Vec<FeedbackEntry>, String>)
    requires
        decoded.len() == result_ids.len(),
    ensures
        match r {
            Ok(es) => feedback_spec(history@, case_id@, participant_id@, view@, schema@, views(result_ids@), decoded@) == Ok::<Seq<EntryV>, Seq<char>>(entry_views(es@)),
            Err(e) => feedback_spec(history@, case_id@, participant_id@, view@, schema@, views(result_ids@), decoded@) == Err::<Seq<EntryV>, Seq<char>>(e@),
        },
{
    if result_ids.len() > FEEDBACK_MAX_RESULTS {
        return Err(owned("capability_feedback_bound"));
    }
    let ghost ids = views(result_ids@);
    let mut out: Vec<FeedbackEntry> = Vec::new();
    assert(entry_views(out@) =~= Seq::<EntryV>::empty());
    let mut n: usize = 0;
    while n < result_ids.len()
        invariant
            n <= result_ids.len() <= FEEDBACK_MAX_RESULTS,
            decoded.len() == result_ids.len(),
            ids == views(result_ids@),
            feedback_prefix(history@, case_id@, participant_id@, view@, schema@, ids, decoded@, n as int)
                == Ok::<Seq<EntryV>, Seq<char>>(entry_views(out@)),
        decreases result_ids.len() - n,
    {
        let mut i: usize = 0;
        while i < n
            invariant
                i <= n < result_ids.len() <= FEEDBACK_MAX_RESULTS,
                decoded.len() == result_ids.len(),
                ids == views(result_ids@),
                forall|m: int| 0 <= m < i ==> ids[m] != ids[n as int],
                feedback_prefix(history@, case_id@, participant_id@, view@, schema@, ids, decoded@, n as int)
                    == Ok::<Seq<EntryV>, Seq<char>>(entry_views(out@)),
            decreases n - i,
        {
            if str_eq(result_ids[i].as_str(), result_ids[n].as_str()) {
                assert(repeats_earlier(ids, n as int)) by {
                    assert(ids[i as int] == ids[n as int]);
                }
                proof {
                    reveal_strlit("capability_feedback_duplicate");
                    assert(feedback_prefix(history@, case_id@, participant_id@, view@, schema@, ids, decoded@, n + 1)
                        == Err::<Seq<EntryV>, Seq<char>>("capability_feedback_duplicate"@));
                    lemma_prefix_err(history@, case_id@, participant_id@, view@, schema@, ids, decoded@, n + 1, ids.len() as int);
                }
                return Err(owned("capability_feedback_duplicate"));
            }
            i += 1;
        }
        assert(!repeats_earlier(ids, n as int));
        let rid = result_ids[n].as_str();
        let step = feedback_entry_step(history, case_id, participant_id, view, schema, rid, &decoded[n]);
        let (c_id, f_name, o) = match step {
            Err(e) => {
                proof {
                    lemma_prefix_err(history@, case_id@, participant_id@, view@, schema@, ids, decoded@, n + 1, ids.len() as int);
                }
                return Err(e);
            },
            Ok(t) => t,
        };
        let ghost before = entry_views(out@);
        let entry = FeedbackEntry {
            result_id: copy_string(&result_ids[n]),
            call_id: c_id,
            function_name: f_name,
            operation_id: o.operation_id,
            transition_id: o.transition_id,
            denied: o.denied,
        };
        out.push(entry);
        assert(entry_views(out@) =~= before.push(entry_view(entry)));
        n += 1;
    }
    assert(ids.len() == result_ids.len());
    Ok(out)
}

proof fn lemma_feedback_prefix(
    h: Seq<CapabilityEvent>,
    case_id: Seq<char>,
    participant: Seq<char>,
    view: Seq<ViewResource>,
    schema: Seq<char>,
    ids: Seq<Seq<char>>,
    decoded: Seq<Option<DecodedOutput>>,
    n: int,
)
    requires
        0 <= n <= ids.len(),
    ensures
        feedback_prefix(h, case_id, participant, view, schema, ids, decoded, n) matches Ok(es) ==> es.len() == n
            && distinct_prefix(ids, n) && forall|k: int| 0 <= k < n ==> (#[trigger] es[k]).0 == ids[k],
    decreases n,
{
    if n > 0 {
        lemma_feedback_prefix(h, case_id, participant, view, schema, ids, decoded, n - 1);
        if feedback_prefix(h, case_id, participant, view, schema, ids, decoded, n) is Ok {
            let es = feedback_prefix(h, case_id, participant, view, schema, ids, decoded, n)->Ok_0;
            let prev = feedback_prefix(h, case_id, participant, view, schema, ids, decoded, n - 1)->Ok_0;
            assert(es == prev.push(es[n - 1]));
            assert forall|i: int, j: int| 0 <= i < j < n implies ids[i] != ids[j] by {
                if j == n - 1 && ids[i] == ids[j] {
                    assert(repeats_earlier(ids, n - 1));
                }
            }
            assert forall|k: int| 0 <= k < n implies (#[trigger] es[k]).0 == ids[k] by {
                if k < n - 1 {
                    assert(es[k] == prev[k]);
                }
            }
        }
    }
}

/// The feedback is refused with `capability_feedback_bound` over 24 ids;
/// where it is given, it holds one fed-back call per id, in order, no id
/// twice, each answered by a tool message under the call's own id.
pub proof fn law_feedback_assembled(
    h: Seq<CapabilityEvent>,
    case_id: Seq<char>,
    participant: Seq<char>,
    view: Seq<ViewResource>,
    schema: Seq<char>,
    ids: Seq<Seq<char>>,
    decoded: Seq<Option<DecodedOutput>>,
)
    ensures
        ids.len() > FEEDBACK_MAX_RESULTS ==> feedback_spec(h, case_id, participant, view, schema, ids, decoded)
            == Err::<Seq<EntryV>, Seq<char>>("capability_feedback_bound"@),
        feedback_spec(h, case_id, participant, view, schema, ids, decoded) matches Ok(es) ==> es.len()
            == ids.len() && ids.len() <= FEEDBACK_MAX_RESULTS && distinct_prefix(ids, ids.len() as int)
            && forall|k: int| 0 <= k < ids.len() ==> (#[trigger] es[k]).0 == ids[k],
{
    if ids.len() <= FEEDBACK_MAX_RESULTS {
        lemma_feedback_prefix(h, case_id, participant, view, schema, ids, decoded, ids.len() as int);
    }
}

/// The posture the answer to a call reports.
pub fn feedback_posture(denied: bool) -> (p: &'static str)
    ensures
        p@ == if denied { "denied"@ } else { "recorded_outcome"@ },
{
    if denied { "denied" } else { "recorded_outcome" }
}

/// The written exchange must stay within its byte bound.
pub fn feedback_size_check(exchange_bytes: usize) -> (r: Result<(), String>)
    ensures
        exchange_bytes > FEEDBACK_MAX_BYTES ==> (r matches Err(e) && e@ == "capability_feedback_bytes_exceeded"@),
        exchange_bytes <= FEEDBACK_MAX_BYTES ==> r is Ok,
{
    if exchange_bytes > FEEDBACK_MAX_BYTES {
        Err(owned("capability_feedback_bytes_exceeded"))
    } else {
        Ok(())
    }
}

} // verus!
