//! Decisions of the Case conversation host around provider work: whether a
//! turn may be executed again, which path executes it, the posture an error
//! leaves it in, the bounds of finite Case work, and the checks of a
//! provider connection. The record store and the provider stay with the
//! caller, which reports what they gave.

use vstd::prelude::*;
use crate::presentation::{has_prefix, ExecutionPosture};
use crate::seqs::views;
use crate::text::{chars_of, contains_spec, contains_str, owned, starts_with, str_eq, utf8_len, utf8_width};

verus! {

/// What the Case history records about provider work, as far as the
/// execution of a turn reads it.
pub enum TurnHistoryEntry {
    /// A provider invocation started, under a selection where governed,
    /// with the references it was caused by.
    InvocationStarted { invocation_id: String, governed_selection: Option<String>, causal_refs: Vec<String> },
    /// A provider result of the invocation was recorded.
    ResultRecorded { invocation_id: String },
    /// The outcome of an attempt under the selection, and whether a retry is safe.
    AttemptOutcome { selection_id: String, retry_safe: bool },
    Other,
}

pub open spec fn is_result_of(e: TurnHistoryEntry, invocation: Seq<char>) -> bool {
    match e {
        TurnHistoryEntry::ResultRecorded { invocation_id } => invocation_id@ == invocation,
        _ => false,
    }
}

pub open spec fn is_retry_safe_for(e: TurnHistoryEntry, selection: Seq<char>) -> bool {
    match e {
        TurnHistoryEntry::AttemptOutcome { selection_id, retry_safe } => retry_safe && selection_id@ == selection,
        _ => false,
    }
}

/// A result of the invocation is recorded.
pub open spec fn has_result(h: Seq<TurnHistoryEntry>, invocation: Seq<char>) -> bool {
    exists|k: int| 0 <= k < h.len() && is_result_of(#[trigger] h[k], invocation)
}

/// An outcome under the selection says a retry is safe.
pub open spec fn has_retry_safe(h: Seq<TurnHistoryEntry>, selection: Seq<char>) -> bool {
    exists|k: int| 0 <= k < h.len() && is_retry_safe_for(#[trigger] h[k], selection)
}

/// An invocation caused by the turn that may have delivered: no result is
/// recorded and no outcome says a retry is safe.
pub open spec fn unsafe_start(h: Seq<TurnHistoryEntry>, e: TurnHistoryEntry, turn_id: Seq<char>) -> bool {
    match e {
        TurnHistoryEntry::InvocationStarted { invocation_id, governed_selection, causal_refs } => {
            &&& views(causal_refs@).contains(turn_id)
            &&& !has_result(h, invocation_id@)
            &&& !(match governed_selection {
                Some(s) => has_retry_safe(h, s@),
                None => false,
            })
        },
        _ => false,
    }
}

/// Some earlier work on the turn may have been delivered.
pub open spec fn prior_unsafe_spec(h: Seq<TurnHistoryEntry>, turn_id: Seq<char>) -> bool {
    exists|k: int| 0 <= k < h.len() && unsafe_start(h, #[trigger] h[k], turn_id)
}

fn refs_contain(refs: &Vec<String>, r: &str) -> (b: bool)
    ensures
        b == views(refs@).contains(r@),
{
    let mut i: usize = 0;
    while i < refs.len()
        invariant
            i <= refs.len(),
            forall|j: int| 0 <= j < i ==> (#[trigger] refs@[j])@ != r@,
        decreases refs.len() - i,
    {
        if str_eq(refs[i].as_str(), r) {
            assert(views(refs@)[i as int] == r@);
            return true;
        }
        i += 1;
    }
    proof {
        if views(refs@).contains(r@) {
            let j = choose|j: int| 0 <= j < views(refs@).len() && views(refs@)[j] == r@;
            assert(refs@[j]@ == r@);
        }
    }
    false
}

fn result_recorded(h: &Vec<TurnHistoryEntry>, invocation: &str) -> (b: bool)
    ensures
        b == has_result(h@, invocation@),
{
    let mut i: usize = 0;
    while i < h.len()
        invariant
            i <= h.len(),
            forall|j: int| 0 <= j < i ==> !is_result_of(#[trigger] h@[j], invocation@),
        decreases h.len() - i,
    {
        match &h[i] {
            TurnHistoryEntry::ResultRecorded { invocation_id } => {
                if str_eq(invocation_id.as_str(), invocation) {
                    assert(is_result_of(h@[i as int], invocation@));
                    return true;
                }
            },
            _ => {},
        }
        i += 1;
    }
    false
}

fn retry_safe_recorded(h: &Vec<TurnHistoryEntry>, selection: &str) -> (b: bool)
    ensures
        b == has_retry_safe(h@, selection@),
{
    let mut i: usize = 0;
    while i < h.len()
        invariant
            i <= h.len(),
            forall|j: int| 0 <= j < i ==> !is_retry_safe_for(#[trigger] h@[j], selection@),
        decreases h.len() - i,
    {
        match &h[i] {
            TurnHistoryEntry::AttemptOutcome { selection_id, retry_safe } => {
                if *retry_safe && str_eq(selection_id.as_str(), selection) {
                    assert(is_retry_safe_for(h@[i as int], selection@));
                    return true;
                }
            },
            _ => {},
        }
        i += 1;
    }
    false
}

/// Whether work on the turn may already have been delivered, so that it
/// must not run again before that is resolved.
pub fn prior_delivery_unsafe(history: &Vec<TurnHistoryEntry>, turn_id: &str) -> (r: bool)
    ensures
        r == prior_unsafe_spec(history@, turn_id@),
{
    let mut k: usize = 0;
    while k < history.len()
        invariant
            k <= history.len(),
            forall|j: int| 0 <= j < k ==> !unsafe_start(history@, #[trigger] history@[j], turn_id@),
        decreases history.len() - k,
    {
        match &history[k] {
            TurnHistoryEntry::InvocationStarted { invocation_id, governed_selection, causal_refs } => {
                if refs_contain(causal_refs, turn_id) && !result_recorded(history, invocation_id.as_str()) {
                    let safe = match governed_selection {
                        Some(s) => retry_safe_recorded(history, s.as_str()),
                        None => false,
                    };
                    if !safe {
                        assert(unsafe_start(history@, history@[k as int], turn_id@));
                        return true;
                    }
                }
            },
            _ => {},
        }
        k += 1;
    }
    false
}

/// The path a turn is executed by.
#[derive(Clone, Copy, Debug, PartialEq, Eq, Structural)]
pub enum ExecutionRoute {
    /// Finite Case work within the intent's limits.
    Work,
    /// One node of the intent's workflow.
    Workflow,
    /// A single composition of the primary conversation capability.
    Composition,
    /// Refused: earlier delivery must be resolved first.
    PriorDeliveryUnresolved,
}

/// Work where the intent has limits and nothing may have been delivered;
/// else a refusal where something may have been; else the intent's
/// workflow; else a plain composition.
pub open spec fn route_spec(prior_unsafe: bool, has_work_limits: bool, has_workflow: bool) -> ExecutionRoute {
    if !prior_unsafe && has_work_limits {
        ExecutionRoute::Work
    } else if prior_unsafe {
        ExecutionRoute::PriorDeliveryUnresolved
    } else if has_workflow {
        ExecutionRoute::Workflow
    } else {
        ExecutionRoute::Composition
    }
}

/// The path the turn is executed by.
pub fn execution_route(prior_unsafe: bool, has_work_limits: bool, has_workflow: bool) -> (r: ExecutionRoute)
    ensures
        r == route_spec(prior_unsafe, has_work_limits, has_workflow),
{
    if !prior_unsafe && has_work_limits {
        ExecutionRoute::Work
    } else if prior_unsafe {
        ExecutionRoute::PriorDeliveryUnresolved
    } else if has_workflow {
        ExecutionRoute::Workflow
    } else {
        ExecutionRoute::Composition
    }
}

/// A turn on which an earlier delivery may have happened is never executed
/// again, whatever its intent asks: it is refused until that delivery is
/// resolved. Otherwise an intent with work limits runs as Case work, one
/// with a workflow runs its workflow, and any other is a plain composition.
pub proof fn law_route_refuses_unresolved_delivery(prior_unsafe: bool, has_work_limits: bool, has_workflow: bool)
    ensures
        prior_unsafe ==> route_spec(prior_unsafe, has_work_limits, has_workflow) == ExecutionRoute::PriorDeliveryUnresolved,
        !prior_unsafe && has_work_limits ==> route_spec(prior_unsafe, has_work_limits, has_workflow) == ExecutionRoute::Work,
        !prior_unsafe && !has_work_limits && has_workflow ==> route_spec(prior_unsafe, has_work_limits, has_workflow)
            == ExecutionRoute::Workflow,
        !prior_unsafe && !has_work_limits && !has_workflow ==> route_spec(prior_unsafe, has_work_limits, has_workflow)
            == ExecutionRoute::Composition,
        (route_spec(prior_unsafe, has_work_limits, has_workflow) == ExecutionRoute::PriorDeliveryUnresolved) == prior_unsafe,
{
}

/// The error of a refused route.
pub fn prior_delivery_error() -> (e: String)
    ensures
        e@ == "conversation_prior_delivery_indeterminate_requires_resolution"@,
{
    owned("conversation_prior_delivery_indeterminate_requires_resolution")
}

/// The posture a failed Case work or workflow run leaves the turn in.
pub open spec fn work_error_posture_spec(error: Seq<char>) -> ExecutionPosture {
    if contains_spec(error, "indeterminate"@) {
        ExecutionPosture::DeliveryIndeterminate
    } else if contains_spec(error, "cancelled_before_dispatch"@) {
        ExecutionPosture::CancelledBeforeDispatch
    } else {
        ExecutionPosture::Unresolved
    }
}

/// The posture of a turn whose Case work or workflow failed with `error`.
pub fn work_error_posture(error: &str) -> (p: ExecutionPosture)
    ensures
        p == work_error_posture_spec(error@),
{
    if contains_str(error, "indeterminate") {
        ExecutionPosture::DeliveryIndeterminate
    } else if contains_str(error, "cancelled_before_dispatch") {
        ExecutionPosture::CancelledBeforeDispatch
    } else {
        ExecutionPosture::Unresolved
    }
}

/// The posture a failed composition leaves the turn in; without any
/// cognitive binding the provider is unavailable.
pub open spec fn turn_error_posture_spec(error: Seq<char>, has_bindings: bool) -> ExecutionPosture {
    if contains_spec(error, "cancelled_before_dispatch"@) {
        ExecutionPosture::CancelledBeforeDispatch
    } else if contains_spec(error, "delivery_indeterminate"@) || contains_spec(error, "DeliveryIndeterminate"@) {
        ExecutionPosture::DeliveryIndeterminate
    } else if contains_spec(error, "cognitive_realization_failed"@) || contains_spec(error, "derived_text_invalid"@) {
        ExecutionPosture::ProviderFailed
    } else if !has_bindings {
        ExecutionPosture::ProviderUnavailable
    } else {
        ExecutionPosture::Unresolved
    }
}

/// The posture of a turn whose composition failed with `error`.
pub fn turn_error_posture(error: &str, has_bindings: bool) -> (p: ExecutionPosture)
    ensures
        p == turn_error_posture_spec(error@, has_bindings),
{
    if contains_str(error, "cancelled_before_dispatch") {
        ExecutionPosture::CancelledBeforeDispatch
    } else if contains_str(error, "delivery_indeterminate") || contains_str(error, "DeliveryIndeterminate") {
        ExecutionPosture::DeliveryIndeterminate
    } else if contains_str(error, "cognitive_realization_failed") || contains_str(error, "derived_text_invalid") {
        ExecutionPosture::ProviderFailed
    } else if !has_bindings {
        ExecutionPosture::ProviderUnavailable
    } else {
        ExecutionPosture::Unresolved
    }
}

/// The bounds of finite Case work: provider invocations, operations and
/// external effects.
pub struct WorkLimits {
    pub invocations: u16,
    pub operations: u16,
    pub effects: u16,
}

/// The invocation budget of the request is spent.
pub fn invocation_budget_spent(invocation_count: usize, limits: &WorkLimits) -> (r: bool)
    ensures
        r == (invocation_count >= limits.invocations),
{
    invocation_count >= limits.invocations as usize
}

/// What follows a provider step of Case work.
#[derive(Clone, Copy, Debug, PartialEq, Eq, Structural)]
pub enum StepDecision {
    /// The provider answered in text: the work is completed.
    Complete,
    /// The provider asked for an operation beyond the limits: the work stops.
    Stop,
    /// The requested operation is recorded and advanced.
    Dispatch,
}

/// The step `ordinal`, after `effects` external effects, that did or did
/// not request an operation (an external effect or not).
pub open spec fn step_decision_spec(ordinal: int, effects: int, limits: WorkLimits, has_request: bool, is_effect: bool) -> StepDecision {
    if !has_request {
        StepDecision::Complete
    } else if ordinal >= limits.operations || (is_effect && effects >= limits.effects) {
        StepDecision::Stop
    } else {
        StepDecision::Dispatch
    }
}

/// What follows a provider step; an operation is dispatched only within
/// the operation and effect limits.
pub fn step_decision(ordinal: u16, effects: u16, limits: &WorkLimits, has_request: bool, is_effect: bool) -> (d: StepDecision)
    ensures
        d == step_decision_spec(ordinal as int, effects as int, *limits, has_request, is_effect),
        d == StepDecision::Dispatch ==> ordinal < limits.operations && (is_effect ==> effects < limits.effects),
{
    if !has_request {
        StepDecision::Complete
    } else if ordinal >= limits.operations || (is_effect && effects >= limits.effects) {
        StepDecision::Stop
    } else {
        StepDecision::Dispatch
    }
}

/// The count of external effects after a dispatched operation; it stays
/// within the limit.
pub fn effects_after_dispatch(effects: u16, is_effect: bool, limits: &WorkLimits) -> (n: u16)
    requires
        effects <= limits.effects,
        is_effect ==> effects < limits.effects,
    ensures
        n == effects + if is_effect { 1int } else { 0int },
        n <= limits.effects,
{
    if is_effect {
        effects + 1
    } else {
        effects
    }
}

/// How an advanced operation ended, as the work reads it.
#[derive(Clone, Copy, Debug, PartialEq, Eq, Structural)]
pub enum OperationOutcome {
    AwaitingReview,
    Indeterminate,
    /// The resource action is unsupported, or the write's normalisation was rejected.
    Rejected,
    /// Any other outcome: the work goes on.
    Settled,
}

/// The posture an operation outcome stops the work in, if it does.
pub open spec fn outcome_posture_spec(o: OperationOutcome) -> Option<ExecutionPosture> {
    match o {
        OperationOutcome::AwaitingReview => Some(ExecutionPosture::AwaitingReview),
        OperationOutcome::Indeterminate => Some(ExecutionPosture::DeliveryIndeterminate),
        OperationOutcome::Rejected => Some(ExecutionPosture::Unresolved),
        OperationOutcome::Settled => None,
    }
}

/// The posture an operation outcome stops the work in, if it does.
pub fn outcome_posture(o: OperationOutcome) -> (p: Option<ExecutionPosture>)
    ensures
        p == outcome_posture_spec(o),
{
    match o {
        OperationOutcome::AwaitingReview => Some(ExecutionPosture::AwaitingReview),
        OperationOutcome::Indeterminate => Some(ExecutionPosture::DeliveryIndeterminate),
        OperationOutcome::Rejected => Some(ExecutionPosture::Unresolved),
        OperationOutcome::Settled => None,
    }
}

/// The limits of a work request; a request without them is no Case work.
pub fn work_limits_required(limits: Option<WorkLimits>) -> (r: Result<WorkLimits, String>)
    ensures
        match limits {
            Some(l) => r == Ok::<WorkLimits, String>(l),
            None => r matches Err(e) && e@ == "case_work_intent_required"@,
        },
{
    match limits {
        Some(l) => Ok(l),
        None => Err(owned("case_work_intent_required")),
    }
}

/// What follows a provider step of Case work, from its output: the schema
/// the output was decoded under (none where it is no capability output),
/// then the step decision.
pub open spec fn work_output_spec(
    output_schema: Option<Seq<char>>,
    expected_schema: Seq<char>,
    ordinal: int,
    effects: int,
    limits: WorkLimits,
    has_request: bool,
    is_effect: bool,
) -> Result<StepDecision, Seq<char>> {
    match output_schema {
        None => Err("case_work_output_invalid"@),
        Some(s) => if s != expected_schema {
            Err("case_work_output_contract_mismatch"@)
        } else {
            Ok(step_decision_spec(ordinal, effects, limits, has_request, is_effect))
        },
    }
}

/// What follows a provider step of Case work, from its output.
pub fn work_output_step(
    output_schema: Option<&str>,
    expected_schema: &str,
    ordinal: u16,
    effects: u16,
    limits: &WorkLimits,
    has_request: bool,
    is_effect: bool,
) -> (r: Result<StepDecision, String>)
    ensures
        match r {
            Ok(d) => work_output_spec(
                match output_schema { Some(s) => Some(s@), None => None },
                expected_schema@, ordinal as int, effects as int, *limits, has_request, is_effect,
            ) == Ok::<StepDecision, Seq<char>>(d),
            Err(e) => work_output_spec(
                match output_schema { Some(s) => Some(s@), None => None },
                expected_schema@, ordinal as int, effects as int, *limits, has_request, is_effect,
            ) == Err::<StepDecision, Seq<char>>(e@),
        },
{
    match output_schema {
        None => Err(owned("case_work_output_invalid")),
        Some(s) => if !str_eq(s, expected_schema) {
            Err(owned("case_work_output_contract_mismatch"))
        } else {
            Ok(step_decision(ordinal, effects, limits, has_request, is_effect))
        },
    }
}

/// An operation the work advanced: a resource access or a filesystem
/// write, with how it ended, or an operation of another kind.
pub enum AdvancedOperation {
    ResourceAccess(OperationOutcome),
    FilesystemWrite(OperationOutcome),
    Unsupported,
}

/// What follows a dispatched operation: the posture the work stops in, if
/// it stops, or the refusal. Cancellation before the dispatch, an operation
/// of another kind, and the failpoint after a capability outcome are
/// refusals.
pub open spec fn work_operation_spec(cancelled: bool, op: AdvancedOperation, failpoint: Option<Seq<char>>) -> Result<
    Option<ExecutionPosture>,
    Seq<char>,
> {
    if cancelled {
        Err("conversation_cancelled_before_dispatch"@)
    } else {
        match op {
            AdvancedOperation::Unsupported => Err("case_work_operation_kind_not_supported"@),
            AdvancedOperation::ResourceAccess(o) | AdvancedOperation::FilesystemWrite(o) => match outcome_posture_spec(o) {
                Some(p) => Ok(Some(p)),
                None => if failpoint == Some("after-capability-outcome"@) {
                    Err("case_work_failpoint_after_capability_outcome"@)
                } else {
                    Ok(None)
                },
            },
        }
    }
}

/// What follows a dispatched operation of Case work.
pub fn work_operation_step(cancelled: bool, op: AdvancedOperation, failpoint: Option<&str>) -> (r: Result<Option<ExecutionPosture>, String>)
    ensures
        match r {
            Ok(p) => work_operation_spec(cancelled, op, match failpoint { Some(f) => Some(f@), None => None })
                == Ok::<Option<ExecutionPosture>, Seq<char>>(p),
            Err(e) => work_operation_spec(cancelled, op, match failpoint { Some(f) => Some(f@), None => None })
                == Err::<Option<ExecutionPosture>, Seq<char>>(e@),
        },
{
    if cancelled {
        return Err(owned("conversation_cancelled_before_dispatch"));
    }
    let o = match op {
        AdvancedOperation::Unsupported => return Err(owned("case_work_operation_kind_not_supported")),
        AdvancedOperation::ResourceAccess(o) => o,
        AdvancedOperation::FilesystemWrite(o) => o,
    };
    match outcome_posture(o) {
        Some(p) => Ok(Some(p)),
        None => {
            let hit = match failpoint {
                Some(f) => str_eq(f, "after-capability-outcome"),
                None => false,
            };
            if hit {
                Err(owned("case_work_failpoint_after_capability_outcome"))
            } else {
                Ok(None)
            }
        },
    }
}

/// One step of Case work as its provider result and operation went.
pub struct StepReport {
    pub has_request: bool,
    pub is_effect: bool,
    pub outcome: OperationOutcome,
}

/// Steps taken, the posture the work ended in, and the effects dispatched,
/// when the steps report `reports` from step `i` on, after `effects` effects.
pub open spec fn work_run_spec(limits: WorkLimits, reports: Seq<StepReport>, i: int, effects: int) -> (int, ExecutionPosture, int)
    decreases reports.len() - i,
{
    if i < 0 || i >= reports.len() || i >= limits.invocations {
        (i, ExecutionPosture::BudgetExhausted, effects)
    } else {
        let r = reports[i];
        match step_decision_spec(i, effects, limits, r.has_request, r.is_effect) {
            StepDecision::Complete => (i + 1, ExecutionPosture::Completed, effects),
            StepDecision::Stop => (i + 1, ExecutionPosture::BudgetExhausted, effects),
            StepDecision::Dispatch => {
                let e = effects + if r.is_effect { 1int } else { 0int };
                match outcome_posture_spec(r.outcome) {
                    Some(p) => (i + 1, p, e),
                    None => work_run_spec(limits, reports, i + 1, e),
                }
            },
        }
    }
}

/// Case work never dispatches more external effects than its limit, nor
/// takes more steps than its invocation budget.
pub proof fn law_work_within_limits(limits: WorkLimits, reports: Seq<StepReport>, i: int, effects: int)
    requires
        0 <= i,
        0 <= effects <= limits.effects,
    ensures
        work_run_spec(limits, reports, i, effects).2 <= limits.effects,
        work_run_spec(limits, reports, i, effects).0 <= if i > limits.invocations { i } else { limits.invocations as int },
        effects <= work_run_spec(limits, reports, i, effects).2,
    decreases reports.len() - i,
{
    if !(i >= reports.len() || i >= limits.invocations) {
        let r = reports[i];
        if step_decision_spec(i, effects, limits, r.has_request, r.is_effect) == StepDecision::Dispatch {
            let e = effects + if r.is_effect { 1int } else { 0int };
            if outcome_posture_spec(r.outcome) is None {
                law_work_within_limits(limits, reports, i + 1, e);
            }
        }
    }
}

/// The provider invocations governed by a work request after one call of
/// the work, `count` before it: the call goes through the steps in
/// `recovered` from `i` on (a step recovered from a completed invocation
/// starts none), at most one per invocation of the budget, and stops where
/// a new invocation finds the budget spent.
pub open spec fn call_invocations(limits: WorkLimits, count: int, recovered: Seq<bool>, i: int) -> int
    decreases recovered.len() - i,
{
    if i < 0 || i >= recovered.len() || i >= limits.invocations {
        count
    } else if recovered[i] {
        call_invocations(limits, count, recovered, i + 1)
    } else if count >= limits.invocations {
        count
    } else {
        call_invocations(limits, count + 1, recovered, i + 1)
    }
}

/// The governed invocations after the calls `calls` (the first call, then
/// each retry), `count` before them.
pub open spec fn calls_invocations(limits: WorkLimits, count: int, calls: Seq<Seq<bool>>) -> int
    decreases calls.len(),
{
    if calls.len() == 0 {
        count
    } else {
        calls_invocations(limits, call_invocations(limits, count, calls[0], 0), calls.drop_first())
    }
}

proof fn lemma_call_invocations(limits: WorkLimits, count: int, recovered: Seq<bool>, i: int)
    requires
        0 <= count,
    ensures
        count <= limits.invocations ==> call_invocations(limits, count, recovered, i) <= limits.invocations,
        count >= limits.invocations ==> call_invocations(limits, count, recovered, i) == count,
        count <= call_invocations(limits, count, recovered, i),
    decreases recovered.len() - i,
{
    if !(i < 0 || i >= recovered.len() || i >= limits.invocations) {
        if recovered[i] {
            lemma_call_invocations(limits, count, recovered, i + 1);
        } else if count < limits.invocations {
            lemma_call_invocations(limits, count + 1, recovered, i + 1);
        }
    }
}

/// The invocation budget of a work request holds across the first call and
/// every retry: the governed invocations never go past it, and once it is
/// spent a retry starts no invocation.
pub proof fn law_invocation_budget_across_retries(limits: WorkLimits, count: int, calls: Seq<Seq<bool>>)
    requires
        0 <= count,
    ensures
        count <= limits.invocations ==> calls_invocations(limits, count, calls) <= limits.invocations,
        count >= limits.invocations ==> calls_invocations(limits, count, calls) == count,
    decreases calls.len(),
{
    if calls.len() > 0 {
        lemma_call_invocations(limits, count, calls[0], 0);
        law_invocation_budget_across_retries(
            limits,
            call_invocations(limits, count, calls[0], 0),
            calls.drop_first(),
        );
    }
}

/// Case work under limits `l`, in one place: a call takes at most the
/// invocation budget in steps and dispatches at most the effect limit in
/// external effects; over the first call and every retry the governed
/// invocations never pass the budget, and once it is spent a retry starts
/// none.
pub proof fn law_case_work(l: WorkLimits, reports: Seq<StepReport>, count: int, calls: Seq<Seq<bool>>)
    requires
        0 <= count,
    ensures
        work_run_spec(l, reports, 0, 0).0 <= l.invocations,
        work_run_spec(l, reports, 0, 0).2 <= l.effects,
        count <= l.invocations ==> calls_invocations(l, count, calls) <= l.invocations,
        count >= l.invocations ==> calls_invocations(l, count, calls) == count,
{
    law_work_within_limits(l, reports, 0, 0);
    law_invocation_budget_across_retries(l, count, calls);
}

/// A cognitive binding of the Case: its participant and whether it is the
/// primary one.
pub struct BindingEntry {
    pub participant_id: String,
    pub primary: bool,
}

/// A connection needs the operator's explicit trust, and an evidence
/// reference where one is given: `evidence:…` of at most 240 bytes.
pub open spec fn connect_admitted_spec(trust_approved: bool, suitability_ref: Option<Seq<char>>) -> bool {
    trust_approved && match suitability_ref {
        Some(r) => has_prefix(r, "evidence:"@) && utf8_width(r) <= 240,
        None => true,
    }
}

/// The first check of a provider connection.
pub fn connect_admission(trust_approved: bool, suitability_ref: Option<&str>) -> (r: Result<(), String>)
    ensures
        connect_admitted_spec(trust_approved, match suitability_ref {
            Some(s) => Some(s@),
            None => None,
        }) ==> r is Ok,
        !connect_admitted_spec(trust_approved, match suitability_ref {
            Some(s) => Some(s@),
            None => None,
        }) ==> (r matches Err(e) && e@ == "case_connect_requires_explicit_trust_and_evidence_reference"@),
{
    let ok = trust_approved && match suitability_ref {
        Some(s) => starts_with(s, "evidence:") && utf8_len(&chars_of(s)) <= 240,
        None => true,
    };
    if ok {
        Ok(())
    } else {
        Err(owned("case_connect_requires_explicit_trust_and_evidence_reference"))
    }
}

/// The operator confirmed the connection against the Case generation they
/// inspected; it must still be current.
pub fn connect_generation_check(expected: Option<u64>, current: u64) -> (r: Result<(), String>)
    ensures
        (expected matches Some(g) && g != current) ==> (r matches Err(e) && e@
            == "case_connect_approval_stale: inspect current Case and confirm again"@),
        !(expected matches Some(g) && g != current) ==> r is Ok,
{
    match expected {
        Some(g) => if g != current {
            Err(owned("case_connect_approval_stale: inspect current Case and confirm again"))
        } else {
            Ok(())
        },
        None => Ok(()),
    }
}

/// The executor has a primary binding.
pub open spec fn has_primary(bs: Seq<BindingEntry>, executor: Seq<char>) -> bool {
    exists|k: int| 0 <= k < bs.len() && (#[trigger] bs[k]).participant_id@ == executor && bs[k].primary
}

/// The executor the connection is for, or the first refusal: none chosen;
/// a primary binding exists and is not to be replaced; the Case's provider
/// envelope belongs to another participant.
pub open spec fn connect_executor_spec(
    executor: Option<Seq<char>>,
    replace: bool,
    bindings: Seq<BindingEntry>,
    envelope_participant: Option<Seq<char>>,
) -> Result<Seq<char>, Seq<char>> {
    match executor {
        None => Err("case_connect_select_executor_first"@),
        Some(x) => if !replace && has_primary(bindings, x) {
            Err("case_connect_existing_primary_requires_explicit_replace"@)
        } else if envelope_participant matches Some(p) && p != x {
            Err("case_connect_provider_envelope_participant_conflict"@)
        } else {
            Ok(x)
        },
    }
}

/// Check the executor of a connection against the Case's bindings.
pub fn connect_executor_check(
    executor: Option<&str>,
    replace: bool,
    bindings: &Vec<BindingEntry>,
    envelope_participant: Option<&str>,
) -> (r: Result<String, String>)
    ensures
        match connect_executor_spec(
            match executor {
                Some(x) => Some(x@),
                None => None,
            },
            replace,
            bindings@,
            match envelope_participant {
                Some(p) => Some(p@),
                None => None,
            },
        ) {
            Ok(x) => r matches Ok(v) && v@ == x,
            Err(m) => r matches Err(e) && e@ == m,
        },
{
    let x = match executor {
        None => return Err(owned("case_connect_select_executor_first")),
        Some(x) => x,
    };
    if !replace {
        let mut k: usize = 0;
        while k < bindings.len()
            invariant
                k <= bindings.len(),
                !replace,
                executor == Some(x),
                forall|j: int| 0 <= j < k ==> !((#[trigger] bindings@[j]).participant_id@ == x@ && bindings@[j].primary),
            decreases bindings.len() - k,
        {
            if bindings[k].primary && str_eq(bindings[k].participant_id.as_str(), x) {
                assert(has_primary(bindings@, x@)) by {
                    assert(bindings@[k as int].participant_id@ == x@ && bindings@[k as int].primary);
                }
                return Err(owned("case_connect_existing_primary_requires_explicit_replace"));
            }
            k += 1;
        }
    }
    match envelope_participant {
        Some(p) => if !str_eq(p, x) {
            return Err(owned("case_connect_provider_envelope_participant_conflict"));
        },
        None => {},
    }
    Ok(owned(x))
}

/// The Case must not change while the new target is qualified.
pub fn connect_probe_check(before: u64, after: u64) -> (r: Result<(), String>)
    ensures
        before == after ==> r is Ok,
        before != after ==> (r matches Err(e) && e@
            == "case_connect_case_changed_during_probe: target qualification retained; re-inspect before retry"@),
{
    if before == after {
        Ok(())
    } else {
        Err(owned("case_connect_case_changed_during_probe: target qualification retained; re-inspect before retry"))
    }
}

/// The ordered targets of the provider envelope with `target` added at the
/// end where it is not there yet.
pub fn extend_targets(targets: &Vec<String>, target: &str) -> (out: Vec<String>)
    ensures
        views(targets@).contains(target@) ==> views(out@) == views(targets@),
        !views(targets@).contains(target@) ==> views(out@) == views(targets@).push(target@),
{
    let mut out: Vec<String> = Vec::new();
    let mut found = false;
    let mut i: usize = 0;
    while i < targets.len()
        invariant
            i <= targets.len(),
            views(out@) == views(targets@).subrange(0, i as int),
            found == views(targets@).subrange(0, i as int).contains(target@),
        decreases targets.len() - i,
    {
        let ghost before = views(targets@).subrange(0, i as int);
        if str_eq(targets[i].as_str(), target) {
            found = true;
        }
        out.push(targets[i].clone());
        proof {
            let after = views(targets@).subrange(0, i + 1);
            assert(after =~= before.push(targets@[i as int]@));
            assert(views(out@) =~= after);
            if found && !before.contains(target@) {
                assert(after[i as int] == target@);
            }
            if after.contains(target@) && !before.contains(target@) {
                let j = choose|j: int| 0 <= j < after.len() && after[j] == target@;
                if j < i {
                    assert(before[j] == target@);
                }
            }
        }
        i += 1;
    }
    assert(views(targets@).subrange(0, targets.len() as int) =~= views(targets@));
    if !found {
        let ghost before = views(out@);
        out.push(owned(target));
        assert(views(out@) =~= before.push(target@));
    }
    out
}

/// The parts a prerequisite reads: the turn's parts at the given ordinals,
/// in the order given; none where an ordinal names no part.
pub open spec fn prerequisite_parts_spec(part_ids: Seq<Seq<char>>, ordinals: Seq<u16>) -> Option<Seq<Seq<char>>> {
    if forall|k: int| 0 <= k < ordinals.len() ==> (#[trigger] ordinals[k]) < part_ids.len() {
        Some(Seq::new(ordinals.len(), |k: int| part_ids[ordinals[k] as int]))
    } else {
        None
    }
}

/// The part ids of a prerequisite, or the refusal of an ordinal out of range.
pub fn prerequisite_parts(part_ids: &Vec<String>, ordinals: &Vec<u16>) -> (r: Result<Vec<String>, String>)
    ensures
        match prerequisite_parts_spec(views(part_ids@), ordinals@) {
            Some(ids) => r matches Ok(v) && views(v@) == ids,
            None => r matches Err(e) && e@ == "conversation_intent_ordinal_not_found"@,
        },
{
    let mut out: Vec<String> = Vec::new();
    let mut k: usize = 0;
    while k < ordinals.len()
        invariant
            k <= ordinals.len(),
            forall|j: int| 0 <= j < k ==> (#[trigger] ordinals@[j]) < part_ids@.len(),
            views(out@) == Seq::new(k as nat, |j: int| views(part_ids@)[ordinals@[j] as int]),
        decreases ordinals.len() - k,
    {
        let o = ordinals[k] as usize;
        if o >= part_ids.len() {
            assert(!(ordinals@[k as int] < part_ids@.len()));
            return Err(owned("conversation_intent_ordinal_not_found"));
        }
        let ghost before = views(out@);
        out.push(part_ids[o].clone());
        assert(o as int == ordinals@[k as int] as int);
        assert(views(out@) =~= before.push(views(part_ids@)[ordinals@[k as int] as int]));
        assert(views(out@) =~= Seq::new((k + 1) as nat, |j: int| views(part_ids@)[ordinals@[j] as int]));
        k += 1;
    }
    Ok(out)
}

/// The participant that executes a turn: the one the intent names, else
/// the turn's author.
pub fn turn_executor(requested: Option<&str>, author: &str) -> (r: String)
    ensures
        r@ == match requested {
            Some(x) => x@,
            None => author@,
        },
{
    match requested {
        Some(x) => owned(x),
        None => owned(author),
    }
}

} // verus!
