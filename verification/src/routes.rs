//! Where a command goes: the operation registry's handlers and how many
//! leading words each skips, the subcommands of the handoff, policy, memory
//! and conversation commands, and the exit status of the command line.

use vstd::prelude::*;
use crate::presentation::has_prefix;
use crate::seqs::views;
use crate::text::{chars_of, owned, push_str, starts_with, str_eq, string_of};

verus! {

/// The handler of a registered operation.
#[derive(Clone, Copy, Debug, PartialEq, Eq, Structural)]
pub enum Handler {
    Security,
    Identity,
    Tenant,
    CaseSecurity,
    CaseBindParticipantRole,
    CaseAttachProvider,
    CaseAttachFilesystem,
    CaseAttachProcess,
    Handoff,
    CasePolicyPorcelain,
    CaseRuntimeRun,
    CaseRuntimeResume,
    CaseRuntimeStatus,
    CaseRuntimeStop,
    CaseCancel,
    CaseClose,
    Workflow,
    ReviewPending,
    ReviewShow,
    ReviewApprove,
    ReviewDeny,
    ReviewDefer,
    Policy,
    Runtime,
    CaseEnter,
    ControlledFilesystemWrite,
    ControlledProcessSignal,
    ControlledEffectReconcile,
    ControlledEffectInspect,
    PromptRepl,
    Info,
    StoreStatus,
    StoreSummary,
    StoreRecordGet,
    StoreRecordList,
    StoreTail,
    JournalInspect,
    JournalCompatibilityInspect,
    JournalCompatibilityImport,
    JournalReplay,
    JournalReplayStatus,
    JournalReplayReport,
    ProjectionSummary,
    ProjectionInspect,
    ProjectionRequest,
    SemanticContextInspect,
    ControlSummary,
    DecisionInspect,
    ReceiptSummary,
    ReconcileSummary,
    QuerySummary,
    QueryRecords,
    EngineSummary,
    HotStatus,
    ProcessObserve,
    ProcessSignal,
    ObserveCompareProcess,
    CarrierFsRead,
    GraphSummary,
    GraphSchema,
    GraphRuntimeStatus,
    GraphMaterialize,
    GraphRelations,
    GraphRuntimeLoad,
    GraphRuntimeSummary,
    GraphRebuild,
    GraphRebuildReport,
    GraphFanout,
    GraphFanin,
    GraphNeighborhood,
    GraphPath,
    FactsStatus,
    FactsSchema,
    FactsInit,
    FactsExtract,
    FactsSummary,
    FactsReport,
    MemorySummary,
    MemoryRebuild,
    MemoryClear,
    MemoryList,
    MemoryShow,
    MemoryProvenance,
    MemoryRetrieve,
    DaemonStatus,
    DaemonInfo,
    DaemonShutdown,
    DaemonRunMinimumLoop,
    DaemonRunFilesystemLoop,
    DaemonJournalSummary,
    DaemonProjectionSummary,
}

/// The handler of an operation id and the number of leading argument words
/// it skips, in the order the registry tries them; none for an unknown id.
pub open spec fn route_spec(op: Seq<char>) -> Option<(Handler, int)> {
    if op == "yai.init"@ || op == "yai.security.bootstrap_local"@ {
        Some((Handler::Security, 1))
    } else if op == "yai.identity.whoami"@ {
        Some((Handler::Identity, 1))
    } else if op == "yai.tenant.list"@ || op == "yai.tenant.show"@ || op == "yai.tenant.member.add"@ {
        Some((Handler::Tenant, 1))
    } else if op == "yai.case.create"@ || op == "yai.case.participant.link_principal"@ {
        Some((Handler::CaseSecurity, 1))
    } else if op == "yai.case.participant.role.add"@ {
        Some((Handler::CaseBindParticipantRole, 2))
    } else if op == "yai.case.provider.attach"@ {
        Some((Handler::CaseAttachProvider, 2))
    } else if op == "yai.case.resource.attach_filesystem"@ {
        Some((Handler::CaseAttachFilesystem, 2))
    } else if op == "yai.case.resource.attach_process"@ {
        Some((Handler::CaseAttachProcess, 2))
    } else if has_prefix(op, "yai.case.handoff."@) {
        Some((Handler::Handoff, 2))
    } else if has_prefix(op, "yai.case.policy."@) {
        Some((Handler::CasePolicyPorcelain, 2))
    } else if op == "yai.case.run"@ {
        Some((Handler::CaseRuntimeRun, 2))
    } else if op == "yai.case.resume"@ {
        Some((Handler::CaseRuntimeResume, 2))
    } else if op == "yai.case.show"@ {
        Some((Handler::CaseRuntimeStatus, 2))
    } else if op == "yai.case.stop"@ {
        Some((Handler::CaseRuntimeStop, 2))
    } else if op == "yai.case.cancel"@ {
        Some((Handler::CaseCancel, 2))
    } else if op == "yai.case.close"@ {
        Some((Handler::CaseClose, 2))
    } else if has_prefix(op, "yai.workflow."@) {
        Some((Handler::Workflow, 1))
    } else if op == "yai.review.pending"@ {
        Some((Handler::ReviewPending, 2))
    } else if op == "yai.review.show"@ {
        Some((Handler::ReviewShow, 2))
    } else if op == "yai.review.approve"@ {
        Some((Handler::ReviewApprove, 2))
    } else if op == "yai.review.deny"@ {
        Some((Handler::ReviewDeny, 2))
    } else if op == "yai.review.defer"@ {
        Some((Handler::ReviewDefer, 2))
    } else if has_prefix(op, "yai.policy."@) {
        Some((Handler::Policy, 1))
    } else if has_prefix(op, "yai.runtime."@) {
        Some((Handler::Runtime, 1))
    } else if op == "yai.case.enter"@ {
        Some((Handler::CaseEnter, 2))
    } else if op == "yai.effect.filesystem_write"@ {
        Some((Handler::ControlledFilesystemWrite, 2))
    } else if op == "yai.effect.process_signal"@ {
        Some((Handler::ControlledProcessSignal, 2))
    } else if op == "yai.effect.reconcile"@ {
        Some((Handler::ControlledEffectReconcile, 2))
    } else if op == "yai.effect.inspect"@ {
        Some((Handler::ControlledEffectInspect, 2))
    } else if op == "yai.prompt"@ {
        Some((Handler::PromptRepl, 1))
    } else if op == "yai.info"@ {
        Some((Handler::Info, 0))
    } else if op == "yai.store.status"@ {
        Some((Handler::StoreStatus, 0))
    } else if op == "yai.store.summary"@ {
        Some((Handler::StoreSummary, 0))
    } else if op == "yai.store.record.get"@ {
        Some((Handler::StoreRecordGet, 3))
    } else if op == "yai.store.record.list"@ {
        Some((Handler::StoreRecordList, 3))
    } else if op == "yai.store.tail"@ {
        Some((Handler::StoreTail, 2))
    } else if op == "yai.journal.inspect"@ {
        Some((Handler::JournalInspect, 2))
    } else if op == "yai.journal.compatibility_inspect"@ {
        Some((Handler::JournalCompatibilityInspect, 2))
    } else if op == "yai.journal.compatibility_import"@ {
        Some((Handler::JournalCompatibilityImport, 2))
    } else if op == "yai.journal.replay"@ {
        Some((Handler::JournalReplay, 2))
    } else if op == "yai.journal.replay_status"@ {
        Some((Handler::JournalReplayStatus, 2))
    } else if op == "yai.journal.replay_report"@ {
        Some((Handler::JournalReplayReport, 2))
    } else if op == "yai.projection.summary"@ {
        Some((Handler::ProjectionSummary, 2))
    } else if op == "yai.projection.inspect"@ {
        Some((Handler::ProjectionInspect, 2))
    } else if op == "yai.projection.request"@ {
        Some((Handler::ProjectionRequest, 2))
    } else if op == "yai.context.inspect"@ {
        Some((Handler::SemanticContextInspect, 2))
    } else if op == "yai.control.summary"@ {
        Some((Handler::ControlSummary, 2))
    } else if op == "yai.decision.inspect"@ {
        Some((Handler::DecisionInspect, 2))
    } else if op == "yai.receipt.summary"@ {
        Some((Handler::ReceiptSummary, 2))
    } else if op == "yai.reconcile.summary"@ {
        Some((Handler::ReconcileSummary, 2))
    } else if op == "yai.query.summary"@ {
        Some((Handler::QuerySummary, 2))
    } else if op == "yai.query.records"@ {
        Some((Handler::QueryRecords, 2))
    } else if op == "yai.engine.summary"@ {
        Some((Handler::EngineSummary, 2))
    } else if op == "yai.hot.status"@ {
        Some((Handler::HotStatus, 0))
    } else if op == "yai.process.observe"@ {
        Some((Handler::ProcessObserve, 2))
    } else if op == "yai.process.signal"@ {
        Some((Handler::ProcessSignal, 2))
    } else if op == "yai.observe.compare_process"@ {
        Some((Handler::ObserveCompareProcess, 2))
    } else if op == "yai.carrier.fs_read"@ {
        Some((Handler::CarrierFsRead, 2))
    } else if op == "yai.graph.summary"@ {
        Some((Handler::GraphSummary, 2))
    } else if op == "yai.graph.schema"@ {
        Some((Handler::GraphSchema, 2))
    } else if op == "yai.graph.runtime_status"@ {
        Some((Handler::GraphRuntimeStatus, 2))
    } else if op == "yai.graph.materialize"@ {
        Some((Handler::GraphMaterialize, 2))
    } else if op == "yai.graph.relations"@ {
        Some((Handler::GraphRelations, 2))
    } else if op == "yai.graph.runtime_load"@ {
        Some((Handler::GraphRuntimeLoad, 2))
    } else if op == "yai.graph.runtime_summary"@ {
        Some((Handler::GraphRuntimeSummary, 2))
    } else if op == "yai.graph.rebuild"@ {
        Some((Handler::GraphRebuild, 2))
    } else if op == "yai.graph.rebuild_report"@ {
        Some((Handler::GraphRebuildReport, 2))
    } else if op == "yai.graph.fanout"@ {
        Some((Handler::GraphFanout, 2))
    } else if op == "yai.graph.fanin"@ {
        Some((Handler::GraphFanin, 2))
    } else if op == "yai.graph.neighborhood"@ {
        Some((Handler::GraphNeighborhood, 2))
    } else if op == "yai.graph.path"@ {
        Some((Handler::GraphPath, 2))
    } else if op == "yai.facts.status"@ {
        Some((Handler::FactsStatus, 2))
    } else if op == "yai.facts.schema"@ {
        Some((Handler::FactsSchema, 2))
    } else if op == "yai.facts.init"@ {
        Some((Handler::FactsInit, 2))
    } else if op == "yai.facts.extract"@ {
        Some((Handler::FactsExtract, 2))
    } else if op == "yai.facts.summary"@ {
        Some((Handler::FactsSummary, 2))
    } else if op == "yai.facts.report"@ {
        Some((Handler::FactsReport, 2))
    } else if op == "yai.memory.summary"@ {
        Some((Handler::MemorySummary, 2))
    } else if op == "yai.memory.rebuild"@ {
        Some((Handler::MemoryRebuild, 2))
    } else if op == "yai.memory.clear"@ {
        Some((Handler::MemoryClear, 2))
    } else if op == "yai.memory.list"@ {
        Some((Handler::MemoryList, 2))
    } else if op == "yai.memory.show"@ {
        Some((Handler::MemoryShow, 2))
    } else if op == "yai.memory.provenance"@ {
        Some((Handler::MemoryProvenance, 2))
    } else if op == "yai.memory.retrieve"@ {
        Some((Handler::MemoryRetrieve, 2))
    } else if op == "yai.daemon.status"@ {
        Some((Handler::DaemonStatus, 2))
    } else if op == "yai.daemon.info"@ {
        Some((Handler::DaemonInfo, 2))
    } else if op == "yai.daemon.shutdown"@ {
        Some((Handler::DaemonShutdown, 2))
    } else if op == "yai.daemon.run_minimum_loop"@ {
        Some((Handler::DaemonRunMinimumLoop, 2))
    } else if op == "yai.daemon.run_filesystem_loop"@ {
        Some((Handler::DaemonRunFilesystemLoop, 2))
    } else if op == "yai.daemon.journal_summary"@ {
        Some((Handler::DaemonJournalSummary, 2))
    } else if op == "yai.daemon.projection_summary"@ {
        Some((Handler::DaemonProjectionSummary, 2))
    } else {
        None
    }
}

/// The handler of an operation, or the refusal for an id no handler takes.
pub fn route_operation(operation_id: &str) -> (r: Result<(Handler, usize), String>)
    ensures
        match r {
            Ok(h) => route_spec(operation_id@) == Some((h.0, h.1 as int)),
            Err(e) => route_spec(operation_id@) is None && e@ == "registry_handler_not_resolved:"@ + operation_id@,
        },
{
    if str_eq(operation_id, "yai.init") || str_eq(operation_id, "yai.security.bootstrap_local") {
        return Ok((Handler::Security, 1));
    }
    if str_eq(operation_id, "yai.identity.whoami") {
        return Ok((Handler::Identity, 1));
    }
    if str_eq(operation_id, "yai.tenant.list") || str_eq(operation_id, "yai.tenant.show") || str_eq(operation_id, "yai.tenant.member.add") {
        return Ok((Handler::Tenant, 1));
    }
    if str_eq(operation_id, "yai.case.create") || str_eq(operation_id, "yai.case.participant.link_principal") {
        return Ok((Handler::CaseSecurity, 1));
    }
    if str_eq(operation_id, "yai.case.participant.role.add") {
        return Ok((Handler::CaseBindParticipantRole, 2));
    }
    if str_eq(operation_id, "yai.case.provider.attach") {
        return Ok((Handler::CaseAttachProvider, 2));
    }
    if str_eq(operation_id, "yai.case.resource.attach_filesystem") {
        return Ok((Handler::CaseAttachFilesystem, 2));
    }
    if str_eq(operation_id, "yai.case.resource.attach_process") {
        return Ok((Handler::CaseAttachProcess, 2));
    }
    if starts_with(operation_id, "yai.case.handoff.") {
        return Ok((Handler::Handoff, 2));
    }
    if starts_with(operation_id, "yai.case.policy.") {
        return Ok((Handler::CasePolicyPorcelain, 2));
    }
    if str_eq(operation_id, "yai.case.run") {
        return Ok((Handler::CaseRuntimeRun, 2));
    }
    if str_eq(operation_id, "yai.case.resume") {
        return Ok((Handler::CaseRuntimeResume, 2));
    }
    if str_eq(operation_id, "yai.case.show") {
        return Ok((Handler::CaseRuntimeStatus, 2));
    }
    if str_eq(operation_id, "yai.case.stop") {
        return Ok((Handler::CaseRuntimeStop, 2));
    }
    if str_eq(operation_id, "yai.case.cancel") {
        return Ok((Handler::CaseCancel, 2));
    }
    if str_eq(operation_id, "yai.case.close") {
        return Ok((Handler::CaseClose, 2));
    }
    if starts_with(operation_id, "yai.workflow.") {
        return Ok((Handler::Workflow, 1));
    }
    if str_eq(operation_id, "yai.review.pending") {
        return Ok((Handler::ReviewPending, 2));
    }
    if str_eq(operation_id, "yai.review.show") {
        return Ok((Handler::ReviewShow, 2));
    }
    if str_eq(operation_id, "yai.review.approve") {
        return Ok((Handler::ReviewApprove, 2));
    }
    if str_eq(operation_id, "yai.review.deny") {
        return Ok((Handler::ReviewDeny, 2));
    }
    if str_eq(operation_id, "yai.review.defer") {
        return Ok((Handler::ReviewDefer, 2));
    }
    if starts_with(operation_id, "yai.policy.") {
        return Ok((Handler::Policy, 1));
    }
    if starts_with(operation_id, "yai.runtime.") {
        return Ok((Handler::Runtime, 1));
    }
    if str_eq(operation_id, "yai.case.enter") {
        return Ok((Handler::CaseEnter, 2));
    }
    if str_eq(operation_id, "yai.effect.filesystem_write") {
        return Ok((Handler::ControlledFilesystemWrite, 2));
    }
    if str_eq(operation_id, "yai.effect.process_signal") {
        return Ok((Handler::ControlledProcessSignal, 2));
    }
    if str_eq(operation_id, "yai.effect.reconcile") {
        return Ok((Handler::ControlledEffectReconcile, 2));
    }
    if str_eq(operation_id, "yai.effect.inspect") {
        return Ok((Handler::ControlledEffectInspect, 2));
    }
    if str_eq(operation_id, "yai.prompt") {
        return Ok((Handler::PromptRepl, 1));
    }
    if str_eq(operation_id, "yai.info") {
        return Ok((Handler::Info, 0));
    }
    if str_eq(operation_id, "yai.store.status") {
        return Ok((Handler::StoreStatus, 0));
    }
    if str_eq(operation_id, "yai.store.summary") {
        return Ok((Handler::StoreSummary, 0));
    }
    if str_eq(operation_id, "yai.store.record.get") {
        return Ok((Handler::StoreRecordGet, 3));
    }
    if str_eq(operation_id, "yai.store.record.list") {
        return Ok((Handler::StoreRecordList, 3));
    }
    if str_eq(operation_id, "yai.store.tail") {
        return Ok((Handler::StoreTail, 2));
    }
    if str_eq(operation_id, "yai.journal.inspect") {
        return Ok((Handler::JournalInspect, 2));
    }
    if str_eq(operation_id, "yai.journal.compatibility_inspect") {
        return Ok((Handler::JournalCompatibilityInspect, 2));
    }
    if str_eq(operation_id, "yai.journal.compatibility_import") {
        return Ok((Handler::JournalCompatibilityImport, 2));
    }
    if str_eq(operation_id, "yai.journal.replay") {
        return Ok((Handler::JournalReplay, 2));
    }
    if str_eq(operation_id, "yai.journal.replay_status") {
        return Ok((Handler::JournalReplayStatus, 2));
    }
    if str_eq(operation_id, "yai.journal.replay_report") {
        return Ok((Handler::JournalReplayReport, 2));
    }
    if str_eq(operation_id, "yai.projection.summary") {
        return Ok((Handler::ProjectionSummary, 2));
    }
    if str_eq(operation_id, "yai.projection.inspect") {
        return Ok((Handler::ProjectionInspect, 2));
    }
    if str_eq(operation_id, "yai.projection.request") {
        return Ok((Handler::ProjectionRequest, 2));
    }
    if str_eq(operation_id, "yai.context.inspect") {
        return Ok((Handler::SemanticContextInspect, 2));
    }
    if str_eq(operation_id, "yai.control.summary") {
        return Ok((Handler::ControlSummary, 2));
    }
    if str_eq(operation_id, "yai.decision.inspect") {
        return Ok((Handler::DecisionInspect, 2));
    }
    if str_eq(operation_id, "yai.receipt.summary") {
        return Ok((Handler::ReceiptSummary, 2));
    }
    if str_eq(operation_id, "yai.reconcile.summary") {
        return Ok((Handler::ReconcileSummary, 2));
    }
    if str_eq(operation_id, "yai.query.summary") {
        return Ok((Handler::QuerySummary, 2));
    }
    if str_eq(operation_id, "yai.query.records") {
        return Ok((Handler::QueryRecords, 2));
    }
    if str_eq(operation_id, "yai.engine.summary") {
        return Ok((Handler::EngineSummary, 2));
    }
    if str_eq(operation_id, "yai.hot.status") {
        return Ok((Handler::HotStatus, 0));
    }
    if str_eq(operation_id, "yai.process.observe") {
        return Ok((Handler::ProcessObserve, 2));
    }
    if str_eq(operation_id, "yai.process.signal") {
        return Ok((Handler::ProcessSignal, 2));
    }
    if str_eq(operation_id, "yai.observe.compare_process") {
        return Ok((Handler::ObserveCompareProcess, 2));
    }
    if str_eq(operation_id, "yai.carrier.fs_read") {
        return Ok((Handler::CarrierFsRead, 2));
    }
    if str_eq(operation_id, "yai.graph.summary") {
        return Ok((Handler::GraphSummary, 2));
    }
    if str_eq(operation_id, "yai.graph.schema") {
        return Ok((Handler::GraphSchema, 2));
    }
    if str_eq(operation_id, "yai.graph.runtime_status") {
        return Ok((Handler::GraphRuntimeStatus, 2));
    }
    if str_eq(operation_id, "yai.graph.materialize") {
        return Ok((Handler::GraphMaterialize, 2));
    }
    if str_eq(operation_id, "yai.graph.relations") {
        return Ok((Handler::GraphRelations, 2));
    }
    if str_eq(operation_id, "yai.graph.runtime_load") {
        return Ok((Handler::GraphRuntimeLoad, 2));
    }
    if str_eq(operation_id, "yai.graph.runtime_summary") {
        return Ok((Handler::GraphRuntimeSummary, 2));
    }
    if str_eq(operation_id, "yai.graph.rebuild") {
        return Ok((Handler::GraphRebuild, 2));
    }
    if str_eq(operation_id, "yai.graph.rebuild_report") {
        return Ok((Handler::GraphRebuildReport, 2));
    }
    if str_eq(operation_id, "yai.graph.fanout") {
        return Ok((Handler::GraphFanout, 2));
    }
    if str_eq(operation_id, "yai.graph.fanin") {
        return Ok((Handler::GraphFanin, 2));
    }
    if str_eq(operation_id, "yai.graph.neighborhood") {
        return Ok((Handler::GraphNeighborhood, 2));
    }
    if str_eq(operation_id, "yai.graph.path") {
        return Ok((Handler::GraphPath, 2));
    }
    if str_eq(operation_id, "yai.facts.status") {
        return Ok((Handler::FactsStatus, 2));
    }
    if str_eq(operation_id, "yai.facts.schema") {
        return Ok((Handler::FactsSchema, 2));
    }
    if str_eq(operation_id, "yai.facts.init") {
        return Ok((Handler::FactsInit, 2));
    }
    if str_eq(operation_id, "yai.facts.extract") {
        return Ok((Handler::FactsExtract, 2));
    }
    if str_eq(operation_id, "yai.facts.summary") {
        return Ok((Handler::FactsSummary, 2));
    }
    if str_eq(operation_id, "yai.facts.report") {
        return Ok((Handler::FactsReport, 2));
    }
    if str_eq(operation_id, "yai.memory.summary") {
        return Ok((Handler::MemorySummary, 2));
    }
    if str_eq(operation_id, "yai.memory.rebuild") {
        return Ok((Handler::MemoryRebuild, 2));
    }
    if str_eq(operation_id, "yai.memory.clear") {
        return Ok((Handler::MemoryClear, 2));
    }
    if str_eq(operation_id, "yai.memory.list") {
        return Ok((Handler::MemoryList, 2));
    }
    if str_eq(operation_id, "yai.memory.show") {
        return Ok((Handler::MemoryShow, 2));
    }
    if str_eq(operation_id, "yai.memory.provenance") {
        return Ok((Handler::MemoryProvenance, 2));
    }
    if str_eq(operation_id, "yai.memory.retrieve") {
        return Ok((Handler::MemoryRetrieve, 2));
    }
    if str_eq(operation_id, "yai.daemon.status") {
        return Ok((Handler::DaemonStatus, 2));
    }
    if str_eq(operation_id, "yai.daemon.info") {
        return Ok((Handler::DaemonInfo, 2));
    }
    if str_eq(operation_id, "yai.daemon.shutdown") {
        return Ok((Handler::DaemonShutdown, 2));
    }
    if str_eq(operation_id, "yai.daemon.run_minimum_loop") {
        return Ok((Handler::DaemonRunMinimumLoop, 2));
    }
    if str_eq(operation_id, "yai.daemon.run_filesystem_loop") {
        return Ok((Handler::DaemonRunFilesystemLoop, 2));
    }
    if str_eq(operation_id, "yai.daemon.journal_summary") {
        return Ok((Handler::DaemonJournalSummary, 2));
    }
    if str_eq(operation_id, "yai.daemon.projection_summary") {
        return Ok((Handler::DaemonProjectionSummary, 2));
    }
    let mut m = chars_of("registry_handler_not_resolved:");
    push_str(&mut m, operation_id);
    Err(string_of(&m))
}

/// The exit status of the command line: 0 when the command succeeded, 1
/// when it was refused (the host prints the refusal).
pub fn cli_main(outcome: &Result<(), String>) -> (code: i32)
    ensures
        outcome is Ok ==> code == 0,
        outcome is Err ==> code == 1,
{
    match outcome {
        Ok(()) => 0,
        Err(_) => 1,
    }
}

/// A subcommand of `yai case handoff`.
#[derive(Clone, Copy, Debug, PartialEq, Eq, Structural)]
pub enum HandoffOp {
    Offer,
    Pending,
    Show,
    Accept,
    Decline,
    Result,
    Reconcile,
}

pub open spec fn handoff_spec(w: Seq<char>) -> Option<HandoffOp> {
    if w == "offer"@ {
        Some(HandoffOp::Offer)
    } else if w == "pending"@ {
        Some(HandoffOp::Pending)
    } else if w == "show"@ {
        Some(HandoffOp::Show)
    } else if w == "accept"@ {
        Some(HandoffOp::Accept)
    } else if w == "decline"@ {
        Some(HandoffOp::Decline)
    } else if w == "result"@ {
        Some(HandoffOp::Result)
    } else if w == "reconcile"@ {
        Some(HandoffOp::Reconcile)
    } else {
        None
    }
}

fn handoff_word(w: &str) -> (r: Option<HandoffOp>)
    ensures
        r == handoff_spec(w@),
{
    if str_eq(w, "offer") {
        return Some(HandoffOp::Offer);
    }
    if str_eq(w, "pending") {
        return Some(HandoffOp::Pending);
    }
    if str_eq(w, "show") {
        return Some(HandoffOp::Show);
    }
    if str_eq(w, "accept") {
        return Some(HandoffOp::Accept);
    }
    if str_eq(w, "decline") {
        return Some(HandoffOp::Decline);
    }
    if str_eq(w, "result") {
        return Some(HandoffOp::Result);
    }
    if str_eq(w, "reconcile") {
        return Some(HandoffOp::Reconcile);
    }
    None
}

/// A subcommand of `yai policy`.
#[derive(Clone, Copy, Debug, PartialEq, Eq, Structural)]
pub enum PolicyOp {
    Ingest,
    Inspect,
    Validate,
    Publish,
    Retire,
    List,
}

pub open spec fn policy_spec(w: Seq<char>) -> Option<PolicyOp> {
    if w == "ingest"@ {
        Some(PolicyOp::Ingest)
    } else if w == "inspect"@ {
        Some(PolicyOp::Inspect)
    } else if w == "validate"@ {
        Some(PolicyOp::Validate)
    } else if w == "publish"@ {
        Some(PolicyOp::Publish)
    } else if w == "retire"@ {
        Some(PolicyOp::Retire)
    } else if w == "list"@ {
        Some(PolicyOp::List)
    } else {
        None
    }
}

fn policy_word(w: &str) -> (r: Option<PolicyOp>)
    ensures
        r == policy_spec(w@),
{
    if str_eq(w, "ingest") {
        return Some(PolicyOp::Ingest);
    }
    if str_eq(w, "inspect") {
        return Some(PolicyOp::Inspect);
    }
    if str_eq(w, "validate") {
        return Some(PolicyOp::Validate);
    }
    if str_eq(w, "publish") {
        return Some(PolicyOp::Publish);
    }
    if str_eq(w, "retire") {
        return Some(PolicyOp::Retire);
    }
    if str_eq(w, "list") {
        return Some(PolicyOp::List);
    }
    None
}

/// A Case memory operation.
#[derive(Clone, Copy, Debug, PartialEq, Eq, Structural)]
pub enum MemoryOp {
    Show,
    Search,
    IndexStatus,
    IndexVerify,
    IndexBuild,
    IndexRebuild,
    IndexDrop,
    RetrievalShow,
    EpisodesShow,
    EpisodeShow,
    SemanticShow,
    Contradictions,
    HierarchyShow,
    HierarchyRebuild,
    HierarchyDrop,
    Consolidate,
}

pub open spec fn memory_op_spec(w: Seq<char>) -> Option<MemoryOp> {
    if w == "yai.case.memory.show"@ {
        Some(MemoryOp::Show)
    } else if w == "yai.case.memory.search"@ {
        Some(MemoryOp::Search)
    } else if w == "yai.case.memory.index.status"@ {
        Some(MemoryOp::IndexStatus)
    } else if w == "yai.case.memory.index.verify"@ {
        Some(MemoryOp::IndexVerify)
    } else if w == "yai.case.memory.index.build"@ {
        Some(MemoryOp::IndexBuild)
    } else if w == "yai.case.memory.index.rebuild"@ {
        Some(MemoryOp::IndexRebuild)
    } else if w == "yai.case.memory.index.drop"@ {
        Some(MemoryOp::IndexDrop)
    } else if w == "yai.case.memory.retrieval.show"@ {
        Some(MemoryOp::RetrievalShow)
    } else if w == "yai.case.memory.episodes.show"@ {
        Some(MemoryOp::EpisodesShow)
    } else if w == "yai.case.memory.episode.show"@ {
        Some(MemoryOp::EpisodeShow)
    } else if w == "yai.case.memory.semantic.show"@ {
        Some(MemoryOp::SemanticShow)
    } else if w == "yai.case.memory.contradictions"@ {
        Some(MemoryOp::Contradictions)
    } else if w == "yai.case.memory.hierarchy.show"@ {
        Some(MemoryOp::HierarchyShow)
    } else if w == "yai.case.memory.hierarchy.rebuild"@ {
        Some(MemoryOp::HierarchyRebuild)
    } else if w == "yai.case.memory.hierarchy.drop"@ {
        Some(MemoryOp::HierarchyDrop)
    } else if w == "yai.case.memory.consolidate"@ {
        Some(MemoryOp::Consolidate)
    } else {
        None
    }
}

fn memory_op_word(w: &str) -> (r: Option<MemoryOp>)
    ensures
        r == memory_op_spec(w@),
{
    if str_eq(w, "yai.case.memory.show") {
        return Some(MemoryOp::Show);
    }
    if str_eq(w, "yai.case.memory.search") {
        return Some(MemoryOp::Search);
    }
    if str_eq(w, "yai.case.memory.index.status") {
        return Some(MemoryOp::IndexStatus);
    }
    if str_eq(w, "yai.case.memory.index.verify") {
        return Some(MemoryOp::IndexVerify);
    }
    if str_eq(w, "yai.case.memory.index.build") {
        return Some(MemoryOp::IndexBuild);
    }
    if str_eq(w, "yai.case.memory.index.rebuild") {
        return Some(MemoryOp::IndexRebuild);
    }
    if str_eq(w, "yai.case.memory.index.drop") {
        return Some(MemoryOp::IndexDrop);
    }
    if str_eq(w, "yai.case.memory.retrieval.show") {
        return Some(MemoryOp::RetrievalShow);
    }
    if str_eq(w, "yai.case.memory.episodes.show") {
        return Some(MemoryOp::EpisodesShow);
    }
    if str_eq(w, "yai.case.memory.episode.show") {
        return Some(MemoryOp::EpisodeShow);
    }
    if str_eq(w, "yai.case.memory.semantic.show") {
        return Some(MemoryOp::SemanticShow);
    }
    if str_eq(w, "yai.case.memory.contradictions") {
        return Some(MemoryOp::Contradictions);
    }
    if str_eq(w, "yai.case.memory.hierarchy.show") {
        return Some(MemoryOp::HierarchyShow);
    }
    if str_eq(w, "yai.case.memory.hierarchy.rebuild") {
        return Some(MemoryOp::HierarchyRebuild);
    }
    if str_eq(w, "yai.case.memory.hierarchy.drop") {
        return Some(MemoryOp::HierarchyDrop);
    }
    if str_eq(w, "yai.case.memory.consolidate") {
        return Some(MemoryOp::Consolidate);
    }
    None
}

/// A Case conversation operation.
#[derive(Clone, Copy, Debug, PartialEq, Eq, Structural)]
pub enum ConversationOp {
    DraftCreate,
    DraftAddText,
    DraftImport,
    DraftDeriveText,
    DraftShow,
    DraftDiscard,
    DraftSend,
    TurnList,
    TurnShow,
}

pub open spec fn conversation_op_spec(w: Seq<char>) -> Option<ConversationOp> {
    if w == "yai.case.conversation.draft.create"@ {
        Some(ConversationOp::DraftCreate)
    } else if w == "yai.case.conversation.draft.add_text"@ {
        Some(ConversationOp::DraftAddText)
    } else if w == "yai.case.conversation.draft.import"@ {
        Some(ConversationOp::DraftImport)
    } else if w == "yai.case.conversation.draft.derive_text"@ {
        Some(ConversationOp::DraftDeriveText)
    } else if w == "yai.case.conversation.draft.show"@ {
        Some(ConversationOp::DraftShow)
    } else if w == "yai.case.conversation.draft.discard"@ {
        Some(ConversationOp::DraftDiscard)
    } else if w == "yai.case.conversation.draft.send"@ {
        Some(ConversationOp::DraftSend)
    } else if w == "yai.case.conversation.turn.list"@ {
        Some(ConversationOp::TurnList)
    } else if w == "yai.case.conversation.turn.show"@ {
        Some(ConversationOp::TurnShow)
    } else {
        None
    }
}

fn conversation_op_word(w: &str) -> (r: Option<ConversationOp>)
    ensures
        r == conversation_op_spec(w@),
{
    if str_eq(w, "yai.case.conversation.draft.create") {
        return Some(ConversationOp::DraftCreate);
    }
    if str_eq(w, "yai.case.conversation.draft.add_text") {
        return Some(ConversationOp::DraftAddText);
    }
    if str_eq(w, "yai.case.conversation.draft.import") {
        return Some(ConversationOp::DraftImport);
    }
    if str_eq(w, "yai.case.conversation.draft.derive_text") {
        return Some(ConversationOp::DraftDeriveText);
    }
    if str_eq(w, "yai.case.conversation.draft.show") {
        return Some(ConversationOp::DraftShow);
    }
    if str_eq(w, "yai.case.conversation.draft.discard") {
        return Some(ConversationOp::DraftDiscard);
    }
    if str_eq(w, "yai.case.conversation.draft.send") {
        return Some(ConversationOp::DraftSend);
    }
    if str_eq(w, "yai.case.conversation.turn.list") {
        return Some(ConversationOp::TurnList);
    }
    if str_eq(w, "yai.case.conversation.turn.show") {
        return Some(ConversationOp::TurnShow);
    }
    None
}

/// The subcommand of `yai case handoff` that the first argument names.
pub fn handoff_command(args: &[String]) -> (r: Result<HandoffOp, String>)
    ensures
        match r {
            Ok(op) => args@.len() > 0 && handoff_spec(args@[0]@) == Some(op),
            Err(e) => (args@.len() == 0 || handoff_spec(args@[0]@) is None)
                && e@ == "usage: yai case handoff <offer|pending|show|accept|decline|result|reconcile>"@,
        },
{
    let op = if args.len() > 0 {
        handoff_word(args[0].as_str())
    } else {
        None
    };
    match op {
        Some(op) => Ok(op),
        None => Err(owned("usage: yai case handoff <offer|pending|show|accept|decline|result|reconcile>")),
    }
}

/// The subcommand of `yai policy` that the first argument names.
pub fn policy_command(args: &[String]) -> (r: Result<PolicyOp, String>)
    ensures
        match r {
            Ok(op) => args@.len() > 0 && policy_spec(args@[0]@) == Some(op),
            Err(e) => if args@.len() == 0 {
                e@ == "policy command is required"@
            } else {
                policy_spec(args@[0]@) is None && e@ == "unknown policy command: "@ + args@[0]@
            },
        },
{
    if args.len() == 0 {
        return Err(owned("policy command is required"));
    }
    match policy_word(args[0].as_str()) {
        Some(op) => Ok(op),
        None => {
            let mut m = chars_of("unknown policy command: ");
            push_str(&mut m, args[0].as_str());
            Err(string_of(&m))
        },
    }
}

/// The Case memory operation an operation id names.
pub fn memory_case_command(operation_id: &str) -> (r: Result<MemoryOp, String>)
    ensures
        match r {
            Ok(op) => memory_op_spec(operation_id@) == Some(op),
            Err(e) => memory_op_spec(operation_id@) is None && e@ == "unsupported Case memory operation: "@ + operation_id@,
        },
{
    match memory_op_word(operation_id) {
        Some(op) => Ok(op),
        None => {
            let mut m = chars_of("unsupported Case memory operation: ");
            push_str(&mut m, operation_id);
            Err(string_of(&m))
        },
    }
}

/// The Case conversation operation an operation id names.
pub fn conversation_case_command(operation: &str) -> (r: Result<ConversationOp, String>)
    ensures
        match r {
            Ok(op) => conversation_op_spec(operation@) == Some(op),
            Err(e) => conversation_op_spec(operation@) is None && e@ == "conversation_registry_handler_not_resolved:"@ + operation@,
        },
{
    match conversation_op_word(operation) {
        Some(op) => Ok(op),
        None => {
            let mut m = chars_of("conversation_registry_handler_not_resolved:");
            push_str(&mut m, operation);
            Err(string_of(&m))
        },
    }
}

/// What `yai info` shows: the command and the state of the system it drives.
pub fn info_text() -> (t: &'static str)
    ensures
        t@ == "yai: technical YAI control command\nstatus: SPINE.51 Fact Plane Freeze\nownership: Rust operational CLI plus Rust data engine\ncanonical_state: LMDB yai.transition.v10 plus atomically materialized yai.case_state.v10\neffect_paths: typed filesystem.write with Case-native human review and no product review bypass\nsemantic_context: typed yai.projection.v5 plus yai.context_frame.v5 derived from CaseState, Tenant domain, qualified memory, review posture and ResidencyPlan\noperational_memory: yai.operational_memory.v1 derived, provenance-bound, droppable and rebuildable\ngovernance_intake: immutable source content plus Tenant-scoped yai.policy_artifact.v5 lifecycle\ncase_governance: Tenant-exact bindings plus yai.effective_policy.v3 and policy-bound authority admission\nsecurity: invocation-scoped local POSIX Principal projected into immutable Tenant security domains\nprovider-runtime: provider-specific rendering and real OpenAI-compatible HTTP invocation with typed frame lineage"@,
{
    "yai: technical YAI control command\nstatus: SPINE.51 Fact Plane Freeze\nownership: Rust operational CLI plus Rust data engine\ncanonical_state: LMDB yai.transition.v10 plus atomically materialized yai.case_state.v10\neffect_paths: typed filesystem.write with Case-native human review and no product review bypass\nsemantic_context: typed yai.projection.v5 plus yai.context_frame.v5 derived from CaseState, Tenant domain, qualified memory, review posture and ResidencyPlan\noperational_memory: yai.operational_memory.v1 derived, provenance-bound, droppable and rebuildable\ngovernance_intake: immutable source content plus Tenant-scoped yai.policy_artifact.v5 lifecycle\ncase_governance: Tenant-exact bindings plus yai.effective_policy.v3 and policy-bound authority admission\nsecurity: invocation-scoped local POSIX Principal projected into immutable Tenant security domains\nprovider-runtime: provider-specific rendering and real OpenAI-compatible HTTP invocation with typed frame lineage"
}

} // verus!
