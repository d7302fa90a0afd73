//! The decisions of the Case conversation controller, as a step from its
//! state and an application event to its next state and reply. The record
//! store, the content store and the provider stay with the caller, which
//! hands over what they gave (the committed threads, a fresh thread id).

use vstd::prelude::*;
use crate::conversation::{
    derive_thread_summaries, key_sorted, law_thread_summaries_distinct, summaries_exact, summary_views, SummaryV,
    ThreadSummary, TurnEntry,
};
use crate::seqs::views;
use crate::text::{owned, str_eq};

verus! {

/// What the controller holds between actions: the thread new turns go to,
/// and whether cancellation was asked for.
pub struct ControllerState {
    pub active_thread_id: String,
    pub cancel_requested: bool,
}

/// An application action as the controller receives it, with what the
/// caller read for it: the threads with committed turns, a fresh thread id,
/// the number of parts of a submission.
pub enum ControllerEvent {
    NewThread { fresh_id: String },
    UseThread { thread_id: String, committed: Vec<String> },
    Cancel,
    Submit { part_count: usize },
    Retry,
    Inspect { committed: Vec<String> },
}

/// The controller's reply: the thread selected and whether it holds
/// committed turns, cancellation requested, the submission or retry goes on
/// to execution, or the status.
pub enum ControllerReply {
    ThreadSelected { thread_id: String, durable: bool },
    CancellationRequested,
    Proceed,
    Status { active_thread_id: String, durable: bool },
}

/// State and reply as plain values.
pub type StateV = (Seq<char>, bool);

/// The reply as plain values: its kind (0 thread selected, 1 cancellation,
/// 2 proceed, 3 status), the thread and whether it is durable.
pub type ReplyV = (int, Seq<char>, bool);

pub open spec fn state_view(s: ControllerState) -> StateV {
    (s.active_thread_id@, s.cancel_requested)
}

pub open spec fn reply_view(r: ControllerReply) -> ReplyV {
    match r {
        ControllerReply::ThreadSelected { thread_id, durable } => (0, thread_id@, durable),
        ControllerReply::CancellationRequested => (1, Seq::empty(), false),
        ControllerReply::Proceed => (2, Seq::empty(), false),
        ControllerReply::Status { active_thread_id, durable } => (3, active_thread_id@, durable),
    }
}

/// The next state and the reply for `e` in state `s`, or the refusal (which
/// leaves the state as it was): a new thread takes the fresh id and holds no
/// turn yet; only a thread with committed turns can be selected; a
/// submission needs content; a submission or a retry clears an earlier
/// cancellation.
pub open spec fn controller_spec(s: StateV, e: ControllerEvent) -> Result<(StateV, ReplyV), Seq<char>> {
    match e {
        ControllerEvent::NewThread { fresh_id } => Ok(((fresh_id@, s.1), (0, fresh_id@, false))),
        ControllerEvent::UseThread { thread_id, committed } => if !views(committed@).contains(thread_id@) {
            Err("conversation_thread_not_in_committed_history"@)
        } else {
            Ok(((thread_id@, s.1), (0, thread_id@, true)))
        },
        ControllerEvent::Cancel => Ok(((s.0, true), (1, Seq::empty(), false))),
        ControllerEvent::Submit { part_count } => if part_count == 0 {
            Err("conversation_turn_requires_content"@)
        } else {
            Ok(((s.0, false), (2, Seq::empty(), false)))
        },
        ControllerEvent::Retry => Ok(((s.0, false), (2, Seq::empty(), false))),
        ControllerEvent::Inspect { committed } => Ok((s, (3, s.0, views(committed@).contains(s.0)))),
    }
}

fn has_thread(committed: &Vec<String>, thread_id: &str) -> (b: bool)
    ensures
        b == views(committed@).contains(thread_id@),
{
    let mut i: usize = 0;
    while i < committed.len()
        invariant
            i <= committed.len(),
            forall|j: int| 0 <= j < i ==> (#[trigger] committed@[j])@ != thread_id@,
        decreases committed.len() - i,
    {
        if str_eq(committed[i].as_str(), thread_id) {
            assert(views(committed@)[i as int] == thread_id@);
            return true;
        }
        i += 1;
    }
    proof {
        if views(committed@).contains(thread_id@) {
            let j = choose|j: int| 0 <= j < views(committed@).len() && views(committed@)[j] == thread_id@;
            assert(committed@[j]@ == thread_id@);
        }
    }
    false
}

/// One step of the controller.
pub fn controller_step(state: &ControllerState, event: &ControllerEvent) -> (r: Result<(ControllerState, ControllerReply), String>)
    ensures
        match r {
            Ok((s, rep)) => controller_spec(state_view(*state), *event) == Ok::<(StateV, ReplyV), Seq<char>>(
                (state_view(s), reply_view(rep)),
            ),
            Err(e) => controller_spec(state_view(*state), *event) == Err::<(StateV, ReplyV), Seq<char>>(e@),
        },
{
    let active = owned(state.active_thread_id.as_str());
    match event {
        ControllerEvent::NewThread { fresh_id } => Ok((
            ControllerState { active_thread_id: owned(fresh_id.as_str()), cancel_requested: state.cancel_requested },
            ControllerReply::ThreadSelected { thread_id: owned(fresh_id.as_str()), durable: false },
        )),
        ControllerEvent::UseThread { thread_id, committed } => {
            if !has_thread(committed, thread_id.as_str()) {
                return Err(owned("conversation_thread_not_in_committed_history"));
            }
            Ok((
                ControllerState { active_thread_id: owned(thread_id.as_str()), cancel_requested: state.cancel_requested },
                ControllerReply::ThreadSelected { thread_id: owned(thread_id.as_str()), durable: true },
            ))
        },
        ControllerEvent::Cancel => Ok((
            ControllerState { active_thread_id: active, cancel_requested: true },
            ControllerReply::CancellationRequested,
        )),
        ControllerEvent::Submit { part_count } => {
            if *part_count == 0 {
                return Err(owned("conversation_turn_requires_content"));
            }
            Ok((ControllerState { active_thread_id: active, cancel_requested: false }, ControllerReply::Proceed))
        },
        ControllerEvent::Retry => Ok((
            ControllerState { active_thread_id: active, cancel_requested: false },
            ControllerReply::Proceed,
        )),
        ControllerEvent::Inspect { committed } => {
            let durable = has_thread(committed, state.active_thread_id.as_str());
            Ok((
                ControllerState { active_thread_id: active, cancel_requested: state.cancel_requested },
                ControllerReply::Status { active_thread_id: owned(state.active_thread_id.as_str()), durable },
            ))
        },
    }
}

/// The controller's status: the active thread, whether it holds committed
/// turns, and the participant's threads as derived from the turns.
pub struct ControllerStatus {
    pub active_thread_id: String,
    pub active_thread_durable: bool,
    pub committed_threads: Vec<ThreadSummary>,
}

/// Some committed thread has this id.
pub open spec fn names_thread(a: Seq<SummaryV>, tid: Seq<char>) -> bool {
    exists|i: int| 0 <= i < a.len() && (#[trigger] a[i]).0 == tid
}

/// The status of the controller in state `state` over the Case's committed
/// turns `turns`, for its participant.
pub fn controller_status(state: &ControllerState, turns: &Vec<TurnEntry>, participant_id: &str) -> (st: ControllerStatus)
    ensures
        st.active_thread_id@ == state.active_thread_id@,
        summaries_exact(summary_views(st.committed_threads@), turns@, participant_id@),
        key_sorted(summary_views(st.committed_threads@)),
        st.active_thread_durable == names_thread(summary_views(st.committed_threads@), state.active_thread_id@),
{
    let committed = derive_thread_summaries(turns, participant_id);
    let mut durable = false;
    let mut i: usize = 0;
    while i < committed.len()
        invariant
            i <= committed.len(),
            durable == exists|j: int| 0 <= j < i && (#[trigger] summary_views(committed@)[j]).0 == state.active_thread_id@,
        decreases committed.len() - i,
    {
        assert(summary_views(committed@)[i as int].0 == committed@[i as int].thread_id@);
        if str_eq(committed[i].thread_id.as_str(), state.active_thread_id.as_str()) {
            durable = true;
        }
        i += 1;
    }
    ControllerStatus { active_thread_id: owned(state.active_thread_id.as_str()), active_thread_durable: durable, committed_threads: committed }
}

/// The status reports the controller's own active thread, the
/// participant's threads once each, and calls the active thread durable
/// exactly when one of them is it; a Case in which the participant has no
/// committed turn lists no thread and no durable active thread.
pub proof fn law_status(active: Seq<char>, durable: bool, committed: Seq<SummaryV>, turns: Seq<TurnEntry>, pid: Seq<char>)
    requires
        summaries_exact(committed, turns, pid),
        key_sorted(committed),
        durable == names_thread(committed, active),
    ensures
        forall|i: int, j: int| 0 <= i < j < committed.len() ==> (#[trigger] committed[i]).0 != (#[trigger] committed[j]).0,
        (forall|k: int| 0 <= k < turns.len() ==> (#[trigger] turns[k]).participant_id@ != pid) ==> committed.len() == 0 && !durable,
{
    law_thread_summaries_distinct(committed, turns, pid);
}

/// The latest thread the participant committed a turn to, from the `n`-th
/// turn back.
pub open spec fn latest_thread(ts: Seq<TurnEntry>, pid: Seq<char>, n: int) -> Option<Seq<char>>
    decreases n,
{
    if n <= 0 || n > ts.len() {
        None
    } else if ts[n - 1].participant_id@ == pid {
        Some(ts[n - 1].thread_id@)
    } else {
        latest_thread(ts, pid, n - 1)
    }
}

/// The thread a controller opens on: the participant's latest committed
/// thread, else the fresh id.
pub fn opening_thread(turns: &Vec<TurnEntry>, participant_id: &str, fresh_id: &str) -> (t: String)
    ensures
        t@ == match latest_thread(turns@, participant_id@, turns.len() as int) {
            Some(x) => x,
            None => fresh_id@,
        },
{
    let mut n: usize = turns.len();
    while n > 0
        invariant
            n <= turns.len(),
            latest_thread(turns@, participant_id@, turns.len() as int) == latest_thread(turns@, participant_id@, n as int),
        decreases n,
    {
        if str_eq(turns[n - 1].participant_id.as_str(), participant_id) {
            return owned(turns[n - 1].thread_id.as_str());
        }
        n -= 1;
    }
    owned(fresh_id)
}

/// The controller's laws: a thread outside the committed history is never
/// selected, and the refusal leaves the state as it was; a new thread is the
/// fresh one and holds no turn yet; cancellation, once asked, stays until a
/// submission or retry clears it.
pub proof fn law_controller_threads(s: StateV, e: ControllerEvent)
    ensures
        e matches ControllerEvent::UseThread { thread_id, committed } ==> (!views(committed@).contains(thread_id@)
            ==> controller_spec(s, e) is Err),
        controller_spec(s, e) matches Ok(r) ==> (r.1.0 == 0 ==> r.0.0 == r.1.1) && (r.1.0 == 0 && r.1.2 ==> (
            e matches ControllerEvent::UseThread { committed, .. } && views(committed@).contains(r.1.1))),
        e matches ControllerEvent::NewThread { fresh_id } ==> (controller_spec(s, e) matches Ok(r) && r.0.0 == fresh_id@
            && !r.1.2),
        (s.1 && !(e is Submit) && !(e is Retry) && controller_spec(s, e) is Ok) ==> controller_spec(s, e)->Ok_0.0.1,
{
}

} // verus!
