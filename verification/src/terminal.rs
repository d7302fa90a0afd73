//! The commands of the Case shell: a line that begins with `/` read into the
//! action it asks for, with its arguments, or the refusal the shell prints.
//! Carrying the action out is the host's part.

use vstd::prelude::*;
use crate::presentation::has_prefix;
use crate::render::{is_ascii_alnum, literal_external_text, literal_spec};
use crate::seqs::{first_item, first_item_from, lemma_first_item_facts, views};
use crate::text::{
    back_space, chars_match_at, chars_of, find_char_from, is_space, lemma_back_space_bounds,
    lemma_skip_space_bounds, owned, skip_space, slice_chars, string_of, trim_chars, trim_spec,
};
use crate::words::{char_views, split_words, words};

verus! {

/// A section of the Case that `/case`, `/history` and the like inspect.
#[derive(Clone, Copy, Debug, PartialEq, Eq, Structural)]
pub enum CaseSection {
    Status,
    History,
    Participants,
    Resources,
    Artifacts,
    Policy,
    Reviews,
    Provider,
    Capabilities,
    Workflow,
    Effects,
    Memory,
    Graph,
    Handoffs,
    Verify,
}

/// Where a provider endpoint stands.
#[derive(Clone, Copy, Debug, PartialEq, Eq, Structural)]
pub enum ProviderLocality {
    Loopback,
    PrivateNetwork,
    Remote,
}

/// How a handoff ended.
#[derive(Clone, Copy, Debug, PartialEq, Eq, Structural)]
pub enum HandoffOutcome {
    Succeeded,
    Failed,
    Cancelled,
}

/// A decision on a pending review.
#[derive(Clone, Copy, Debug, PartialEq, Eq, Structural)]
pub enum ReviewAction {
    Approve,
    Deny,
    Defer,
}

/// What a resource command asks of the resource.
#[derive(Clone, Copy, Debug, PartialEq, Eq, Structural)]
pub enum ResourceKind {
    FilesystemRead,
    Discover,
    DatabaseQuery,
    HttpFetch,
    ProcessRun,
    McpCatalog,
    ContentRead,
    AdmitContent,
}

/// The action a shell command asks for. The arguments of a command travel
/// beside it, in the order each variant names.
#[derive(Clone, Copy, Debug, PartialEq, Eq, Structural)]
pub enum CommandKind {
    Help,
    HelpAll,
    Setup,
    ConnectInteractive,
    AttachInteractive,
    PublishInteractive,
    ReviewInteractive,
    WorkflowBindInteractive,
    AdmitInteractive,
    RetryLatest,
    /// Operation id.
    Operation,
    Rebuild,
    /// Target, required role, text.
    HandoffOffer,
    /// Source, handoff id.
    HandoffAccept,
    /// Handoff id, local evidence reference, text.
    HandoffResult { outcome: HandoffOutcome },
    /// Handoff id.
    HandoffReconcile,
    Inspect { section: CaseSection },
    /// Executor name.
    Executor,
    /// Resource definition path.
    Attach,
    /// Policy path, publication reason.
    PolicyPublish,
    /// Endpoint, model, credential reference, suitability attestation.
    Connect { locality: ProviderLocality, trust_approved: bool, replace: bool },
    /// Scoped resource name, then the action's own arguments: a path, a name,
    /// an admission id, or a candidate digest and a path; none for a catalog.
    Resource { request: ResourceKind },
    /// Task text.
    Work,
    /// Workflow node.
    WorkflowRun,
    /// Workflow definition path.
    WorkflowBind,
    /// Node, value.
    WorkflowInput,
    WorkflowAdvance,
    /// Patch id.
    WorkflowPatchValidate,
    /// Patch id.
    WorkflowPatchAdopt,
    /// Review id, deciding participant, reason.
    Review { action: ReviewAction },
    ThreadStatus,
    ThreadList,
    Cancel,
    ThreadNew,
    /// Thread id.
    ThreadUse,
    /// Turn id.
    Retry,
    Refresh,
    /// Transcript, memory proposal and thread archive commands kept for
    /// older hosts; the host reads them from the text itself.
    Compatibility,
    Unknown,
}

/// A shell command read from its text.
pub struct ShellCommand {
    pub kind: CommandKind,
    pub args: Vec<String>,
}

/// The command as a kind and the character views of its arguments.
pub open spec fn command_view(c: ShellCommand) -> (CommandKind, Seq<Seq<char>>) {
    (c.kind, views(c.args@))
}

/// The result of reading a command: a kind with arguments, or a refusal.
pub type CommandSpec = Result<(CommandKind, Seq<Seq<char>>), Seq<char>>;

/// `s` after the prefix `p`, if it begins with it.
pub open spec fn strip_spec(s: Seq<char>, p: Seq<char>) -> Option<Seq<char>> {
    if has_prefix(s, p) {
        Some(s.subrange(p.len() as int, s.len() as int))
    } else {
        None
    }
}

/// `s` parted at its first `c`, as std's `str::split_once`.
pub open spec fn split_once_spec(s: Seq<char>, c: char) -> Option<(Seq<char>, Seq<char>)> {
    let i = first_item(s, c);
    if i < 0 {
        None
    } else {
        Some((s.subrange(0, i), s.subrange(i + 1, s.len() as int)))
    }
}

/// A character of a short identifier: an ASCII letter or digit, `.`, `_`,
/// `:` or `-`.
pub open spec fn scoped_char(c: char) -> bool {
    is_ascii_alnum(c) || c == '.' || c == '_' || c == ':' || c == '-'
}

/// Every character is an identifier character.
pub open spec fn all_scoped(v: Seq<char>) -> bool {
    forall|i: int| 0 <= i < v.len() ==> scoped_char(#[trigger] v[i])
}

/// The exact name that a short reference spells: trimmed, `prefix` put in
/// front where it is missing; non-empty, at most 160 identifier characters.
pub open spec fn scoped_name_spec(prefix: Seq<char>, value: Seq<char>) -> Result<
    Seq<char>,
    Seq<char>,
> {
    let t = trim_spec(value);
    let v = match strip_spec(t, prefix) {
        Some(r) => r,
        None => t,
    };
    if v.len() == 0 || v.len() > 160 || !all_scoped(v) {
        Err("setup_identifier_invalid"@)
    } else {
        Ok(prefix + v)
    }
}

fn lit_eq(t: &Vec<char>, lit: &str) -> (r: bool)
    ensures
        r == (t@ == lit@),
{
    let ls = chars_of(lit);
    if ls.len() != t.len() {
        return false;
    }
    let r = chars_match_at(t, &ls, 0);
    assert(r ==> t@ =~= lit@) by {
        if r {
            assert(t@.subrange(0, ls.len() as int) =~= t@);
        }
    }
    assert(t@ == lit@ ==> r) by {
        if t@ == lit@ {
            assert(t@.subrange(0, ls.len() as int) =~= t@);
        }
    }
    r
}

fn strip(t: &Vec<char>, lit: &str) -> (r: Option<Vec<char>>)
    ensures
        match r {
            Some(v) => strip_spec(t@, lit@) == Some(v@),
            None => strip_spec(t@, lit@) is None,
        },
{
    let ls = chars_of(lit);
    if ls.len() > t.len() {
        return None;
    }
    if chars_match_at(t, &ls, 0) {
        Some(slice_chars(t, ls.len(), t.len()))
    } else {
        None
    }
}

fn split_space(s: &Vec<char>) -> (r: Option<(Vec<char>, Vec<char>)>)
    ensures
        match r {
            Some(p) => split_once_spec(s@, ' ') == Some((p.0@, p.1@)),
            None => split_once_spec(s@, ' ') is None,
        },
{
    match find_char_from(s, ' ', 0) {
        Some(i) => {
            assert(i < s.len());
            let a = slice_chars(s, 0, i);
            let b = slice_chars(s, i + 1, s.len());
            Some((a, b))
        },
        None => None,
    }
}

fn text(v: &Vec<char>) -> (s: String)
    ensures
        s@ == v@,
{
    string_of(v)
}

fn no_args() -> (out: Vec<String>)
    ensures
        views(out@) == Seq::<Seq<char>>::empty(),
{
    let out: Vec<String> = Vec::new();
    assert(views(out@) =~= Seq::<Seq<char>>::empty());
    out
}

fn args1(a: &Vec<char>) -> (out: Vec<String>)
    ensures
        views(out@) == seq![a@],
{
    let mut out: Vec<String> = Vec::new();
    out.push(text(a));
    assert(views(out@) =~= seq![a@]);
    out
}

fn args2(a: &Vec<char>, b: &Vec<char>) -> (out: Vec<String>)
    ensures
        views(out@) == seq![a@, b@],
{
    let mut out: Vec<String> = Vec::new();
    out.push(text(a));
    out.push(text(b));
    assert(views(out@) =~= seq![a@, b@]);
    out
}

fn args3(a: &Vec<char>, b: &Vec<char>, c: &Vec<char>) -> (out: Vec<String>)
    ensures
        views(out@) == seq![a@, b@, c@],
{
    let mut out: Vec<String> = Vec::new();
    out.push(text(a));
    out.push(text(b));
    out.push(text(c));
    assert(views(out@) =~= seq![a@, b@, c@]);
    out
}

fn args4(a: &Vec<char>, b: &Vec<char>, c: &Vec<char>, d: &Vec<char>) -> (out: Vec<String>)
    ensures
        views(out@) == seq![a@, b@, c@, d@],
{
    let mut out: Vec<String> = Vec::new();
    out.push(text(a));
    out.push(text(b));
    out.push(text(c));
    out.push(text(d));
    assert(views(out@) =~= seq![a@, b@, c@, d@]);
    out
}

fn refuse(e: &str) -> (r: Result<ShellCommand, String>)
    ensures
        r matches Err(m) && m@ == e@,
{
    Err(crate::text::owned(e))
}

fn command(kind: CommandKind, args: Vec<String>) -> (r: Result<ShellCommand, String>)
    ensures
        r matches Ok(c) && command_view(c) == (kind, views(args@)),
{
    Ok(ShellCommand { kind, args })
}

/// The exact name a short reference spells within `prefix`.
pub fn scoped_name(prefix: &str, value: &str) -> (r: Result<String, String>)
    ensures
        match r {
            Ok(s) => scoped_name_spec(prefix@, value@) == Ok::<Seq<char>, Seq<char>>(s@),
            Err(e) => scoped_name_spec(prefix@, value@) == Err::<Seq<char>, Seq<char>>(e@),
        },
{
    let t = trim_chars(&chars_of(value));
    let v = match strip(&t, prefix) {
        Some(r) => r,
        None => t,
    };
    if v.len() == 0 || v.len() > 160 {
        return Err(crate::text::owned("setup_identifier_invalid"));
    }
    let mut i: usize = 0;
    while i < v.len()
        invariant
            i <= v.len(),
            0 < v.len() <= 160,
            v@ == (match strip_spec(trim_spec(value@), prefix@) {
                Some(r) => r,
                None => trim_spec(value@),
            }),
            forall|k: int| 0 <= k < i ==> scoped_char(#[trigger] v@[k]),
        decreases v.len() - i,
    {
        let c = v[i];
        let ok = ('0' <= c && c <= '9') || ('a' <= c && c <= 'z') || ('A' <= c && c <= 'Z') || c
            == '.' || c == '_' || c == ':' || c == '-';
        if !ok {
            assert(!scoped_char(v@[i as int]));
            let ghost sv = match strip_spec(trim_spec(value@), prefix@) {
                Some(r) => r,
                None => trim_spec(value@),
            };
            assert(!all_scoped(sv));
            return Err(crate::text::owned("setup_identifier_invalid"));
        }
        i += 1;
    }
    let mut out = chars_of(prefix);
    crate::text::push_all(&mut out, &v);
    Ok(string_of(&out))
}


/// A command read, seen through the views of its arguments.
pub open spec fn result_view(r: Result<ShellCommand, String>) -> CommandSpec {
    match r {
        Ok(c) => Ok(command_view(c)),
        Err(e) => Err(e@),
    }
}

/// A step of reading: the command, or nothing where the step does not apply.
pub open spec fn step_view(r: Option<Result<ShellCommand, String>>) -> Option<CommandSpec> {
    match r {
        Some(x) => Some(result_view(x)),
        None => None,
    }
}

pub open spec fn ok_cmd(kind: CommandKind, args: Seq<Seq<char>>) -> CommandSpec {
    Ok((kind, args))
}

/// The first space-separated piece of `s`, and what follows the space, as
/// successive pieces of std's `str::splitn` come.
pub open spec fn first_piece(s: Seq<char>) -> (Seq<char>, Option<Seq<char>>) {
    match split_once_spec(s, ' ') {
        Some(p) => (p.0, Some(p.1)),
        None => (s, None),
    }
}

/// The commands that stand alone, and `/operation ID`.
pub open spec fn plain_step(t: Seq<char>) -> Option<CommandSpec> {
    if t == "/help"@ {
        Some(ok_cmd(CommandKind::Help, seq![]))
    } else if t == "/help all"@ {
        Some(ok_cmd(CommandKind::HelpAll, seq![]))
    } else if t == "/setup"@ {
        Some(ok_cmd(CommandKind::Setup, seq![]))
    } else if t == "/connect"@ {
        Some(ok_cmd(CommandKind::ConnectInteractive, seq![]))
    } else if t == "/attach"@ {
        Some(ok_cmd(CommandKind::AttachInteractive, seq![]))
    } else if t == "/policy publish"@ {
        Some(ok_cmd(CommandKind::PublishInteractive, seq![]))
    } else if t == "/review"@ {
        Some(ok_cmd(CommandKind::ReviewInteractive, seq![]))
    } else if t == "/workflow bind"@ {
        Some(ok_cmd(CommandKind::WorkflowBindInteractive, seq![]))
    } else if t == "/admit"@ {
        Some(ok_cmd(CommandKind::AdmitInteractive, seq![]))
    } else if t == "/retry"@ {
        Some(ok_cmd(CommandKind::RetryLatest, seq![]))
    } else if strip_spec(t, "/operation "@) is Some {
        Some(ok_cmd(CommandKind::Operation, seq![trim_spec(strip_spec(t, "/operation "@).unwrap())]))
    } else if t == "/rebuild"@ {
        Some(ok_cmd(CommandKind::Rebuild, seq![]))
    } else {
        None
    }
}

fn plain_step_exec(t: &Vec<char>) -> (r: Option<Result<ShellCommand, String>>)
    ensures
        step_view(r) == plain_step(t@),
{
    if lit_eq(t, "/help") {
        return Some(command(CommandKind::Help, no_args()));
    }
    if lit_eq(t, "/help all") {
        return Some(command(CommandKind::HelpAll, no_args()));
    }
    if lit_eq(t, "/setup") {
        return Some(command(CommandKind::Setup, no_args()));
    }
    if lit_eq(t, "/connect") {
        return Some(command(CommandKind::ConnectInteractive, no_args()));
    }
    if lit_eq(t, "/attach") {
        return Some(command(CommandKind::AttachInteractive, no_args()));
    }
    if lit_eq(t, "/policy publish") {
        return Some(command(CommandKind::PublishInteractive, no_args()));
    }
    if lit_eq(t, "/review") {
        return Some(command(CommandKind::ReviewInteractive, no_args()));
    }
    if lit_eq(t, "/workflow bind") {
        return Some(command(CommandKind::WorkflowBindInteractive, no_args()));
    }
    if lit_eq(t, "/admit") {
        return Some(command(CommandKind::AdmitInteractive, no_args()));
    }
    if lit_eq(t, "/retry") {
        return Some(command(CommandKind::RetryLatest, no_args()));
    }
    if let Some(id) = strip(t, "/operation ") {
        return Some(command(CommandKind::Operation, args1(&trim_chars(&id))));
    }
    if lit_eq(t, "/rebuild") {
        return Some(command(CommandKind::Rebuild, no_args()));
    }
    None
}

/// `/handoff offer|accept|result|reconcile ...`.
pub open spec fn handoff_spec(request: Seq<char>) -> CommandSpec {
    match split_once_spec(request, ' ') {
        None => Err("handoff_action_required"@),
        Some(vr) => {
            let verb = vr.0;
            let rest = vr.1;
            if verb == "offer"@ {
                let p1 = first_piece(rest);
                match p1.1 {
                    None => Err("handoff_role_required"@),
                    Some(r1) => {
                        let p2 = first_piece(r1);
                        match p2.1 {
                            None => Err("handoff_text_required"@),
                            Some(body) => ok_cmd(CommandKind::HandoffOffer, seq![p1.0, p2.0, body]),
                        }
                    },
                }
            } else if verb == "accept"@ {
                match split_once_spec(rest, ' ') {
                    None => Err("handoff_syntax: /handoff accept SOURCE ID"@),
                    Some(si) => ok_cmd(CommandKind::HandoffAccept, seq![si.0, si.1]),
                }
            } else if verb == "result"@ {
                let p1 = first_piece(rest);
                match p1.1 {
                    None => Err("handoff_outcome_required: succeeded|failed|cancelled"@),
                    Some(r1) => {
                        let p2 = first_piece(r1);
                        let outcome = if p2.0 == "succeeded"@ {
                            Some(HandoffOutcome::Succeeded)
                        } else if p2.0 == "failed"@ {
                            Some(HandoffOutcome::Failed)
                        } else if p2.0 == "cancelled"@ {
                            Some(HandoffOutcome::Cancelled)
                        } else {
                            None
                        };
                        match outcome {
                            None => Err("handoff_outcome_required: succeeded|failed|cancelled"@),
                            Some(o) => match p2.1 {
                                None => Err("handoff_local_evidence_required"@),
                                Some(r2) => {
                                    let p3 = first_piece(r2);
                                    match p3.1 {
                                        None => Err("handoff_text_required"@),
                                        Some(body) => ok_cmd(
                                            CommandKind::HandoffResult { outcome: o },
                                            seq![p1.0, p3.0, body],
                                        ),
                                    }
                                },
                            },
                        }
                    },
                }
            } else if verb == "reconcile"@ {
                ok_cmd(CommandKind::HandoffReconcile, seq![rest])
            } else {
                Err("handoff_action_unknown"@)
            }
        },
    }
}

fn first_piece_exec(s: &Vec<char>) -> (r: (Vec<char>, Option<Vec<char>>))
    ensures
        first_piece(s@) == (r.0@, match r.1 {
            Some(v) => Some(v@),
            None => None::<Seq<char>>,
        }),
{
    match split_space(s) {
        Some(p) => (p.0, Some(p.1)),
        None => (slice_chars(s, 0, s.len()), None),
    }
}

fn handoff_exec(request: &Vec<char>) -> (r: Result<ShellCommand, String>)
    ensures
        result_view(r) == handoff_spec(request@),
{
    let (verb, rest) = match split_space(request) {
        Some(p) => p,
        None => return refuse("handoff_action_required"),
    };
    if lit_eq(&verb, "offer") {
        let (target, r1) = first_piece_exec(&rest);
        let r1 = match r1 {
            Some(v) => v,
            None => return refuse("handoff_role_required"),
        };
        let (role, body) = first_piece_exec(&r1);
        match body {
            Some(b) => command(CommandKind::HandoffOffer, args3(&target, &role, &b)),
            None => refuse("handoff_text_required"),
        }
    } else if lit_eq(&verb, "accept") {
        match split_space(&rest) {
            Some((source, id)) => command(CommandKind::HandoffAccept, args2(&source, &id)),
            None => refuse("handoff_syntax: /handoff accept SOURCE ID"),
        }
    } else if lit_eq(&verb, "result") {
        let (id, r1) = first_piece_exec(&rest);
        let r1 = match r1 {
            Some(v) => v,
            None => return refuse("handoff_outcome_required: succeeded|failed|cancelled"),
        };
        let (o, r2) = first_piece_exec(&r1);
        let outcome = if lit_eq(&o, "succeeded") {
            HandoffOutcome::Succeeded
        } else if lit_eq(&o, "failed") {
            HandoffOutcome::Failed
        } else if lit_eq(&o, "cancelled") {
            HandoffOutcome::Cancelled
        } else {
            return refuse("handoff_outcome_required: succeeded|failed|cancelled");
        };
        let r2 = match r2 {
            Some(v) => v,
            None => return refuse("handoff_local_evidence_required"),
        };
        let (evidence, body) = first_piece_exec(&r2);
        match body {
            Some(b) => command(CommandKind::HandoffResult { outcome }, args3(&id, &evidence, &b)),
            None => refuse("handoff_text_required"),
        }
    } else if lit_eq(&verb, "reconcile") {
        command(CommandKind::HandoffReconcile, args1(&rest))
    } else {
        refuse("handoff_action_unknown")
    }
}

/// The inspected section that a command names.
pub open spec fn section_spec(t: Seq<char>) -> Option<CaseSection> {
    if t == "/case"@ {
        Some(CaseSection::Status)
    } else if t == "/history"@ {
        Some(CaseSection::History)
    } else if t == "/participants"@ {
        Some(CaseSection::Participants)
    } else if t == "/resources"@ {
        Some(CaseSection::Resources)
    } else if t == "/artifacts"@ {
        Some(CaseSection::Artifacts)
    } else if t == "/policy"@ {
        Some(CaseSection::Policy)
    } else if t == "/reviews"@ {
        Some(CaseSection::Reviews)
    } else if t == "/provider"@ {
        Some(CaseSection::Provider)
    } else if t == "/capabilities"@ {
        Some(CaseSection::Capabilities)
    } else if t == "/workflow"@ {
        Some(CaseSection::Workflow)
    } else if t == "/effects"@ {
        Some(CaseSection::Effects)
    } else if t == "/memory"@ {
        Some(CaseSection::Memory)
    } else if t == "/graph"@ {
        Some(CaseSection::Graph)
    } else if t == "/handoffs"@ {
        Some(CaseSection::Handoffs)
    } else if t == "/verify"@ {
        Some(CaseSection::Verify)
    } else {
        None
    }
}

fn section_exec(t: &Vec<char>) -> (r: Option<CaseSection>)
    ensures
        r == section_spec(t@),
{
    if lit_eq(t, "/case") {
        Some(CaseSection::Status)
    } else if lit_eq(t, "/history") {
        Some(CaseSection::History)
    } else if lit_eq(t, "/participants") {
        Some(CaseSection::Participants)
    } else if lit_eq(t, "/resources") {
        Some(CaseSection::Resources)
    } else if lit_eq(t, "/artifacts") {
        Some(CaseSection::Artifacts)
    } else if lit_eq(t, "/policy") {
        Some(CaseSection::Policy)
    } else if lit_eq(t, "/reviews") {
        Some(CaseSection::Reviews)
    } else if lit_eq(t, "/provider") {
        Some(CaseSection::Provider)
    } else if lit_eq(t, "/capabilities") {
        Some(CaseSection::Capabilities)
    } else if lit_eq(t, "/workflow") {
        Some(CaseSection::Workflow)
    } else if lit_eq(t, "/effects") {
        Some(CaseSection::Effects)
    } else if lit_eq(t, "/memory") {
        Some(CaseSection::Memory)
    } else if lit_eq(t, "/graph") {
        Some(CaseSection::Graph)
    } else if lit_eq(t, "/handoffs") {
        Some(CaseSection::Handoffs)
    } else if lit_eq(t, "/verify") {
        Some(CaseSection::Verify)
    } else {
        None
    }
}

/// Handoffs, inspections, `/executor`, `/attach PATH`, `/policy publish`.
pub open spec fn case_step(t: Seq<char>) -> Option<CommandSpec> {
    if strip_spec(t, "/handoff "@) is Some {
        Some(handoff_spec(strip_spec(t, "/handoff "@).unwrap()))
    } else if section_spec(t) is Some {
        Some(ok_cmd(CommandKind::Inspect { section: section_spec(t).unwrap() }, seq![]))
    } else if strip_spec(t, "/executor "@) is Some {
        Some(ok_cmd(CommandKind::Executor, seq![trim_spec(strip_spec(t, "/executor "@).unwrap())]))
    } else if strip_spec(t, "/attach "@) is Some {
        Some(ok_cmd(CommandKind::Attach, seq![trim_spec(strip_spec(t, "/attach "@).unwrap())]))
    } else if strip_spec(t, "/policy publish "@) is Some {
        match split_once_spec(strip_spec(t, "/policy publish "@).unwrap(), ' ') {
            None => Some(Err("policy_syntax: /policy publish FILE REASON"@)),
            Some(pr) => Some(ok_cmd(CommandKind::PolicyPublish, seq![pr.0, pr.1])),
        }
    } else {
        None
    }
}

fn case_step_exec(t: &Vec<char>) -> (r: Option<Result<ShellCommand, String>>)
    ensures
        step_view(r) == case_step(t@),
{
    if let Some(request) = strip(t, "/handoff ") {
        return Some(handoff_exec(&request));
    }
    if let Some(section) = section_exec(t) {
        return Some(command(CommandKind::Inspect { section }, no_args()));
    }
    if let Some(name) = strip(t, "/executor ") {
        return Some(command(CommandKind::Executor, args1(&trim_chars(&name))));
    }
    if let Some(path) = strip(t, "/attach ") {
        return Some(command(CommandKind::Attach, args1(&trim_chars(&path))));
    }
    if let Some(request) = strip(t, "/policy publish ") {
        return match split_space(&request) {
            Some((path, reason)) => Some(command(CommandKind::PolicyPublish, args2(&path, &reason))),
            None => Some(refuse("policy_syntax: /policy publish FILE REASON")),
        };
    }
    None
}


/// The options of `/connect ENDPOINT MODEL ...` read from field `i` on:
/// trust approval, attestation, locality, credential reference, replacement.
/// Each option may stand once; all but `--replace` take a value.
pub open spec fn connect_options(
    f: Seq<Seq<char>>,
    i: int,
    seen: Seq<Seq<char>>,
    trust: bool,
    evidence: Option<Seq<char>>,
    locality: ProviderLocality,
    credential: Seq<char>,
    replace: bool,
) -> Result<(bool, Option<Seq<char>>, ProviderLocality, Seq<char>, bool), Seq<char>>
    decreases f.len() - i,
{
    if i < 0 || i >= f.len() {
        Ok((trust, evidence, locality, credential, replace))
    } else {
        let flag = f[i];
        if seen.contains(flag) {
            Err("connect_duplicate_option"@)
        } else if flag == "--replace"@ {
            connect_options(f, i + 1, seen.push(flag), trust, evidence, locality, credential, true)
        } else if i + 1 >= f.len() {
            Err("connect_option_requires_value"@)
        } else {
            let v = f[i + 1];
            let seen2 = seen.push(flag);
            if flag == "--trust"@ && v == "approve"@ {
                connect_options(f, i + 2, seen2, true, evidence, locality, credential, replace)
            } else if flag == "--attest"@ {
                connect_options(f, i + 2, seen2, trust, Some(v), locality, credential, replace)
            } else if flag == "--locality"@ {
                if v == "loopback"@ {
                    connect_options(f, i + 2, seen2, trust, evidence, ProviderLocality::Loopback, credential, replace)
                } else if v == "private_network"@ {
                    connect_options(f, i + 2, seen2, trust, evidence, ProviderLocality::PrivateNetwork, credential, replace)
                } else if v == "remote"@ {
                    connect_options(f, i + 2, seen2, trust, evidence, ProviderLocality::Remote, credential, replace)
                } else {
                    Err("connect_locality_invalid"@)
                }
            } else if flag == "--credential-ref"@ {
                connect_options(f, i + 2, seen2, trust, evidence, locality, v, replace)
            } else {
                Err("connect_option_invalid"@)
            }
        }
    }
}

/// `/connect ENDPOINT MODEL --trust approve --attest REF [options]`.
pub open spec fn connect_spec(request: Seq<char>) -> CommandSpec {
    let f = words(request);
    if f.len() < 6 {
        Err("connect_syntax: /connect ENDPOINT MODEL --trust approve --attest evidence:REF [--locality loopback|private_network|remote] [--credential-ref env:NAME] [--replace]"@)
    } else {
        match connect_options(f, 2, seq![], false, None, ProviderLocality::Loopback, "none"@, false) {
            Err(e) => Err(e),
            Ok(o) => match o.1 {
                None => Err("connect_explicit_attestation_required"@),
                Some(evidence) => ok_cmd(
                    CommandKind::Connect { locality: o.2, trust_approved: o.0, replace: o.4 },
                    seq![f[0], f[1], o.3, evidence],
                ),
            },
        }
    }
}

fn seen_has(seen: &Vec<Vec<char>>, flag: &Vec<char>) -> (r: bool)
    ensures
        r == char_views(seen@).contains(flag@),
{
    let mut i: usize = 0;
    while i < seen.len()
        invariant
            i <= seen.len(),
            forall|k: int| 0 <= k < i ==> (#[trigger] seen@[k])@ != flag@,
        decreases seen.len() - i,
    {
        if seen[i].len() == flag.len() && chars_match_at(&seen[i], flag, 0) {
            assert(seen@[i as int]@ =~= flag@) by {
                assert(seen@[i as int]@.subrange(0, flag.len() as int) =~= seen@[i as int]@);
            }
            assert(char_views(seen@)[i as int] == flag@);
            return true;
        }
        proof {
            if seen@[i as int]@ == flag@ {
                assert(seen@[i as int]@.subrange(0, flag.len() as int) =~= seen@[i as int]@);
            }
        }
        i += 1;
    }
    assert(!char_views(seen@).contains(flag@)) by {
        if char_views(seen@).contains(flag@) {
            let k = choose|k: int| 0 <= k < char_views(seen@).len() && char_views(seen@)[k]
                == flag@;
            assert(seen@[k]@ == flag@);
        }
    }
    false
}

fn copy_chars(v: &Vec<char>) -> (out: Vec<char>)
    ensures
        out@ == v@,
{
    slice_chars(v, 0, v.len())
}

fn connect_exec(request: &Vec<char>) -> (r: Result<ShellCommand, String>)
    ensures
        result_view(r) == connect_spec(request@),
{
    let f = split_words(request);
    if f.len() < 6 {
        return refuse(
            "connect_syntax: /connect ENDPOINT MODEL --trust approve --attest evidence:REF [--locality loopback|private_network|remote] [--credential-ref env:NAME] [--replace]",
        );
    }
    let ghost fv = char_views(f@);
    let mut trust = false;
    let mut evidence: Option<Vec<char>> = None;
    let mut locality = ProviderLocality::Loopback;
    let mut credential: Vec<char> = chars_of("none");
    let mut replace = false;
    let mut seen: Vec<Vec<char>> = Vec::new();
    assert(char_views(seen@) =~= Seq::<Seq<char>>::empty());
    let mut i: usize = 2;
    while i < f.len()
        invariant
            2 <= i <= f.len() + 1,
            fv == char_views(f@),
            fv == words(request@),
            f.len() >= 6,
            connect_options(fv, 2, seq![], false, None, ProviderLocality::Loopback, "none"@, false)
                == connect_options(
                fv,
                i as int,
                char_views(seen@),
                trust,
                match evidence {
                    Some(e) => Some(e@),
                    None => None::<Seq<char>>,
                },
                locality,
                credential@,
                replace,
            ),
        decreases f.len() - i,
    {
        let ghost before = char_views(seen@);
        assert(fv[i as int] == f@[i as int]@);
        if seen_has(&seen, &f[i]) {
            return refuse("connect_duplicate_option");
        }
        seen.push(copy_chars(&f[i]));
        assert(char_views(seen@) =~= before.push(fv[i as int]));
        if lit_eq(&f[i], "--replace") {
            replace = true;
            i += 1;
        } else {
            if i + 1 >= f.len() {
                return refuse("connect_option_requires_value");
            }
            assert(fv[i + 1] == f@[i + 1]@);
            if lit_eq(&f[i], "--trust") && lit_eq(&f[i + 1], "approve") {
                trust = true;
            } else if lit_eq(&f[i], "--attest") {
                evidence = Some(copy_chars(&f[i + 1]));
            } else if lit_eq(&f[i], "--locality") {
                if lit_eq(&f[i + 1], "loopback") {
                    locality = ProviderLocality::Loopback;
                } else if lit_eq(&f[i + 1], "private_network") {
                    locality = ProviderLocality::PrivateNetwork;
                } else if lit_eq(&f[i + 1], "remote") {
                    locality = ProviderLocality::Remote;
                } else {
                    return refuse("connect_locality_invalid");
                }
            } else if lit_eq(&f[i], "--credential-ref") {
                credential = copy_chars(&f[i + 1]);
            } else {
                return refuse("connect_option_invalid");
            }
            i += 2;
        }
    }
    assert(fv[0] == f@[0]@);
    assert(fv[1] == f@[1]@);
    match evidence {
        None => refuse("connect_explicit_attestation_required"),
        Some(e) => command(
            CommandKind::Connect { locality, trust_approved: trust, replace },
            args4(&f[0], &f[1], &credential, &e),
        ),
    }
}

/// The resource command a line begins with, and what follows the command.
pub open spec fn resource_prefix(t: Seq<char>) -> Option<(ResourceKind, Seq<char>)> {
    if strip_spec(t, "/read "@) is Some {
        Some((ResourceKind::FilesystemRead, strip_spec(t, "/read "@).unwrap()))
    } else if strip_spec(t, "/discover "@) is Some {
        Some((ResourceKind::Discover, strip_spec(t, "/discover "@).unwrap()))
    } else if strip_spec(t, "/query "@) is Some {
        Some((ResourceKind::DatabaseQuery, strip_spec(t, "/query "@).unwrap()))
    } else if strip_spec(t, "/fetch "@) is Some {
        Some((ResourceKind::HttpFetch, strip_spec(t, "/fetch "@).unwrap()))
    } else if strip_spec(t, "/test "@) is Some {
        Some((ResourceKind::ProcessRun, strip_spec(t, "/test "@).unwrap()))
    } else if strip_spec(t, "/catalog "@) is Some {
        Some((ResourceKind::McpCatalog, strip_spec(t, "/catalog "@).unwrap()))
    } else if strip_spec(t, "/admit "@) is Some {
        Some((ResourceKind::AdmitContent, strip_spec(t, "/admit "@).unwrap()))
    } else if strip_spec(t, "/material "@) is Some {
        Some((ResourceKind::ContentRead, strip_spec(t, "/material "@).unwrap()))
    } else {
        None
    }
}

/// The arguments of a resource action after the resource, or its refusal.
pub open spec fn resource_args(kind: ResourceKind, argument: Seq<char>) -> Result<
    Seq<Seq<char>>,
    Seq<char>,
> {
    match kind {
        ResourceKind::McpCatalog => if argument.len() == 0 {
            Ok(seq![])
        } else {
            Err("resource_action_syntax_invalid"@)
        },
        ResourceKind::AdmitContent => match split_once_spec(argument, ' ') {
            None => Err("admit_syntax: /admit RESOURCE DIGEST PATH"@),
            Some(dp) => Ok(seq![dp.0, dp.1]),
        },
        _ => Ok(seq![argument]),
    }
}

/// `/read RESOURCE PATH` and the other resource commands.
pub open spec fn resource_spec(kind: ResourceKind, request: Seq<char>) -> CommandSpec {
    let tr = trim_spec(request);
    let ra = match split_once_spec(tr, ' ') {
        Some(p) => p,
        None => (tr, Seq::empty()),
    };
    match resource_args(kind, trim_spec(ra.1)) {
        Err(e) => Err(e),
        Ok(rest) => match scoped_name_spec("resource:"@, ra.0) {
            Err(e) => Err(e),
            Ok(name) => ok_cmd(CommandKind::Resource { request: kind }, seq![name] + rest),
        },
    }
}

fn resource_prefix_exec(t: &Vec<char>) -> (r: Option<(ResourceKind, Vec<char>)>)
    ensures
        match r {
            Some(p) => resource_prefix(t@) == Some((p.0, p.1@)),
            None => resource_prefix(t@) is None,
        },
{
    if let Some(r) = strip(t, "/read ") {
        return Some((ResourceKind::FilesystemRead, r));
    }
    if let Some(r) = strip(t, "/discover ") {
        return Some((ResourceKind::Discover, r));
    }
    if let Some(r) = strip(t, "/query ") {
        return Some((ResourceKind::DatabaseQuery, r));
    }
    if let Some(r) = strip(t, "/fetch ") {
        return Some((ResourceKind::HttpFetch, r));
    }
    if let Some(r) = strip(t, "/test ") {
        return Some((ResourceKind::ProcessRun, r));
    }
    if let Some(r) = strip(t, "/catalog ") {
        return Some((ResourceKind::McpCatalog, r));
    }
    if let Some(r) = strip(t, "/admit ") {
        return Some((ResourceKind::AdmitContent, r));
    }
    if let Some(r) = strip(t, "/material ") {
        return Some((ResourceKind::ContentRead, r));
    }
    None
}

fn resource_exec(kind: ResourceKind, request: &Vec<char>) -> (r: Result<ShellCommand, String>)
    ensures
        result_view(r) == resource_spec(kind, request@),
{
    let tr = trim_chars(request);
    let (resource, argument) = match split_space(&tr) {
        Some(p) => p,
        None => (copy_chars(&tr), Vec::new()),
    };
    assert(argument@ == (match split_once_spec(tr@, ' ') {
        Some(p) => p,
        None => (tr@, Seq::empty()),
    }).1);
    let argument = trim_chars(&argument);
    let pair: Option<(Vec<char>, Vec<char>)> = match kind {
        ResourceKind::McpCatalog => {
            if argument.len() != 0 {
                return refuse("resource_action_syntax_invalid");
            }
            None
        },
        ResourceKind::AdmitContent => match split_space(&argument) {
            Some(p) => Some(p),
            None => return refuse("admit_syntax: /admit RESOURCE DIGEST PATH"),
        },
        _ => None,
    };
    let name = match scoped_name("resource:", string_of(&resource).as_str()) {
        Ok(n) => chars_of(n.as_str()),
        Err(e) => return Err(e),
    };
    proof {
        assert(seq![name@] + Seq::<Seq<char>>::empty() =~= seq![name@]);
        assert(seq![name@] + seq![argument@] =~= seq![name@, argument@]);
        if pair is Some {
            let p = pair->0;
            assert(seq![name@] + seq![p.0@, p.1@] =~= seq![name@, p.0@, p.1@]);
        }
    }
    match kind {
        ResourceKind::McpCatalog => command(CommandKind::Resource { request: kind }, args1(&name)),
        ResourceKind::AdmitContent => match pair {
            Some((digest, path)) => command(
                CommandKind::Resource { request: kind },
                args3(&name, &digest, &path),
            ),
            None => refuse("admit_syntax: /admit RESOURCE DIGEST PATH"),
        },
        _ => command(CommandKind::Resource { request: kind }, args2(&name, &argument)),
    }
}


/// `/work TASK` and the workflow commands.
pub open spec fn work_step(t: Seq<char>) -> Option<CommandSpec> {
    if strip_spec(t, "/work "@) is Some {
        Some(ok_cmd(CommandKind::Work, seq![strip_spec(t, "/work "@).unwrap()]))
    } else if strip_spec(t, "/workflow run "@) is Some {
        Some(ok_cmd(CommandKind::WorkflowRun, seq![trim_spec(strip_spec(t, "/workflow run "@).unwrap())]))
    } else if strip_spec(t, "/workflow bind "@) is Some {
        Some(ok_cmd(CommandKind::WorkflowBind, seq![trim_spec(strip_spec(t, "/workflow bind "@).unwrap())]))
    } else if strip_spec(t, "/workflow input "@) is Some {
        match split_once_spec(strip_spec(t, "/workflow input "@).unwrap(), ' ') {
            None => Some(Err("workflow_input_syntax: NODE TEXT"@)),
            Some(nv) => Some(ok_cmd(CommandKind::WorkflowInput, seq![nv.0, nv.1])),
        }
    } else if t == "/workflow advance"@ {
        Some(ok_cmd(CommandKind::WorkflowAdvance, seq![]))
    } else if strip_spec(t, "/workflow patch validate "@) is Some {
        Some(ok_cmd(CommandKind::WorkflowPatchValidate, seq![trim_spec(strip_spec(t, "/workflow patch validate "@).unwrap())]))
    } else if strip_spec(t, "/workflow patch adopt "@) is Some {
        Some(ok_cmd(CommandKind::WorkflowPatchAdopt, seq![trim_spec(strip_spec(t, "/workflow patch adopt "@).unwrap())]))
    } else {
        None
    }
}

fn work_step_exec(t: &Vec<char>) -> (r: Option<Result<ShellCommand, String>>)
    ensures
        step_view(r) == work_step(t@),
{
    if let Some(task) = strip(t, "/work ") {
        return Some(command(CommandKind::Work, args1(&task)));
    }
    if let Some(node) = strip(t, "/workflow run ") {
        return Some(command(CommandKind::WorkflowRun, args1(&trim_chars(&node))));
    }
    if let Some(path) = strip(t, "/workflow bind ") {
        return Some(command(CommandKind::WorkflowBind, args1(&trim_chars(&path))));
    }
    if let Some(input) = strip(t, "/workflow input ") {
        return match split_space(&input) {
            Some((node, value)) => Some(command(CommandKind::WorkflowInput, args2(&node, &value))),
            None => Some(refuse("workflow_input_syntax: NODE TEXT")),
        };
    }
    if lit_eq(t, "/workflow advance") {
        return Some(command(CommandKind::WorkflowAdvance, no_args()));
    }
    if let Some(patch) = strip(t, "/workflow patch validate ") {
        return Some(command(CommandKind::WorkflowPatchValidate, args1(&trim_chars(&patch))));
    }
    if let Some(patch) = strip(t, "/workflow patch adopt ") {
        return Some(command(CommandKind::WorkflowPatchAdopt, args1(&trim_chars(&patch))));
    }
    None
}

/// `/review approve|deny|defer REVIEW PARTICIPANT REASON`.
pub open spec fn review_spec(request: Seq<char>) -> CommandSpec {
    let p1 = first_piece(request);
    let action = if p1.0 == "approve"@ {
        Some(ReviewAction::Approve)
    } else if p1.0 == "deny"@ {
        Some(ReviewAction::Deny)
    } else if p1.0 == "defer"@ {
        Some(ReviewAction::Defer)
    } else {
        None
    };
    match action {
        None => Err("review_syntax: /review approve|deny|defer REVIEW PARTICIPANT reason"@),
        Some(a) => match p1.1 {
            None => Err("review_id_required"@),
            Some(r1) => {
                let p2 = first_piece(r1);
                match p2.1 {
                    None => Err("reviewer_required"@),
                    Some(r2) => {
                        let p3 = first_piece(r2);
                        match p3.1 {
                            None => Err("review_reason_required"@),
                            Some(reason) => ok_cmd(
                                CommandKind::Review { action: a },
                                seq![p2.0, p3.0, reason],
                            ),
                        }
                    },
                }
            },
        },
    }
}

fn review_exec(request: &Vec<char>) -> (r: Result<ShellCommand, String>)
    ensures
        result_view(r) == review_spec(request@),
{
    let (verb, r1) = first_piece_exec(request);
    let action = if lit_eq(&verb, "approve") {
        ReviewAction::Approve
    } else if lit_eq(&verb, "deny") {
        ReviewAction::Deny
    } else if lit_eq(&verb, "defer") {
        ReviewAction::Defer
    } else {
        return refuse("review_syntax: /review approve|deny|defer REVIEW PARTICIPANT reason");
    };
    let r1 = match r1 {
        Some(v) => v,
        None => return refuse("review_id_required"),
    };
    let (id, r2) = first_piece_exec(&r1);
    let r2 = match r2 {
        Some(v) => v,
        None => return refuse("reviewer_required"),
    };
    let (who, reason) = first_piece_exec(&r2);
    match reason {
        Some(reason) => command(CommandKind::Review { action }, args3(&id, &who, &reason)),
        None => refuse("review_reason_required"),
    }
}

/// Thread and turn actions, `/refresh`, the commands kept for older hosts,
/// and any other line.
pub open spec fn thread_step(t: Seq<char>) -> CommandSpec {
    if t == "/thread status"@ {
        ok_cmd(CommandKind::ThreadStatus, seq![])
    } else if t == "/thread list"@ {
        ok_cmd(CommandKind::ThreadList, seq![])
    } else if t == "/cancel"@ {
        ok_cmd(CommandKind::Cancel, seq![])
    } else if t == "/thread new"@ || strip_spec(t, "/thread new "@) is Some {
        ok_cmd(CommandKind::ThreadNew, seq![])
    } else if strip_spec(t, "/thread use "@) is Some {
        ok_cmd(CommandKind::ThreadUse, seq![trim_spec(strip_spec(t, "/thread use "@).unwrap())])
    } else if strip_spec(t, "/retry "@) is Some {
        ok_cmd(CommandKind::Retry, seq![trim_spec(strip_spec(t, "/retry "@).unwrap())])
    } else if t == "/refresh"@ {
        ok_cmd(CommandKind::Refresh, seq![])
    } else if strip_spec(t, "/transcript "@) is Some || strip_spec(t, "/memory propose"@) is Some
        || strip_spec(t, "/thread archive "@) is Some {
        ok_cmd(CommandKind::Compatibility, seq![])
    } else {
        ok_cmd(CommandKind::Unknown, seq![])
    }
}

fn thread_step_exec(t: &Vec<char>) -> (r: Result<ShellCommand, String>)
    ensures
        result_view(r) == thread_step(t@),
{
    if lit_eq(t, "/thread status") {
        return command(CommandKind::ThreadStatus, no_args());
    }
    if lit_eq(t, "/thread list") {
        return command(CommandKind::ThreadList, no_args());
    }
    if lit_eq(t, "/cancel") {
        return command(CommandKind::Cancel, no_args());
    }
    if lit_eq(t, "/thread new") || strip(t, "/thread new ").is_some() {
        return command(CommandKind::ThreadNew, no_args());
    }
    if let Some(id) = strip(t, "/thread use ") {
        return command(CommandKind::ThreadUse, args1(&trim_chars(&id)));
    }
    if let Some(id) = strip(t, "/retry ") {
        return command(CommandKind::Retry, args1(&trim_chars(&id)));
    }
    if lit_eq(t, "/refresh") {
        return command(CommandKind::Refresh, no_args());
    }
    if strip(t, "/transcript ").is_some() || strip(t, "/memory propose").is_some() || strip(
        t,
        "/thread archive ",
    ).is_some() {
        return command(CommandKind::Compatibility, no_args());
    }
    command(CommandKind::Unknown, no_args())
}

/// What a shell line that begins with `/` asks for, in the order the shell
/// tries the commands; a refusal where the command's arguments do not fit.
pub open spec fn shell_command_spec(t: Seq<char>) -> CommandSpec {
    match plain_step(t) {
        Some(r) => r,
        None => match case_step(t) {
            Some(r) => r,
            None => if strip_spec(t, "/connect "@) is Some {
                connect_spec(strip_spec(t, "/connect "@).unwrap())
            } else {
                match resource_prefix(t) {
                    Some(p) => resource_spec(p.0, p.1),
                    None => match work_step(t) {
                        Some(r) => r,
                        None => if strip_spec(t, "/review "@) is Some {
                            review_spec(strip_spec(t, "/review "@).unwrap())
                        } else {
                            thread_step(t)
                        },
                    },
                }
            },
        },
    }
}

/// Read a shell command line (already trimmed, beginning with `/`).
pub fn parse_shell_command(line: &str) -> (r: Result<ShellCommand, String>)
    ensures
        result_view(r) == shell_command_spec(line@),
{
    let t = chars_of(line);
    if let Some(r) = plain_step_exec(&t) {
        return r;
    }
    if let Some(r) = case_step_exec(&t) {
        return r;
    }
    if let Some(request) = strip(&t, "/connect ") {
        return connect_exec(&request);
    }
    if let Some((kind, request)) = resource_prefix_exec(&t) {
        return resource_exec(kind, &request);
    }
    if let Some(r) = work_step_exec(&t) {
        return r;
    }
    if let Some(request) = strip(&t, "/review ") {
        return review_exec(&request);
    }
    thread_step_exec(&t)
}


/// The actions of the Case conversation, as help and completion offer them.
pub open spec fn command_vocabulary_spec() -> Seq<Seq<char>> {
    seq![
        "/help"@,
        "/help all"@,
        "/setup"@,
        "/case"@,
        "/history"@,
        "/participants"@,
        "/resources"@,
        "/artifacts"@,
        "/policy"@,
        "/reviews"@,
        "/provider"@,
        "/capabilities"@,
        "/workflow"@,
        "/workflow bind "@,
        "/workflow bind"@,
        "/workflow run "@,
        "/workflow input "@,
        "/workflow advance"@,
        "/workflow patch validate "@,
        "/workflow patch adopt "@,
        "/effects"@,
        "/operation "@,
        "/memory"@,
        "/graph"@,
        "/handoffs"@,
        "/handoff offer "@,
        "/handoff accept "@,
        "/handoff result "@,
        "/handoff reconcile "@,
        "/verify"@,
        "/rebuild"@,
        "/executor "@,
        "/attach "@,
        "/attach"@,
        "/policy publish "@,
        "/policy publish"@,
        "/connect "@,
        "/connect"@,
        "/work "@,
        "/review approve "@,
        "/review"@,
        "/review deny "@,
        "/review defer "@,
        "/read "@,
        "/discover "@,
        "/query "@,
        "/fetch "@,
        "/test "@,
        "/catalog "@,
        "/admit "@,
        "/admit"@,
        "/material "@,
        "/thread status"@,
        "/thread new"@,
        "/thread list"@,
        "/thread use "@,
        "/thread archive "@,
        "/refresh"@,
        "/transcript on"@,
        "/transcript off"@,
        "/transcript status"@,
        "/memory propose"@,
        "/retry "@,
        "/retry"@,
        "/cancel"@,
        "/exit"@,
        "/quit"@,
    ]
}

/// The items joined by `sep`.
pub open spec fn join_sep(items: Seq<Seq<char>>, sep: Seq<char>) -> Seq<char>
    decreases items.len(),
{
    if items.len() == 0 {
        Seq::empty()
    } else if items.len() == 1 {
        items[0]
    } else {
        join_sep(items.drop_last(), sep) + sep + items.last()
    }
}

/// The actions of the Case conversation.
pub fn command_vocabulary() -> (v: Vec<String>)
    ensures
        views(v@) == command_vocabulary_spec(),
{
    let mut v: Vec<String> = Vec::new();
    v.push(owned("/help"));
    v.push(owned("/help all"));
    v.push(owned("/setup"));
    v.push(owned("/case"));
    v.push(owned("/history"));
    v.push(owned("/participants"));
    v.push(owned("/resources"));
    v.push(owned("/artifacts"));
    v.push(owned("/policy"));
    v.push(owned("/reviews"));
    v.push(owned("/provider"));
    v.push(owned("/capabilities"));
    v.push(owned("/workflow"));
    v.push(owned("/workflow bind "));
    v.push(owned("/workflow bind"));
    v.push(owned("/workflow run "));
    v.push(owned("/workflow input "));
    v.push(owned("/workflow advance"));
    v.push(owned("/workflow patch validate "));
    v.push(owned("/workflow patch adopt "));
    v.push(owned("/effects"));
    v.push(owned("/operation "));
    v.push(owned("/memory"));
    v.push(owned("/graph"));
    v.push(owned("/handoffs"));
    v.push(owned("/handoff offer "));
    v.push(owned("/handoff accept "));
    v.push(owned("/handoff result "));
    v.push(owned("/handoff reconcile "));
    v.push(owned("/verify"));
    v.push(owned("/rebuild"));
    v.push(owned("/executor "));
    v.push(owned("/attach "));
    v.push(owned("/attach"));
    v.push(owned("/policy publish "));
    v.push(owned("/policy publish"));
    v.push(owned("/connect "));
    v.push(owned("/connect"));
    v.push(owned("/work "));
    v.push(owned("/review approve "));
    v.push(owned("/review"));
    v.push(owned("/review deny "));
    v.push(owned("/review defer "));
    v.push(owned("/read "));
    v.push(owned("/discover "));
    v.push(owned("/query "));
    v.push(owned("/fetch "));
    v.push(owned("/test "));
    v.push(owned("/catalog "));
    v.push(owned("/admit "));
    v.push(owned("/admit"));
    v.push(owned("/material "));
    v.push(owned("/thread status"));
    v.push(owned("/thread new"));
    v.push(owned("/thread list"));
    v.push(owned("/thread use "));
    v.push(owned("/thread archive "));
    v.push(owned("/refresh"));
    v.push(owned("/transcript on"));
    v.push(owned("/transcript off"));
    v.push(owned("/transcript status"));
    v.push(owned("/memory propose"));
    v.push(owned("/retry "));
    v.push(owned("/retry"));
    v.push(owned("/cancel"));
    v.push(owned("/exit"));
    v.push(owned("/quit"));
    assert(views(v@) =~= command_vocabulary_spec());
    v
}

/// The items joined by `sep`.
pub fn join_with(items: &Vec<String>, sep: &str) -> (out: String)
    ensures
        out@ == join_sep(views(items@), sep@),
{
    let mut out: Vec<char> = Vec::new();
    let mut n: usize = 0;
    while n < items.len()
        invariant
            n <= items.len(),
            out@ == join_sep(views(items@).subrange(0, n as int), sep@),
        decreases items.len() - n,
    {
        let ghost before = out@;
        if n > 0 {
            crate::text::push_str(&mut out, sep);
        }
        crate::text::push_str(&mut out, items[n].as_str());
        proof {
            let vs = views(items@);
            assert(vs.subrange(0, n + 1).drop_last() =~= vs.subrange(0, n as int));
            if n == 0 {
                assert(out@ =~= vs.subrange(0, 1)[0]);
            } else {
                assert(out@ =~= before + sep@ + vs[n as int]);
            }
        }
        n += 1;
    }
    assert(views(items@).subrange(0, items.len() as int) =~= views(items@));
    string_of(&out)
}

/// The short help of the Case conversation.
pub const HELP_TEXT: &'static str = "Case: /case /participants /resources /artifacts /history\nSetup: /setup /attach /connect /policy publish\nWork: /work TEXT /review /retry /cancel\nInspect: /policy /effects /workflow /memory /graph /verify\nAll actions: /help all\nExit: /exit";

/// What `/help` shows, or with `all` what `/help all` shows: every action,
/// one per line.
pub fn help_text(all: bool) -> (out: String)
    ensures
        out@ == if all { join_sep(command_vocabulary_spec(), seq!['\n']) } else { HELP_TEXT@ },
{
    if all {
        let r = join_with(&command_vocabulary(), "\n");
        proof {
            reveal_strlit("\n");
            assert("\n"@ =~= seq!['\n']);
        }
        r
    } else {
        owned(HELP_TEXT)
    }
}

/// The reply to a line that names no action: the line made safe to show,
/// then every action.
pub open spec fn unknown_command_spec(text: Seq<char>) -> Seq<char> {
    "unknown_command: "@ + literal_spec(text) + "\ncommands: "@ + join_sep(command_vocabulary_spec(), " | "@)
}

/// The reply to a line that names no action.
pub fn unknown_command_reply(text: &str) -> (out: String)
    ensures
        out@ == unknown_command_spec(text@),
{
    let mut m = chars_of("unknown_command: ");
    crate::text::push_str(&mut m, literal_external_text(text).as_str());
    crate::text::push_str(&mut m, "\ncommands: ");
    crate::text::push_str(&mut m, join_with(&command_vocabulary(), " | ").as_str());
    string_of(&m)
}

/// The options that configure a provider directly on the command line.
pub open spec fn direct_provider_option(a: Seq<char>) -> bool {
    a == "--provider-id"@ || a == "--base-url"@ || a == "--model"@ || a == "--api-key-env"@ || a
        == "--language-mode"@ || a == "--continuation-capable"@ || a == "--provider-runtime-id"@ || a
        == "--continuation-ref"@
}

/// The interactive prompt refuses direct provider options unless the run
/// is a dry run: it uses the Case's governed provider binding.
pub open spec fn interactive_options_spec(args: Seq<Seq<char>>) -> Result<(), Seq<char>> {
    if !args.contains("--dry-run"@) && exists|i: int| 0 <= i < args.len() && direct_provider_option(#[trigger] args[i]) {
        Err(
            "interactive_prompt_uses_governed_provider_binding: configure `yai case provider bind`; direct invocation options remain available with --once or --dry-run"@,
        )
    } else {
        Ok(())
    }
}

fn is_direct_provider_option(a: &str) -> (b: bool)
    ensures
        b == direct_provider_option(a@),
{
    crate::text::str_eq(a, "--provider-id") || crate::text::str_eq(a, "--base-url") || crate::text::str_eq(a, "--model")
        || crate::text::str_eq(a, "--api-key-env") || crate::text::str_eq(a, "--language-mode")
        || crate::text::str_eq(a, "--continuation-capable") || crate::text::str_eq(a, "--provider-runtime-id")
        || crate::text::str_eq(a, "--continuation-ref")
}

/// Whether the interactive prompt may start with these arguments.
pub fn interactive_options_check(args: &[String]) -> (r: Result<(), String>)
    ensures
        match r {
            Ok(()) => interactive_options_spec(views(args@)) is Ok,
            Err(e) => interactive_options_spec(views(args@)) == Err::<(), Seq<char>>(e@),
        },
{
    let ghost a = views(args@);
    let mut dry = false;
    let mut direct = false;
    let mut i: usize = 0;
    while i < args.len()
        invariant
            i <= args.len(),
            a == views(args@),
            dry == exists|j: int| 0 <= j < i && a[j] == "--dry-run"@,
            direct == exists|j: int| 0 <= j < i && direct_provider_option(#[trigger] a[j]),
        decreases args.len() - i,
    {
        assert(a[i as int] == args@[i as int]@);
        if crate::text::str_eq(args[i].as_str(), "--dry-run") {
            dry = true;
        }
        if is_direct_provider_option(args[i].as_str()) {
            direct = true;
        }
        i += 1;
    }
    assert(dry == a.contains("--dry-run"@));
    if !dry && direct {
        return Err(owned(
            "interactive_prompt_uses_governed_provider_binding: configure `yai case provider bind`; direct invocation options remain available with --once or --dry-run",
        ));
    }
    Ok(())
}

/// The word that names a handoff outcome.
pub open spec fn outcome_word(o: HandoffOutcome) -> Seq<char> {
    match o {
        HandoffOutcome::Succeeded => "succeeded"@,
        HandoffOutcome::Failed => "failed"@,
        HandoffOutcome::Cancelled => "cancelled"@,
    }
}

proof fn lemma_split_once_parts(s: Seq<char>, c: char)
    ensures
        split_once_spec(s, c) matches Some(p) ==> s == p.0 + seq![c] + p.1,
{
    lemma_first_item_facts(s, c, 0);
    let i = first_item(s, c);
    if i >= 0 {
        let p = split_once_spec(s, c)->Some_0;
        assert(s =~= p.0 + seq![c] + p.1);
    }
}

/// A handoff result is read word for word from the request: the request is
/// `result`, the handoff id, the word that names the outcome read, the
/// evidence and the text, each separated by one space; so the outcome is
/// the one the word typed names, and `succeeded`, `failed` and `cancelled`
/// each give their own outcome.
#[verifier::rlimit(40)]
pub proof fn law_handoff_result_read_as_typed(r: Seq<char>)
    ensures
        handoff_spec(r) matches Ok(c) ==> (c.0 matches CommandKind::HandoffResult { outcome } ==> c.1.len() == 3 && r
            == "result "@ + c.1[0] + " "@ + outcome_word(outcome) + " "@ + c.1[1] + " "@ + c.1[2]),
{
    reveal_strlit("result ");
    reveal_strlit("result");
    reveal_strlit(" ");
    lemma_split_once_parts(r, ' ');
    if let Some(vr) = split_once_spec(r, ' ') {
        if vr.0 == "result"@ {
            let rest = vr.1;
            lemma_split_once_parts(rest, ' ');
            let p1 = first_piece(rest);
            if let Some(r1) = p1.1 {
                lemma_split_once_parts(r1, ' ');
                let p2 = first_piece(r1);
                if let Some(r2) = p2.1 {
                    lemma_split_once_parts(r2, ' ');
                    let p3 = first_piece(r2);
                    if let Some(body) = p3.1 {
                        if let Ok(c) = handoff_spec(r) {
                            if let CommandKind::HandoffResult { outcome } = c.0 {
                                reveal_strlit("succeeded");
                                reveal_strlit("failed");
                                reveal_strlit("cancelled");
                                assert(outcome_word(outcome) == p2.0);
                                assert(c.1 =~= seq![p1.0, p3.0, body]);
                                assert(r =~= "result "@ + c.1[0] + " "@ + outcome_word(outcome) + " "@ + c.1[1] + " "@
                                    + c.1[2]);
                            }
                        }
                    }
                }
            }
        }
    }
}

/// The other handoff commands are read word for word too: an offer is
/// `offer ROLE TARGET TEXT`, an acceptance `accept SOURCE ID`, a
/// reconciliation `reconcile` and its text.
pub proof fn law_handoff_read_as_typed(r: Seq<char>)
    ensures
        handoff_spec(r) matches Ok(c) ==> (c.0 == CommandKind::HandoffOffer ==> c.1.len() == 3 && r == "offer "@ + c.1[0]
            + " "@ + c.1[1] + " "@ + c.1[2]),
        handoff_spec(r) matches Ok(c) ==> (c.0 == CommandKind::HandoffAccept ==> c.1.len() == 2 && r == "accept "@ + c.1[0]
            + " "@ + c.1[1]),
        handoff_spec(r) matches Ok(c) ==> (c.0 == CommandKind::HandoffReconcile ==> c.1.len() == 1 && r == "reconcile "@
            + c.1[0]),
{
    lemma_handoff_offer(r);
    lemma_handoff_accept(r);
    lemma_handoff_reconcile(r);
}

proof fn lemma_three_words(r: Seq<char>, a: Seq<char>, b: Seq<char>, d: Seq<char>, rest: Seq<char>, r1: Seq<char>)
    requires
        r == "offer"@ + seq![' '] + rest,
        rest == a + seq![' '] + r1,
        r1 == b + seq![' '] + d,
    ensures
        r == "offer "@ + a + " "@ + b + " "@ + d,
{
    reveal_strlit("offer ");
    reveal_strlit("offer");
    reveal_strlit(" ");
    assert(r =~= "offer "@ + a + " "@ + b + " "@ + d);
}

proof fn lemma_handoff_offer(r: Seq<char>)
    ensures
        handoff_spec(r) matches Ok(c) ==> (c.0 == CommandKind::HandoffOffer ==> c.1.len() == 3 && r == "offer "@ + c.1[0]
            + " "@ + c.1[1] + " "@ + c.1[2]),
{
    lemma_split_once_parts(r, ' ');
    if let Some(vr) = split_once_spec(r, ' ') {
        if let Ok(c) = handoff_spec(r) {
            if c.0 == CommandKind::HandoffOffer {
                assert(vr.0 == "offer"@);
                let rest = vr.1;
                lemma_split_once_parts(rest, ' ');
                let p1 = first_piece(rest);
                let r1 = p1.1.unwrap();
                lemma_split_once_parts(r1, ' ');
                let p2 = first_piece(r1);
                let body = p2.1.unwrap();
                assert(c.1 =~= seq![p1.0, p2.0, body]);
                lemma_three_words(r, p1.0, p2.0, body, rest, r1);
            }
        }
    }
}

proof fn lemma_handoff_accept(r: Seq<char>)
    ensures
        handoff_spec(r) matches Ok(c) ==> (c.0 == CommandKind::HandoffAccept ==> c.1.len() == 2 && r == "accept "@ + c.1[0]
            + " "@ + c.1[1]),
{
    lemma_split_once_parts(r, ' ');
    if let Some(vr) = split_once_spec(r, ' ') {
        if let Ok(c) = handoff_spec(r) {
            if c.0 == CommandKind::HandoffAccept {
                assert(vr.0 == "accept"@);
                reveal_strlit("accept ");
                reveal_strlit("accept");
                reveal_strlit(" ");
                let rest = vr.1;
                lemma_split_once_parts(rest, ' ');
                let si = split_once_spec(rest, ' ').unwrap();
                assert(c.1 =~= seq![si.0, si.1]);
                assert(r =~= "accept "@ + c.1[0] + " "@ + c.1[1]);
            }
        }
    }
}

proof fn lemma_handoff_reconcile(r: Seq<char>)
    ensures
        handoff_spec(r) matches Ok(c) ==> (c.0 == CommandKind::HandoffReconcile ==> c.1.len() == 1 && r == "reconcile "@
            + c.1[0]),
{
    lemma_split_once_parts(r, ' ');
    if let Some(vr) = split_once_spec(r, ' ') {
        if let Ok(c) = handoff_spec(r) {
            if c.0 == CommandKind::HandoffReconcile {
                assert(vr.0 == "reconcile"@);
                reveal_strlit("reconcile ");
                reveal_strlit("reconcile");
                reveal_strlit(" ");
                assert(c.1 =~= seq![vr.1]);
                assert(r =~= "reconcile "@ + c.1[0]);
            }
        }
    }
}

proof fn lemma_handoff_result_source(t: Seq<char>)
    ensures
        (shell_command_spec(t) is Ok && shell_command_spec(t)->Ok_0.0 is HandoffResult) ==> strip_spec(t, "/handoff "@) is Some
            && shell_command_spec(t) == handoff_spec(strip_spec(t, "/handoff "@).unwrap()),
{
    if shell_command_spec(t) is Ok && shell_command_spec(t)->Ok_0.0 is HandoffResult {
        if plain_step(t) is None && strip_spec(t, "/handoff "@) is None {
            assert(case_step(t) is None);
            if strip_spec(t, "/connect "@) is Some {
                let f = words(strip_spec(t, "/connect "@).unwrap());
            }
            if strip_spec(t, "/connect "@) is None && resource_prefix(t) is None && work_step(t) is None
                && strip_spec(t, "/review "@) is Some {
                let r = review_spec(strip_spec(t, "/review "@).unwrap());
            }
        }
    }
}

proof fn lemma_handoff_line(t: Seq<char>, r: Seq<char>, a: Seq<char>, w: Seq<char>, b: Seq<char>, d: Seq<char>)
    requires
        strip_spec(t, "/handoff "@) == Some(r),
        r == "result "@ + a + " "@ + w + " "@ + b + " "@ + d,
    ensures
        t == "/handoff result "@ + a + " "@ + w + " "@ + b + " "@ + d,
{
    reveal_strlit("/handoff ");
    reveal_strlit("/handoff result ");
    reveal_strlit("result ");
    assert(t =~= "/handoff "@ + r);
    assert(t =~= "/handoff result "@ + a + " "@ + w + " "@ + b + " "@ + d);
}

/// At the shell, `/handoff result ID OUTCOME EVIDENCE TEXT` is the only line
/// that records a handoff result, and its outcome is the one the word typed
/// names.
#[verifier::spinoff_prover]
#[verifier::rlimit(80)]
pub proof fn law_shell_handoff_result_read_as_typed(t: Seq<char>)
    ensures
        shell_command_spec(t) matches Ok(c) ==> (c.0 matches CommandKind::HandoffResult { outcome } ==> c.1.len() == 3
            && t == "/handoff result "@ + c.1[0] + " "@ + outcome_word(outcome) + " "@ + c.1[1] + " "@ + c.1[2]),
{
    lemma_handoff_result_source(t);
    if let Ok(c) = shell_command_spec(t) {
        if let CommandKind::HandoffResult { outcome } = c.0 {
            let r = strip_spec(t, "/handoff "@).unwrap();
            law_handoff_result_read_as_typed(r);
            lemma_handoff_line(t, r, c.1[0], outcome_word(outcome), c.1[1], c.1[2]);
        }
    }
}

/// Bounded work is asked for only by `/work`: no other line, whatever its
/// prose, is read as a work request.
pub proof fn law_work_only_explicit(t: Seq<char>)
    ensures
        shell_command_spec(t) matches Ok(c) && c.0 == CommandKind::Work ==> strip_spec(t, "/work "@) is Some,
{
    if shell_command_spec(t) matches Ok(c) && c.0 == CommandKind::Work {
        if plain_step(t) is None && case_step(t) is None && strip_spec(t, "/connect "@) is None && resource_prefix(t) is None {
            let h = handoff_spec(t);
            if work_step(t) is None && strip_spec(t, "/review "@) is Some {
                let r = review_spec(strip_spec(t, "/review "@).unwrap());
            }
        }
        if strip_spec(t, "/connect "@) is Some {
            let f = words(strip_spec(t, "/connect "@).unwrap());
        }
    }
}


/// A name that `scoped_name` gives back reads back as itself: naming it
/// again within the same prefix yields the same name.
pub proof fn law_scoped_name_idempotent(prefix: Seq<char>, value: Seq<char>)
    requires
        trim_spec(prefix) == prefix,
        scoped_name_spec(prefix, value) is Ok,
    ensures
        scoped_name_spec(prefix, scoped_name_spec(prefix, value)->Ok_0) == scoped_name_spec(
            prefix,
            value,
        ),
{
    let t = trim_spec(value);
    let v = match strip_spec(t, prefix) {
        Some(r) => r,
        None => t,
    };
    let r = prefix + v;
    assert(!is_space(v[v.len() - 1])) by {
        assert(scoped_char(v[v.len() - 1]));
    }
    assert(!is_space(v[0])) by {
        assert(scoped_char(v[0]));
    }
    assert(!is_space(r[0])) by {
        if prefix.len() > 0 {
            lemma_skip_space_bounds(prefix, 0);
            let a = skip_space(prefix, 0);
            assert(a < prefix.len());
            lemma_back_space_bounds(prefix, prefix.len() as int, a);
            assert(prefix.subrange(a, back_space(prefix, prefix.len() as int)).len() == prefix.len());
            assert(r[0] == prefix[0]);
        } else {
            assert(r[0] == v[0]);
        }
    }
    assert(r[r.len() - 1] == v[v.len() - 1]);
    assert(skip_space(r, 0) == 0);
    assert(back_space(r, r.len() as int) == r.len());
    assert(trim_spec(r) =~= r);
    assert(r.subrange(0, prefix.len() as int) =~= prefix);
    assert(r.subrange(prefix.len() as int, r.len() as int) =~= v);
}

} // verus!
