//! Decisions of the Case conversation host that read the Case state: which
//! participant a principal speaks as, whether an executor may act, whether a
//! provider result is visible, how committed turns group into threads, and
//! the summary of finished work.

use vstd::prelude::*;
use crate::seqs::views;
use crate::text::{chars_of, owned, push_str, str_eq, string_of};

verus! {

/// `a` comes before `b` in the order of `str`: character by character, a
/// proper prefix first.
pub open spec fn lex_lt(a: Seq<char>, b: Seq<char>) -> bool
    decreases a.len(),
{
    if a.len() == 0 {
        b.len() > 0
    } else if b.len() == 0 {
        false
    } else if a[0] != b[0] {
        a[0] < b[0]
    } else {
        lex_lt(a.drop_first(), b.drop_first())
    }
}

pub proof fn lemma_lex_irreflexive(a: Seq<char>)
    ensures
        !lex_lt(a, a),
    decreases a.len(),
{
    if a.len() > 0 {
        lemma_lex_irreflexive(a.drop_first());
    }
}

pub proof fn lemma_lex_transitive(a: Seq<char>, b: Seq<char>, c: Seq<char>)
    requires
        lex_lt(a, b),
        lex_lt(b, c),
    ensures
        lex_lt(a, c),
    decreases a.len(),
{
    if a.len() > 0 && b.len() > 0 && c.len() > 0 && a[0] == b[0] && b[0] == c[0] {
        lemma_lex_transitive(a.drop_first(), b.drop_first(), c.drop_first());
    }
}

pub proof fn lemma_lex_total(a: Seq<char>, b: Seq<char>)
    ensures
        a == b || lex_lt(a, b) || lex_lt(b, a),
    decreases a.len(),
{
    if a.len() > 0 && b.len() > 0 && a[0] == b[0] {
        lemma_lex_total(a.drop_first(), b.drop_first());
        if a.drop_first() == b.drop_first() {
            assert(a =~= seq![a[0]] + a.drop_first());
            assert(b =~= seq![b[0]] + b.drop_first());
        }
    } else if a.len() == 0 && b.len() == 0 {
        assert(a =~= b);
    }
}

/// No two texts each come before the other.
pub proof fn lemma_lex_asymmetric(a: Seq<char>, b: Seq<char>)
    requires
        lex_lt(a, b),
    ensures
        !lex_lt(b, a),
{
    if lex_lt(b, a) {
        lemma_lex_transitive(a, b, a);
        lemma_lex_irreflexive(a);
    }
}

/// Whether `a` comes before `b`.
pub fn str_lt(a: &str, b: &str) -> (r: bool)
    ensures
        r == lex_lt(a@, b@),
{
    let x = chars_of(a);
    let y = chars_of(b);
    let mut i: usize = 0;
    assert(x@.subrange(0, x.len() as int) =~= x@);
    assert(y@.subrange(0, y.len() as int) =~= y@);
    while i < x.len() && i < y.len() && x[i] == y[i]
        invariant
            i <= x.len(),
            i <= y.len(),
            lex_lt(x@, y@) == lex_lt(x@.subrange(i as int, x.len() as int), y@.subrange(i as int, y.len() as int)),
        decreases x.len() - i,
    {
        proof {
            let xs = x@.subrange(i as int, x.len() as int);
            let ys = y@.subrange(i as int, y.len() as int);
            assert(xs.drop_first() =~= x@.subrange(i + 1, x.len() as int));
            assert(ys.drop_first() =~= y@.subrange(i + 1, y.len() as int));
        }
        i += 1;
    }
    proof {
        assert(x@.subrange(0, x.len() as int) =~= x@);
        assert(y@.subrange(0, y.len() as int) =~= y@);
    }
    if i == x.len() {
        i < y.len()
    } else if i == y.len() {
        false
    } else {
        x[i] < y[i]
    }
}

/// Strictly increasing in the order of `str`: sorted, nothing twice.
pub open spec fn strictly_sorted(s: Seq<Seq<char>>) -> bool {
    forall|i: int, j: int| 0 <= i < j < s.len() ==> lex_lt(#[trigger] s[i], #[trigger] s[j])
}

/// Insert `x` into the strictly sorted `out` unless it is there already.
fn insert_sorted(out: &mut Vec<String>, x: &String)
    requires
        strictly_sorted(views(old(out)@)),
    ensures
        strictly_sorted(views(final(out)@)),
        views(final(out)@).to_set() == views(old(out)@).to_set().insert(x@),
{
    let ghost o = views(out@);
    let mut i: usize = 0;
    while i < out.len() && str_lt(out[i].as_str(), x.as_str())
        invariant
            i <= out.len(),
            o == views(out@),
            forall|k: int| 0 <= k < i ==> lex_lt(#[trigger] o[k], x@),
        decreases out.len() - i,
    {
        i += 1;
    }
    if i < out.len() && str_eq(out[i].as_str(), x.as_str()) {
        assert(o[i as int] == x@);
        assert(o.to_set().insert(x@) =~= o.to_set());
        return;
    }
    proof {
        if i < out.len() {
            lemma_lex_total(o[i as int], x@);
        }
    }
    out.insert(i, x.clone());
    proof {
        let n = views(out@);
        assert(n =~= o.insert(i as int, x@));
        assert forall|a: int, b: int| 0 <= a < b < n.len() implies lex_lt(#[trigger] n[a], #[trigger] n[b]) by {
            if b < i {
                assert(n[a] == o[a] && n[b] == o[b]);
            } else if b == i {
                assert(n[a] == o[a]);
            } else if a == i {
                assert(n[b] == o[b - 1]);
                if b - 1 > i {
                    lemma_lex_transitive(x@, o[i as int], o[b - 1]);
                }
            } else if a < i {
                assert(n[a] == o[a] && n[b] == o[b - 1]);
                if b - 1 < i {
                } else {
                    if b - 1 == i {
                        lemma_lex_transitive(o[a], x@, o[b - 1]);
                    } else {
                        lemma_lex_transitive(o[a], x@, o[i as int]);
                        lemma_lex_transitive(o[a], o[i as int], o[b - 1]);
                    }
                }
            } else {
                assert(n[a] == o[a - 1] && n[b] == o[b - 1]);
            }
        }
        assert(n.to_set() =~= o.to_set().insert(x@)) by {
            assert forall|v: Seq<char>| n.to_set().contains(v) <==> o.to_set().insert(x@).contains(v) by {
                if n.to_set().contains(v) {
                    let k = choose|k: int| 0 <= k < n.len() && n[k] == v;
                    if k < i {
                        assert(o[k] == v);
                    } else if k > i {
                        assert(o[k - 1] == v);
                    }
                }
                if o.to_set().contains(v) {
                    let k = choose|k: int| 0 <= k < o.len() && o[k] == v;
                    if k < i {
                        assert(n[k] == v);
                    } else {
                        assert(n[k + 1] == v);
                    }
                }
                if v == x@ {
                    assert(n[i as int] == v);
                }
            }
        }
    }
}

/// A participant of the Case.
pub struct CaseParticipant {
    pub participant_id: String,
    /// The views it was admitted to: consumer and view kind.
    pub admitted_views: Vec<(String, String)>,
}

/// A link of a principal of a tenant to a participant.
pub struct PrincipalLink {
    pub tenant_id: String,
    pub principal_id: String,
    pub participant_id: String,
}

/// The principal speaks as the participant within the tenant.
pub open spec fn linked(links: Seq<PrincipalLink>, tenant: Seq<char>, principal: Seq<char>, participant: Seq<char>) -> bool {
    exists|k: int| 0 <= k < links.len() && (#[trigger] links[k]).tenant_id@ == tenant && links[k].principal_id@ == principal
        && links[k].participant_id@ == participant
}

/// The participants the principal may speak as.
pub open spec fn eligible_set(ps: Seq<CaseParticipant>, links: Seq<PrincipalLink>, tenant: Seq<char>, principal: Seq<char>) -> Set<Seq<char>> {
    Set::new(|p: Seq<char>| exists|i: int| 0 <= i < ps.len() && (#[trigger] ps[i]).participant_id@ == p && linked(links, tenant, principal, p))
}

/// `items` joined by commas.
pub open spec fn comma_join(items: Seq<Seq<char>>) -> Seq<char>
    decreases items.len(),
{
    if items.len() == 0 {
        Seq::empty()
    } else if items.len() == 1 {
        items[0]
    } else {
        comma_join(items.drop_last()) + seq![','] + items.last()
    }
}

fn has_link(links: &Vec<PrincipalLink>, tenant: &str, principal: &str, participant: &str) -> (r: bool)
    ensures
        r == linked(links@, tenant@, principal@, participant@),
{
    let mut k: usize = 0;
    while k < links.len()
        invariant
            k <= links.len(),
            forall|m: int| 0 <= m < k ==> !((#[trigger] links@[m]).tenant_id@ == tenant@ && links@[m].principal_id@ == principal@
                && links@[m].participant_id@ == participant@),
        decreases links.len() - k,
    {
        let l = &links[k];
        if str_eq(l.tenant_id.as_str(), tenant) && str_eq(l.principal_id.as_str(), principal) && str_eq(l.participant_id.as_str(), participant) {
            return true;
        }
        k += 1;
    }
    false
}

fn join_commas(items: &Vec<String>) -> (out: Vec<char>)
    ensures
        out@ == comma_join(views(items@)),
{
    let mut out: Vec<char> = Vec::new();
    let mut i: usize = 0;
    while i < items.len()
        invariant
            i <= items.len(),
            out@ == comma_join(views(items@).subrange(0, i as int)),
        decreases items.len() - i,
    {
        let ghost before = out@;
        if i > 0 {
            out.push(',');
        }
        push_str(&mut out, items[i].as_str());
        proof {
            let vs = views(items@);
            assert(vs.subrange(0, i + 1).drop_last() =~= vs.subrange(0, i as int));
            assert(vs[i as int] == items@[i as int]@);
            if i == 0 {
                assert(out@ =~= vs.subrange(0, 1)[0]);
            } else {
                assert(out@ =~= before + seq![','] + vs[i as int]);
            }
        }
        i += 1;
    }
    assert(views(items@).subrange(0, items.len() as int) =~= views(items@));
    out
}

/// The participant a principal speaks as in the Case: the one asked for if
/// the principal may speak as it; else the only one it may speak as; a
/// refusal where there is none, or where it must choose among several (the
/// candidates named in the order of `str`, each once). A Case without a
/// tenant cannot hold conversation content.
pub fn resolve_conversation_participant(
    tenant_id: Option<&str>,
    participants: &Vec<CaseParticipant>,
    links: &Vec<PrincipalLink>,
    principal_id: &str,
    requested: Option<&str>,
) -> (r: Result<String, String>)
    ensures
        tenant_id is None ==> (r matches Err(e) && e@ == "legacy_unscoped_case_cannot_own_conversation_content"@),
        tenant_id matches Some(t) ==> ({
            let el = eligible_set(participants@, links@, t@, principal_id@);
            match requested {
                Some(q) => if el.contains(q@) {
                    r matches Ok(p) && p@ == q@
                } else {
                    r matches Err(e) && e@ == "conversation_participant_not_admitted_for_model_context"@
                },
                None => if el.len() == 0 {
                    r matches Err(e) && e@ == "conversation_participant_not_admitted_for_model_context"@
                } else if el.len() == 1 {
                    r matches Ok(p) && el == set![p@]
                } else {
                    r matches Err(e) && exists|s: Seq<Seq<char>>| strictly_sorted(s) && s.to_set() == el
                        && e@ == "conversation_participant_selection_required:"@ + comma_join(s)
                },
            }
        }),
{
    let tenant = match tenant_id {
        None => return Err(owned("legacy_unscoped_case_cannot_own_conversation_content")),
        Some(t) => t,
    };
    let ghost el = eligible_set(participants@, links@, tenant@, principal_id@);
    let mut eligible: Vec<String> = Vec::new();
    let mut i: usize = 0;
    while i < participants.len()
        invariant
            i <= participants.len(),
            strictly_sorted(views(eligible@)),
            views(eligible@).to_set() == Set::new(|p: Seq<char>| exists|k: int| 0 <= k < i && (#[trigger] participants@[k]).participant_id@ == p
                && linked(links@, tenant@, principal_id@, p)),
        decreases participants.len() - i,
    {
        let ghost before = views(eligible@).to_set();
        let p = &participants[i];
        if has_link(links, tenant, principal_id, p.participant_id.as_str()) {
            insert_sorted(&mut eligible, &p.participant_id);
        }
        proof {
            let now = Set::new(|q: Seq<char>| exists|k: int| 0 <= k < i + 1 && (#[trigger] participants@[k]).participant_id@ == q
                && linked(links@, tenant@, principal_id@, q));
            assert(views(eligible@).to_set() =~= now) by {
                assert forall|q: Seq<char>| views(eligible@).to_set().contains(q) <==> now.contains(q) by {
                    if now.contains(q) {
                        let k = choose|k: int| 0 <= k < i + 1 && (#[trigger] participants@[k]).participant_id@ == q
                            && linked(links@, tenant@, principal_id@, q);
                        if k < i {
                            assert(before.contains(q));
                        }
                    }
                    if before.contains(q) {
                        let k = choose|k: int| 0 <= k < i && (#[trigger] participants@[k]).participant_id@ == q
                            && linked(links@, tenant@, principal_id@, q);
                        assert(now.contains(q));
                    }
                }
            }
        }
        i += 1;
    }
    proof {
        assert(views(eligible@).to_set() =~= el);
        assert(views(eligible@).no_duplicates()) by {
            assert forall|a: int, b: int| 0 <= a < views(eligible@).len() && 0 <= b < views(eligible@).len() && a != b implies views(eligible@)[a] != views(eligible@)[b] by {
                if a < b {
                    lemma_lex_irreflexive(views(eligible@)[a]);
                } else {
                    lemma_lex_irreflexive(views(eligible@)[b]);
                }
            }
        }
        views(eligible@).unique_seq_to_set();
    }
    match requested {
        Some(q) => {
            let mut found = false;
            let mut k: usize = 0;
            while k < eligible.len()
                invariant
                    k <= eligible.len(),
                    found == exists|m: int| 0 <= m < k && (#[trigger] eligible@[m])@ == q@,
                decreases eligible.len() - k,
            {
                let m = str_eq(eligible[k].as_str(), q);
                proof {
                    if m {
                        assert(eligible@[k as int]@ == q@);
                    }
                }
                found = found || m;
                k += 1;
            }
            proof {
                if found {
                    let m = choose|m: int| 0 <= m < eligible.len() && (#[trigger] eligible@[m])@ == q@;
                    assert(views(eligible@)[m] == q@);
                    assert(views(eligible@).to_set().contains(q@));
                } else {
                    if views(eligible@).to_set().contains(q@) {
                        let m = choose|m: int| 0 <= m < views(eligible@).len() && views(eligible@)[m] == q@;
                        assert(eligible@[m]@ == q@);
                    }
                }
            }
            if found {
                Ok(owned(q))
            } else {
                Err(owned("conversation_participant_not_admitted_for_model_context"))
            }
        },
        None => {
            if eligible.len() == 0 {
                Err(owned("conversation_participant_not_admitted_for_model_context"))
            } else if eligible.len() == 1 {
                proof {
                    assert(views(eligible@).to_set() =~= set![eligible@[0]@]) by {
                        assert(views(eligible@)[0] == eligible@[0]@);
                    }
                }
                Ok(eligible[0].clone())
            } else {
                let mut m = chars_of("conversation_participant_selection_required:");
                let j = join_commas(&eligible);
                crate::text::push_all(&mut m, &j);
                Err(string_of(&m))
            }
        },
    }
}


/// The executor participant has been admitted to the model context view.
pub open spec fn executor_admitted(ps: Seq<CaseParticipant>, executor: Seq<char>) -> bool {
    exists|i: int| 0 <= i < ps.len() && (#[trigger] ps[i]).participant_id@ == executor && exists|j: int|
        0 <= j < ps[i].admitted_views@.len() && (#[trigger] ps[i].admitted_views@[j]).0@ == "model"@
            && ps[i].admitted_views@[j].1@ == "model_context"@
}

fn has_model_view(p: &CaseParticipant) -> (r: bool)
    ensures
        r == exists|j: int| 0 <= j < p.admitted_views@.len() && (#[trigger] p.admitted_views@[j]).0@ == "model"@
            && p.admitted_views@[j].1@ == "model_context"@,
{
    let mut j: usize = 0;
    while j < p.admitted_views.len()
        invariant
            j <= p.admitted_views.len(),
            forall|m: int| 0 <= m < j ==> !((#[trigger] p.admitted_views@[m]).0@ == "model"@ && p.admitted_views@[m].1@ == "model_context"@),
        decreases p.admitted_views.len() - j,
    {
        let v = &p.admitted_views[j];
        if str_eq(v.0.as_str(), "model") && str_eq(v.1.as_str(), "model_context") {
            return true;
        }
        j += 1;
    }
    false
}

/// An executor may act for a turn only if the Case admitted it to the
/// model context view; choosing it grants nothing else.
pub fn select_executor_check(participants: &Vec<CaseParticipant>, executor: &str) -> (r: Result<(), String>)
    ensures
        executor_admitted(participants@, executor@) ==> r is Ok,
        !executor_admitted(participants@, executor@) ==> (r matches Err(e) && e@ == "conversation_executor_model_view_not_admitted"@),
{
    let mut i: usize = 0;
    while i < participants.len()
        invariant
            i <= participants.len(),
            forall|k: int| 0 <= k < i ==> !((#[trigger] participants@[k]).participant_id@ == executor@ && exists|j: int|
                0 <= j < participants@[k].admitted_views@.len() && (#[trigger] participants@[k].admitted_views@[j]).0@ == "model"@
                    && participants@[k].admitted_views@[j].1@ == "model_context"@),
        decreases participants.len() - i,
    {
        let p = &participants[i];
        if str_eq(p.participant_id.as_str(), executor) && has_model_view(p) {
            return Ok(());
        }
        i += 1;
    }
    Err(owned("conversation_executor_model_view_not_admitted"))
}

/// What the provider lineage of a Case records.
pub enum LineageEntry {
    ResultRecorded { result_id: String, invocation_id: String },
    InvocationStarted { invocation_id: String, participant_id: String },
    Other,
}

/// The invocation of the first recorded result with this id.
pub open spec fn result_invocation(es: Seq<LineageEntry>, result_id: Seq<char>) -> Option<Seq<char>>
    decreases es.len(),
{
    if es.len() == 0 {
        None
    } else {
        match es[0] {
            LineageEntry::ResultRecorded { result_id: r, invocation_id: inv } => if r@ == result_id {
                Some(inv@)
            } else {
                result_invocation(es.drop_first(), result_id)
            },
            _ => result_invocation(es.drop_first(), result_id),
        }
    }
}

/// The invocation was started by the participant.
pub open spec fn started_by(es: Seq<LineageEntry>, invocation: Seq<char>, participant: Seq<char>) -> bool {
    exists|k: int| 0 <= k < es.len() && starts(#[trigger] es[k], invocation, participant)
}

/// The entry starts the invocation for the participant.
pub open spec fn starts(e: LineageEntry, invocation: Seq<char>, participant: Seq<char>) -> bool {
    match e {
        LineageEntry::InvocationStarted { invocation_id: i, participant_id: p } => i@ == invocation && p@ == participant,
        _ => false,
    }
}

/// A provider result may be derived from only by the participant whose
/// invocation produced it, in the Case that recorded it.
pub fn verify_provider_result(lineage: &Vec<LineageEntry>, participant_id: &str, result_id: &str) -> (r: Result<(), String>)
    ensures
        match result_invocation(lineage@, result_id@) {
            None => r matches Err(e) && e@ == "conversation_derivation_provider_result_not_in_case"@,
            Some(inv) => if started_by(lineage@, inv, participant_id@) {
                r is Ok
            } else {
                r matches Err(e) && e@ == "conversation_derivation_provider_result_not_visible_to_participant"@
            },
        },
{
    let mut i: usize = 0;
    let mut invocation: Option<String> = None;
    assert(lineage@.subrange(0, lineage.len() as int) =~= lineage@);
    while i < lineage.len()
        invariant
            i <= lineage.len(),
            invocation is None ==> result_invocation(lineage@, result_id@) == result_invocation(lineage@.subrange(i as int, lineage.len() as int), result_id@),
            invocation matches Some(v) ==> result_invocation(lineage@, result_id@) == Some(v@),
        decreases lineage.len() - i,
    {
        let ghost rest = lineage@.subrange(i as int, lineage.len() as int);
        assert(rest[0] == lineage@[i as int]);
        assert(rest.drop_first() =~= lineage@.subrange(i + 1, lineage.len() as int));
        if invocation.is_none() {
            match &lineage[i] {
                LineageEntry::ResultRecorded { result_id: r, invocation_id: inv } => {
                    if str_eq(r.as_str(), result_id) {
                        invocation = Some(inv.clone());
                    }
                },
                _ => {},
            }
        }
        i += 1;
    }
    let inv = match invocation {
        None => return Err(owned("conversation_derivation_provider_result_not_in_case")),
        Some(v) => v,
    };
    let mut k: usize = 0;
    while k < lineage.len()
        invariant
            k <= lineage.len(),
            result_invocation(lineage@, result_id@) == Some(inv@),
            forall|m: int| 0 <= m < k ==> !starts(#[trigger] lineage@[m], inv@, participant_id@),
        decreases lineage.len() - k,
    {
        match &lineage[k] {
            LineageEntry::InvocationStarted { invocation_id: i, participant_id: p } => {
                if str_eq(i.as_str(), inv.as_str()) && str_eq(p.as_str(), participant_id) {
                    assert(starts(lineage@[k as int], inv@, participant_id@));
                    return Ok(());
                }
            },
            _ => {},
        }
        k += 1;
    }
    Err(owned("conversation_derivation_provider_result_not_visible_to_participant"))
}


/// A committed turn as the thread summary reads it.
pub struct TurnEntry {
    pub thread_id: String,
    pub participant_id: String,
    pub base_generation: u64,
}

/// A thread of the participant: its committed turns and the Case
/// generations they produced.
pub struct ThreadSummary {
    pub thread_id: String,
    pub committed_turn_count: u64,
    pub first_generation: u64,
    pub last_generation: u64,
}

/// Id, turn count, first and last generation.
pub type SummaryV = (Seq<char>, int, int, int);

pub open spec fn summary_view(s: ThreadSummary) -> SummaryV {
    (s.thread_id@, s.committed_turn_count as int, s.first_generation as int, s.last_generation as int)
}

pub open spec fn summary_views(v: Seq<ThreadSummary>) -> Seq<SummaryV> {
    v.map_values(|s: ThreadSummary| summary_view(s))
}

/// The generation a turn produced: one past the one it was based on (at
/// most the largest generation).
pub open spec fn turn_generation(base: u64) -> int {
    if base == u64::MAX {
        u64::MAX as int
    } else {
        base + 1
    }
}

pub open spec fn of_thread(t: TurnEntry, pid: Seq<char>, tid: Seq<char>) -> bool {
    t.participant_id@ == pid && t.thread_id@ == tid
}

/// Count, first and last generation of the participant's turns in a thread.
pub open spec fn thread_stats(ts: Seq<TurnEntry>, pid: Seq<char>, tid: Seq<char>) -> (int, int, int)
    decreases ts.len(),
{
    if ts.len() == 0 {
        (0, 0, 0)
    } else {
        let p = thread_stats(ts.drop_last(), pid, tid);
        let t = ts.last();
        if of_thread(t, pid, tid) {
            let g = turn_generation(t.base_generation);
            if p.0 == 0 {
                (1, g, g)
            } else {
                (p.0 + 1, if g < p.1 { g } else { p.1 }, if g > p.2 { g } else { p.2 })
            }
        } else {
            p
        }
    }
}

/// The participant committed a turn in the thread.
pub open spec fn has_turn(ts: Seq<TurnEntry>, pid: Seq<char>, tid: Seq<char>) -> bool {
    exists|k: int| 0 <= k < ts.len() && of_thread(#[trigger] ts[k], pid, tid)
}

/// Threads are listed by first generation, then by id.
pub open spec fn key_lt(a: SummaryV, b: SummaryV) -> bool {
    a.2 < b.2 || (a.2 == b.2 && lex_lt(a.0, b.0))
}

proof fn lemma_stats_count(ts: Seq<TurnEntry>, pid: Seq<char>, tid: Seq<char>)
    ensures
        0 <= thread_stats(ts, pid, tid).0 <= ts.len(),
        (thread_stats(ts, pid, tid).0 == 0) == !has_turn(ts, pid, tid),
    decreases ts.len(),
{
    if ts.len() > 0 {
        let r = ts.drop_last();
        lemma_stats_count(r, pid, tid);
        if has_turn(r, pid, tid) {
            let k = choose|k: int| 0 <= k < r.len() && of_thread(#[trigger] r[k], pid, tid);
            assert(ts[k] == r[k]);
        }
        if has_turn(ts, pid, tid) && !of_thread(ts.last(), pid, tid) {
            let k = choose|k: int| 0 <= k < ts.len() && of_thread(#[trigger] ts[k], pid, tid);
            assert(k < ts.len() - 1);
            assert(r[k] == ts[k]);
        }
        if of_thread(ts.last(), pid, tid) {
            assert(of_thread(ts[ts.len() - 1], pid, tid));
        }
    }
}

proof fn lemma_key_transitive(a: SummaryV, b: SummaryV, c: SummaryV)
    requires
        key_lt(a, b),
        key_lt(b, c),
    ensures
        key_lt(a, c),
{
    if a.2 == b.2 && b.2 == c.2 {
        lemma_lex_transitive(a.0, b.0, c.0);
    }
}

proof fn lemma_key_total(a: SummaryV, b: SummaryV)
    requires
        a.0 != b.0,
    ensures
        key_lt(a, b) || key_lt(b, a),
{
    lemma_lex_total(a.0, b.0);
}

fn summary_copy(s: &ThreadSummary) -> (out: ThreadSummary)
    ensures
        summary_view(out) == summary_view(*s),
{
    ThreadSummary {
        thread_id: s.thread_id.clone(),
        committed_turn_count: s.committed_turn_count,
        first_generation: s.first_generation,
        last_generation: s.last_generation,
    }
}

fn key_lt_exec(a: &ThreadSummary, b: &ThreadSummary) -> (r: bool)
    ensures
        r == key_lt(summary_view(*a), summary_view(*b)),
{
    a.first_generation < b.first_generation || (a.first_generation == b.first_generation && str_lt(
        a.thread_id.as_str(),
        b.thread_id.as_str(),
    ))
}

/// The summaries of the participant's threads are exactly right for these turns.
pub open spec fn summaries_exact(a: Seq<SummaryV>, ts: Seq<TurnEntry>, pid: Seq<char>) -> bool {
    &&& forall|i: int| 0 <= i < a.len() ==> has_turn(ts, pid, (#[trigger] a[i]).0) && (a[i].1, a[i].2, a[i].3) == thread_stats(ts, pid, a[i].0)
    &&& forall|tid: Seq<char>| has_turn(ts, pid, tid) ==> exists|i: int| 0 <= i < a.len() && (#[trigger] a[i]).0 == tid
}

/// The thread summaries name each thread once, and name only threads in
/// which the participant committed a turn: turns of other participants
/// never contribute.
pub proof fn law_thread_summaries_distinct(a: Seq<SummaryV>, ts: Seq<TurnEntry>, pid: Seq<char>)
    requires
        summaries_exact(a, ts, pid),
        key_sorted(a),
    ensures
        forall|i: int, j: int| 0 <= i < j < a.len() ==> (#[trigger] a[i]).0 != (#[trigger] a[j]).0,
        forall|i: int| 0 <= i < a.len() ==> exists|k: int| 0 <= k < ts.len() && (#[trigger] ts[k]).participant_id@ == pid
            && ts[k].thread_id@ == (#[trigger] a[i]).0,
        (forall|k: int| 0 <= k < ts.len() ==> (#[trigger] ts[k]).participant_id@ != pid) ==> a.len() == 0,
{
    assert forall|i: int, j: int| 0 <= i < j < a.len() implies (#[trigger] a[i]).0 != (#[trigger] a[j]).0 by {
        assert(key_lt(a[i], a[j]));
        if a[i].0 == a[j].0 {
            lemma_lex_irreflexive(a[i].0);
        }
    }
    assert forall|i: int| 0 <= i < a.len() implies exists|k: int| 0 <= k < ts.len() && (#[trigger] ts[k]).participant_id@ == pid
        && ts[k].thread_id@ == (#[trigger] a[i]).0 by {
        assert(has_turn(ts, pid, a[i].0));
        let k = choose|k: int| 0 <= k < ts.len() && of_thread(#[trigger] ts[k], pid, a[i].0);
        assert(ts[k].participant_id@ == pid && ts[k].thread_id@ == a[i].0);
    }
    if a.len() > 0 && forall|k: int| 0 <= k < ts.len() ==> (#[trigger] ts[k]).participant_id@ != pid {
        assert(has_turn(ts, pid, a[0].0));
        let k = choose|k: int| 0 <= k < ts.len() && of_thread(#[trigger] ts[k], pid, a[0].0);
        assert(ts[k].participant_id@ != pid);
    }
}

fn aggregate_threads(turns: &Vec<TurnEntry>, participant_id: &str) -> (agg: Vec<ThreadSummary>)
    ensures
        summaries_exact(summary_views(agg@), turns@, participant_id@),
        forall|i: int, j: int| 0 <= i < j < agg.len() ==> (#[trigger] agg@[i]).thread_id@ != (#[trigger] agg@[j]).thread_id@,
{
    let ghost pid = participant_id@;
    let mut agg: Vec<ThreadSummary> = Vec::new();
    let mut k: usize = 0;
    while k < turns.len()
        invariant
            k <= turns.len(),
            pid == participant_id@,
            summaries_exact(summary_views(agg@), turns@.subrange(0, k as int), pid),
            forall|i: int, j: int| 0 <= i < j < agg.len() ==> (#[trigger] agg@[i]).thread_id@ != (#[trigger] agg@[j]).thread_id@,
        decreases turns.len() - k,
    {
        let ghost pre = turns@.subrange(0, k as int);
        let ghost post = turns@.subrange(0, k + 1);
        let ghost before = summary_views(agg@);
        proof {
            assert(post.drop_last() =~= pre);
            assert(post.last() == turns@[k as int]);
        }
        let t = &turns[k];
        if str_eq(t.participant_id.as_str(), participant_id) {
            let g: u64 = t.base_generation.saturating_add(1);
            assert(g == turn_generation(t.base_generation));
            let mut j: usize = 0;
            while j < agg.len() && !str_eq(agg[j].thread_id.as_str(), t.thread_id.as_str())
                invariant
                    j <= agg.len(),
                    forall|m: int| 0 <= m < j ==> (#[trigger] agg@[m]).thread_id@ != t.thread_id@,
                decreases agg.len() - j,
            {
                j += 1;
            }
            proof {
                lemma_stats_count(pre, pid, t.thread_id@);
                lemma_stats_count(post, pid, t.thread_id@);
                assert forall|tid: Seq<char>| tid != t.thread_id@ implies #[trigger] thread_stats(post, pid, tid) == thread_stats(pre, pid, tid) by {}
            }
            if j < agg.len() {
                let e = &agg[j];
                proof {
                    assert(before[j as int] == summary_view(agg@[j as int]));
                    assert(before[j as int].0 == t.thread_id@);
                    lemma_stats_count(pre, pid, t.thread_id@);
                }
                let n = ThreadSummary {
                    thread_id: e.thread_id.clone(),
                    committed_turn_count: e.committed_turn_count + 1,
                    first_generation: if g < e.first_generation { g } else { e.first_generation },
                    last_generation: if g > e.last_generation { g } else { e.last_generation },
                };
                agg.set(j, n);
                proof {
                    let after = summary_views(agg@);
                    assert(after =~= before.update(j as int, summary_view(agg@[j as int])));
                    assert forall|i: int| 0 <= i < after.len() implies has_turn(post, pid, (#[trigger] after[i]).0) && (after[i].1, after[i].2, after[i].3) == thread_stats(post, pid, after[i].0) by {
                        assert(has_turn(pre, pid, before[i].0));
                        let w = choose|w: int| 0 <= w < pre.len() && of_thread(#[trigger] pre[w], pid, before[i].0);
                        assert(post[w] == pre[w]);
                        if i != j {
                            assert(after[i] == before[i]);
                            assert(before[i].0 != t.thread_id@);
                        }
                    }
                    assert forall|tid: Seq<char>| has_turn(post, pid, tid) implies exists|i: int| 0 <= i < after.len() && (#[trigger] after[i]).0 == tid by {
                        if tid == t.thread_id@ {
                            assert(after[j as int].0 == tid);
                        } else {
                            let w = choose|w: int| 0 <= w < post.len() && of_thread(#[trigger] post[w], pid, tid);
                            assert(w < pre.len());
                            assert(pre[w] == post[w]);
                            assert(has_turn(pre, pid, tid));
                            let i = choose|i: int| 0 <= i < before.len() && (#[trigger] before[i]).0 == tid;
                            assert(after[i] == before[i]);
                        }
                    }
                }
            } else {
                proof {
                    if has_turn(pre, pid, t.thread_id@) {
                        let i = choose|i: int| 0 <= i < before.len() && (#[trigger] before[i]).0 == t.thread_id@;
                        assert(agg@[i].thread_id@ == before[i].0);
                    }
                }
                let n = ThreadSummary {
                    thread_id: t.thread_id.clone(),
                    committed_turn_count: 1,
                    first_generation: g,
                    last_generation: g,
                };
                agg.push(n);
                proof {
                    let after = summary_views(agg@);
                    assert(after =~= before.push(summary_view(agg@[agg.len() - 1])));
                    assert(of_thread(post[k as int], pid, t.thread_id@));
                    assert forall|i: int| 0 <= i < after.len() implies has_turn(post, pid, (#[trigger] after[i]).0) && (after[i].1, after[i].2, after[i].3) == thread_stats(post, pid, after[i].0) by {
                        if i < before.len() {
                            assert(after[i] == before[i]);
                            assert(has_turn(pre, pid, before[i].0));
                            let w = choose|w: int| 0 <= w < pre.len() && of_thread(#[trigger] pre[w], pid, before[i].0);
                            assert(post[w] == pre[w]);
                            assert(before[i].0 != t.thread_id@) by {
                                assert(agg@[i].thread_id@ == before[i].0);
                            }
                        }
                    }
                    assert forall|tid: Seq<char>| has_turn(post, pid, tid) implies exists|i: int| 0 <= i < after.len() && (#[trigger] after[i]).0 == tid by {
                        if tid == t.thread_id@ {
                            assert(after[after.len() - 1].0 == tid);
                        } else {
                            let w = choose|w: int| 0 <= w < post.len() && of_thread(#[trigger] post[w], pid, tid);
                            assert(w < pre.len());
                            assert(pre[w] == post[w]);
                            assert(has_turn(pre, pid, tid));
                            let i = choose|i: int| 0 <= i < before.len() && (#[trigger] before[i]).0 == tid;
                            assert(after[i] == before[i]);
                        }
                    }
                    assert forall|a: int, b: int| 0 <= a < b < agg.len() implies (#[trigger] agg@[a]).thread_id@ != (#[trigger] agg@[b]).thread_id@ by {
                        if b == agg.len() - 1 {
                        }
                    }
                }
            }
        } else {
            proof {
                assert(!of_thread(post[k as int], pid, t.thread_id@));
                assert forall|tid: Seq<char>| #[trigger] thread_stats(post, pid, tid) == thread_stats(pre, pid, tid) by {}
                assert forall|tid: Seq<char>| #[trigger] has_turn(post, pid, tid) == has_turn(pre, pid, tid) by {
                    if has_turn(post, pid, tid) {
                        let w = choose|w: int| 0 <= w < post.len() && of_thread(#[trigger] post[w], pid, tid);
                        assert(w < pre.len());
                        assert(pre[w] == post[w]);
                    }
                    if has_turn(pre, pid, tid) {
                        let w = choose|w: int| 0 <= w < pre.len() && of_thread(#[trigger] pre[w], pid, tid);
                        assert(post[w] == pre[w]);
                    }
                }
            }
        }
        k += 1;
    }
    assert(turns@.subrange(0, turns.len() as int) =~= turns@);
    agg
}


/// Strictly increasing by first generation, then thread id.
pub open spec fn key_sorted(o: Seq<SummaryV>) -> bool {
    forall|i: int, j: int| 0 <= i < j < o.len() ==> key_lt(#[trigger] o[i], #[trigger] o[j])
}

fn insert_summary(out: &mut Vec<ThreadSummary>, e: &ThreadSummary)
    requires
        key_sorted(summary_views(old(out)@)),
        forall|i: int| 0 <= i < old(out)@.len() ==> (#[trigger] old(out)@[i]).thread_id@ != e.thread_id@,
    ensures
        key_sorted(summary_views(final(out)@)),
        summary_views(final(out)@).to_set() == summary_views(old(out)@).to_set().insert(summary_view(*e)),
{
    let ghost o = summary_views(out@);
    let ghost x = summary_view(*e);
    let mut i: usize = 0;
    while i < out.len() && key_lt_exec(&out[i], e)
        invariant
            i <= out.len(),
            o == summary_views(out@),
            x == summary_view(*e),
            forall|k: int| 0 <= k < i ==> key_lt(#[trigger] o[k], x),
        decreases out.len() - i,
    {
        i += 1;
    }
    proof {
        if i < out.len() {
            assert(o[i as int].0 == out@[i as int].thread_id@);
            lemma_key_total(o[i as int], x);
        }
    }
    out.insert(i, summary_copy(e));
    proof {
        let n = summary_views(out@);
        assert(n =~= o.insert(i as int, x));
        assert forall|p: int, q: int| 0 <= p < q < n.len() implies key_lt(#[trigger] n[p], #[trigger] n[q]) by {
            if q < i {
                assert(n[p] == o[p] && n[q] == o[q]);
            } else if q == i {
                assert(n[p] == o[p]);
            } else if p == i {
                assert(n[q] == o[q - 1]);
                if q - 1 > i {
                    lemma_key_transitive(x, o[i as int], o[q - 1]);
                }
            } else if p < i {
                assert(n[p] == o[p] && n[q] == o[q - 1]);
                if q - 1 >= i {
                    if q - 1 == i {
                        lemma_key_transitive(o[p], x, o[q - 1]);
                    } else {
                        lemma_key_transitive(o[p], x, o[i as int]);
                        lemma_key_transitive(o[p], o[i as int], o[q - 1]);
                    }
                }
            } else {
                assert(n[p] == o[p - 1] && n[q] == o[q - 1]);
            }
        }
        assert(n.to_set() =~= o.to_set().insert(x)) by {
            assert forall|v: SummaryV| n.to_set().contains(v) <==> o.to_set().insert(x).contains(v) by {
                if n.to_set().contains(v) {
                    let k = choose|k: int| 0 <= k < n.len() && n[k] == v;
                    if k < i {
                        assert(o[k] == v);
                    } else if k > i {
                        assert(o[k - 1] == v);
                    }
                }
                if o.to_set().contains(v) {
                    let k = choose|k: int| 0 <= k < o.len() && o[k] == v;
                    if k < i {
                        assert(n[k] == v);
                    } else {
                        assert(n[k + 1] == v);
                    }
                }
                if v == x {
                    assert(n[i as int] == v);
                }
            }
        }
    }
}

/// The threads of a participant, from the committed turns of the Case: one
/// summary for each thread in which the participant committed a turn, with
/// the number of its turns and the first and last generation they produced,
/// listed by first generation and then by thread id.
pub fn derive_thread_summaries(turns: &Vec<TurnEntry>, participant_id: &str) -> (out: Vec<ThreadSummary>)
    ensures
        summaries_exact(summary_views(out@), turns@, participant_id@),
        key_sorted(summary_views(out@)),
{
    let agg = aggregate_threads(turns, participant_id);
    let ghost a = summary_views(agg@);
    let mut out: Vec<ThreadSummary> = Vec::new();
    let mut m: usize = 0;
    assert(summary_views(out@).to_set() =~= a.subrange(0, 0).to_set());
    while m < agg.len()
        invariant
            m <= agg.len(),
            a == summary_views(agg@),
            forall|i: int, j: int| 0 <= i < j < agg.len() ==> (#[trigger] agg@[i]).thread_id@ != (#[trigger] agg@[j]).thread_id@,
            key_sorted(summary_views(out@)),
            summary_views(out@).to_set() == a.subrange(0, m as int).to_set(),
        decreases agg.len() - m,
    {
        proof {
            assert forall|i: int| 0 <= i < out@.len() implies (#[trigger] out@[i]).thread_id@ != agg@[m as int].thread_id@ by {
                assert(summary_views(out@)[i] == summary_view(out@[i]));
                assert(summary_views(out@).to_set().contains(summary_views(out@)[i]));
                let q = choose|q: int| 0 <= q < m && a.subrange(0, m as int)[q] == summary_views(out@)[i];
                assert(a[q] == summary_view(agg@[q]));
            }
        }
        insert_summary(&mut out, &agg[m]);
        proof {
            assert(a.subrange(0, m + 1) =~= a.subrange(0, m as int).push(a[m as int]));
            a.subrange(0, m as int).lemma_push_to_set_commute(a[m as int]);
        }
        m += 1;
    }
    proof {
        let o = summary_views(out@);
        assert(a.subrange(0, agg.len() as int) =~= a);
        assert forall|i: int| 0 <= i < o.len() implies has_turn(turns@, participant_id@, (#[trigger] o[i]).0) && (o[i].1, o[i].2, o[i].3) == thread_stats(turns@, participant_id@, o[i].0) by {
            assert(o.to_set().contains(o[i]));
            let q = choose|q: int| 0 <= q < a.len() && a[q] == o[i];
            assert(has_turn(turns@, participant_id@, a[q].0));
        }
        assert forall|tid: Seq<char>| has_turn(turns@, participant_id@, tid) implies exists|i: int| 0 <= i < o.len() && (#[trigger] o[i]).0 == tid by {
            let q = choose|q: int| 0 <= q < a.len() && (#[trigger] a[q]).0 == tid;
            assert(a.to_set().contains(a[q]));
            let k = choose|k: int| 0 <= k < o.len() && o[k] == a[q];
            assert(o[k].0 == tid);
        }
    }
    out
}


/// A step of finished Case work, as its summary reads it: `posture` is the
/// posture (or else the status) its outcome names, `review_id` the review
/// its outcome opened, where there are such.
pub struct WorkStep {
    pub ordinal: u16,
    pub plan_id: String,
    pub lane_id: String,
    pub target_id: String,
    pub provider_result_id: String,
    pub operation_id: Option<String>,
    pub posture: Option<String>,
    pub review_id: Option<String>,
    pub recovered: bool,
}

pub open spec fn or_text(o: Option<String>, d: Seq<char>) -> Seq<char> {
    match o {
        Some(s) => s@,
        None => d,
    }
}

/// The lines of a step: its number, posture, whether it was reused and what
/// it produced; then the review it opened, if any.
pub open spec fn step_lines(st: WorkStep) -> Seq<char> {
    "\n  "@ + crate::numbers::decimal_spec((st.ordinal + 1) as nat) + ". "@ + or_text(st.posture, "provider_result"@)
        + " reused="@ + (if st.recovered { "true"@ } else { "false"@ }) + " "@ + or_text(st.operation_id, st.provider_result_id@)
        + match st.review_id {
        Some(r) => "\nreview_id: "@ + r@,
        None => Seq::empty(),
    }
}

pub open spec fn steps_text(steps: Seq<WorkStep>) -> Seq<char>
    decreases steps.len(),
{
    if steps.len() == 0 {
        Seq::empty()
    } else {
        steps_text(steps.drop_last()) + step_lines(steps.last())
    }
}

/// The operator summary of finished Case work.
pub open spec fn work_summary_spec(request_id: Seq<char>, steps: Seq<WorkStep>) -> Seq<char> {
    "case_work: "@ + request_id + steps_text(steps) + if steps.len() == 0 {
        Seq::empty()
    } else {
        let l = steps.last();
        "\ntarget_id: "@ + l.target_id@ + "\nlane_id: "@ + l.lane_id@ + "\nplan_id: "@ + l.plan_id@
            + "\nprovider_result_id: "@ + l.provider_result_id@
    }
}

fn push_opt_or(out: &mut Vec<char>, o: &Option<String>, d: &str)
    ensures
        final(out)@ == old(out)@ + match *o {
            Some(s) => s@,
            None => d@,
        },
{
    match o {
        Some(s) => push_str(out, s.as_str()),
        None => push_str(out, d),
    }
}

fn step_line_exec(st: &WorkStep) -> (h: Vec<char>)
    ensures
        h@ == step_lines(*st),
{
    let mut h = chars_of("\n  ");
    crate::numbers::push_decimal(&mut h, st.ordinal as u64 + 1);
    push_str(&mut h, ". ");
    push_opt_or(&mut h, &st.posture, "provider_result");
    push_str(&mut h, " reused=");
    if st.recovered {
        push_str(&mut h, "true");
    } else {
        push_str(&mut h, "false");
    }
    push_str(&mut h, " ");
    match &st.operation_id {
        Some(x) => push_str(&mut h, x.as_str()),
        None => push_str(&mut h, st.provider_result_id.as_str()),
    }
    let ghost base = h@;
    match &st.review_id {
        Some(r) => {
            push_str(&mut h, "\nreview_id: ");
            push_str(&mut h, r.as_str());
            assert(h@ =~= base + ("\nreview_id: "@ + r@));
        },
        None => {
            assert(h@ =~= base + Seq::<char>::empty());
        },
    }
    h
}

/// The compact summary of finished Case work shown to the operator.
pub fn operator_summary(request_id: &str, steps: &Vec<WorkStep>) -> (out: String)
    ensures
        out@ == work_summary_spec(request_id@, steps@),
{
    let mut o = chars_of("case_work: ");
    push_str(&mut o, request_id);
    let ghost head = o@;
    let mut i: usize = 0;
    while i < steps.len()
        invariant
            i <= steps.len(),
            o@ == head + steps_text(steps@.subrange(0, i as int)),
        decreases steps.len() - i,
    {
        let ghost before = o@;
        let line = step_line_exec(&steps[i]);
        crate::text::push_all(&mut o, &line);
        proof {
            assert(steps@.subrange(0, i + 1).drop_last() =~= steps@.subrange(0, i as int));
            assert(steps@.subrange(0, i + 1).last() == steps@[i as int]);
            assert(o@ =~= before + step_lines(steps@[i as int]));
        }
        i += 1;
    }
    assert(steps@.subrange(0, steps.len() as int) =~= steps@);
    let ghost mid = o@;
    if steps.len() > 0 {
        let l = &steps[steps.len() - 1];
        push_str(&mut o, "\ntarget_id: ");
        push_str(&mut o, l.target_id.as_str());
        push_str(&mut o, "\nlane_id: ");
        push_str(&mut o, l.lane_id.as_str());
        push_str(&mut o, "\nplan_id: ");
        push_str(&mut o, l.plan_id.as_str());
        push_str(&mut o, "\nprovider_result_id: ");
        push_str(&mut o, l.provider_result_id.as_str());
    }
    assert(o@ =~= work_summary_spec(request_id@, steps@));
    string_of(&o)
}

} // verus!
