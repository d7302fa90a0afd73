//! The guards of the derived memory index: a build or publication stays
//! within one Case generation and one governed encoder, and an encoder's
//! reply is checked item by item before any vector is kept.

use vstd::prelude::*;
use crate::presentation::has_prefix;
use crate::args::{arg_value, limit_text, named_arg, optional_arg, parse_limit};
use crate::numbers::{IntErrorKind, parse_unsigned_spec};
use crate::observe::missing_option;
use crate::seqs::views;
use crate::settings::{env_lookup, env_var, env_views};
use crate::terminal::strip_spec;
use crate::text::{chars_of, owned, push_str, slice_chars, str_eq, string_of};

verus! {

/// A build or publication of the memory index must see the Case generation
/// it started from.
pub fn require_case_generation(expected: u64, current: u64, publication: bool) -> (r: Result<(), String>)
    ensures
        expected == current ==> r is Ok,
        expected != current && publication ==> (r matches Err(e) && e@
            == "memory_index_case_generation_changed_during_publication"@),
        expected != current && !publication ==> (r matches Err(e) && e@
            == "memory_index_case_generation_changed_during_build"@),
{
    if expected == current {
        Ok(())
    } else if publication {
        Err(owned("memory_index_case_generation_changed_during_publication"))
    } else {
        Err(owned("memory_index_case_generation_changed_during_build"))
    }
}

/// What a memory retrieval is for.
#[derive(Clone, Copy, Debug, PartialEq, Eq, Structural)]
pub enum ProjectionPurpose {
    Conversation,
    FilesystemWriteProposal,
    EffectConsequence,
    Inspection,
}

/// The purpose a retrieval names, under its own name or its task alias.
pub open spec fn purpose_spec(v: Seq<char>) -> Option<ProjectionPurpose> {
    if v == "conversation"@ || v == "continue_task"@ {
        Some(ProjectionPurpose::Conversation)
    } else if v == "filesystem_write_proposal"@ || v == "propose_operation"@ {
        Some(ProjectionPurpose::FilesystemWriteProposal)
    } else if v == "effect_consequence"@ || v == "inspect_resource"@ {
        Some(ProjectionPurpose::EffectConsequence)
    } else if v == "inspection"@ {
        Some(ProjectionPurpose::Inspection)
    } else {
        None
    }
}

/// The purpose of a memory retrieval.
pub fn parse_memory_purpose(value: &str) -> (r: Result<ProjectionPurpose, String>)
    ensures
        match r {
            Ok(p) => purpose_spec(value@) == Some(p),
            Err(e) => purpose_spec(value@) is None && e@ == "unsupported memory retrieval purpose: "@ + value@,
        },
{
    if str_eq(value, "conversation") || str_eq(value, "continue_task") {
        Ok(ProjectionPurpose::Conversation)
    } else if str_eq(value, "filesystem_write_proposal") || str_eq(value, "propose_operation") {
        Ok(ProjectionPurpose::FilesystemWriteProposal)
    } else if str_eq(value, "effect_consequence") || str_eq(value, "inspect_resource") {
        Ok(ProjectionPurpose::EffectConsequence)
    } else if str_eq(value, "inspection") {
        Ok(ProjectionPurpose::Inspection)
    } else {
        let mut m = chars_of("unsupported memory retrieval purpose: ");
        push_str(&mut m, value);
        Err(string_of(&m))
    }
}

/// The governed identity of a memory encoder at one moment: its provider
/// target (in its canonical form), the credential it uses, the
/// qualification it holds and the revision of its credential.
pub struct EncoderSnapshot {
    pub target: String,
    pub credential: Option<String>,
    pub qualification_id: String,
    pub credential_revision: u64,
}

pub open spec fn same_identity_spec(a: EncoderSnapshot, b: EncoderSnapshot) -> bool {
    &&& a.target@ == b.target@
    &&& a.qualification_id@ == b.qualification_id@
    &&& a.credential_revision == b.credential_revision
    &&& crate::settings::ov(a.credential) == crate::settings::ov(b.credential)
}

impl EncoderSnapshot {
    /// The same target, qualification, credential revision and credential.
    pub fn same_governed_identity(&self, other: &Self) -> (r: bool)
        ensures
            r == same_identity_spec(*self, *other),
    {
        let cred = match (&self.credential, &other.credential) {
            (Some(a), Some(b)) => str_eq(a.as_str(), b.as_str()),
            (None, None) => true,
            _ => false,
        };
        str_eq(self.target.as_str(), other.target.as_str()) && str_eq(
            self.qualification_id.as_str(),
            other.qualification_id.as_str(),
        ) && self.credential_revision == other.credential_revision && cred
    }
}

/// A build keeps the encoder it was admitted with: the recheck's refusal
/// stands, and any change of governed identity stops the build.
pub fn require_memory_encoder_snapshot(admitted: &EncoderSnapshot, current: Result<EncoderSnapshot, String>) -> (r: Result<(), String>)
    ensures
        current matches Err(e) ==> (r matches Err(m) && m@ == e@),
        current matches Ok(c) ==> (same_identity_spec(*admitted, c) ==> r is Ok),
        current matches Ok(c) ==> (!same_identity_spec(*admitted, c) ==> (r matches Err(m) && m@
            == "memory_encoder_governance_changed_during_build"@)),
{
    let current = match current {
        Ok(c) => c,
        Err(e) => return Err(e),
    };
    if admitted.same_governed_identity(&current) {
        Ok(())
    } else {
        Err(owned("memory_encoder_governance_changed_during_build"))
    }
}

/// The credential of a memory encoder: none where its reference is `none`;
/// the variable named after `env:` otherwise, which must be set.
pub open spec fn encoder_credential_spec(reference: Seq<char>, env: Seq<(Seq<char>, Seq<char>)>) -> Result<Option<Seq<char>>, Seq<char>> {
    if reference == "none"@ {
        Ok(None)
    } else {
        match strip_spec(reference, "env:"@) {
            None => Err("memory_encoder_credential_reference_unsupported"@),
            Some(name) => match env_lookup(env, name) {
                Some(v) => Ok(Some(v)),
                None => Err("memory_encoder_credential_unavailable"@),
            },
        }
    }
}

/// The credential a memory encoder's reference leads to.
pub fn credential_for_memory_encoder(reference: &str, env: &Vec<(String, String)>) -> (r: Result<Option<String>, String>)
    ensures
        match r {
            Ok(c) => encoder_credential_spec(reference@, env_views(env@)) == Ok::<Option<Seq<char>>, Seq<char>>(crate::settings::ov(c)),
            Err(e) => encoder_credential_spec(reference@, env_views(env@)) == Err::<Option<Seq<char>>, Seq<char>>(e@),
        },
{
    if str_eq(reference, "none") {
        return Ok(None);
    }
    let cs = chars_of(reference);
    let pre = chars_of("env:");
    if pre.len() > cs.len() || !crate::text::chars_match_at(&cs, &pre, 0) {
        return Err(owned("memory_encoder_credential_reference_unsupported"));
    }
    let name = string_of(&slice_chars(&cs, pre.len(), cs.len()));
    match env_var(env, name.as_str()) {
        Some(v) => Ok(Some(v)),
        None => Err(owned("memory_encoder_credential_unavailable")),
    }
}

/// One item of an encoder's reply, as the host read it: its index, the
/// length of its vector (none where there is no vector), whether every
/// value is a finite number that fits 32 bits, and whether the vector has a
/// length above rounding.
pub struct EmbeddingItem {
    pub index: Option<u64>,
    pub vector_len: Option<usize>,
    pub finite: bool,
    pub nonzero: bool,
}

/// The refusal for item `k`, given the indices of the items before it.
pub open spec fn item_refusal(items: Seq<EmbeddingItem>, k: int, count: int, dimension: int) -> Option<Seq<char>> {
    let it = items[k];
    match it.index {
        None => Some("memory_encoder_response_index_missing"@),
        Some(ix) => if ix >= count || exists|j: int| 0 <= j < k && #[trigger] items[j].index == Some(ix) {
            Some("memory_encoder_response_index_invalid"@)
        } else {
            match it.vector_len {
                None => Some("memory_encoder_response_vector_missing"@),
                Some(n) => if n != dimension {
                    Some("memory_encoder_response_dimension_mismatch"@)
                } else if !it.finite {
                    Some("memory_encoder_response_non_finite"@)
                } else if !it.nonzero {
                    Some("memory_encoder_response_zero_vector"@)
                } else {
                    None
                },
            }
        },
    }
}

/// The first refusal among the items from `k` on.
pub open spec fn items_refusal(items: Seq<EmbeddingItem>, k: int, count: int, dimension: int) -> Option<Seq<char>>
    decreases items.len() - k,
{
    if k < 0 || k >= items.len() {
        None
    } else {
        match item_refusal(items, k, count, dimension) {
            Some(e) => Some(e),
            None => items_refusal(items, k + 1, count, dimension),
        }
    }
}

/// Some item holds the index `i`.
pub open spec fn covers(items: Seq<EmbeddingItem>, i: int) -> bool {
    exists|j: int| 0 <= j < items.len() && #[trigger] items[j].index == Some(i as u64)
}

/// The checks of an encoder's reply: it names the model asked for, holds a
/// list of as many items as texts were sent, and every item passes.
pub open spec fn embedding_refusal(
    model: Option<Seq<char>>,
    items: Option<Seq<EmbeddingItem>>,
    model_id: Seq<char>,
    count: int,
    dimension: int,
) -> Option<Seq<char>> {
    if model != Some(model_id) {
        Some("memory_encoder_response_model_mismatch"@)
    } else {
        match items {
            None => Some("memory_encoder_response_data_missing"@),
            Some(its) => if its.len() != count {
                Some("memory_encoder_response_count_mismatch"@)
            } else {
                match items_refusal(its, 0, count, dimension) {
                    Some(e) => Some(e),
                    None => if exists|i: int| 0 <= i < count && !#[trigger] covers(its, i) {
                        Some("memory_encoder_response_index_missing"@)
                    } else {
                        None
                    },
                }
            },
        }
    }
}

/// Checks an encoder's reply; where it passes, gives for each text (by its
/// index) the position of the item that holds its vector.
pub fn embedding_order(
    model: Option<&str>,
    items: Option<&Vec<EmbeddingItem>>,
    model_id: &str,
    count: usize,
    dimension: usize,
) -> (r: Result<Vec<usize>, String>)
    ensures
        match r {
            Err(e) => embedding_refusal(
                match model { Some(m) => Some(m@), None => None },
                match items { Some(v) => Some(v@), None => None },
                model_id@,
                count as int,
                dimension as int,
            ) == Some(e@),
            Ok(order) => embedding_refusal(
                match model { Some(m) => Some(m@), None => None },
                match items { Some(v) => Some(v@), None => None },
                model_id@,
                count as int,
                dimension as int,
            ) is None && order.len() == count && (items matches Some(v) && forall|i: int|
                0 <= i < count ==> (#[trigger] order@[i]) < v.len() && v@[order@[i] as int].index
                    == Some(i as u64)),
        },
{
    let model_ok = match model {
        Some(m) => str_eq(m, model_id),
        None => false,
    };
    if !model_ok {
        return Err(owned("memory_encoder_response_model_mismatch"));
    }
    let v = match items {
        None => return Err(owned("memory_encoder_response_data_missing")),
        Some(v) => v,
    };
    if v.len() != count {
        return Err(owned("memory_encoder_response_count_mismatch"));
    }
    let mut order: Vec<usize> = Vec::new();
    let mut seen: Vec<bool> = Vec::new();
    let mut t: usize = 0;
    while t < count
        invariant
            t <= count,
            order.len() == t,
            seen.len() == t,
            forall|i: int| 0 <= i < t ==> !(#[trigger] seen@[i]),
        decreases count - t,
    {
        order.push(0);
        seen.push(false);
        t += 1;
    }
    let mut k: usize = 0;
    while k < v.len()
        invariant
            v.len() == count,
            order.len() == count,
            seen.len() == count,
            k <= v.len(),
            items == Some(v),
            (match model { Some(m) => Some(m@), None => None }) == Some(model_id@),
            items_refusal(v@, 0, count as int, dimension as int) == items_refusal(v@, k as int, count as int, dimension as int),
            forall|i: int| 0 <= i < count ==> (#[trigger] seen@[i] <==> exists|j: int| 0 <= j < k && #[trigger] v@[j].index == Some(i as u64)),
            forall|i: int| 0 <= i < count && seen@[i] ==> (#[trigger] order@[i]) < k && v@[order@[i] as int].index == Some(i as u64),
        decreases v.len() - k,
    {
        let it = &v[k];
        let ix = match it.index {
            None => return Err(owned("memory_encoder_response_index_missing")),
            Some(ix) => ix,
        };
        if ix >= count as u64 || seen[ix as usize] {
            proof {
                if ix < count as u64 && seen@[ix as int] {
                    let j = choose|j: int| 0 <= j < k && v@[j].index == Some((ix as int) as u64);
                    assert(v@[j].index == Some(ix));
                }
            }
            return Err(owned("memory_encoder_response_index_invalid"));
        }
        proof {
            assert(!(exists|j: int| 0 <= j < k && #[trigger] v@[j].index == Some(ix))) by {
                if exists|j: int| 0 <= j < k && #[trigger] v@[j].index == Some(ix) {
                    let j = choose|j: int| 0 <= j < k && #[trigger] v@[j].index == Some(ix);
                    assert(seen@[ix as int]);
                }
            }
        }
        let n = match it.vector_len {
            None => return Err(owned("memory_encoder_response_vector_missing")),
            Some(n) => n,
        };
        if n != dimension {
            return Err(owned("memory_encoder_response_dimension_mismatch"));
        }
        if !it.finite {
            return Err(owned("memory_encoder_response_non_finite"));
        }
        if !it.nonzero {
            return Err(owned("memory_encoder_response_zero_vector"));
        }
        assert(item_refusal(v@, k as int, count as int, dimension as int) is None);
        order.set(ix as usize, k);
        seen.set(ix as usize, true);
        proof {
            assert forall|i: int| 0 <= i < count implies (#[trigger] seen@[i] <==> exists|j: int| 0 <= j < k + 1 && v@[j].index == Some(i as u64)) by {
                if i == ix as int {
                    assert(v@[k as int].index == Some(i as u64));
                } else {
                    if exists|j: int| 0 <= j < k + 1 && v@[j].index == Some(i as u64) {
                        let j = choose|j: int| 0 <= j < k + 1 && v@[j].index == Some(i as u64);
                        assert(j != k);
                    }
                }
            }
        }
        k += 1;
    }
    proof {
        assert forall|i: int| 0 <= i < count implies (seen@[i] <==> #[trigger] covers(v@, i)) by {
            if seen@[i] {
                let j = choose|j: int| 0 <= j < v.len() && #[trigger] v@[j].index == Some(i as u64);
                assert(covers(v@, i));
            }
        }
    }
    let mut t: usize = 0;
    while t < count
        invariant
            t <= count,
            v.len() == count,
            order.len() == count,
            seen.len() == count,
            items == Some(v),
            (match model { Some(m) => Some(m@), None => None }) == Some(model_id@),
            items_refusal(v@, 0, count as int, dimension as int) is None,
            forall|i: int| 0 <= i < count ==> (seen@[i] <==> #[trigger] covers(v@, i)),
            forall|i: int| 0 <= i < count && seen@[i] ==> (#[trigger] order@[i]) < count && v@[order@[i] as int].index == Some(i as u64),
            forall|i: int| 0 <= i < t ==> #[trigger] seen@[i],
        decreases count - t,
    {
        if !seen[t] {
            assert(!covers(v@, t as int));
            return Err(owned("memory_encoder_response_index_missing"));
        }
        t += 1;
    }
    Ok(order)
}

/// The items' indices are a permutation of `0..count`: each names a text,
/// no two the same, and every text is named.
pub open spec fn indices_permutation(items: Seq<EmbeddingItem>, count: int) -> bool {
    &&& items.len() == count
    &&& forall|k: int| 0 <= k < items.len() ==> ((#[trigger] items[k]).index matches Some(ix) && ix < count)
    &&& forall|j: int, k: int| 0 <= j < k < items.len() ==> #[trigger] items[j].index != #[trigger] items[k].index
    &&& forall|i: int| 0 <= i < count ==> #[trigger] covers(items, i)
}

proof fn lemma_items_pass(items: Seq<EmbeddingItem>, k: int, count: int, dimension: int)
    requires
        0 <= k,
        items_refusal(items, k, count, dimension) is None,
    ensures
        forall|m: int| k <= m < items.len() ==> #[trigger] item_refusal(items, m, count, dimension) is None,
    decreases items.len() - k,
{
    if k < items.len() {
        lemma_items_pass(items, k + 1, count, dimension);
    }
}

/// A reply that passes every check names the model asked for, and its items
/// carry each text's index exactly once, each with a finite, non-zero
/// vector of the dimension asked for.
pub proof fn law_embedding_reply_accepted(
    model: Option<Seq<char>>,
    items: Seq<EmbeddingItem>,
    model_id: Seq<char>,
    count: int,
    dimension: int,
)
    requires
        embedding_refusal(model, Some(items), model_id, count, dimension) is None,
    ensures
        model == Some(model_id),
        indices_permutation(items, count),
        forall|k: int| 0 <= k < items.len() ==> (#[trigger] items[k]).vector_len == Some(dimension as usize)
            && items[k].finite && items[k].nonzero,
{
    lemma_items_pass(items, 0, count, dimension);
    assert forall|k: int| 0 <= k < items.len() implies ((#[trigger] items[k]).index matches Some(ix) && ix < count)
        && items[k].vector_len == Some(dimension as usize) && items[k].finite && items[k].nonzero by {
        assert(item_refusal(items, k, count, dimension) is None);
    }
    assert forall|j: int, k: int| 0 <= j < k < items.len() implies #[trigger] items[j].index != #[trigger] items[k].index by {
        assert(item_refusal(items, k, count, dimension) is None);
        let ix = items[k].index->0;
        if items[j].index == items[k].index {
            assert(items[j].index == Some(ix));
        }
    }
}

/// What a hybrid memory retrieval is asked for on the command line.
pub struct RetrievalArgs {
    pub participant_id: String,
    pub resource_refs: Vec<String>,
    pub causal_refs: Vec<String>,
    pub max_results: usize,
    pub include_superseded: bool,
}

/// The option's value as a list of at most one item.
pub open spec fn opt_list(o: Option<Seq<char>>) -> Seq<Seq<char>> {
    match o {
        Some(v) => seq![v],
        None => Seq::empty(),
    }
}

fn opt_vec(o: Option<String>) -> (v: Vec<String>)
    ensures
        views(v@) == opt_list(match o {
            Some(s) => Some(s@),
            None => None,
        }),
{
    let mut v: Vec<String> = Vec::new();
    match o {
        Some(s) => v.push(s),
        None => {},
    }
    assert(views(v@) =~= opt_list(match o {
        Some(s) => Some(s@),
        None => None,
    }));
    v
}

/// The arguments of a hybrid retrieval: the required participant, the
/// resource and causal reference where given, the `--limit` (20 by
/// default), and whether superseded memory is included.
pub fn retrieval_args(args: &[String]) -> (r: Result<RetrievalArgs, String>)
    ensures
        match r {
            Ok(q) => {
                &&& arg_value(views(args@), "--participant"@) == Some(q.participant_id@)
                &&& views(q.resource_refs@) == opt_list(arg_value(views(args@), "--resource"@))
                &&& views(q.causal_refs@) == opt_list(arg_value(views(args@), "--causal-ref"@))
                &&& q.max_results > 0
                &&& parse_unsigned_spec(limit_text(views(args@)), 10, usize::MAX as int) == Ok::<int, IntErrorKind>(
                    q.max_results as int,
                )
                &&& q.include_superseded == views(args@).contains("--include-superseded"@)
            },
            Err(e) => match arg_value(views(args@), "--participant"@) {
                None => e@ == missing_option(views(args@), "--participant"@),
                Some(_) => match parse_unsigned_spec(limit_text(views(args@)), 10, usize::MAX as int) {
                    Ok(v) => v == 0 && e@ == "--limit must be greater than zero"@,
                    Err(_) => e@ == "invalid --limit value: "@ + limit_text(views(args@)),
                },
            },
        },
{
    let participant_id = named_arg(args, "--participant")?;
    let resource_refs = opt_vec(optional_arg(args, "--resource"));
    let causal_refs = opt_vec(optional_arg(args, "--causal-ref"));
    let max_results = parse_limit(args)?;
    let mut with_superseded = false;
    let mut i: usize = 0;
    while i < args.len()
        invariant
            i <= args.len(),
            with_superseded == views(args@).subrange(0, i as int).contains("--include-superseded"@),
        decreases args.len() - i,
    {
        proof {
            assert(views(args@).subrange(0, i + 1) =~= views(args@).subrange(0, i as int).push(args@[i as int]@));
        }
        if str_eq(args[i].as_str(), "--include-superseded") {
            with_superseded = true;
        }
        proof {
            let pre = views(args@).subrange(0, i as int);
            let cur = views(args@).subrange(0, i + 1);
            if cur.contains("--include-superseded"@) && !pre.contains("--include-superseded"@) {
                let j = choose|j: int| 0 <= j < cur.len() && cur[j] == "--include-superseded"@;
                if j < i {
                    assert(pre[j] == cur[j]);
                }
            }
            if with_superseded && pre.contains("--include-superseded"@) {
                let j = choose|j: int| 0 <= j < pre.len() && pre[j] == "--include-superseded"@;
                assert(cur[j] == pre[j]);
            }
            if with_superseded && !pre.contains("--include-superseded"@) {
                assert(cur[i as int] == "--include-superseded"@);
            }
        }
        i += 1;
    }
    assert(views(args@).subrange(0, args.len() as int) =~= views(args@));
    Ok(RetrievalArgs { participant_id, resource_refs, causal_refs, max_results, include_superseded: with_superseded })
}

} // verus!
