//! The checks of native-function lowering of a Case capability view: which
//! resource catalogs may shape the offered functions, and how a function
//! call of the provider becomes a capability request. A call is matched
//! only against what was offered, by name; its arguments never replace what
//! the offer fixed.

use vstd::prelude::*;
use crate::seqs::views;
use crate::text::{owned, str_eq};

verus! {

/// Not more than this many resource catalogs shape one offer.
pub const CATALOG_MAX: usize = 16;

/// A resource observation offered as a catalog: its Case, its participant,
/// whether it is an MCP catalog, and its own validation's refusal, if any.
pub struct CatalogScope {
    pub case_id: String,
    pub participant_id: String,
    pub is_mcp_catalog: bool,
    pub refusal: Option<String>,
}

/// The first refusal among the catalogs from `k` on: a catalog's own
/// refusal, or one of another Case, participant or kind.
pub open spec fn catalogs_refusal(cs: Seq<CatalogScope>, case_id: Seq<char>, participant: Seq<char>, k: int) -> Option<Seq<char>>
    decreases cs.len() - k,
{
    if k < 0 || k >= cs.len() {
        None
    } else {
        match cs[k].refusal {
            Some(e) => Some(e@),
            None => if cs[k].case_id@ != case_id || cs[k].participant_id@ != participant || !cs[k].is_mcp_catalog {
                Some("capability_catalog_scope_mismatch"@)
            } else {
                catalogs_refusal(cs, case_id, participant, k + 1)
            },
        }
    }
}

/// The catalogs may shape an offer to `participant` in `case_id`: not more
/// than the bound, each valid, of the same Case and participant, and an
/// MCP catalog.
pub fn catalog_scope_check(catalogs: &Vec<CatalogScope>, case_id: &str, participant_id: &str) -> (r: Result<(), String>)
    ensures
        catalogs.len() > CATALOG_MAX ==> (r matches Err(e) && e@ == "capability_catalog_bound"@),
        catalogs.len() <= CATALOG_MAX ==> match catalogs_refusal(catalogs@, case_id@, participant_id@, 0) {
            None => r is Ok,
            Some(m) => r matches Err(e) && e@ == m,
        },
{
    if catalogs.len() > CATALOG_MAX {
        return Err(owned("capability_catalog_bound"));
    }
    let mut k: usize = 0;
    while k < catalogs.len()
        invariant
            k <= catalogs.len() <= CATALOG_MAX,
            catalogs_refusal(catalogs@, case_id@, participant_id@, 0) == catalogs_refusal(
                catalogs@,
                case_id@,
                participant_id@,
                k as int,
            ),
        decreases catalogs.len() - k,
    {
        let c = &catalogs[k];
        match &c.refusal {
            Some(e) => return Err(owned(e.as_str())),
            None => {},
        }
        if !str_eq(c.case_id.as_str(), case_id) || !str_eq(c.participant_id.as_str(), participant_id)
            || !c.is_mcp_catalog {
            return Err(owned("capability_catalog_scope_mismatch"));
        }
        k += 1;
    }
    Ok(())
}

/// A function offered to the provider: its name, whether it writes a file,
/// the keys of the action it fixes (none where that is no object), and
/// whether that action is an MCP tool call, whose arguments go whole.
pub struct OfferedShape {
    pub name: String,
    pub filesystem_write: bool,
    pub template_keys: Option<Vec<String>>,
    pub tool_call: bool,
}

/// The arguments of the provider's call as read: its `path` and `content`
/// where they are strings, and its keys where they form an object.
pub struct CallArguments {
    pub path: Option<String>,
    pub content: Option<String>,
    pub keys: Option<Vec<String>>,
}

/// How a call is lowered, by the position of the function it names.
pub enum Lowering {
    /// A file write of `content` at `path`.
    Write { offered: usize, path: String, content: String },
    /// The fixed action with the call's arguments put under `arguments`.
    ToolCall { offered: usize },
    /// The fixed action with each argument added beside its keys.
    Merge { offered: usize },
}

/// Position of the first offered function named `name`, or -1.
pub open spec fn offered_index(offered: Seq<OfferedShape>, name: Seq<char>) -> int
    decreases offered.len(),
{
    if offered.len() == 0 {
        -1
    } else if offered.last().name@ == name && offered_index(offered.drop_last(), name) < 0 {
        offered.len() - 1
    } else {
        offered_index(offered.drop_last(), name)
    }
}

/// Some argument key is already a key of the fixed action.
pub open spec fn overrides(keys: Seq<Seq<char>>, fixed: Seq<Seq<char>>) -> bool {
    exists|i: int| 0 <= i < keys.len() && fixed.contains(#[trigger] keys[i])
}

/// The lowering as plain values: the kind (0 write, 1 tool call, 2 merge),
/// the offered position, and the path and content of a write.
pub type LoweringV = (int, int, Seq<char>, Seq<char>);

pub open spec fn lowering_view(l: Lowering) -> LoweringV {
    match l {
        Lowering::Write { offered, path, content } => (0, offered as int, path@, content@),
        Lowering::ToolCall { offered } => (1, offered as int, Seq::empty(), Seq::empty()),
        Lowering::Merge { offered } => (2, offered as int, Seq::empty(), Seq::empty()),
    }
}

/// How a call of `name` with `args` is lowered against the offer, or the
/// refusal: a name not offered; a write without a string path or content;
/// a fixed action that is no object; arguments that are no object, or that
/// would replace a key the offer fixed.
pub open spec fn lowering_spec(offered: Seq<OfferedShape>, name: Seq<char>, args: CallArguments) -> Result<LoweringV, Seq<char>> {
    let i = offered_index(offered, name);
    if i < 0 {
        Err("capability_not_offered"@)
    } else {
        let o = offered[i];
        if o.filesystem_write {
            match args.path {
                None => Err("capability_path_missing"@),
                Some(p) => match args.content {
                    None => Err("capability_content_missing"@),
                    Some(c) => Ok((0, i, p@, c@)),
                },
            }
        } else {
            match o.template_keys {
                None => Err("capability_template_invalid"@),
                Some(fixed) => if o.tool_call {
                    Ok((1, i, Seq::empty(), Seq::empty()))
                } else {
                    match args.keys {
                        None => Err("capability_arguments_invalid"@),
                        Some(ks) => if overrides(views(ks@), views(fixed@)) {
                            Err("capability_template_override"@)
                        } else {
                            Ok((2, i, Seq::empty(), Seq::empty()))
                        },
                    }
                },
            }
        }
    }
}

fn find_offered(offered: &Vec<OfferedShape>, name: &str) -> (r: Option<usize>)
    ensures
        match r {
            Some(i) => offered_index(offered@, name@) == i && i < offered.len(),
            None => offered_index(offered@, name@) < 0,
        },
{
    let mut i: usize = 0;
    while i < offered.len()
        invariant
            i <= offered.len(),
            offered_index(offered@.subrange(0, i as int), name@) < 0,
        decreases offered.len() - i,
    {
        proof {
            assert(offered@.subrange(0, i + 1).drop_last() =~= offered@.subrange(0, i as int));
        }
        if str_eq(offered[i].name.as_str(), name) {
            proof {
                lemma_index_prefix(offered@, name@, i + 1);
            }
            return Some(i);
        }
        i += 1;
    }
    assert(offered@.subrange(0, offered.len() as int) =~= offered@);
    None
}

proof fn lemma_index_prefix(offered: Seq<OfferedShape>, name: Seq<char>, n: int)
    requires
        0 < n <= offered.len(),
        offered[n - 1].name@ == name,
        offered_index(offered.subrange(0, n - 1), name) < 0,
    ensures
        offered_index(offered, name) == n - 1,
    decreases offered.len() - n,
{
    let pre = offered.subrange(0, n);
    assert(pre.drop_last() =~= offered.subrange(0, n - 1));
    assert(pre.last() == offered[n - 1]);
    if n < offered.len() {
        lemma_index_stable(offered, name, n);
    } else {
        assert(pre =~= offered);
    }
}

proof fn lemma_index_stable(offered: Seq<OfferedShape>, name: Seq<char>, n: int)
    requires
        0 < n <= offered.len(),
        offered_index(offered.subrange(0, n), name) >= 0,
    ensures
        offered_index(offered, name) == offered_index(offered.subrange(0, n), name),
    decreases offered.len() - n,
{
    if n < offered.len() {
        let pre = offered.subrange(0, n + 1);
        assert(pre.drop_last() =~= offered.subrange(0, n));
        lemma_index_stable(offered, name, n + 1);
    } else {
        assert(offered.subrange(0, n) =~= offered);
    }
}

fn any_override(keys: &Vec<String>, fixed: &Vec<String>) -> (b: bool)
    ensures
        b == overrides(views(keys@), views(fixed@)),
{
    let mut i: usize = 0;
    while i < keys.len()
        invariant
            i <= keys.len(),
            forall|m: int| 0 <= m < i ==> !views(fixed@).contains(#[trigger] views(keys@)[m]),
        decreases keys.len() - i,
    {
        let mut j: usize = 0;
        while j < fixed.len()
            invariant
                i < keys.len(),
                j <= fixed.len(),
                forall|n: int| 0 <= n < j ==> (#[trigger] fixed@[n])@ != keys@[i as int]@,
            decreases fixed.len() - j,
        {
            if str_eq(fixed[j].as_str(), keys[i].as_str()) {
                assert(views(fixed@)[j as int] == views(keys@)[i as int]);
                return true;
            }
            j += 1;
        }
        proof {
            if views(fixed@).contains(views(keys@)[i as int]) {
                let n = choose|n: int| 0 <= n < views(fixed@).len() && views(fixed@)[n] == views(keys@)[i as int];
                assert(fixed@[n]@ == keys@[i as int]@);
            }
        }
        i += 1;
    }
    false
}

/// Lowers a call of the function `name` with the arguments `args` against
/// the functions offered.
pub fn lower_call(offered: &Vec<OfferedShape>, name: &str, args: &CallArguments) -> (r: Result<Lowering, String>)
    ensures
        match r {
            Ok(l) => lowering_spec(offered@, name@, *args) == Ok::<LoweringV, Seq<char>>(lowering_view(l)),
            Err(e) => lowering_spec(offered@, name@, *args) == Err::<LoweringV, Seq<char>>(e@),
        },
{
    let i = match find_offered(offered, name) {
        None => return Err(owned("capability_not_offered")),
        Some(i) => i,
    };
    let o = &offered[i];
    if o.filesystem_write {
        let p = match &args.path {
            None => return Err(owned("capability_path_missing")),
            Some(p) => p,
        };
        let c = match &args.content {
            None => return Err(owned("capability_content_missing")),
            Some(c) => c,
        };
        return Ok(Lowering::Write { offered: i, path: owned(p.as_str()), content: owned(c.as_str()) });
    }
    let fixed = match &o.template_keys {
        None => return Err(owned("capability_template_invalid")),
        Some(f) => f,
    };
    if o.tool_call {
        return Ok(Lowering::ToolCall { offered: i });
    }
    let ks = match &args.keys {
        None => return Err(owned("capability_arguments_invalid")),
        Some(k) => k,
    };
    if any_override(ks, fixed) {
        return Err(owned("capability_template_override"));
    }
    Ok(Lowering::Merge { offered: i })
}

/// A call is lowered only into what was offered: the function it names is
/// the first offered one of that name, a name not offered is refused, and
/// the arguments of a merged call never replace a key the offer fixed.
pub proof fn law_lowering_only_offered(offered: Seq<OfferedShape>, name: Seq<char>, args: CallArguments)
    ensures
        lowering_spec(offered, name, args) matches Ok(l) ==> 0 <= l.1 < offered.len() && offered[l.1].name@ == name
            && (l.0 == 2 ==> (args.keys matches Some(ks) && offered[l.1].template_keys matches Some(fixed)
            && !overrides(views(ks@), views(fixed@)))) && (l.0 == 0 <==> offered[l.1].filesystem_write),
        (forall|i: int| 0 <= i < offered.len() ==> (#[trigger] offered[i]).name@ != name) ==> lowering_spec(
            offered,
            name,
            args,
        ) == Err::<LoweringV, Seq<char>>("capability_not_offered"@),
{
    lemma_index_facts(offered, name);
}

proof fn lemma_index_facts(offered: Seq<OfferedShape>, name: Seq<char>)
    ensures
        offered_index(offered, name) >= 0 ==> offered_index(offered, name) < offered.len() && offered[offered_index(
            offered,
            name,
        )].name@ == name,
        (forall|i: int| 0 <= i < offered.len() ==> (#[trigger] offered[i]).name@ != name) ==> offered_index(offered, name) < 0,
    decreases offered.len(),
{
    if offered.len() > 0 {
        let d = offered.drop_last();
        lemma_index_facts(d, name);
        if offered_index(d, name) >= 0 {
            assert(offered[offered_index(d, name)] == d[offered_index(d, name)]);
        }
        if forall|i: int| 0 <= i < offered.len() ==> (#[trigger] offered[i]).name@ != name {
            assert forall|i: int| 0 <= i < d.len() implies (#[trigger] d[i]).name@ != name by {
                assert(d[i] == offered[i]);
            }
            assert(offered[offered.len() - 1].name@ != name);
        }
    }
}

} // verus!
