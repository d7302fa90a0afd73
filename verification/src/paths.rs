//! Where the command line keeps its state under the YAI home: each place as
//! the path components that follow the home directory.

use vstd::prelude::*;
use crate::render::{safe_case_ref_for_filename, safe_file_spec};
use crate::seqs::views;
use crate::text::{owned, push_str, string_of};

verus! {

fn components(parts: &[&str]) -> (out: Vec<String>)
    ensures
        out@.len() == parts@.len(),
        forall|i: int| 0 <= i < parts@.len() ==> (#[trigger] out@[i])@ == parts@[i]@,
{
    let mut out: Vec<String> = Vec::new();
    let mut i: usize = 0;
    while i < parts.len()
        invariant
            i <= parts.len(),
            out@.len() == i,
            forall|k: int| 0 <= k < i ==> (#[trigger] out@[k])@ == parts@[k]@,
        decreases parts.len() - i,
    {
        out.push(owned(parts[i]));
        i += 1;
    }
    out
}

/// The home directory of YAI: `YAI_HOME` where it is set, else `.yai` in
/// the user's home, else `.yai` in the working directory.
pub fn yai_home(yai_home_var: Option<&str>, home_var: Option<&str>) -> (out: Vec<String>)
    ensures
        yai_home_var matches Some(h) ==> views(out@) == seq![h@],
        yai_home_var is None ==> (home_var matches Some(h) ==> views(out@) == seq![h@, ".yai"@]),
        yai_home_var is None && home_var is None ==> views(out@) == seq!["."@, ".yai"@],
{
    let out = match yai_home_var {
        Some(h) => components(&[h]),
        None => match home_var {
            Some(h) => components(&[h, ".yai"]),
            None => components(&[".", ".yai"]),
        },
    };
    proof {
        match yai_home_var {
            Some(h) => {
                assert(views(out@) =~= seq![h@]);
            },
            None => match home_var {
                Some(h) => {
                    assert(views(out@) =~= seq![h@, ".yai"@]);
                },
                None => {
                    assert(views(out@) =~= seq!["."@, ".yai"@]);
                },
            },
        }
    }
    out
}

/// The hot state snapshot: `run/hot-state.json`.
pub fn hot_state_path() -> (out: Vec<String>)
    ensures
        views(out@) == seq!["run"@, "hot-state.json"@],
{
    let out = components(&["run", "hot-state.json"]);
    assert(views(out@) =~= seq!["run"@, "hot-state.json"@]);
    out
}

/// The record store: `store/lmdb`.
pub fn record_store_path() -> (out: Vec<String>)
    ensures
        views(out@) == seq!["store"@, "lmdb"@],
{
    let out = components(&["store", "lmdb"]);
    assert(views(out@) =~= seq!["store"@, "lmdb"@]);
    out
}

/// The facts store directory: `store/facts`.
pub fn facts_store_dir() -> (out: Vec<String>)
    ensures
        views(out@) == seq!["store"@, "facts"@],
{
    let out = components(&["store", "facts"]);
    assert(views(out@) =~= seq!["store"@, "facts"@]);
    out
}

/// The facts database: `store/facts/yai-facts.duckdb`.
pub fn facts_store_path() -> (out: Vec<String>)
    ensures
        views(out@) == seq!["store"@, "facts"@, "yai-facts.duckdb"@],
{
    let out = components(&["store", "facts", "yai-facts.duckdb"]);
    assert(views(out@) =~= seq!["store"@, "facts"@, "yai-facts.duckdb"@]);
    out
}

/// The replay reports: `store/replay/reports`.
pub fn replay_report_dir() -> (out: Vec<String>)
    ensures
        views(out@) == seq!["store"@, "replay"@, "reports"@],
{
    let out = components(&["store", "replay", "reports"]);
    assert(views(out@) =~= seq!["store"@, "replay"@, "reports"@]);
    out
}

/// The replay report of a journal: `IDENTITY.replay-report.json` among the
/// replay reports.
pub fn replay_report_path(journal_identity: &str) -> (out: Vec<String>)
    ensures
        views(out@) == seq!["store"@, "replay"@, "reports"@, journal_identity@ + ".replay-report.json"@],
{
    let mut out = replay_report_dir();
    let mut name = crate::text::chars_of(journal_identity);
    push_str(&mut name, ".replay-report.json");
    let ghost before = views(out@);
    out.push(string_of(&name));
    assert(views(out@) =~= before.push(journal_identity@ + ".replay-report.json"@));
    out
}

/// The rebuild reports of the runtime graph: `store/graph/rebuild-reports`.
pub fn runtime_graph_rebuild_report_dir() -> (out: Vec<String>)
    ensures
        views(out@) == seq!["store"@, "graph"@, "rebuild-reports"@],
{
    let out = components(&["store", "graph", "rebuild-reports"]);
    assert(views(out@) =~= seq!["store"@, "graph"@, "rebuild-reports"@]);
    out
}

/// The rebuild report of a Case, under a file name made safe from its reference.
pub fn runtime_graph_rebuild_report_path(case_ref: &str) -> (out: Vec<String>)
    ensures
        views(out@) == seq!["store"@, "graph"@, "rebuild-reports"@, safe_file_spec(case_ref@)
            + ".runtime-graph-rebuild-report.json"@],
{
    let mut out = runtime_graph_rebuild_report_dir();
    let mut name = crate::text::chars_of(safe_case_ref_for_filename(case_ref).as_str());
    push_str(&mut name, ".runtime-graph-rebuild-report.json");
    let ghost before = views(out@);
    out.push(string_of(&name));
    assert(views(out@) =~= before.push(safe_file_spec(case_ref@) + ".runtime-graph-rebuild-report.json"@));
    out
}

/// The derived memory index: `store/derived-memory`.
pub fn memory_index_root() -> (out: Vec<String>)
    ensures
        views(out@) == seq!["store"@, "derived-memory"@],
{
    let out = components(&["store", "derived-memory"]);
    assert(views(out@) =~= seq!["store"@, "derived-memory"@]);
    out
}

} // verus!
