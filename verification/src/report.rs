//! The report of a runtime graph rebuild: how it starts, what the loaded
//! graph and the materialisation add to it, and the JSON file it is kept in.

use vstd::prelude::*;
use crate::json_scan::{escape_spec, json_escape, json_string_array, string_array_spec};
use crate::numbers::{decimal_spec, push_decimal};
use crate::seqs::views;
use crate::observe::{kv_line, push_kv};
use crate::text::{chars_of, owned, push_str, string_of};

verus! {

/// What a rebuild of the runtime graph of a Case did.
pub struct RuntimeGraphRebuildReport {
    pub case_ref: String,
    pub source_mode: String,
    pub journal_path: String,
    pub journal_identity: String,
    pub lmdb_path: String,
    pub graph_relation_source: String,
    pub records_seen: usize,
    pub records_written: usize,
    pub records_duplicate: usize,
    pub relations_seen: usize,
    pub relations_written: usize,
    pub relations_duplicate: usize,
    pub relations_skipped: usize,
    pub nodes_total: usize,
    pub edges_total: usize,
    pub outgoing_index_entries: usize,
    pub incoming_index_entries: usize,
    pub runtime_generation: usize,
    pub dirty: bool,
    pub stale: bool,
    pub journal_replay_status: String,
    pub graph_materialize_status: String,
    pub runtime_graph_status: String,
    pub rebuild_status: String,
    pub errors: Vec<String>,
    pub warnings: Vec<String>,
}

/// The counts of a loaded runtime graph.
pub struct RuntimeGraphSummary {
    pub nodes_total: usize,
    pub edges_total: usize,
    pub outgoing_index_entries: usize,
    pub incoming_index_entries: usize,
    pub generation: usize,
    pub dirty: bool,
    pub stale: bool,
}

/// The counts of a graph materialisation.
pub struct MaterializeCounts {
    pub relations_seen: usize,
    pub relations_written: usize,
    pub relations_duplicate: usize,
    pub relations_skipped: usize,
}

impl RuntimeGraphRebuildReport {
    /// A report before any work: counts zero, statuses not started (the
    /// journal replay not applicable), no journal, no errors or warnings.
    pub fn empty(case_ref: &str, source_mode: &str, lmdb_path: &str, relation_source: &str) -> (r: Self)
        ensures
            r.case_ref@ == case_ref@,
            r.source_mode@ == source_mode@,
            r.journal_path@ == Seq::<char>::empty(),
            r.journal_identity@ == Seq::<char>::empty(),
            r.lmdb_path@ == lmdb_path@,
            r.graph_relation_source@ == relation_source@,
            r.records_seen == 0 && r.records_written == 0 && r.records_duplicate == 0,
            r.relations_seen == 0 && r.relations_written == 0 && r.relations_duplicate == 0
                && r.relations_skipped == 0,
            r.nodes_total == 0 && r.edges_total == 0 && r.outgoing_index_entries == 0
                && r.incoming_index_entries == 0 && r.runtime_generation == 0,
            !r.dirty && !r.stale,
            r.journal_replay_status@ == "not_applicable"@,
            r.graph_materialize_status@ == "not_started"@,
            r.runtime_graph_status@ == "not_started"@,
            r.rebuild_status@ == "not_started"@,
            r.errors@.len() == 0,
            r.warnings@.len() == 0,
    {
        let none: Vec<char> = Vec::new();
        RuntimeGraphRebuildReport {
            case_ref: owned(case_ref),
            source_mode: owned(source_mode),
            journal_path: string_of(&none),
            journal_identity: string_of(&none),
            lmdb_path: owned(lmdb_path),
            graph_relation_source: owned(relation_source),
            records_seen: 0,
            records_written: 0,
            records_duplicate: 0,
            relations_seen: 0,
            relations_written: 0,
            relations_duplicate: 0,
            relations_skipped: 0,
            nodes_total: 0,
            edges_total: 0,
            outgoing_index_entries: 0,
            incoming_index_entries: 0,
            runtime_generation: 0,
            dirty: false,
            stale: false,
            journal_replay_status: owned("not_applicable"),
            graph_materialize_status: owned("not_started"),
            runtime_graph_status: owned("not_started"),
            rebuild_status: owned("not_started"),
            errors: Vec::new(),
            warnings: Vec::new(),
        }
    }

    /// The report with the counts of the loaded graph; the runtime graph
    /// step completed; a warning where the graph has no edge.
    pub fn with_runtime_graph(self, graph: &RuntimeGraphSummary) -> (r: Self)
        ensures
            r.nodes_total == graph.nodes_total,
            r.edges_total == graph.edges_total,
            r.outgoing_index_entries == graph.outgoing_index_entries,
            r.incoming_index_entries == graph.incoming_index_entries,
            r.runtime_generation == graph.generation,
            r.dirty == graph.dirty,
            r.stale == graph.stale,
            r.runtime_graph_status@ == "completed"@,
            views(r.warnings@) == if graph.edges_total == 0 {
                views(self.warnings@).push("no_graph_relations_for_case"@)
            } else {
                views(self.warnings@)
            },
            r.case_ref == self.case_ref && r.source_mode == self.source_mode && r.journal_path
                == self.journal_path && r.journal_identity == self.journal_identity && r.lmdb_path
                == self.lmdb_path && r.graph_relation_source == self.graph_relation_source,
            r.records_seen == self.records_seen && r.records_written == self.records_written
                && r.records_duplicate == self.records_duplicate,
            r.relations_seen == self.relations_seen && r.relations_written == self.relations_written
                && r.relations_duplicate == self.relations_duplicate && r.relations_skipped
                == self.relations_skipped,
            r.journal_replay_status == self.journal_replay_status && r.graph_materialize_status
                == self.graph_materialize_status && r.rebuild_status == self.rebuild_status,
            r.errors@ == self.errors@,
    {
        let mut r = self;
        r.nodes_total = graph.nodes_total;
        r.edges_total = graph.edges_total;
        r.outgoing_index_entries = graph.outgoing_index_entries;
        r.incoming_index_entries = graph.incoming_index_entries;
        r.runtime_generation = graph.generation;
        r.dirty = graph.dirty;
        r.stale = graph.stale;
        r.runtime_graph_status = owned("completed");
        if graph.edges_total == 0 {
            let ghost before = views(r.warnings@);
            r.warnings.push(owned("no_graph_relations_for_case"));
            assert(views(r.warnings@) =~= before.push("no_graph_relations_for_case"@));
        }
        r
    }
}

/// The relation counts of a materialisation go into the report; nothing
/// else changes.
pub fn apply_materialize_report(report: &mut RuntimeGraphRebuildReport, counts: &MaterializeCounts)
    ensures
        *final(report) == (RuntimeGraphRebuildReport {
            relations_seen: counts.relations_seen,
            relations_written: counts.relations_written,
            relations_duplicate: counts.relations_duplicate,
            relations_skipped: counts.relations_skipped,
            ..*old(report)
        }),
{
    report.relations_seen = counts.relations_seen;
    report.relations_written = counts.relations_written;
    report.relations_duplicate = counts.relations_duplicate;
    report.relations_skipped = counts.relations_skipped;
}

/// A line of the report file holding a text field.
pub open spec fn text_line(name: Seq<char>, value: Seq<char>) -> Seq<char> {
    "  \""@ + name + "\":\""@ + escape_spec(value) + "\",\n"@
}

/// A line of the report file holding a number.
pub open spec fn number_line(name: Seq<char>, value: nat) -> Seq<char> {
    "  \""@ + name + "\":"@ + decimal_spec(value) + ",\n"@
}

/// A line of the report file holding a flag.
pub open spec fn flag_line(name: Seq<char>, value: bool) -> Seq<char> {
    "  \""@ + name + "\":\""@ + (if value {
        "yes"@
    } else {
        "no"@
    }) + "\",\n"@
}

/// The report file.
pub open spec fn report_json_spec(r: RuntimeGraphRebuildReport) -> Seq<char> {
    "{\n"@ + "  \"report_schema\":\"yai.runtime_graph_rebuild_report.v1\",\n"@
        + text_line("case_ref"@, r.case_ref@) + text_line("source_mode"@, r.source_mode@)
        + text_line("journal_path"@, r.journal_path@) + text_line(
        "journal_identity"@,
        r.journal_identity@,
    ) + text_line("lmdb_path"@, r.lmdb_path@) + text_line(
        "graph_relation_source"@,
        r.graph_relation_source@,
    ) + number_line("records_seen"@, r.records_seen as nat) + number_line(
        "records_written"@,
        r.records_written as nat,
    ) + number_line("records_duplicate"@, r.records_duplicate as nat) + number_line(
        "relations_seen"@,
        r.relations_seen as nat,
    ) + number_line("relations_written"@, r.relations_written as nat) + number_line(
        "relations_duplicate"@,
        r.relations_duplicate as nat,
    ) + number_line("relations_skipped"@, r.relations_skipped as nat) + number_line(
        "nodes_total"@,
        r.nodes_total as nat,
    ) + number_line("edges_total"@, r.edges_total as nat) + number_line(
        "outgoing_index_entries"@,
        r.outgoing_index_entries as nat,
    ) + number_line("incoming_index_entries"@, r.incoming_index_entries as nat) + number_line(
        "runtime_generation"@,
        r.runtime_generation as nat,
    ) + flag_line("dirty"@, r.dirty) + flag_line("stale"@, r.stale) + text_line(
        "journal_replay_status"@,
        r.journal_replay_status@,
    ) + text_line("graph_materialize_status"@, r.graph_materialize_status@) + text_line(
        "runtime_graph_status"@,
        r.runtime_graph_status@,
    ) + text_line("rebuild_status"@, r.rebuild_status@) + "  \"errors\":["@ + string_array_spec(
        views(r.errors@),
    ) + "],\n"@ + "  \"warnings\":["@ + string_array_spec(views(r.warnings@)) + "]\n"@
        + "}\n"@
}

fn push_text_line(out: &mut Vec<char>, name: &str, value: &str)
    ensures
        final(out)@ == old(out)@ + text_line(name@, value@),
{
    push_str(out, "  \"");
    push_str(out, name);
    push_str(out, "\":\"");
    push_str(out, json_escape(value).as_str());
    push_str(out, "\",\n");
    assert(final(out)@ =~= old(out)@ + text_line(name@, value@));
}

fn push_number_line(out: &mut Vec<char>, name: &str, value: usize)
    ensures
        final(out)@ == old(out)@ + number_line(name@, value as nat),
{
    push_str(out, "  \"");
    push_str(out, name);
    push_str(out, "\":");
    push_decimal(out, value as u64);
    push_str(out, ",\n");
    assert(final(out)@ =~= old(out)@ + number_line(name@, value as nat));
}

fn push_flag_line(out: &mut Vec<char>, name: &str, value: bool)
    ensures
        final(out)@ == old(out)@ + flag_line(name@, value),
{
    push_str(out, "  \"");
    push_str(out, name);
    push_str(out, "\":\"");
    push_str(out, crate::observe::yes_no(value));
    push_str(out, "\",\n");
    assert(final(out)@ =~= old(out)@ + flag_line(name@, value));
}

/// The JSON file a rebuild report is kept in.
pub fn runtime_graph_rebuild_report_json(r: &RuntimeGraphRebuildReport) -> (out: String)
    ensures
        out@ == report_json_spec(*r),
{
    let mut o: Vec<char> = Vec::new();
    push_str(&mut o, "{\n");
    push_str(&mut o, "  \"report_schema\":\"yai.runtime_graph_rebuild_report.v1\",\n");
    push_text_line(&mut o, "case_ref", r.case_ref.as_str());
    push_text_line(&mut o, "source_mode", r.source_mode.as_str());
    push_text_line(&mut o, "journal_path", r.journal_path.as_str());
    push_text_line(&mut o, "journal_identity", r.journal_identity.as_str());
    push_text_line(&mut o, "lmdb_path", r.lmdb_path.as_str());
    push_text_line(&mut o, "graph_relation_source", r.graph_relation_source.as_str());
    push_number_line(&mut o, "records_seen", r.records_seen);
    push_number_line(&mut o, "records_written", r.records_written);
    push_number_line(&mut o, "records_duplicate", r.records_duplicate);
    push_number_line(&mut o, "relations_seen", r.relations_seen);
    push_number_line(&mut o, "relations_written", r.relations_written);
    push_number_line(&mut o, "relations_duplicate", r.relations_duplicate);
    push_number_line(&mut o, "relations_skipped", r.relations_skipped);
    push_number_line(&mut o, "nodes_total", r.nodes_total);
    push_number_line(&mut o, "edges_total", r.edges_total);
    push_number_line(&mut o, "outgoing_index_entries", r.outgoing_index_entries);
    push_number_line(&mut o, "incoming_index_entries", r.incoming_index_entries);
    push_number_line(&mut o, "runtime_generation", r.runtime_generation);
    push_flag_line(&mut o, "dirty", r.dirty);
    push_flag_line(&mut o, "stale", r.stale);
    push_text_line(&mut o, "journal_replay_status", r.journal_replay_status.as_str());
    push_text_line(&mut o, "graph_materialize_status", r.graph_materialize_status.as_str());
    push_text_line(&mut o, "runtime_graph_status", r.runtime_graph_status.as_str());
    push_text_line(&mut o, "rebuild_status", r.rebuild_status.as_str());
    push_str(&mut o, "  \"errors\":[");
    push_str(&mut o, json_string_array(r.errors.as_slice()).as_str());
    push_str(&mut o, "],\n");
    push_str(&mut o, "  \"warnings\":[");
    push_str(&mut o, json_string_array(r.warnings.as_slice()).as_str());
    push_str(&mut o, "]\n");
    push_str(&mut o, "}\n");
    assert(o@ =~= report_json_spec(*r));
    string_of(&o)
}

/// Identity fields of a report: the Case, the source, the store.
pub open spec fn report_identity(
    r: RuntimeGraphRebuildReport,
    case_ref: Seq<char>,
    source_mode: Seq<char>,
    lmdb_path: Seq<char>,
    relation_source: Seq<char>,
) -> bool {
    &&& r.case_ref@ == case_ref
    &&& r.source_mode@ == source_mode
    &&& r.lmdb_path@ == lmdb_path
    &&& r.graph_relation_source@ == relation_source
}

/// No graph was loaded into the report.
pub open spec fn no_graph_counts(r: RuntimeGraphRebuildReport) -> bool {
    &&& r.nodes_total == 0 && r.edges_total == 0 && r.outgoing_index_entries == 0
    &&& r.incoming_index_entries == 0 && r.runtime_generation == 0 && !r.dirty && !r.stale
    &&& r.runtime_graph_status@ == "not_started"@
}

/// The counts of the loaded graph `g` are in the report.
pub open spec fn graph_counts(r: RuntimeGraphRebuildReport, g: RuntimeGraphSummary) -> bool {
    &&& r.nodes_total == g.nodes_total && r.edges_total == g.edges_total
    &&& r.outgoing_index_entries == g.outgoing_index_entries
    &&& r.incoming_index_entries == g.incoming_index_entries && r.runtime_generation == g.generation
    &&& r.dirty == g.dirty && r.stale == g.stale
    &&& r.runtime_graph_status@ == "completed"@
    &&& views(r.warnings@) == if g.edges_total == 0 {
        seq!["no_graph_relations_for_case"@]
    } else {
        Seq::empty()
    }
}

/// The report of a rebuild from the stored graph relations, from the graph
/// the record store gave (none where the store is not ready): without a
/// graph the source is missing; with one its edges are the relations seen,
/// nothing is materialised and the rebuild is completed.
pub fn relations_rebuild_report(
    case_ref: &str,
    lmdb_path: &str,
    relation_source: &str,
    graph: Option<&RuntimeGraphSummary>,
) -> (r: RuntimeGraphRebuildReport)
    ensures
        report_identity(r, case_ref@, "graph_relations"@, lmdb_path@, relation_source@),
        r.journal_path@.len() == 0 && r.journal_identity@.len() == 0,
        r.records_seen == 0 && r.records_written == 0 && r.records_duplicate == 0,
        r.relations_written == 0 && r.relations_duplicate == 0 && r.relations_skipped == 0,
        r.journal_replay_status@ == "not_applicable"@,
        match graph {
            None => {
                &&& no_graph_counts(r)
                &&& r.relations_seen == 0
                &&& r.graph_materialize_status@ == "not_started"@
                &&& r.rebuild_status@ == "missing_source"@
                &&& views(r.errors@) == seq!["record_store_not_ready"@]
                &&& r.warnings@.len() == 0
            },
            Some(g) => {
                &&& graph_counts(r, *g)
                &&& r.relations_seen == g.edges_total
                &&& r.graph_materialize_status@ == "not_applicable"@
                &&& r.rebuild_status@ == "completed"@
                &&& r.errors@.len() == 0
            },
        },
{
    let base = RuntimeGraphRebuildReport::empty(case_ref, "graph_relations", lmdb_path, relation_source);
    match graph {
        None => {
            let mut r = base;
            r.rebuild_status = owned("missing_source");
            r.errors.push(owned("record_store_not_ready"));
            assert(views(r.errors@) =~= seq!["record_store_not_ready"@]);
            r
        },
        Some(g) => {
            let mut r = base.with_runtime_graph(g);
            r.relations_seen = g.edges_total;
            r.graph_materialize_status = owned("not_applicable");
            r.rebuild_status = owned("completed");
            proof {
                if g.edges_total == 0 {
                    assert(views(r.warnings@) =~= seq!["no_graph_relations_for_case"@]);
                } else {
                    assert(views(r.warnings@) =~= Seq::<Seq<char>>::empty());
                }
            }
            r
        },
    }
}

/// The record counts of a journal import.
pub struct ImportCounts {
    pub records_seen: usize,
    pub records_written: usize,
    pub records_duplicate: usize,
}

/// How a rebuild from a journal went: the journal is missing; it is not
/// ready for replay (with its valid entries and the reason); or it was
/// imported, its relations materialised and the graph loaded.
pub enum JournalRebuild {
    Missing { journal_identity: String },
    NotReady { journal_identity: String, valid_entries: usize, reason: String },
    Imported {
        journal_identity: String,
        import: ImportCounts,
        materialized: MaterializeCounts,
        graph: RuntimeGraphSummary,
    },
}

/// A report of a rebuild from the journal at `journal_path`, before any work.
fn journal_report_base(case_ref: &str, lmdb_path: &str, relation_source: &str, journal_path: &str) -> (r: RuntimeGraphRebuildReport)
    ensures
        report_identity(r, case_ref@, "journal"@, lmdb_path@, relation_source@),
        r.journal_path@ == journal_path@,
        no_graph_counts(r),
        r.records_seen == 0 && r.records_written == 0 && r.records_duplicate == 0,
        r.relations_seen == 0 && r.relations_written == 0 && r.relations_duplicate == 0
            && r.relations_skipped == 0,
        r.graph_materialize_status@ == "not_started"@,
        r.errors@.len() == 0,
        r.warnings@.len() == 0,
{
    let mut r = RuntimeGraphRebuildReport::empty(case_ref, "journal", lmdb_path, relation_source);
    r.journal_path = owned(journal_path);
    r
}

/// The report of a rebuild from the journal at `journal_path`.
pub fn journal_rebuild_report(
    case_ref: &str,
    lmdb_path: &str,
    relation_source: &str,
    journal_path: &str,
    outcome: JournalRebuild,
) -> (r: RuntimeGraphRebuildReport)
    ensures
        report_identity(r, case_ref@, "journal"@, lmdb_path@, relation_source@),
        r.journal_path@ == journal_path@,
        match outcome {
            JournalRebuild::Missing { journal_identity } => {
                &&& r.journal_identity@ == journal_identity@
                &&& no_graph_counts(r)
                &&& r.records_seen == 0 && r.records_written == 0 && r.records_duplicate == 0
                &&& r.relations_seen == 0 && r.relations_written == 0 && r.relations_duplicate == 0
                    && r.relations_skipped == 0
                &&& r.journal_replay_status@ == "failed"@
                &&& r.graph_materialize_status@ == "not_started"@
                &&& r.rebuild_status@ == "missing_source"@
                &&& views(r.errors@) == seq!["missing_journal"@]
                &&& r.warnings@.len() == 0
            },
            JournalRebuild::NotReady { journal_identity, valid_entries, reason } => {
                &&& r.journal_identity@ == journal_identity@
                &&& no_graph_counts(r)
                &&& r.records_seen == valid_entries && r.records_written == 0 && r.records_duplicate == 0
                &&& r.relations_seen == 0 && r.relations_written == 0 && r.relations_duplicate == 0
                    && r.relations_skipped == 0
                &&& r.journal_replay_status@ == "failed"@
                &&& r.graph_materialize_status@ == "not_started"@
                &&& r.rebuild_status@ == "failed"@
                &&& views(r.errors@) == seq![reason@]
                &&& r.warnings@.len() == 0
            },
            JournalRebuild::Imported { journal_identity, import, materialized, graph } => {
                &&& r.journal_identity@ == journal_identity@
                &&& graph_counts(r, graph)
                &&& r.records_seen == import.records_seen && r.records_written == import.records_written
                    && r.records_duplicate == import.records_duplicate
                &&& r.relations_seen == materialized.relations_seen
                    && r.relations_written == materialized.relations_written
                    && r.relations_duplicate == materialized.relations_duplicate
                    && r.relations_skipped == materialized.relations_skipped
                &&& r.journal_replay_status@ == "completed"@
                &&& r.graph_materialize_status@ == "completed"@
                &&& r.rebuild_status@ == "completed"@
                &&& r.errors@.len() == 0
            },
        },
{
    let mut r = journal_report_base(case_ref, lmdb_path, relation_source, journal_path);
    match outcome {
        JournalRebuild::Missing { journal_identity } => {
            r.journal_identity = journal_identity;
            r.journal_replay_status = owned("failed");
            r.rebuild_status = owned("missing_source");
            r.errors.push(owned("missing_journal"));
            assert(views(r.errors@) =~= seq!["missing_journal"@]);
            r
        },
        JournalRebuild::NotReady { journal_identity, valid_entries, reason } => {
            r.journal_identity = journal_identity;
            r.records_seen = valid_entries;
            r.journal_replay_status = owned("failed");
            r.rebuild_status = owned("failed");
            let ghost reason_view = reason@;
            r.errors.push(reason);
            assert(views(r.errors@) =~= seq![reason_view]);
            r
        },
        JournalRebuild::Imported { journal_identity, import, materialized, graph } => {
            r.journal_identity = journal_identity;
            r.records_seen = import.records_seen;
            r.records_written = import.records_written;
            r.records_duplicate = import.records_duplicate;
            apply_materialize_report(&mut r, &materialized);
            let mut done = r.with_runtime_graph(&graph);
            done.journal_replay_status = owned("completed");
            done.graph_materialize_status = owned("completed");
            done.rebuild_status = owned("completed");
            proof {
                if graph.edges_total == 0 {
                    assert(views(done.warnings@) =~= seq!["no_graph_relations_for_case"@]);
                } else {
                    assert(views(done.warnings@) =~= Seq::<Seq<char>>::empty());
                }
            }
            done
        },
    }
}

/// `- item` lines of a list.
pub open spec fn item_lines(items: Seq<Seq<char>>) -> Seq<char>
    decreases items.len(),
{
    if items.len() == 0 {
        Seq::empty()
    } else {
        item_lines(items.drop_last()) + "- "@ + items.last() + "\n"@
    }
}

/// A titled list, nothing where it is empty.
pub open spec fn titled_list(title: Seq<char>, items: Seq<Seq<char>>) -> Seq<char> {
    if items.len() == 0 {
        Seq::empty()
    } else {
        title + ":\n"@ + item_lines(items)
    }
}

fn push_titled_list(out: &mut Vec<char>, title: &str, items: &Vec<String>)
    ensures
        final(out)@ == old(out)@ + titled_list(title@, views(items@)),
{
    if items.len() == 0 {
        return;
    }
    let ghost start = out@;
    push_str(out, title);
    push_str(out, ":\n");
    let ghost head = out@;
    let mut i: usize = 0;
    while i < items.len()
        invariant
            i <= items.len(),
            out@ == head + item_lines(views(items@).subrange(0, i as int)),
        decreases items.len() - i,
    {
        proof {
            assert(views(items@).subrange(0, i + 1).drop_last() =~= views(items@).subrange(0, i as int));
        }
        push_str(out, "- ");
        push_str(out, items[i].as_str());
        push_str(out, "\n");
        i += 1;
    }
    assert(views(items@).subrange(0, items.len() as int) =~= views(items@));
}

fn push_count(out: &mut Vec<char>, name: &str, n: usize)
    ensures
        final(out)@ == old(out)@ + kv_line(name@, decimal_spec(n as nat)),
{
    push_str(out, name);
    push_str(out, ": ");
    push_decimal(out, n as u64);
    push_str(out, "\n");
}

/// The head of a rebuild's output: what was rebuilt from where, and the
/// statuses of its steps.
pub open spec fn rebuild_head_spec(r: RuntimeGraphRebuildReport) -> Seq<char> {
    "runtime_graph_rebuild:\n"@ + kv_line("case_ref"@, r.case_ref@) + kv_line("source_mode"@, r.source_mode@) + (if r.journal_path@.len() == 0 {
        Seq::empty()
    } else {
        kv_line("journal_path"@, r.journal_path@)
    }) + (if r.journal_identity@.len() == 0 {
        Seq::empty()
    } else {
        kv_line("journal_identity"@, r.journal_identity@)
    }) + kv_line("lmdb_path"@, r.lmdb_path@) + kv_line("graph_relation_source"@, r.graph_relation_source@)
        + kv_line("journal_replay_status"@, r.journal_replay_status@) + kv_line(
        "graph_materialize_status"@,
        r.graph_materialize_status@,
    ) + kv_line("runtime_graph_status"@, r.runtime_graph_status@)
}

/// The counts of a rebuild's output.
pub open spec fn rebuild_counts_spec(r: RuntimeGraphRebuildReport) -> Seq<char> {
    kv_line("records_seen"@, decimal_spec(r.records_seen as nat)) + kv_line("records_written"@, decimal_spec(r.records_written as nat))
        + kv_line("records_duplicate"@, decimal_spec(r.records_duplicate as nat)) + kv_line(
        "relations_seen"@,
        decimal_spec(r.relations_seen as nat),
    ) + kv_line("relations_written"@, decimal_spec(r.relations_written as nat)) + kv_line(
        "relations_duplicate"@,
        decimal_spec(r.relations_duplicate as nat),
    ) + kv_line("relations_skipped"@, decimal_spec(r.relations_skipped as nat)) + kv_line(
        "nodes_total"@,
        decimal_spec(r.nodes_total as nat),
    ) + kv_line("edges_total"@, decimal_spec(r.edges_total as nat)) + kv_line(
        "outgoing_index_entries"@,
        decimal_spec(r.outgoing_index_entries as nat),
    ) + kv_line("incoming_index_entries"@, decimal_spec(r.incoming_index_entries as nat)) + kv_line(
        "runtime_generation"@,
        decimal_spec(r.runtime_generation as nat),
    )
}

/// The tail of a rebuild's output: flags, status, the report file, then the
/// warnings and errors.
pub open spec fn rebuild_tail_spec(r: RuntimeGraphRebuildReport, report_path: Seq<char>) -> Seq<char> {
    kv_line("dirty"@, if r.dirty { "yes"@ } else { "no"@ }) + kv_line("stale"@, if r.stale { "yes"@ } else { "no"@ })
        + kv_line("rebuild_status"@, r.rebuild_status@) + kv_line(
        "report_schema"@,
        "yai.runtime_graph_rebuild_report.v1"@,
    ) + kv_line("rebuild_report"@, report_path) + titled_list("warnings"@, views(r.warnings@)) + titled_list(
        "errors"@,
        views(r.errors@),
    )
}

fn rebuild_head(r: &RuntimeGraphRebuildReport) -> (out: Vec<char>)
    ensures
        out@ == rebuild_head_spec(*r),
{
    let mut o = chars_of("runtime_graph_rebuild:\n");
    push_kv(&mut o, "case_ref", r.case_ref.as_str());
    push_kv(&mut o, "source_mode", r.source_mode.as_str());
    if chars_of(r.journal_path.as_str()).len() > 0 {
        push_kv(&mut o, "journal_path", r.journal_path.as_str());
    }
    if chars_of(r.journal_identity.as_str()).len() > 0 {
        push_kv(&mut o, "journal_identity", r.journal_identity.as_str());
    }
    push_kv(&mut o, "lmdb_path", r.lmdb_path.as_str());
    push_kv(&mut o, "graph_relation_source", r.graph_relation_source.as_str());
    push_kv(&mut o, "journal_replay_status", r.journal_replay_status.as_str());
    push_kv(&mut o, "graph_materialize_status", r.graph_materialize_status.as_str());
    push_kv(&mut o, "runtime_graph_status", r.runtime_graph_status.as_str());
    o
}

fn rebuild_counts(r: &RuntimeGraphRebuildReport) -> (out: Vec<char>)
    ensures
        out@ == rebuild_counts_spec(*r),
{
    let mut o: Vec<char> = Vec::new();
    push_count(&mut o, "records_seen", r.records_seen);
    push_count(&mut o, "records_written", r.records_written);
    push_count(&mut o, "records_duplicate", r.records_duplicate);
    push_count(&mut o, "relations_seen", r.relations_seen);
    push_count(&mut o, "relations_written", r.relations_written);
    push_count(&mut o, "relations_duplicate", r.relations_duplicate);
    push_count(&mut o, "relations_skipped", r.relations_skipped);
    push_count(&mut o, "nodes_total", r.nodes_total);
    push_count(&mut o, "edges_total", r.edges_total);
    push_count(&mut o, "outgoing_index_entries", r.outgoing_index_entries);
    push_count(&mut o, "incoming_index_entries", r.incoming_index_entries);
    push_count(&mut o, "runtime_generation", r.runtime_generation);
    o
}

fn rebuild_tail(r: &RuntimeGraphRebuildReport, report_path: &str) -> (out: Vec<char>)
    ensures
        out@ == rebuild_tail_spec(*r, report_path@),
{
    let mut o: Vec<char> = Vec::new();
    push_kv(&mut o, "dirty", if r.dirty { "yes" } else { "no" });
    push_kv(&mut o, "stale", if r.stale { "yes" } else { "no" });
    push_kv(&mut o, "rebuild_status", r.rebuild_status.as_str());
    push_kv(&mut o, "report_schema", "yai.runtime_graph_rebuild_report.v1");
    push_kv(&mut o, "rebuild_report", report_path);
    push_titled_list(&mut o, "warnings", &r.warnings);
    push_titled_list(&mut o, "errors", &r.errors);
    o
}

/// What a rebuild shows once its report is written to `report_path`.
pub fn runtime_graph_rebuild_text(r: &RuntimeGraphRebuildReport, report_path: &str) -> (out: String)
    ensures
        out@ == rebuild_head_spec(*r) + rebuild_counts_spec(*r) + rebuild_tail_spec(*r, report_path@),
{
    let mut o = rebuild_head(r);
    let counts = rebuild_counts(r);
    crate::text::push_all(&mut o, &counts);
    let tail = rebuild_tail(r, report_path);
    crate::text::push_all(&mut o, &tail);
    string_of(&o)
}

} // verus!
