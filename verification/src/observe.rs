//! Small decisions of the observation and carrier commands: what a process
//! probe means, whether an observation diverges from what was expected, how
//! a projection may be used, lines of an environment file, the lexical
//! sandbox of the filesystem carrier and its content hash.

use vstd::prelude::*;
use crate::presentation::has_prefix;
use crate::terminal::{split_once_spec, strip_spec};
use crate::json_scan::{
    hot_snapshot_valid, json_number_field, json_string_or, number_field_spec, string_or_spec,
    validate_hot_snapshot,
};
use crate::args::{arg_value, has_arg, named_arg, optional_arg};
use crate::numbers::{decimal_spec, push_decimal};
use crate::seqs::views;
use crate::text::push_str;
use crate::text::{chars_of, owned, slice_chars, str_eq, string_of, trim_chars, trim_spec};

verus! {

/// `yes` or `no`.
pub fn bool_word(value: bool) -> (out: &'static str)
    ensures
        out@ == if value {
            "yes"@
        } else {
            "no"@
        },
{
    if value {
        "yes"
    } else {
        "no"
    }
}

/// `yes` or `no`, as the report files write a flag.
pub fn yes_no(value: bool) -> (out: &'static str)
    ensures
        out@ == if value {
            "yes"@
        } else {
            "no"@
        },
{
    if value {
        "yes"
    } else {
        "no"
    }
}

/// What the host saw when it probed a process: whether signal 0 was
/// delivered, the OS error number where it was not, whether `/proc` is a
/// directory, and whether `/proc/PID` exists.
pub struct ProcessProbe {
    pub signal_delivered: bool,
    pub errno: Option<i32>,
    pub proc_is_dir: bool,
    pub proc_entry_exists: bool,
}

/// The state of process `pid`: no probe is made for a pid that is not
/// positive; a delivered signal means it runs; ESRCH (3) that it is gone;
/// EPERM (1) that it exists beyond reach; a missing `/proc` entry that it is
/// gone; otherwise nothing is known.
pub open spec fn process_state_spec(pid: int, probe: Option<(bool, Option<i32>, bool, bool)>) -> Seq<char> {
    if pid <= 0 {
        "not_found"@
    } else {
        match probe {
            None => "unknown"@,
            Some(p) => if p.0 {
                "running"@
            } else if p.1 == Some(3i32) {
                "not_found"@
            } else if p.1 == Some(1i32) {
                "permission_denied"@
            } else if p.2 && !p.3 {
                "not_found"@
            } else {
                "unknown"@
            },
        }
    }
}

/// The observed state of a process from the host's probe (none where the
/// platform offers none).
pub fn process_state_for_pid(pid: i32, probe: Option<&ProcessProbe>) -> (out: &'static str)
    ensures
        out@ == process_state_spec(
            pid as int,
            match probe {
                Some(p) => Some((p.signal_delivered, p.errno, p.proc_is_dir, p.proc_entry_exists)),
                None => None,
            },
        ),
{
    if pid <= 0 {
        return "not_found";
    }
    match probe {
        None => "unknown",
        Some(p) => if p.signal_delivered {
            "running"
        } else if p.errno == Some(3i32) {
            "not_found"
        } else if p.errno == Some(1i32) {
            "permission_denied"
        } else if p.proc_is_dir && !p.proc_entry_exists {
            "not_found"
        } else {
            "unknown"
        },
    }
}

/// An observation agrees with the expectation: the same state, or anything
/// but running where stopped was expected.
pub fn expected_matches_observed(expected: &str, observed: &str) -> (r: bool)
    ensures
        r == (expected@ == observed@ || (expected@ == "stopped"@ && observed@ != "running"@)),
{
    str_eq(expected, observed) || (str_eq(expected, "stopped") && !str_eq(observed, "running"))
}

/// The divergence an observation suggests.
pub fn divergence_candidate_for(expected: &str, observed: &str) -> (out: &'static str)
    ensures
        out@ == if expected@ == "stopped"@ && observed@ == "running"@ {
            "expected_stopped_but_running"@
        } else if expected@ == "running"@ && observed@ == "not_found"@ {
            "expected_running_but_not_found"@
        } else {
            "unknown"@
        },
{
    if str_eq(expected, "stopped") && str_eq(observed, "running") {
        "expected_stopped_but_running"
    } else if str_eq(expected, "running") && str_eq(observed, "not_found") {
        "expected_running_but_not_found"
    } else {
        "unknown"
    }
}

/// How a consumer may use a projection of the given freshness.
pub open spec fn projection_policy_spec(consumer: Seq<char>, freshness: Seq<char>, stale_reason: Seq<char>) -> Seq<char> {
    if freshness == "fresh"@ && stale_reason == "none"@ {
        "usable"@
    } else if consumer == "operator"@ || consumer == "audit"@ || consumer == "debug"@ {
        "refresh_recommended"@
    } else if !(consumer == "model"@ || consumer == "agent"@) {
        "unknown"@
    } else if freshness == "rebuilding"@ {
        "refresh_required"@
    } else if stale_reason == "new_receipt_after_projection"@ || stale_reason
        == "new_decision_after_projection"@ || stale_reason == "new_memory_after_projection"@ {
        "refresh_required"@
    } else {
        "blocked_for_model"@
    }
}

/// The use a consumer may make of a projection.
pub fn projection_policy_for(consumer: &str, freshness: &str, stale_reason: &str) -> (out: &'static str)
    ensures
        out@ == projection_policy_spec(consumer@, freshness@, stale_reason@),
{
    if str_eq(freshness, "fresh") && str_eq(stale_reason, "none") {
        return "usable";
    }
    if str_eq(consumer, "operator") || str_eq(consumer, "audit") || str_eq(consumer, "debug") {
        return "refresh_recommended";
    }
    if !(str_eq(consumer, "model") || str_eq(consumer, "agent")) {
        return "unknown";
    }
    if str_eq(freshness, "rebuilding") {
        return "refresh_required";
    }
    if str_eq(stale_reason, "new_receipt_after_projection") || str_eq(
        stale_reason,
        "new_decision_after_projection",
    ) || str_eq(stale_reason, "new_memory_after_projection") {
        return "refresh_required";
    }
    "blocked_for_model"
}

/// The redaction a consumer gets by default.
pub fn default_redaction_for_consumer(consumer: &str) -> (out: &'static str)
    ensures
        out@ == if consumer@ == "model"@ || consumer@ == "agent"@ {
            "summary_only"@
        } else if consumer@ == "debug"@ {
            "refs_only"@
        } else {
            "none"@
        },
{
    if str_eq(consumer, "model") || str_eq(consumer, "agent") {
        "summary_only"
    } else if str_eq(consumer, "debug") {
        "refs_only"
    } else {
        "none"
    }
}

/// A character of an environment variable name.
pub open spec fn env_key_char(c: char) -> bool {
    c == '_' || crate::render::is_ascii_alnum(c)
}

pub open spec fn env_key_ok(k: Seq<char>) -> bool {
    &&& k.len() > 0
    &&& forall|i: int| 0 <= i < k.len() ==> env_key_char(#[trigger] k[i])
    &&& !('0' <= k[0] && k[0] <= '9')
}

/// `v` without one pair of matching double or single quotes around it.
pub open spec fn unquote(v: Seq<char>) -> Seq<char> {
    if v.len() >= 2 && ((v[0] == '"' && v.last() == '"') || (v[0] == '\'' && v.last() == '\'')) {
        v.subrange(1, v.len() - 1)
    } else {
        v
    }
}

/// A line of an environment file read as `KEY=VALUE`: blank lines and
/// comments are none, `export ` is dropped, the key is a variable name, the
/// value is trimmed and unquoted.
pub open spec fn env_assignment_spec(line: Seq<char>) -> Option<(Seq<char>, Seq<char>)> {
    let t = trim_spec(line);
    if t.len() == 0 || t[0] == '#' {
        None
    } else {
        let l = trim_spec(
            match strip_spec(t, "export "@) {
                Some(r) => r,
                None => t,
            },
        );
        match split_once_spec(l, '=') {
            None => None,
            Some(kv) => {
                let k = trim_spec(kv.0);
                if !env_key_ok(k) {
                    None
                } else {
                    Some((k, unquote(trim_spec(kv.1))))
                }
            },
        }
    }
}

fn key_chars(k: &Vec<char>) -> (r: bool)
    ensures
        r == forall|i: int| 0 <= i < k@.len() ==> env_key_char(#[trigger] k@[i]),
{
    let mut i: usize = 0;
    while i < k.len()
        invariant
            i <= k.len(),
            forall|m: int| 0 <= m < i ==> env_key_char(#[trigger] k@[m]),
        decreases k.len() - i,
    {
        let c = k[i];
        if !(c == '_' || ('0' <= c && c <= '9') || ('a' <= c && c <= 'z') || ('A' <= c && c <= 'Z')) {
            assert(!env_key_char(k@[i as int]));
            return false;
        }
        i += 1;
    }
    true
}

/// The variable a line of an environment file sets, if it sets one.
pub fn parse_env_assignment(line: &str) -> (r: Option<(String, String)>)
    ensures
        match r {
            Some(kv) => env_assignment_spec(line@) == Some((kv.0@, kv.1@)),
            None => env_assignment_spec(line@) is None,
        },
{
    let t = trim_chars(&chars_of(line));
    if t.len() == 0 || t[0] == '#' {
        return None;
    }
    let ex = chars_of("export ");
    let body = if ex.len() <= t.len() && crate::text::chars_match_at(&t, &ex, 0) {
        slice_chars(&t, ex.len(), t.len())
    } else {
        slice_chars(&t, 0, t.len())
    };
    assert(t@.subrange(0, t.len() as int) =~= t@);
    let l = trim_chars(&body);
    let eq = match crate::text::find_char_from(&l, '=', 0) {
        Some(i) => i,
        None => return None,
    };
    let k = trim_chars(&slice_chars(&l, 0, eq));
    if k.len() == 0 || ('0' <= k[0] && k[0] <= '9') {
        return None;
    }
    if !key_chars(&k) {
        return None;
    }
    assert(eq < l.len());
    let v = trim_chars(&slice_chars(&l, eq + 1, l.len()));
    let n = v.len();
    let value = if n >= 2 && ((v[0] == '"' && v[n - 1] == '"') || (v[0] == '\'' && v[n - 1] == '\'')) {
        slice_chars(&v, 1, n - 1)
    } else {
        slice_chars(&v, 0, n)
    };
    assert(v@.subrange(0, n as int) =~= v@);
    Some((string_of(&k), string_of(&value)))
}

/// `s` has a segment, between slashes or its ends, that is exactly `..`.
pub open spec fn has_parent_segment(s: Seq<char>) -> bool {
    exists|i: int| parent_at(s, i)
}

/// The segment `..` stands at position `i` of `s`.
pub open spec fn parent_at(s: Seq<char>, i: int) -> bool {
    0 <= i && i + 2 <= s.len() && s[i] == '.' && s[i + 1] == '.' && (i == 0 || s[i - 1] == '/') && (
    i + 2 == s.len() || s[i + 2] == '/')
}

fn parent_segment(s: &Vec<char>) -> (r: bool)
    ensures
        r == has_parent_segment(s@),
{
    let mut i: usize = 0;
    while i < s.len() && s.len() - i >= 2
        invariant
            i <= s.len(),
            forall|j: int| 0 <= j < i ==> !#[trigger] parent_at(s@, j),
        decreases s.len() - i,
    {
        if s[i] == '.' && s[i + 1] == '.' && (i == 0 || s[i - 1] == '/') && (i + 2 == s.len() || s[i + 2] == '/') {
            assert(parent_at(s@, i as int));
            return true;
        }
        i += 1;
    }
    assert forall|j: int| !parent_at(s@, j) by {
        if parent_at(s@, j) {
            assert(j < i);
        }
    }
    false
}

/// `path` lies in `sandbox` by its text alone: neither is empty nor has a
/// `..` segment, and `path` is `sandbox` or goes on from `sandbox/`.
pub open spec fn inside_sandbox_spec(sandbox: Seq<char>, path: Seq<char>) -> bool {
    &&& sandbox.len() > 0
    &&& path.len() > 0
    &&& !has_parent_segment(sandbox)
    &&& !has_parent_segment(path)
    &&& (path == sandbox || has_prefix(path, sandbox + seq!['/']))
}

/// Whether the filesystem carrier may touch `path` within `sandbox`.
pub fn path_inside_sandbox(sandbox: &str, path: &str) -> (r: bool)
    ensures
        r == inside_sandbox_spec(sandbox@, path@),
{
    let s = chars_of(sandbox);
    let p = chars_of(path);
    if s.len() == 0 || p.len() == 0 || parent_segment(&s) || parent_segment(&p) {
        return false;
    }
    if str_eq(path, sandbox) {
        return true;
    }
    let mut prefix = slice_chars(&s, 0, s.len());
    prefix.push('/');
    assert(prefix@ =~= s@ + seq!['/']);
    if prefix.len() > p.len() {
        return false;
    }
    crate::text::chars_match_at(&p, &prefix, 0)
}

/// The 64-bit FNV-1a hash of `bytes`.
pub open spec fn fnv_spec(bytes: Seq<u8>) -> u64
    decreases bytes.len(),
{
    if bytes.len() == 0 {
        0xcbf29ce484222325u64
    } else {
        (((fnv_spec(bytes.drop_last()) ^ (bytes.last() as u64)) as nat * 0x100000001b3nat)
            % 0x1_0000_0000_0000_0000nat) as u64
    }
}

/// The last `n` hexadecimal digits of `v`, zero-padded.
pub open spec fn hex_fixed(v: nat, n: nat) -> Seq<char>
    decreases n,
{
    if n == 0 {
        Seq::empty()
    } else {
        hex_fixed(v / 16, (n - 1) as nat).push(crate::json_scan::hex_digit((v % 16) as int))
    }
}

fn push_hex_fixed(out: &mut Vec<char>, v: u64, n: u32)
    ensures
        final(out)@ == old(out)@ + hex_fixed(v as nat, n as nat),
    decreases n,
{
    if n == 0 {
        assert(old(out)@ + Seq::<char>::empty() =~= old(out)@);
        return;
    }
    push_hex_fixed(out, v / 16, n - 1);
    let d: u64 = v % 16;
    let c = if d < 10 {
        ((d + 48) as u8) as char
    } else {
        ((d + 87) as u8) as char
    };
    out.push(c);
}

/// The content hash the filesystem carrier reports: FNV-1a, 16 lowercase
/// hexadecimal digits.
pub fn fnv_hash(bytes: &[u8]) -> (out: String)
    ensures
        out@ == hex_fixed(fnv_spec(bytes@) as nat, 16),
{
    let mut value: u64 = 0xcbf29ce484222325u64;
    let mut i: usize = 0;
    while i < bytes.len()
        invariant
            i <= bytes.len(),
            value == fnv_spec(bytes@.subrange(0, i as int)),
        decreases bytes.len() - i,
    {
        let x: u64 = value ^ (bytes[i] as u64);
        value = x.wrapping_mul(0x100000001b3u64);
        proof {
            assert(bytes@.subrange(0, i + 1).drop_last() =~= bytes@.subrange(0, i as int));
        }
        i += 1;
    }
    assert(bytes@.subrange(0, bytes.len() as int) =~= bytes@);
    let mut out: Vec<char> = Vec::new();
    push_hex_fixed(&mut out, value, 16);
    assert(out@ =~= hex_fixed(value as nat, 16));
    string_of(&out)
}

/// What reading the hot-state snapshot gave: no file, a file that could not
/// be read, or its text.
pub enum SnapshotRead {
    Missing,
    Unreadable,
    Read(String),
}

/// Whether the hot-state snapshot can be used, why not, and its text where
/// it was read.
pub struct HotSnapshotStatus {
    pub status: String,
    pub reason: String,
    pub content: Option<String>,
}

/// Status, reason and text of the snapshot.
pub open spec fn snapshot_status_spec(read: SnapshotRead) -> (Seq<char>, Seq<char>, Option<Seq<char>>) {
    match read {
        SnapshotRead::Missing => ("unavailable"@, "missing_snapshot"@, None),
        SnapshotRead::Unreadable => ("unavailable"@, "unreadable_snapshot"@, None),
        SnapshotRead::Read(c) => if hot_snapshot_valid(c@) {
            ("active"@, "none"@, Some(c@))
        } else {
            ("unavailable"@, "invalid_snapshot"@, Some(c@))
        },
    }
}

pub open spec fn status_view(s: HotSnapshotStatus) -> (Seq<char>, Seq<char>, Option<Seq<char>>) {
    (
        s.status@,
        s.reason@,
        match s.content {
            Some(c) => Some(c@),
            None => None,
        },
    )
}

/// The status of the hot-state snapshot from what reading it gave.
pub fn hot_snapshot_status(read: SnapshotRead) -> (r: HotSnapshotStatus)
    ensures
        status_view(r) == snapshot_status_spec(read),
{
    match read {
        SnapshotRead::Missing => HotSnapshotStatus {
            status: owned("unavailable"),
            reason: owned("missing_snapshot"),
            content: None,
        },
        SnapshotRead::Unreadable => HotSnapshotStatus {
            status: owned("unavailable"),
            reason: owned("unreadable_snapshot"),
            content: None,
        },
        SnapshotRead::Read(c) => if validate_hot_snapshot(c.as_str()) {
            HotSnapshotStatus { status: owned("active"), reason: owned("none"), content: Some(c) }
        } else {
            HotSnapshotStatus { status: owned("unavailable"), reason: owned("invalid_snapshot"), content: Some(c) }
        },
    }
}

/// How fresh the projection a consumer gets is, the use it may make of it,
/// and where that was learnt.
pub struct ProjectionFreshnessView {
    pub freshness: String,
    pub stale_reason: String,
    pub policy: String,
    pub consumer: String,
    pub source: String,
}

/// Freshness, stale reason, policy, consumer and source of the view: from
/// an active hot-state snapshot of this Case, else a fresh projection record.
pub open spec fn freshness_view_spec(
    case_ref: Seq<char>,
    consumer: Seq<char>,
    status: (Seq<char>, Seq<char>, Option<Seq<char>>),
) -> (Seq<char>, Seq<char>, Seq<char>, Seq<char>, Seq<char>) {
    if status.0 == "active"@ && status.2 is Some && case_ref.len() > 0 && string_or_spec(
        status.2->Some_0,
        "case_ref"@,
        Seq::empty(),
    ) == case_ref {
        let c = status.2->Some_0;
        let f = string_or_spec(c, "projection_freshness"@, "unknown"@);
        let s = string_or_spec(c, "projection_stale_reason"@, "unknown"@);
        (f, s, projection_policy_spec(consumer, f, s), consumer, "hot_state"@)
    } else {
        ("fresh"@, "none"@, projection_policy_spec(consumer, "fresh"@, "none"@), consumer, "projection_record"@)
    }
}

/// The freshness view of the Case's projection for `consumer`.
pub fn projection_freshness_view(case_ref: &str, consumer: &str, status: &HotSnapshotStatus) -> (r: ProjectionFreshnessView)
    ensures
        (r.freshness@, r.stale_reason@, r.policy@, r.consumer@, r.source@) == freshness_view_spec(
            case_ref@,
            consumer@,
            status_view(*status),
        ),
{
    if str_eq(status.status.as_str(), "active") {
        match &status.content {
            Some(content) => {
                let hot_case = json_string_or(content.as_str(), "case_ref", "");
                proof {
                    reveal_strlit("");
                    assert(""@ =~= Seq::<char>::empty());
                }
                if chars_of(case_ref).len() > 0 && str_eq(hot_case.as_str(), case_ref) {
                    let freshness = json_string_or(content.as_str(), "projection_freshness", "unknown");
                    let stale_reason = json_string_or(content.as_str(), "projection_stale_reason", "unknown");
                    let policy = owned(projection_policy_for(consumer, freshness.as_str(), stale_reason.as_str()));
                    return ProjectionFreshnessView {
                        freshness,
                        stale_reason,
                        policy,
                        consumer: owned(consumer),
                        source: owned("hot_state"),
                    };
                }
            },
            None => {},
        }
    }
    ProjectionFreshnessView {
        freshness: owned("fresh"),
        stale_reason: owned("none"),
        policy: owned(projection_policy_for(consumer, "fresh", "none")),
        consumer: owned(consumer),
        source: owned("projection_record"),
    }
}

/// A line `name: value`.
pub open spec fn kv_line(name: Seq<char>, value: Seq<char>) -> Seq<char> {
    name + ": "@ + value + "\n"@
}

pub(crate) fn push_kv(out: &mut Vec<char>, name: &str, value: &str)
    ensures
        final(out)@ == old(out)@ + kv_line(name@, value@),
{
    push_str(out, name);
    push_str(out, ": ");
    push_str(out, value);
    push_str(out, "\n");
}

/// The number field `key`, `0` where there is none.
pub open spec fn number_or_zero(content: Seq<char>, key: Seq<char>) -> Seq<char> {
    match number_field_spec(content, key) {
        Some(v) => v,
        None => "0"@,
    }
}

fn push_number_kv(out: &mut Vec<char>, name: &str, content: &str, key: &str)
    ensures
        final(out)@ == old(out)@ + kv_line(name@, number_or_zero(content@, key@)),
{
    match json_number_field(content, key) {
        Some(v) => push_kv(out, name, v.as_str()),
        None => push_kv(out, name, "0"),
    }
}

fn push_string_kv(out: &mut Vec<char>, name: &str, content: &str, key: &str, fallback: &str)
    ensures
        final(out)@ == old(out)@ + kv_line(name@, string_or_spec(content@, key@, fallback@)),
{
    let v = json_string_or(content, key, fallback);
    push_kv(out, name, v.as_str());
}

/// What `hot-status` shows when the snapshot cannot be used.
pub open spec fn hot_unavailable_text(path: Seq<char>, reason: Seq<char>, status: Seq<char>) -> Seq<char> {
    kv_line("hot_state"@, "unavailable"@) + kv_line("reason"@, reason) + kv_line("snapshot"@, path) + kv_line(
        "snapshot_path"@,
        path,
    ) + kv_line("snapshot_status"@, status) + kv_line("schema"@, "unknown"@) + kv_line("case_session"@, "unknown"@)
        + kv_line("case_world"@, "unknown"@) + kv_line("case_context"@, "unknown"@) + kv_line(
        "active_thread"@,
        "unknown"@,
    ) + kv_line("participant_view"@, "unknown"@) + kv_line("projection"@, "unknown"@) + kv_line(
        "projection_policy"@,
        "unknown"@,
    ) + kv_line("freshness_policy"@, "unknown"@) + kv_line("stale_reason"@, "unknown"@)
}

/// The Case part of the active snapshot's status.
pub open spec fn hot_case_text(path: Seq<char>, c: Seq<char>) -> Seq<char> {
    let session = string_or_spec(c, "case_session_status"@, "unknown"@);
    let world = string_or_spec(c, "case_world_status"@, "unknown"@);
    let context = string_or_spec(c, "case_context_status"@, "unknown"@);
    kv_line("hot_state"@, "active"@) + kv_line("snapshot"@, path) + kv_line("snapshot_path"@, path) + kv_line(
        "snapshot_status"@,
        "active"@,
    ) + kv_line("schema"@, string_or_spec(c, "schema"@, "unknown"@)) + kv_line(
        "case"@,
        string_or_spec(c, "case_ref"@, "unknown"@),
    ) + kv_line("session"@, session) + kv_line("case_session"@, session) + kv_line("case_world"@, world)
        + kv_line("context"@, context) + kv_line("case_context"@, context) + kv_line(
        "case_session_id"@,
        string_or_spec(c, "case_session_id"@, "unknown"@),
    ) + kv_line("case_context_id"@, string_or_spec(c, "case_context_id"@, "unknown"@)) + kv_line(
        "active_thread"@,
        string_or_spec(c, "active_thread_id"@, "none"@),
    ) + kv_line("participant_view"@, string_or_spec(c, "participant_view_frame_id"@, "none"@))
}

/// The projection and counters part of the active snapshot's status.
pub open spec fn hot_projection_text(c: Seq<char>) -> Seq<char> {
    let freshness = string_or_spec(c, "projection_freshness"@, "unknown"@);
    let stale = string_or_spec(c, "projection_stale_reason"@, "unknown"@);
    let policy = projection_policy_spec("model"@, freshness, stale);
    kv_line("case_version"@, number_or_zero(c, "case_version"@)) + kv_line("projection"@, freshness) + kv_line(
        "projection_policy"@,
        policy,
    ) + kv_line("freshness_policy"@, policy) + kv_line("projection_freshness"@, freshness) + kv_line(
        "stale_reason"@,
        stale,
    ) + kv_line("projection_stale_reason"@, stale) + kv_line(
        "last_record"@,
        string_or_spec(c, "last_record_id"@, "none"@),
    ) + kv_line("last_decision"@, string_or_spec(c, "last_decision_id"@, "none"@)) + kv_line(
        "last_receipt"@,
        string_or_spec(c, "last_receipt_id"@, "none"@),
    ) + kv_line("pending_ops"@, number_or_zero(c, "pending_op_count"@)) + kv_line(
        "pending_obligations"@,
        number_or_zero(c, "pending_obligation_count"@),
    ) + kv_line("carrier_locks"@, number_or_zero(c, "carrier_lock_count"@)) + kv_line(
        "updated_at"@,
        number_or_zero(c, "updated_at_unix_ms"@),
    )
}

fn hot_unavailable(path: &str, reason: &str, status: &str) -> (out: Vec<char>)
    ensures
        out@ == hot_unavailable_text(path@, reason@, status@),
{
    let mut o: Vec<char> = Vec::new();
    push_kv(&mut o, "hot_state", "unavailable");
    push_kv(&mut o, "reason", reason);
    push_kv(&mut o, "snapshot", path);
    push_kv(&mut o, "snapshot_path", path);
    push_kv(&mut o, "snapshot_status", status);
    push_kv(&mut o, "schema", "unknown");
    push_kv(&mut o, "case_session", "unknown");
    push_kv(&mut o, "case_world", "unknown");
    push_kv(&mut o, "case_context", "unknown");
    push_kv(&mut o, "active_thread", "unknown");
    push_kv(&mut o, "participant_view", "unknown");
    push_kv(&mut o, "projection", "unknown");
    push_kv(&mut o, "projection_policy", "unknown");
    push_kv(&mut o, "freshness_policy", "unknown");
    push_kv(&mut o, "stale_reason", "unknown");
    o
}

fn hot_case(path: &str, c: &str) -> (out: Vec<char>)
    ensures
        out@ == hot_case_text(path@, c@),
{
    let mut o: Vec<char> = Vec::new();
    push_kv(&mut o, "hot_state", "active");
    push_kv(&mut o, "snapshot", path);
    push_kv(&mut o, "snapshot_path", path);
    push_kv(&mut o, "snapshot_status", "active");
    push_string_kv(&mut o, "schema", c, "schema", "unknown");
    push_string_kv(&mut o, "case", c, "case_ref", "unknown");
    let session = json_string_or(c, "case_session_status", "unknown");
    let world = json_string_or(c, "case_world_status", "unknown");
    let context = json_string_or(c, "case_context_status", "unknown");
    push_kv(&mut o, "session", session.as_str());
    push_kv(&mut o, "case_session", session.as_str());
    push_kv(&mut o, "case_world", world.as_str());
    push_kv(&mut o, "context", context.as_str());
    push_kv(&mut o, "case_context", context.as_str());
    push_string_kv(&mut o, "case_session_id", c, "case_session_id", "unknown");
    push_string_kv(&mut o, "case_context_id", c, "case_context_id", "unknown");
    push_string_kv(&mut o, "active_thread", c, "active_thread_id", "none");
    push_string_kv(&mut o, "participant_view", c, "participant_view_frame_id", "none");
    o
}

fn hot_projection(c: &str) -> (out: Vec<char>)
    ensures
        out@ == hot_projection_text(c@),
{
    let mut o: Vec<char> = Vec::new();
    push_number_kv(&mut o, "case_version", c, "case_version");
    let freshness = json_string_or(c, "projection_freshness", "unknown");
    let stale = json_string_or(c, "projection_stale_reason", "unknown");
    let policy = projection_policy_for("model", freshness.as_str(), stale.as_str());
    push_kv(&mut o, "projection", freshness.as_str());
    push_kv(&mut o, "projection_policy", policy);
    push_kv(&mut o, "freshness_policy", policy);
    push_kv(&mut o, "projection_freshness", freshness.as_str());
    push_kv(&mut o, "stale_reason", stale.as_str());
    push_kv(&mut o, "projection_stale_reason", stale.as_str());
    push_string_kv(&mut o, "last_record", c, "last_record_id", "none");
    push_string_kv(&mut o, "last_decision", c, "last_decision_id", "none");
    push_string_kv(&mut o, "last_receipt", c, "last_receipt_id", "none");
    push_number_kv(&mut o, "pending_ops", c, "pending_op_count");
    push_number_kv(&mut o, "pending_obligations", c, "pending_obligation_count");
    push_number_kv(&mut o, "carrier_locks", c, "carrier_lock_count");
    push_number_kv(&mut o, "updated_at", c, "updated_at_unix_ms");
    o
}

/// What `hot-status` shows for the snapshot at `path`: its Case, session,
/// world and context, thread and view, how fresh the projection is and the
/// model's use of it, and its counters; or why it cannot be used. An active
/// status without its text is refused.
pub fn render_hot_status(path: &str, status: &HotSnapshotStatus) -> (r: Result<String, String>)
    ensures
        status.status@ != "active"@ ==> (r matches Ok(t) && t@ == hot_unavailable_text(path@, status.reason@, status.status@)),
        status.status@ == "active"@ ==> match status.content {
            Some(c) => r matches Ok(t) && t@ == hot_case_text(path@, c@) + hot_projection_text(c@),
            None => r matches Err(e) && e@ == "valid hot snapshot was not loaded"@,
        },
{
    if !str_eq(status.status.as_str(), "active") {
        return Ok(string_of(&hot_unavailable(path, status.reason.as_str(), status.status.as_str())));
    }
    match &status.content {
        None => Err(owned("valid hot snapshot was not loaded")),
        Some(c) => {
            let mut o = hot_case(path, c.as_str());
            let tail = hot_projection(c.as_str());
            crate::text::push_all(&mut o, &tail);
            Ok(string_of(&o))
        },
    }
}

/// `v` written in decimal, with a minus sign where it is negative.
pub open spec fn int_text(v: int) -> Seq<char> {
    if v < 0 {
        "-"@ + decimal_spec((-v) as nat)
    } else {
        decimal_spec(v as nat)
    }
}

fn push_int(out: &mut Vec<char>, v: i32)
    ensures
        final(out)@ == old(out)@ + int_text(v as int),
{
    if v < 0 {
        push_str(out, "-");
        let m: i64 = -(v as i64);
        push_decimal(out, m as u64);
    } else {
        push_decimal(out, v as u64);
    }
}

fn push_int_kv(out: &mut Vec<char>, name: &str, v: i32)
    ensures
        final(out)@ == old(out)@ + kv_line(name@, int_text(v as int)),
{
    push_str(out, name);
    push_str(out, ": ");
    push_int(out, v);
    push_str(out, "\n");
}

/// What `process observe` shows for process `pid` in state `state`.
pub open spec fn process_observe_spec(pid: int, state: Seq<char>) -> Seq<char> {
    kv_line("process_ref"@, "process:"@ + int_text(pid)) + kv_line("pid"@, int_text(pid)) + kv_line("state"@, state)
        + kv_line("owner_scope"@, "external_observed"@) + kv_line("carrier_family"@, "process"@) + kv_line(
        "outcome"@,
        "observed"@,
    ) + kv_line("receipt_required"@, "yes"@) + kv_line("enforcement"@, "none"@) + kv_line(
        "observation_is_enforcement"@,
        "false"@,
    )
}

/// The report of an observed process.
pub fn process_observe_reply(pid: i32, state: &str) -> (out: String)
    ensures
        out@ == process_observe_spec(pid as int, state@),
{
    let mut o: Vec<char> = Vec::new();
    push_str(&mut o, "process_ref");
    push_str(&mut o, ": ");
    push_str(&mut o, "process:");
    push_int(&mut o, pid);
    push_str(&mut o, "\n");
    push_int_kv(&mut o, "pid", pid);
    push_kv(&mut o, "state", state);
    push_kv(&mut o, "owner_scope", "external_observed");
    push_kv(&mut o, "carrier_family", "process");
    push_kv(&mut o, "outcome", "observed");
    push_kv(&mut o, "receipt_required", "yes");
    push_kv(&mut o, "enforcement", "none");
    push_kv(&mut o, "observation_is_enforcement", "false");
    string_of(&o)
}

/// The expected state of a process comparison: `running` or `stopped`.
pub fn expected_state_arg(args: &[String]) -> (r: Result<String, String>)
    ensures
        match arg_value(views(args@), "--expected"@) {
            None => r matches Err(e) && e@ == "--expected is required"@,
            Some(v) => if v == "running"@ || v == "stopped"@ {
                r matches Ok(x) && x@ == v
            } else {
                r matches Err(e) && e@ == "--expected must be running or stopped"@
            },
        },
{
    match optional_arg(args, "--expected") {
        None => Err(owned("--expected is required")),
        Some(v) => if str_eq(v.as_str(), "running") || str_eq(v.as_str(), "stopped") {
            Ok(v)
        } else {
            Err(owned("--expected must be running or stopped"))
        },
    }
}

/// What a process comparison shows: the states, whether they match, and
/// the divergence a mismatch suggests.
pub open spec fn observe_compare_spec(pid: int, expected: Seq<char>, observed: Seq<char>) -> Seq<char> {
    let matched = expected == observed || (expected == "stopped"@ && observed != "running"@);
    kv_line("observation_target"@, "process"@) + kv_line("pid"@, int_text(pid)) + kv_line("expected_state"@, expected)
        + kv_line("observed_state"@, observed) + kv_line("result"@, if matched { "matched"@ } else { "mismatch"@ })
        + kv_line("enforcement"@, "none"@) + kv_line("observation_is_enforcement"@, "false"@) + if matched {
        Seq::empty()
    } else {
        kv_line(
            "divergence_candidate"@,
            if expected == "stopped"@ && observed == "running"@ {
                "expected_stopped_but_running"@
            } else if expected == "running"@ && observed == "not_found"@ {
                "expected_running_but_not_found"@
            } else {
                "unknown"@
            },
        ) + kv_line("severity"@, "warning"@) + kv_line("silent_repair"@, "false"@)
    }
}

/// The report of a process comparison.
pub fn observe_compare_reply(pid: i32, expected: &str, observed: &str) -> (out: String)
    ensures
        out@ == observe_compare_spec(pid as int, expected@, observed@),
{
    let matched = expected_matches_observed(expected, observed);
    let mut o: Vec<char> = Vec::new();
    push_kv(&mut o, "observation_target", "process");
    push_int_kv(&mut o, "pid", pid);
    push_kv(&mut o, "expected_state", expected);
    push_kv(&mut o, "observed_state", observed);
    push_kv(&mut o, "result", if matched { "matched" } else { "mismatch" });
    push_kv(&mut o, "enforcement", "none");
    push_kv(&mut o, "observation_is_enforcement", "false");
    if !matched {
        push_kv(&mut o, "divergence_candidate", divergence_candidate_for(expected, observed));
        push_kv(&mut o, "severity", "warning");
        push_kv(&mut o, "silent_repair", "false");
    }
    string_of(&o)
}

/// What `process signal` shows: a dry run is routable and needs a
/// decision; a real signal is denied without touching the process.
pub open spec fn process_signal_spec(pid: int, signal: Seq<char>, dry_run: bool) -> Seq<char> {
    kv_line("op"@, "process.signal"@) + kv_line("pid"@, int_text(pid)) + kv_line("signal"@, signal) + if dry_run {
        kv_line("dry_run"@, "true"@) + kv_line("carrier_family"@, "process"@) + kv_line("lane"@, "process_lane"@)
            + kv_line("dispatch_status"@, "routable"@) + kv_line("decision_required"@, "true"@) + kv_line(
            "carrier_attempted"@,
            "false"@,
        ) + kv_line("expected_receipt"@, "process_signal_receipt"@)
    } else {
        kv_line("decision"@, "deny"@) + kv_line("carrier_attempted"@, "false"@) + kv_line("outcome"@, "blocked"@)
            + kv_line("reason"@, "unsafe_process_target"@)
    }
}

/// The report of a process signal request (`signal` as given, in upper case).
pub fn process_signal_reply(pid: i32, signal: &str, dry_run: bool) -> (out: String)
    ensures
        out@ == process_signal_spec(pid as int, signal@, dry_run),
{
    let mut o: Vec<char> = Vec::new();
    push_kv(&mut o, "op", "process.signal");
    push_int_kv(&mut o, "pid", pid);
    push_kv(&mut o, "signal", signal);
    if dry_run {
        push_kv(&mut o, "dry_run", "true");
        push_kv(&mut o, "carrier_family", "process");
        push_kv(&mut o, "lane", "process_lane");
        push_kv(&mut o, "dispatch_status", "routable");
        push_kv(&mut o, "decision_required", "true");
        push_kv(&mut o, "carrier_attempted", "false");
        push_kv(&mut o, "expected_receipt", "process_signal_receipt");
    } else {
        push_kv(&mut o, "decision", "deny");
        push_kv(&mut o, "carrier_attempted", "false");
        push_kv(&mut o, "outcome", "blocked");
        push_kv(&mut o, "reason", "unsafe_process_target");
    }
    string_of(&o)
}

/// The refusal of a missing option `name`.
pub open spec fn missing_option(args: Seq<Seq<char>>, name: Seq<char>) -> Seq<char> {
    if has_arg(args, name) {
        name + " requires a value"@
    } else {
        name + " is required"@
    }
}

/// The sandbox and path of a filesystem carrier command, where the path
/// lies in the sandbox.
pub fn carrier_target(args: &[String]) -> (r: Result<(String, String), String>)
    ensures
        ({
            let a = views(args@);
            match (arg_value(a, "--sandbox"@), arg_value(a, "--path"@)) {
                (None, _) => r matches Err(e) && e@ == missing_option(a, "--sandbox"@),
                (Some(_), None) => r matches Err(e) && e@ == missing_option(a, "--path"@),
                (Some(s), Some(p)) => if inside_sandbox_spec(s, p) {
                    r matches Ok(t) && t.0@ == s && t.1@ == p
                } else {
                    r matches Err(e) && e@ == "path is outside sandbox"@
                },
            }
        }),
{
    let sandbox = named_arg(args, "--sandbox")?;
    let path = named_arg(args, "--path")?;
    if !path_inside_sandbox(sandbox.as_str(), path.as_str()) {
        return Err(owned("path is outside sandbox"));
    }
    Ok((sandbox, path))
}

/// The report of a filesystem carrier effect on `bytes`: a read is
/// observed, a write executed.
pub open spec fn carrier_reply_spec(write: bool, bytes: Seq<u8>) -> Seq<char> {
    kv_line("carrier"@, "filesystem"@) + kv_line("effect"@, if write { "fs.write"@ } else { "fs.read"@ }) + kv_line(
        "status"@,
        if write { "executed"@ } else { "observed"@ },
    ) + kv_line("bytes"@, decimal_spec(bytes.len())) + kv_line("hash"@, hex_fixed(fnv_spec(bytes) as nat, 16))
}

/// The report of a filesystem carrier effect.
pub fn carrier_reply(write: bool, bytes: &[u8]) -> (out: String)
    ensures
        out@ == carrier_reply_spec(write, bytes@),
{
    let mut o: Vec<char> = Vec::new();
    push_kv(&mut o, "carrier", "filesystem");
    push_kv(&mut o, "effect", if write { "fs.write" } else { "fs.read" });
    push_kv(&mut o, "status", if write { "executed" } else { "observed" });
    push_str(&mut o, "bytes");
    push_str(&mut o, ": ");
    push_decimal(&mut o, bytes.len() as u64);
    push_str(&mut o, "\n");
    push_kv(&mut o, "hash", fnv_hash(bytes).as_str());
    string_of(&o)
}

/// The signal of a process signal request, in upper case.
pub fn signal_arg(args: &[String]) -> (r: Result<String, String>)
    ensures
        match arg_value(views(args@), "--signal"@) {
            None => r matches Err(e) && e@ == "--signal is required"@,
            Some(v) => r matches Ok(x) && x@ == crate::text::uppercase_of(v),
        },
{
    match optional_arg(args, "--signal") {
        None => Err(owned("--signal is required")),
        Some(v) => Ok(crate::text::to_upper(v.as_str())),
    }
}

} // verus!
