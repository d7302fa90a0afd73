//! Framing of what the Case conversation shows: each source in a block of
//! its own, and short notices for the outcome of an execution or an error.

use vstd::prelude::*;
use crate::render::{literal_external_text, literal_spec};
use crate::seqs::occurs_at;
use crate::terminal::join_sep;
use crate::text::{chars_of, contains_spec, contains_str, push_str, starts_with, string_of};

verus! {

/// One character of a block body: a newline is followed by the two-space indent.
pub open spec fn indent_char(c: char) -> Seq<char> {
    if c == '\n' {
        seq!['\n', ' ', ' ']
    } else {
        seq![c]
    }
}

/// `t` with the two-space indent after every newline.
pub open spec fn indent_after_newlines(t: Seq<char>) -> Seq<char>
    decreases t.len(),
{
    if t.len() == 0 {
        Seq::empty()
    } else {
        indent_after_newlines(t.drop_last()) + indent_char(t.last())
    }
}

/// The lines of `s` (split at newlines, no empty line after a final newline),
/// each indented by two spaces, joined by newlines.
pub open spec fn block_lines_spec(s: Seq<char>) -> Seq<char> {
    if s.len() == 0 {
        Seq::empty()
    } else {
        let t = if s.last() == '\n' {
            s.drop_last()
        } else {
            s
        };
        seq![' ', ' '] + indent_after_newlines(t)
    }
}

/// A framed block: `[source]`, the indented lines of the text made safe to
/// show, `[/source]`.
pub open spec fn block_spec(source: Seq<char>, text: Seq<char>) -> Seq<char> {
    seq!['\n', '['] + source + seq![']', '\n'] + block_lines_spec(literal_spec(text)) + seq![
        '\n',
        '[',
        '/',
    ] + source + seq![']', '\n']
}

/// The text of `source` in a block of its own. External lines are indented,
/// so no line of the text can begin in the first column and close the block
/// or open another.
pub fn block(source: &str, text: &str) -> (out: String)
    ensures
        out@ == block_spec(source@, text@),
{
    let lit = chars_of(literal_external_text(text).as_str());
    let mut out: Vec<char> = Vec::new();
    out.push('\n');
    out.push('[');
    push_str(&mut out, source);
    out.push(']');
    out.push('\n');
    let ghost head = out@;
    if lit.len() > 0 {
        let end: usize = if lit[lit.len() - 1] == '\n' {
            lit.len() - 1
        } else {
            lit.len()
        };
        out.push(' ');
        out.push(' ');
        let ghost start = out@;
        let mut i: usize = 0;
        while i < end
            invariant
                i <= end <= lit.len(),
                out@ == start + indent_after_newlines(lit@.subrange(0, i as int)),
            decreases end - i,
        {
            let ghost before = out@;
            if lit[i] == '\n' {
                out.push('\n');
                out.push(' ');
                out.push(' ');
            } else {
                out.push(lit[i]);
            }
            proof {
                assert(lit@.subrange(0, i + 1).drop_last() =~= lit@.subrange(0, i as int));
                assert(out@ =~= before + indent_char(lit@[i as int]));
            }
            i += 1;
        }
        proof {
            if lit@.last() == '\n' {
                assert(lit@.subrange(0, end as int) =~= lit@.drop_last());
            } else {
                assert(lit@.subrange(0, end as int) =~= lit@);
            }
            assert(out@ =~= head + block_lines_spec(lit@));
        }
    } else {
        assert(out@ =~= head + block_lines_spec(lit@));
    }
    out.push('\n');
    out.push('[');
    out.push('/');
    push_str(&mut out, source);
    out.push(']');
    out.push('\n');
    assert(out@ =~= block_spec(source@, text@));
    string_of(&out)
}

proof fn lemma_indent_after_newlines(t: Seq<char>)
    ensures
        forall|k: int|
            0 <= k < indent_after_newlines(t).len() && #[trigger] indent_after_newlines(t)[k]
                == '\n' ==> k + 2 < indent_after_newlines(t).len() && indent_after_newlines(t)[k
                + 1] == ' ' && indent_after_newlines(t)[k + 2] == ' ',
    decreases t.len(),
{
    if t.len() > 0 {
        lemma_indent_after_newlines(t.drop_last());
        let a = indent_after_newlines(t.drop_last());
        let b = indent_char(t.last());
        let r = indent_after_newlines(t);
        assert(r =~= a + b);
        assert forall|k: int| 0 <= k < r.len() && #[trigger] r[k] == '\n' implies k + 2 < r.len()
            && r[k + 1] == ' ' && r[k + 2] == ' ' by {
            if k < a.len() {
                assert(r[k] == a[k]);
                assert(r[k + 1] == a[k + 1]);
                assert(r[k + 2] == a[k + 2]);
            } else {
                assert(r[k] == b[k - a.len()]);
            }
        }
    }
}

/// Inside a block every newline of the text is followed by the two-space
/// indent: the text cannot put a marker such as `[/Model]` or `[YAI]` at the
/// start of a line.
pub proof fn law_block_lines_indented(text: Seq<char>)
    ensures
        forall|k: int|
            0 <= k < block_lines_spec(literal_spec(text)).len() && #[trigger] block_lines_spec(
                literal_spec(text),
            )[k] == '\n' ==> k + 2 < block_lines_spec(literal_spec(text)).len()
                && block_lines_spec(literal_spec(text))[k + 1] == ' ' && block_lines_spec(
                literal_spec(text),
            )[k + 2] == ' ',
{
    let s = literal_spec(text);
    if s.len() > 0 {
        let t = if s.last() == '\n' {
            s.drop_last()
        } else {
            s
        };
        lemma_indent_after_newlines(t);
        let i = indent_after_newlines(t);
        let b = block_lines_spec(s);
        assert(b =~= seq![' ', ' '] + i);
        assert forall|k: int| 0 <= k < b.len() && #[trigger] b[k] == '\n' implies k + 2 < b.len()
            && b[k + 1] == ' ' && b[k + 2] == ' ' by {
            assert(b[k] == i[k - 2]);
            assert(b[k + 1] == i[k - 1]);
            assert(b[k + 2] == i[k]);
        }
    }
}

/// The closing marker of a block, `\n[/source]\n`.
pub open spec fn closing_marker(source: Seq<char>) -> Seq<char> {
    seq!['\n', '[', '/'] + source + seq![']', '\n']
}

/// Where the source name holds no newline, the closing marker stands in a
/// block exactly once, at its end: no text shown in it can close it early.
pub proof fn law_block_closes_once(source: Seq<char>, text: Seq<char>)
    requires
        !source.contains('\n'),
    ensures
        forall|k: int|
            occurs_at(block_spec(source, text), closing_marker(source), k) <==> k == block_spec(
                source,
                text,
            ).len() - closing_marker(source).len(),
{
    let out = block_spec(source, text);
    let c = closing_marker(source);
    let n = source.len() as int;
    let h = seq!['\n', '['] + source + seq![']', '\n'];
    let b = block_lines_spec(literal_spec(text));
    law_block_lines_indented(text);
    assert(out =~= h + b + c);
    assert(out.subrange(out.len() - c.len(), out.len() as int) =~= c);
    assert forall|k: int| occurs_at(out, c, k) implies k == out.len() - c.len() by {
        let w = out.subrange(k, k + c.len());
        assert(w[0] == c[0] && w[1] == c[1]);
        assert(out[k] == '\n' && out[k + 1] == '[');
        if k == 0 {
            assert(w[n + 3] == c[n + 3]);
            assert(out[n + 3] == h[n + 3]);
        } else if k < n + 3 {
            if k == 1 {
                assert(out[1] == '[');
            } else if k == n + 2 {
                assert(out[k] == ']');
            } else {
                assert(out[k] == source[k - 2]);
                assert(source.contains(source[k - 2]));
            }
        } else if k == n + 3 {
            if b.len() > 0 {
                assert(out[k + 1] == b[0]);
            } else {
                assert(out[k + 1] == c[0]);
            }
        } else if k < h.len() + b.len() {
            assert(out[k] == b[k - h.len()]);
            assert(out[k + 1] == b[k + 1 - h.len()]);
        }
    }
}

/// `t` cut at each newline: the pieces between newlines, in order (one
/// empty piece where `t` is empty).
pub open spec fn split_newlines(t: Seq<char>) -> Seq<Seq<char>>
    decreases t.len(),
{
    if t.len() == 0 {
        seq![Seq::empty()]
    } else {
        let p = split_newlines(t.drop_last());
        if t.last() == '\n' {
            p.push(Seq::empty())
        } else {
            p.update(p.len() - 1, p.last().push(t.last()))
        }
    }
}

/// The lines of `s`, as std's `str::lines` gives them for text without a
/// carriage return: cut at newlines, no empty line after a final newline,
/// none for empty text.
pub open spec fn text_lines(s: Seq<char>) -> Seq<Seq<char>> {
    if s.len() == 0 {
        Seq::empty()
    } else if s.last() == '\n' {
        split_newlines(s.drop_last())
    } else {
        split_newlines(s)
    }
}

/// Each line with the two-space indent in front.
pub open spec fn indented_lines(ls: Seq<Seq<char>>) -> Seq<Seq<char>> {
    ls.map_values(|l: Seq<char>| seq![' ', ' '] + l)
}

proof fn lemma_indent_is_join(t: Seq<char>)
    ensures
        split_newlines(t).len() >= 1,
        seq![' ', ' '] + indent_after_newlines(t) == join_sep(indented_lines(split_newlines(t)), seq!['\n']),
    decreases t.len(),
{
    let nl = seq!['\n'];
    if t.len() == 0 {
        assert(indented_lines(split_newlines(t)) =~= seq![seq![' ', ' ']]);
        assert(seq![' ', ' '] + indent_after_newlines(t) =~= seq![' ', ' ']);
    } else {
        let t0 = t.drop_last();
        let c = t.last();
        lemma_indent_is_join(t0);
        let p = split_newlines(t0);
        let m = indented_lines(p);
        let q = split_newlines(t);
        let mq = indented_lines(q);
        assert(indent_after_newlines(t) == indent_after_newlines(t0) + indent_char(c));
        if c == '\n' {
            assert(mq =~= m.push(seq![' ', ' ']));
            assert(mq.drop_last() =~= m);
            assert(seq![' ', ' '] + indent_after_newlines(t) =~= (seq![' ', ' '] + indent_after_newlines(t0)) + nl
                + seq![' ', ' ']);
        } else {
            let last = seq![' ', ' '] + p.last().push(c);
            assert(mq =~= m.update(m.len() - 1, last));
            assert(seq![' ', ' '] + indent_after_newlines(t) =~= (seq![' ', ' '] + indent_after_newlines(t0)) + seq![c]);
            if m.len() == 1 {
                assert(mq[0] =~= m[0] + seq![c]);
            } else {
                assert(mq.drop_last() =~= m.drop_last());
                assert(mq.last() =~= m.last() + seq![c]);
                assert(join_sep(mq, nl) =~= join_sep(m, nl) + seq![c]);
            }
        }
    }
}

/// Inside a block, taking the two-space indent off each line gives back the
/// lines of the text made safe to show: the body is those lines, each
/// indented, joined by newlines.
pub proof fn law_block_lines_unindent(text: Seq<char>)
    ensures
        block_lines_spec(literal_spec(text)) == join_sep(indented_lines(text_lines(literal_spec(text))), seq!['\n']),
{
    let s = literal_spec(text);
    if s.len() == 0 {
        assert(indented_lines(text_lines(s)) =~= Seq::<Seq<char>>::empty());
    } else {
        let t = if s.last() == '\n' { s.drop_last() } else { s };
        lemma_indent_is_join(t);
    }
}

/// How an execution of a Turn ended, as the controller observed it.
#[derive(Clone, Copy, Debug, PartialEq, Eq, Structural)]
pub enum ExecutionPosture {
    Completed,
    ProviderUnavailable,
    DeliveryIndeterminate,
    ProviderFailed,
    Unresolved,
    CancelledBeforeDispatch,
    AwaitingReview,
    BudgetExhausted,
}

/// Whether some detail holds `needle`.
pub open spec fn any_detail_contains(details: Seq<Seq<char>>, needle: Seq<char>) -> bool {
    exists|n: int| 0 <= n < details.len() && contains_spec(#[trigger] details[n], needle)
}

fn details_contain(details: &Vec<String>, needle: &str) -> (r: bool)
    ensures
        r == any_detail_contains(crate::seqs::views(details@), needle@),
{
    let mut i: usize = 0;
    while i < details.len()
        invariant
            i <= details.len(),
            forall|n: int| 0 <= n < i ==> !contains_spec(#[trigger] details@[n]@, needle@),
        decreases details.len() - i,
    {
        if contains_str(details[i].as_str(), needle) {
            assert(crate::seqs::views(details@)[i as int] == details@[i as int]@);
            return true;
        }
        i += 1;
    }
    assert forall|n: int| 0 <= n < details.len() implies !contains_spec(
        #[trigger] crate::seqs::views(details@)[n],
        needle@,
    ) by {
        assert(crate::seqs::views(details@)[n] == details@[n]@);
    }
    false
}

/// The notice shown after an execution, from its posture and the details of
/// its unavailability events.
pub open spec fn execution_notice_spec(posture: ExecutionPosture, details: Seq<Seq<char>>) -> Seq<
    char,
> {
    match posture {
        ExecutionPosture::Completed => "Response received. /details for execution evidence."@,
        ExecutionPosture::ProviderUnavailable =>
            "No conversation provider is configured. Your message is saved. Use /connect."@,
        ExecutionPosture::DeliveryIndeterminate => if any_detail_contains(
            details,
            "provider_remote_response:413:"@,
        ) {
            "Execution unresolved: the provider rejected the request as too large (HTTP 413). Your message is saved; no authoritative result was received. Delivery remains uncertain; do not retry automatically. /details for evidence."@
        } else {
            "Execution unresolved: delivery is uncertain. Your message is saved. No automatic retry or target substitution was performed. /details for evidence."@
        },
        ExecutionPosture::ProviderFailed =>
            "Execution failed: no valid provider result could complete this request. Your message is saved. /details for evidence."@,
        ExecutionPosture::Unresolved => if any_detail_contains(details, "shape_not_qualified"@) {
            "Execution unavailable: the required provider capability is not qualified. Your message is saved. /details for evidence."@
        } else {
            "Execution unavailable under the current Case bindings, evidence or authority. Your message is saved. /details for the exact reason."@
        },
        ExecutionPosture::CancelledBeforeDispatch =>
            "Cancelled before dispatch. Your message remains saved."@,
        ExecutionPosture::AwaitingReview =>
            "Human review required. Work is paused; the pending operation has not been approved. Use /review; /details for evidence."@,
        ExecutionPosture::BudgetExhausted =>
            "Work limit reached. Recorded results remain available; completion is not implied. /details for evidence."@,
    }
}

/// The notice for an execution outcome; `details` are the details of its
/// execution-unavailable events. Reads them and changes nothing.
pub fn execution_notice(posture: ExecutionPosture, details: &Vec<String>) -> (out: &'static str)
    ensures
        out@ == execution_notice_spec(posture, crate::seqs::views(details@)),
{
    match posture {
        ExecutionPosture::Completed => "Response received. /details for execution evidence.",
        ExecutionPosture::ProviderUnavailable =>
            "No conversation provider is configured. Your message is saved. Use /connect.",
        ExecutionPosture::DeliveryIndeterminate => if details_contain(
            details,
            "provider_remote_response:413:",
        ) {
            "Execution unresolved: the provider rejected the request as too large (HTTP 413). Your message is saved; no authoritative result was received. Delivery remains uncertain; do not retry automatically. /details for evidence."
        } else {
            "Execution unresolved: delivery is uncertain. Your message is saved. No automatic retry or target substitution was performed. /details for evidence."
        },
        ExecutionPosture::ProviderFailed =>
            "Execution failed: no valid provider result could complete this request. Your message is saved. /details for evidence.",
        ExecutionPosture::Unresolved => if details_contain(details, "shape_not_qualified") {
            "Execution unavailable: the required provider capability is not qualified. Your message is saved. /details for evidence."
        } else {
            "Execution unavailable under the current Case bindings, evidence or authority. Your message is saved. /details for the exact reason."
        },
        ExecutionPosture::CancelledBeforeDispatch =>
            "Cancelled before dispatch. Your message remains saved.",
        ExecutionPosture::AwaitingReview =>
            "Human review required. Work is paused; the pending operation has not been approved. Use /review; /details for evidence.",
        ExecutionPosture::BudgetExhausted =>
            "Work limit reached. Recorded results remain available; completion is not implied. /details for evidence.",
    }
}

/// Whether `s` begins with `p`.
pub open spec fn has_prefix(s: Seq<char>, p: Seq<char>) -> bool {
    p.len() <= s.len() && s.subrange(0, p.len() as int) == p
}

/// The notice shown for a refused action, from the error text.
pub open spec fn error_notice_spec(e: Seq<char>) -> Seq<char> {
    if has_prefix(e, "setup_cancelled_no_approval"@) {
        "Setup cancelled. No approval was given."@
    } else if has_prefix(e, "connect_syntax:"@) {
        "Use /connect to choose a provider. There is no connection profile suffix."@
    } else if contains_spec(e, "no_committed_turn"@) {
        "There is no saved message to retry in this thread."@
    } else if contains_spec(e, "setup_identity_conflict"@) {
        "Human and model Participants must have distinct identities."@
    } else if contains_spec(e, "provider_endpoint_credentials_query_or_fragment_forbidden"@) {
        "Do not put credentials, query parameters or fragments in the provider URL. No provider was connected."@
    } else if contains_spec(e, "exact_model_not_in_current_catalog"@) {
        "The selected model is no longer in the public catalog. No provider was connected."@
    } else if contains_spec(e, "case_connect_approval_stale"@) {
        "The Case changed during approval. Use /connect again to review the current configuration."@
    } else if contains_spec(e, "provider_catalog_empty"@) {
        "The endpoint exposes no models. No provider was connected."@
    } else if contains_spec(e, "provider_catalog_"@) {
        "The public model catalog is invalid or changed. No provider was connected. /details for the exact refusal."@
    } else if contains_spec(e, "case_connect_mechanical_contract_unqualified"@) {
        "The text contract did not qualify. No trust or Case binding was added. /details for evidence."@
    } else {
        "The action could not be completed. No success is implied. Use /details for the exact reason."@
    }
}

/// The notice for a refused action.
pub fn error_notice(error: &str) -> (out: &'static str)
    ensures
        out@ == error_notice_spec(error@),
{
    if starts_with(error, "setup_cancelled_no_approval") {
        "Setup cancelled. No approval was given."
    } else if starts_with(error, "connect_syntax:") {
        "Use /connect to choose a provider. There is no connection profile suffix."
    } else if contains_str(error, "no_committed_turn") {
        "There is no saved message to retry in this thread."
    } else if contains_str(error, "setup_identity_conflict") {
        "Human and model Participants must have distinct identities."
    } else if contains_str(error, "provider_endpoint_credentials_query_or_fragment_forbidden") {
        "Do not put credentials, query parameters or fragments in the provider URL. No provider was connected."
    } else if contains_str(error, "exact_model_not_in_current_catalog") {
        "The selected model is no longer in the public catalog. No provider was connected."
    } else if contains_str(error, "case_connect_approval_stale") {
        "The Case changed during approval. Use /connect again to review the current configuration."
    } else if contains_str(error, "provider_catalog_empty") {
        "The endpoint exposes no models. No provider was connected."
    } else if contains_str(error, "provider_catalog_") {
        "The public model catalog is invalid or changed. No provider was connected. /details for the exact refusal."
    } else if contains_str(error, "case_connect_mechanical_contract_unqualified") {
        "The text contract did not qualify. No trust or Case binding was added. /details for evidence."
    } else {
        "The action could not be completed. No success is implied. Use /details for the exact reason."
    }
}

/// How a connection capability is shown.
pub open spec fn qualified_word(q: bool) -> Seq<char> {
    if q { "qualified"@ } else { "not qualified"@ }
}

/// The notice of a made connection: the model (or `selected model` where
/// the result names none) and which of the text, native function and JSON
/// contracts qualified.
pub open spec fn connection_text_spec(model: Option<Seq<char>>, text: bool, native: bool, json: bool) -> Seq<char> {
    "Connected to "@ + (match model {
        Some(m) => m,
        None => "selected model"@,
    }) + ".\nText: "@ + qualified_word(text) + "; native functions: "@ + qualified_word(native) + "; JSON: "@
        + qualified_word(json)
        + ".\nExact model pinned. Trust approved by you; suitability operator-attested.\nThis does not prove full Case execution or grant resource authority. /details for evidence."@
}

/// The notice of a made connection.
pub fn connection_text(model: Option<&str>, text: bool, native: bool, json: bool) -> (out: String)
    ensures
        out@ == connection_text_spec(
            match model {
                Some(m) => Some(m@),
                None => None,
            },
            text,
            native,
            json,
        ),
{
    let mut o = crate::text::chars_of("Connected to ");
    match model {
        Some(m) => push_str(&mut o, m),
        None => push_str(&mut o, "selected model"),
    }
    push_str(&mut o, ".\nText: ");
    push_str(&mut o, if text { "qualified" } else { "not qualified" });
    push_str(&mut o, "; native functions: ");
    push_str(&mut o, if native { "qualified" } else { "not qualified" });
    push_str(&mut o, "; JSON: ");
    push_str(&mut o, if json { "qualified" } else { "not qualified" });
    push_str(
        &mut o,
        ".\nExact model pinned. Trust approved by you; suitability operator-attested.\nThis does not prove full Case execution or grant resource authority. /details for evidence.",
    );
    crate::text::string_of(&o)
}

/// The notice where the last action left no details.
pub fn no_details_text() -> (out: &'static str)
    ensures
        out@ == "No details for the last action in this session. Use /history or /provider to inspect durable state."@,
{
    "No details for the last action in this session. Use /history or /provider to inspect durable state."
}

} // verus!
