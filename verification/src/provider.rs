//! What the library makes of a provider's reply and of what it records
//! about a prompt: the decoded chat completion, credentials kept out of
//! transcripts, and the summaries of attempts and outputs.

use vstd::prelude::*;
use crate::seqs::find_from;
use crate::text::{chars_of, push_all, push_str, slice_chars, string_of};
use crate::words::{compact_spec, compact_text, join_words, words};

verus! {

/// Whether `text` is a JSON document that serde_json reads.
pub uninterp spec fn json_valid(text: Seq<char>) -> bool;

/// The message of the error serde_json gives for a text it cannot read.
pub uninterp spec fn json_error_text(text: Seq<char>) -> Seq<char>;

/// The string that the JSON document `text` holds at the JSON pointer `ptr`.
pub uninterp spec fn json_text_at(text: Seq<char>, ptr: Seq<char>) -> Option<Seq<char>>;

/// Whether the JSON document `text` holds any value at the JSON pointer `ptr`.
pub uninterp spec fn json_present_at(text: Seq<char>, ptr: Seq<char>) -> bool;

/// The unsigned 64-bit integer that the JSON document `text` holds at `ptr`.
pub uninterp spec fn json_u64_at(text: Seq<char>, ptr: Seq<char>) -> Option<u64>;

/// Reads `text` with serde_json's `from_str` into a `Value`; claims that the
/// outcome is the named validity and, for a refusal, the message of
/// serde_json's error.
#[verifier::external_body]
fn json_parse_error(text: &str) -> (r: Option<String>)
    ensures
        r is None == json_valid(text@),
        r matches Some(e) ==> e@ == json_error_text(text@),
{
    match serde_json::from_str::<serde_json::Value>(text) {
        Ok(_) => None,
        Err(e) => Some(e.to_string()),
    }
}

/// serde_json's `Value::pointer` then `Value::as_str` on the document `text`;
/// claims the result is the named string, and none where `text` is no document.
#[verifier::external_body]
fn json_string_at(text: &str, ptr: &str) -> (r: Option<String>)
    ensures
        r matches Some(s) ==> json_text_at(text@, ptr@) == Some(s@),
        r is None ==> json_text_at(text@, ptr@) is None,
        r is None || json_valid(text@),
{
    match serde_json::from_str::<serde_json::Value>(text) {
        Ok(v) => v.pointer(ptr).and_then(|x| x.as_str()).map(|s| s.to_string()),
        Err(_) => None,
    }
}

/// serde_json's `Value::pointer` on the document `text`; claims the result is
/// the named presence, and false where `text` is no document.
#[verifier::external_body]
fn json_has(text: &str, ptr: &str) -> (r: bool)
    ensures
        r == json_present_at(text@, ptr@),
        !r || json_valid(text@),
{
    match serde_json::from_str::<serde_json::Value>(text) {
        Ok(v) => v.pointer(ptr).is_some(),
        Err(_) => false,
    }
}

/// serde_json's `Value::pointer` then `Value::as_u64` on the document `text`;
/// claims the result is the named number.
#[verifier::external_body]
fn json_number_at(text: &str, ptr: &str) -> (r: Option<u64>)
    ensures
        r == json_u64_at(text@, ptr@),
        r is None || json_valid(text@),
{
    match serde_json::from_str::<serde_json::Value>(text) {
        Ok(v) => v.pointer(ptr).and_then(|x| x.as_u64()),
        Err(_) => None,
    }
}

/// A chat completion as the library keeps it.
pub struct DecodedProviderResponse {
    pub output: String,
    pub response_model_id: Option<String>,
    pub input_tokens: Option<u64>,
    pub output_tokens: Option<u64>,
    pub total_tokens: Option<u64>,
}

/// The view of an optional string.
pub open spec fn opt_view(o: Option<String>) -> Option<Seq<char>> {
    match o {
        Some(s) => Some(s@),
        None => None,
    }
}

/// A usage count read under its first name, or under its second where the
/// first is absent.
pub open spec fn token_count(text: Seq<char>, first: Seq<char>, second: Seq<char>) -> Option<u64> {
    if json_present_at(text, first) {
        json_u64_at(text, first)
    } else {
        json_u64_at(text, second)
    }
}

/// The decoded form of a chat completion reply: its message content (which
/// must be there), the model that answered, and the usage counts.
pub open spec fn decoded_spec(text: Seq<char>) -> Result<
    (Seq<char>, Option<Seq<char>>, Option<u64>, Option<u64>, Option<u64>),
    Seq<char>,
> {
    if !json_valid(text) {
        Err("provider response was not valid JSON: "@ + json_error_text(text))
    } else {
        match json_text_at(text, "/choices/0/message/content"@) {
            None => Err("provider response did not contain message content"@),
            Some(output) => Ok(
                (
                    output,
                    json_text_at(text, "/model"@),
                    token_count(text, "/usage/prompt_tokens"@, "/usage/input_tokens"@),
                    token_count(text, "/usage/completion_tokens"@, "/usage/output_tokens"@),
                    json_u64_at(text, "/usage/total_tokens"@),
                ),
            ),
        }
    }
}

/// The view of a decoded reply.
pub open spec fn decoded_view(d: DecodedProviderResponse) -> (
    Seq<char>,
    Option<Seq<char>>,
    Option<u64>,
    Option<u64>,
    Option<u64>,
) {
    (d.output@, opt_view(d.response_model_id), d.input_tokens, d.output_tokens, d.total_tokens)
}

/// The decoded reply from what serde_json read: the parse error, if any,
/// the message content, the model, and the usage counts under each name.
pub fn assemble_decoded(
    parse_error: Option<String>,
    content: Option<String>,
    model: Option<String>,
    prompt_present: bool,
    prompt_tokens: Option<u64>,
    input_tokens: Option<u64>,
    completion_present: bool,
    completion_tokens: Option<u64>,
    output_tokens: Option<u64>,
    total_tokens: Option<u64>,
) -> (r: Result<DecodedProviderResponse, String>)
    ensures
        match parse_error {
            Some(e) => r matches Err(m) && m@ == "provider response was not valid JSON: "@ + e@,
            None => match content {
                None => r matches Err(m) && m@
                    == "provider response did not contain message content"@,
                Some(c) => r matches Ok(d) && decoded_view(d) == (
                    c@,
                    opt_view(model),
                    if prompt_present {
                        prompt_tokens
                    } else {
                        input_tokens
                    },
                    if completion_present {
                        completion_tokens
                    } else {
                        output_tokens
                    },
                    total_tokens,
                ),
            },
        },
{
    match parse_error {
        Some(e) => {
            let mut m = chars_of("provider response was not valid JSON: ");
            push_str(&mut m, e.as_str());
            Err(string_of(&m))
        },
        None => match content {
            None => Err(crate::text::owned("provider response did not contain message content")),
            Some(output) => Ok(
                DecodedProviderResponse {
                    output,
                    response_model_id: model,
                    input_tokens: if prompt_present {
                        prompt_tokens
                    } else {
                        input_tokens
                    },
                    output_tokens: if completion_present {
                        completion_tokens
                    } else {
                        output_tokens
                    },
                    total_tokens,
                },
            ),
        },
    }
}

/// The chat completion in a provider's reply body.
pub fn decode_provider_response(body: &str) -> (r: Result<DecodedProviderResponse, String>)
    ensures
        match r {
            Ok(d) => decoded_spec(body@) == Ok::<
                (Seq<char>, Option<Seq<char>>, Option<u64>, Option<u64>, Option<u64>),
                Seq<char>,
            >(decoded_view(d)),
            Err(e) => decoded_spec(body@) == Err::<
                (Seq<char>, Option<Seq<char>>, Option<u64>, Option<u64>, Option<u64>),
                Seq<char>,
            >(e@),
        },
{
    let parse_error = json_parse_error(body);
    let content = json_string_at(body, "/choices/0/message/content");
    let model = json_string_at(body, "/model");
    let prompt_present = json_has(body, "/usage/prompt_tokens");
    let prompt_tokens = json_number_at(body, "/usage/prompt_tokens");
    let input_tokens = json_number_at(body, "/usage/input_tokens");
    let completion_present = json_has(body, "/usage/completion_tokens");
    let completion_tokens = json_number_at(body, "/usage/completion_tokens");
    let output_tokens = json_number_at(body, "/usage/output_tokens");
    let total_tokens = json_number_at(body, "/usage/total_tokens");
    assemble_decoded(
        parse_error,
        content,
        model,
        prompt_present,
        prompt_tokens,
        input_tokens,
        completion_present,
        completion_tokens,
        output_tokens,
        total_tokens,
    )
}

/// `s` with every occurrence of `pat` (non-empty), left to right and not
/// overlapping, replaced by `rep`, as std's `str::replace`.
pub open spec fn replace_all(s: Seq<char>, pat: Seq<char>, rep: Seq<char>) -> Seq<char>
    decreases s.len(),
{
    let i = find_from(s, pat, 0);
    if pat.len() == 0 || i < 0 || i + pat.len() > s.len() {
        s
    } else {
        s.subrange(0, i) + rep + replace_all(s.subrange(i + pat.len(), s.len() as int), pat, rep)
    }
}

/// `value` with the credential, where one is set, replaced by a marker.
pub open spec fn redact_spec(value: Seq<char>, api_key: Option<Seq<char>>) -> Seq<char> {
    match api_key {
        Some(k) => if k.len() > 0 {
            replace_all(value, k, "[redacted:api_key]"@)
        } else {
            value
        },
        None => value,
    }
}

fn replace_all_exec(s: &Vec<char>, pat: &Vec<char>, rep: &Vec<char>) -> (out: Vec<char>)
    requires
        pat.len() > 0,
    ensures
        out@ == replace_all(s@, pat@, rep@),
{
    let mut out: Vec<char> = Vec::new();
    let mut rest = slice_chars(s, 0, s.len());
    assert(rest@ =~= s@);
    loop
        invariant
            pat.len() > 0,
            out@ + replace_all(rest@, pat@, rep@) == replace_all(s@, pat@, rep@),
        decreases rest.len(),
    {
        match crate::text::find_chars_from(&rest, pat, 0) {
            None => {
                push_all(&mut out, &rest);
                return out;
            },
            Some(i) => {
                proof {
                    crate::seqs::lemma_find_bounds(rest@, pat@, 0);
                }
                let ghost before = out@;
                let head = slice_chars(&rest, 0, i);
                push_all(&mut out, &head);
                push_all(&mut out, rep);
                let tail = slice_chars(&rest, i + pat.len(), rest.len());
                proof {
                    assert(replace_all(rest@, pat@, rep@) == head@ + rep@ + replace_all(
                        tail@,
                        pat@,
                        rep@,
                    ));
                    assert(out@ + replace_all(tail@, pat@, rep@) =~= before + replace_all(
                        rest@,
                        pat@,
                        rep@,
                    ));
                }
                rest = tail;
            },
        }
    }
}

/// A value with the provider credential kept out of it.
pub fn redact_sensitive(value: &str, api_key: Option<&str>) -> (out: String)
    ensures
        out@ == redact_spec(
            value@,
            match api_key {
                Some(k) => Some(k@),
                None => None,
            },
        ),
{
    let v = chars_of(value);
    match api_key {
        Some(k) => {
            let kc = chars_of(k);
            if kc.len() > 0 {
                let rep = chars_of("[redacted:api_key]");
                string_of(&replace_all_exec(&v, &kc, &rep))
            } else {
                string_of(&v)
            }
        },
        None => string_of(&v),
    }
}

/// Text kept in a transcript: credential redacted, white space collapsed.
pub open spec fn transcript_spec(value: Seq<char>, api_key: Option<Seq<char>>) -> Seq<char> {
    join_words(words(redact_spec(value, api_key)))
}

/// The transcript form of a prompt or an output.
pub fn transcript_text(value: &str, api_key: Option<&str>) -> (out: String)
    ensures
        out@ == transcript_spec(
            value@,
            match api_key {
                Some(k) => Some(k@),
                None => None,
            },
        ),
{
    let r = redact_sensitive(value, api_key);
    let ws = crate::words::split_words(&chars_of(r.as_str()));
    string_of(&crate::words::join_words_vec(&ws))
}

/// How much of a prompt or an output a record keeps.
pub fn transcript_retention_label(enabled: bool) -> (out: &'static str)
    ensures
        out@ == if enabled {
            "full_redacted_case_local"@
        } else {
            "preview_only"@
        },
{
    if enabled {
        "full_redacted_case_local"
    } else {
        "preview_only"
    }
}

/// The summary recorded for a submitted prompt: the full redacted text where
/// the transcript is kept, a 120-character preview otherwise.
pub open spec fn prompt_attempt_spec(
    transcript_enabled: bool,
    thread_id: Seq<char>,
    api_key: Option<Seq<char>>,
    prompt: Seq<char>,
) -> Seq<char> {
    if transcript_enabled {
        "op:model.prompt.submit prompt_surface:vendored_linenoise context:typed_context_frame thread_id:"@
            + thread_id + " transcript_retention:full_redacted_case_local prompt_text:"@
            + transcript_spec(prompt, api_key)
    } else {
        "op:model.prompt.submit prompt_surface:vendored_linenoise context:typed_context_frame thread_id:"@
            + thread_id + " transcript_retention:preview_only prompt_preview:"@ + compact_spec(
            prompt,
            120,
        )
    }
}

/// The record summary of a prompt attempt.
pub fn prompt_attempt_summary(
    transcript_enabled: bool,
    thread_id: &str,
    api_key: Option<&str>,
    prompt: &str,
) -> (out: String)
    ensures
        out@ == prompt_attempt_spec(
            transcript_enabled,
            thread_id@,
            match api_key {
                Some(k) => Some(k@),
                None => None,
            },
            prompt@,
        ),
{
    let mut m = chars_of(
        "op:model.prompt.submit prompt_surface:vendored_linenoise context:typed_context_frame thread_id:",
    );
    push_str(&mut m, thread_id);
    if transcript_enabled {
        push_str(&mut m, " transcript_retention:full_redacted_case_local prompt_text:");
        push_str(&mut m, transcript_text(prompt, api_key).as_str());
    } else {
        push_str(&mut m, " transcript_retention:preview_only prompt_preview:");
        push_str(&mut m, compact_text(prompt, 120).as_str());
    }
    string_of(&m)
}

/// The summary recorded for an observed model output: model, character
/// count, and the full redacted text or a 160-character preview.
pub open spec fn model_output_spec(
    transcript_enabled: bool,
    model: Seq<char>,
    api_key: Option<Seq<char>>,
    output: Seq<char>,
) -> Seq<char> {
    let head = "model.output status:observed provider:openai_compatible model:"@ + model
        + " output_chars:"@ + crate::numbers::decimal_spec(output.len());
    if transcript_enabled {
        head + " transcript_retention:full_redacted_case_local output_text:"@ + transcript_spec(
            output,
            api_key,
        )
    } else {
        head + " transcript_retention:preview_only output_preview:"@ + compact_spec(output, 160)
    }
}

/// The record summary of a model output.
pub fn model_output_summary(
    transcript_enabled: bool,
    model: &str,
    api_key: Option<&str>,
    output: &str,
) -> (out: String)
    ensures
        out@ == model_output_spec(
            transcript_enabled,
            model@,
            match api_key {
                Some(k) => Some(k@),
                None => None,
            },
            output@,
        ),
{
    let mut m = chars_of("model.output status:observed provider:openai_compatible model:");
    push_str(&mut m, model);
    push_str(&mut m, " output_chars:");
    let oc = chars_of(output);
    crate::numbers::push_decimal(&mut m, oc.len() as u64);
    if transcript_enabled {
        push_str(&mut m, " transcript_retention:full_redacted_case_local output_text:");
        push_str(&mut m, transcript_text(output, api_key).as_str());
    } else {
        push_str(&mut m, " transcript_retention:preview_only output_preview:");
        push_str(&mut m, compact_text(output, 160).as_str());
    }
    string_of(&m)
}

} // verus!
