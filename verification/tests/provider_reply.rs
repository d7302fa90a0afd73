use yai::provider::{
    decode_provider_response, model_output_summary, prompt_attempt_summary, redact_sensitive,
    transcript_retention_label, transcript_text,
};

#[test]
fn h14_generic_provider_tolerates_extensions_and_reports_response_model() {
    let body = r#"{
      "id":"completion:black-box",
      "model":"provider-exposed-model",
      "choices":[{"message":{"role":"assistant","content":"candidate"}}],
      "usage":{"prompt_tokens":3,"completion_tokens":2,"total_tokens":5},
      "provider_optional_metrics":{"ttft_ms":17,"engine_generation":"not-case-authority"}
    }"#;
    let decoded = decode_provider_response(body).unwrap();
    assert_eq!(decoded.output, "candidate");
    assert_eq!(
        decoded.response_model_id.as_deref(),
        Some("provider-exposed-model")
    );
    assert_eq!(
        (
            decoded.input_tokens,
            decoded.output_tokens,
            decoded.total_tokens
        ),
        (Some(3), Some(2), Some(5))
    );
}

#[test]
fn usage_falls_back_to_input_and_output_names() {
    let body = r#"{"choices":[{"message":{"content":"x"}}],"usage":{"input_tokens":7,"output_tokens":8}}"#;
    let decoded = decode_provider_response(body).unwrap();
    assert_eq!(decoded.response_model_id, None);
    assert_eq!((decoded.input_tokens, decoded.output_tokens, decoded.total_tokens), (Some(7), Some(8), None));
}

#[test]
fn a_present_first_name_wins_even_when_it_is_no_count() {
    let body = r#"{"choices":[{"message":{"content":"x"}}],"usage":{"prompt_tokens":null,"input_tokens":7}}"#;
    let decoded = decode_provider_response(body).unwrap();
    assert_eq!(decoded.input_tokens, None);
}

#[test]
fn reply_without_content_or_not_json_is_refused() {
    assert_eq!(
        decode_provider_response(r#"{"choices":[]}"#).err().unwrap(),
        "provider response did not contain message content"
    );
    let error = decode_provider_response("not json").err().unwrap();
    assert!(error.starts_with("provider response was not valid JSON: "));
}

#[test]
fn credentials_are_redacted_from_transcripts() {
    assert_eq!(
        redact_sensitive("key=sk-1 and sk-1", Some("sk-1")),
        "key=[redacted:api_key] and [redacted:api_key]"
    );
    assert_eq!(redact_sensitive("key=sk-1", Some("")), "key=sk-1");
    assert_eq!(redact_sensitive("key=sk-1", None), "key=sk-1");
    assert_eq!(
        transcript_text("  a\n\tb  sk-1 ", Some("sk-1")),
        "a b [redacted:api_key]"
    );
}

#[test]
fn attempt_and_output_summaries() {
    assert_eq!(transcript_retention_label(true), "full_redacted_case_local");
    assert_eq!(transcript_retention_label(false), "preview_only");
    assert_eq!(
        prompt_attempt_summary(false, "thread:default", None, "hello   world"),
        "op:model.prompt.submit prompt_surface:vendored_linenoise context:typed_context_frame thread_id:thread:default transcript_retention:preview_only prompt_preview:hello world"
    );
    assert_eq!(
        prompt_attempt_summary(true, "t", Some("k"), "use k"),
        "op:model.prompt.submit prompt_surface:vendored_linenoise context:typed_context_frame thread_id:t transcript_retention:full_redacted_case_local prompt_text:use [redacted:api_key]"
    );
    assert_eq!(
        model_output_summary(false, "m", None, "é ok"),
        "model.output status:observed provider:openai_compatible model:m output_chars:4 transcript_retention:preview_only output_preview:é ok"
    );
}
