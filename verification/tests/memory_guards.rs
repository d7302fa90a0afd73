use yai::memory::{
    credential_for_memory_encoder, embedding_order, parse_memory_purpose, require_case_generation,
    require_memory_encoder_snapshot, EmbeddingItem, EncoderSnapshot, ProjectionPurpose,
};

fn encoder_snapshot() -> EncoderSnapshot {
    EncoderSnapshot {
        target: "tenant:test|local-encoder|openai_compatible|http://127.0.0.1:12345/v1|encoder:model|env:YAI_TEST_ENCODER_KEY|loopback".to_string(),
        credential: Some("test-secret-a".to_string()),
        qualification_id: "provider-qualification:test".to_string(),
        credential_revision: 1,
    }
}

/// Reads an encoder reply the way the host does, then lets the library
/// check it; vectors are assembled in the order the library gives.
fn parse_embedding_response(
    body: &[u8],
    model_id: &str,
    expected_count: usize,
    expected_dimension: usize,
) -> Result<Vec<Vec<f32>>, String> {
    let value: serde_json::Value =
        serde_json::from_slice(body).map_err(|e| format!("invalid json: {e}"))?;
    let model = value.get("model").and_then(|v| v.as_str());
    let data = value.get("data").and_then(|v| v.as_array());
    let mut vectors: Vec<Vec<f32>> = Vec::new();
    let items = data.map(|data| {
        data.iter()
            .map(|item| {
                let values = item.get("embedding").and_then(|v| v.as_array());
                let vector: Option<Vec<f32>> = values.map(|values| {
                    values
                        .iter()
                        .map(|v| v.as_f64().filter(|x| x.is_finite()).map(|x| x as f32).unwrap_or(f32::NAN))
                        .collect()
                });
                let finite = vector.as_ref().is_some_and(|v| v.iter().all(|x| x.is_finite()));
                let norm: f64 = vector
                    .as_ref()
                    .map(|v| v.iter().map(|x| f64::from(*x) * f64::from(*x)).sum())
                    .unwrap_or(0.0);
                vectors.push(vector.clone().unwrap_or_default());
                EmbeddingItem {
                    index: item.get("index").and_then(|v| v.as_u64()),
                    vector_len: values.map(|v| v.len()),
                    finite,
                    nonzero: norm.is_finite() && norm > f64::EPSILON,
                }
            })
            .collect::<Vec<_>>()
    });
    let order = embedding_order(model, items.as_ref(), model_id, expected_count, expected_dimension)?;
    Ok(order.into_iter().map(|position| vectors[position].clone()).collect())
}

#[test]
fn h19_s10_case_generation_change_aborts_build_or_publication() {
    assert!(require_case_generation(9, 9, false).is_ok());
    assert_eq!(
        require_case_generation(9, 10, false).unwrap_err(),
        "memory_index_case_generation_changed_during_build"
    );
    assert_eq!(
        require_case_generation(9, 10, true).unwrap_err(),
        "memory_index_case_generation_changed_during_publication"
    );
}

#[test]
fn h19_s11_trust_revocation_stops_encoder_recheck() {
    let admitted = encoder_snapshot();
    assert_eq!(
        require_memory_encoder_snapshot(
            &admitted,
            Err("memory_encoder_trust_not_approved".to_string())
        )
        .unwrap_err(),
        "memory_encoder_trust_not_approved"
    );
}

#[test]
fn h19_s12_qualification_invalidation_stops_encoder_recheck() {
    let admitted = encoder_snapshot();
    assert_eq!(
        require_memory_encoder_snapshot(
            &admitted,
            Err("memory_encoder_qualification_stale".to_string())
        )
        .unwrap_err(),
        "memory_encoder_qualification_stale"
    );
}

#[test]
fn h19_s13_credential_rotation_cannot_mix_one_build() {
    let admitted = encoder_snapshot();
    let mut rotated = encoder_snapshot();
    rotated.credential_revision += 1;
    rotated.credential = Some("test-secret-b".to_string());
    assert_eq!(
        require_memory_encoder_snapshot(&admitted, Ok(rotated)).unwrap_err(),
        "memory_encoder_governance_changed_during_build"
    );
}

#[test]
fn unchanged_encoder_passes_recheck() {
    let admitted = encoder_snapshot();
    assert!(require_memory_encoder_snapshot(&admitted, Ok(encoder_snapshot())).is_ok());
    let mut moved = encoder_snapshot();
    moved.target = "tenant:test|other".to_string();
    assert!(!admitted.same_governed_identity(&moved));
}

#[test]
fn embedding_response_requires_exact_count_dimension_model_and_finite_values() {
    let valid = br#"{"model":"encoder:model","data":[{"index":1,"embedding":[0.0,1.0]},{"index":0,"embedding":[1.0,0.0]}]}"#;
    assert_eq!(
        parse_embedding_response(valid, "encoder:model", 2, 2).unwrap(),
        vec![vec![1.0, 0.0], vec![0.0, 1.0]]
    );
    assert_eq!(
        parse_embedding_response(valid, "encoder:other", 2, 2).unwrap_err(),
        "memory_encoder_response_model_mismatch"
    );
    let missing_model = br#"{"data":[{"index":0,"embedding":[1.0,0.0]}]}"#;
    assert_eq!(
        parse_embedding_response(missing_model, "encoder:model", 1, 2).unwrap_err(),
        "memory_encoder_response_model_mismatch"
    );
    assert_eq!(
        parse_embedding_response(valid, "encoder:model", 2, 3).unwrap_err(),
        "memory_encoder_response_dimension_mismatch"
    );
    let duplicate = br#"{"model":"encoder:model","data":[{"index":0,"embedding":[1.0,0.0]},{"index":0,"embedding":[0.0,1.0]}]}"#;
    assert_eq!(
        parse_embedding_response(duplicate, "encoder:model", 2, 2).unwrap_err(),
        "memory_encoder_response_index_invalid"
    );
    let overflow = br#"{"model":"encoder:model","data":[{"index":0,"embedding":[1e1000,0.0]}]}"#;
    assert!(parse_embedding_response(overflow, "encoder:model", 1, 2).is_err());
}

#[test]
fn h19_s14_embedding_response_adversarial_matrix_fails_closed() {
    let cases: &[(&[u8], &str)] = &[
        (
            br#"{"model":"wrong","data":[{"index":0,"embedding":[1.0,0.0]}]}"#,
            "memory_encoder_response_model_mismatch",
        ),
        (
            br#"{"model":"encoder:model","data":[]}"#,
            "memory_encoder_response_count_mismatch",
        ),
        (
            br#"{"model":"encoder:model","data":[{"embedding":[1.0,0.0]}]}"#,
            "memory_encoder_response_index_missing",
        ),
        (
            br#"{"model":"encoder:model","data":[{"index":0,"embedding":[]}]}"#,
            "memory_encoder_response_dimension_mismatch",
        ),
        (
            br#"{"model":"encoder:model","data":[{"index":0,"embedding":[0.0,0.0]}]}"#,
            "memory_encoder_response_zero_vector",
        ),
        (
            br#"{"model":"encoder:model","data":[{"index":1,"embedding":[1.0,0.0]}]}"#,
            "memory_encoder_response_index_invalid",
        ),
        (
            br#"{"model":"encoder:model","data":[{"index":0,"embedding":[1.0,0.0]},{"index":1,"embedding":[0.0,1.0]}]}"#,
            "memory_encoder_response_count_mismatch",
        ),
        (
            br#"{"model":"encoder:model","data":"invalid"}"#,
            "memory_encoder_response_data_missing",
        ),
    ];
    for (body, expected) in cases {
        assert_eq!(
            parse_embedding_response(body, "encoder:model", 1, 2).unwrap_err(),
            *expected
        );
    }
    assert!(parse_embedding_response(b"{", "encoder:model", 1, 2).is_err());
}

#[test]
fn embedding_item_without_vector_or_finite_values_is_refused() {
    let item = |vector_len: Option<usize>, finite: bool| EmbeddingItem {
        index: Some(0),
        vector_len,
        finite,
        nonzero: true,
    };
    assert_eq!(
        embedding_order(Some("m"), Some(&vec![item(None, true)]), "m", 1, 2).unwrap_err(),
        "memory_encoder_response_vector_missing"
    );
    assert_eq!(
        embedding_order(Some("m"), Some(&vec![item(Some(2), false)]), "m", 1, 2).unwrap_err(),
        "memory_encoder_response_non_finite"
    );
    assert_eq!(
        embedding_order(Some("m"), None, "m", 1, 2).unwrap_err(),
        "memory_encoder_response_data_missing"
    );
    assert_eq!(embedding_order(Some("m"), Some(&vec![item(Some(2), true)]), "m", 1, 2).unwrap(), vec![0]);
}

#[test]
fn retrieval_purposes_and_aliases() {
    assert_eq!(parse_memory_purpose("conversation").unwrap(), ProjectionPurpose::Conversation);
    assert_eq!(parse_memory_purpose("continue_task").unwrap(), ProjectionPurpose::Conversation);
    assert_eq!(
        parse_memory_purpose("propose_operation").unwrap(),
        ProjectionPurpose::FilesystemWriteProposal
    );
    assert_eq!(
        parse_memory_purpose("inspect_resource").unwrap(),
        ProjectionPurpose::EffectConsequence
    );
    assert_eq!(parse_memory_purpose("inspection").unwrap(), ProjectionPurpose::Inspection);
    assert_eq!(
        parse_memory_purpose("gossip").unwrap_err(),
        "unsupported memory retrieval purpose: gossip"
    );
}

#[test]
fn encoder_credentials_come_from_named_variables() {
    let env = vec![("YAI_KEY".to_string(), "secret".to_string())];
    assert_eq!(credential_for_memory_encoder("none", &env).unwrap(), None);
    assert_eq!(
        credential_for_memory_encoder("env:YAI_KEY", &env).unwrap(),
        Some("secret".to_string())
    );
    assert_eq!(
        credential_for_memory_encoder("env:OTHER", &env).unwrap_err(),
        "memory_encoder_credential_unavailable"
    );
    assert_eq!(
        credential_for_memory_encoder("file:/tmp/key", &env).unwrap_err(),
        "memory_encoder_credential_reference_unsupported"
    );
}
