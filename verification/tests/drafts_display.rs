use yai::drafts::{draft_mutation_text, draft_text, provenance_label, wants_json, DraftPart, DraftView, PartProvenance};
use yai::presentation::{connection_text, no_details_text};

#[test]
fn draft_listing() {
    let d = DraftView {
        draft_id: "chat-draft-1".to_string(),
        case_id: "case:1".to_string(),
        participant_id: "participant:op".to_string(),
        parts: vec![
            DraftPart {
                modality: "text".to_string(),
                media_type: "text/plain".to_string(),
                byte_length: 11,
                content_digest: "sha256:ab".to_string(),
                provenance: PartProvenance::Original,
            },
            DraftPart {
                modality: "text".to_string(),
                media_type: "text/plain".to_string(),
                byte_length: 5,
                content_digest: "sha256:cd".to_string(),
                provenance: PartProvenance::HumanEdited,
            },
        ],
    };
    assert_eq!(
        draft_text(&d),
        "draft_id: chat-draft-1\ncase_id: case:1\nparticipant_id: participant:op\nparts: 2\ncanonical: no\n\
         part: 0 type=text mime=text/plain bytes=11 digest=sha256:ab provenance=original\n\
         part: 1 type=text mime=text/plain bytes=5 digest=sha256:cd provenance=human_edited_derived\n"
    );
    assert_eq!(provenance_label(PartProvenance::Derived), "machine_or_deterministic_derived");
    assert_eq!(
        draft_mutation_text("chat-draft-1", 1, 2, "original"),
        "draft_id: chat-draft-1\nadded_part: 1\npart_count: 2\nprovenance: original\ncanonical: no\n"
    );
    assert!(wants_json(&["show".to_string(), "--json".to_string()]));
    assert!(!wants_json(&["show".to_string()]));
}

#[test]
fn connection_notices() {
    assert_eq!(
        connection_text(Some("model:x"), true, false, true),
        "Connected to model:x.\nText: qualified; native functions: not qualified; JSON: qualified.\n\
         Exact model pinned. Trust approved by you; suitability operator-attested.\n\
         This does not prove full Case execution or grant resource authority. /details for evidence."
    );
    assert!(connection_text(None, false, false, false).starts_with("Connected to selected model.\nText: not qualified;"));
    assert!(no_details_text().starts_with("No details for the last action"));
}
