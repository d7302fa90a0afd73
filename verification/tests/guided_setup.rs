use yai::conversation::{CaseParticipant, PrincipalLink};
use yai::setup::{
    choice_from_answer, choice_plan, confirm_answer, locality_answer, model_candidates, question_label,
    submitted_answer, ChoicePlan,
};
use yai::terminal::ProviderLocality;

fn words(items: &[&str]) -> Vec<String> {
    items.iter().map(|s| s.to_string()).collect()
}

#[test]
fn answers_and_confirmation() {
    assert_eq!(question_label("Tenant name", Some("local")), "Tenant name [local]");
    assert_eq!(question_label("New Case name", None), "New Case name");
    assert_eq!(submitted_answer("  acme ", Some("local")), Ok("acme".to_string()));
    assert_eq!(submitted_answer("   ", Some("local")), Ok("local".to_string()));
    assert_eq!(submitted_answer("", None), Ok(String::new()));
    assert_eq!(submitted_answer("a\u{7}b", None), Err("setup_single_value_required".to_string()));
    assert_eq!(confirm_answer("create", "create"), Ok(()));
    assert_eq!(confirm_answer("yes", "create"), Err("setup_cancelled_no_approval".to_string()));
}

#[test]
fn choices() {
    match choice_plan("Cases", &vec![]) {
        ChoicePlan::NoChoices(e) => assert_eq!(e, "setup_no_choices:Cases"),
        _ => panic!("expected no choices"),
    }
    match choice_plan("Cases", &words(&["case:a"])) {
        ChoicePlan::Only(c) => assert_eq!(c, "case:a"),
        _ => panic!("expected the only choice"),
    }
    match choice_plan("Cases", &words(&["case:a", "case:\u{1b}b"])) {
        ChoicePlan::Menu(m) => {
            assert!(m.starts_with("Cases\n  1. case:a\n  2. case:"));
            assert!(!m.contains('\u{1b}'));
        }
        _ => panic!("expected a menu"),
    }
    let cs = words(&["case:a", "case:b"]);
    assert_eq!(choice_from_answer(&cs, "case:b"), Ok("case:b".to_string()));
    assert_eq!(choice_from_answer(&cs, "1"), Ok("case:a".to_string()));
    assert_eq!(choice_from_answer(&cs, "0"), Err("setup_selection_not_in_visible_choices".to_string()));
    assert_eq!(choice_from_answer(&cs, "3"), Err("setup_selection_not_in_visible_choices".to_string()));
    assert_eq!(choice_from_answer(&cs, "case:c"), Err("setup_selection_not_in_visible_choices".to_string()));
}

#[test]
fn executor_candidates_and_locality() {
    let view = |id: &str, views: &[(&str, &str)]| CaseParticipant {
        participant_id: id.to_string(),
        admitted_views: views.iter().map(|(a, b)| (a.to_string(), b.to_string())).collect(),
    };
    let ps = vec![
        view("participant:operator", &[("model", "model_context")]),
        view("participant:model", &[("model", "model_context")]),
        view("participant:other", &[("operator", "model_context")]),
    ];
    let links = vec![PrincipalLink {
        tenant_id: "t".to_string(),
        principal_id: "principal:me".to_string(),
        participant_id: "participant:operator".to_string(),
    }];
    assert_eq!(model_candidates(&ps, &links), words(&["participant:model"]));
    assert_eq!(locality_answer("loopback"), Ok(ProviderLocality::Loopback));
    assert_eq!(locality_answer("private_network"), Ok(ProviderLocality::PrivateNetwork));
    assert_eq!(locality_answer("remote"), Ok(ProviderLocality::Remote));
    assert_eq!(locality_answer("moon"), Err("connect_locality_invalid".to_string()));
}
