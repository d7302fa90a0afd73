use yai::args::{
    failpoint, graph_query_depth, graph_query_limit, has_flag, journal_arg, named_arg, optional_arg,
    parse_dimension, parse_limit, parse_max_bytes, parse_pid_arg, position_of, positional,
    provider_args_for_case, reject_journal_flag, remove_named_arg, repeated, replace_named_arg,
    second_turn_provider_args,
};
use yai::numbers::{decimal, int_error_text, parse_i32, parse_unsigned, parse_usize, IntErrorKind};
use yai::render::{canonical_id_component, safe_case_ref_for_filename, shell_quote};

fn words(items: &[&str]) -> Vec<String> {
    items.iter().map(|s| s.to_string()).collect()
}

fn chars(s: &str) -> Vec<char> {
    s.chars().collect()
}

#[test]
fn named_options_read_first_occurrence() {
    let args = words(&["--case", "c1", "--case", "c2", "--flag"]);
    assert_eq!(position_of(&args, "--case"), Some(0));
    assert_eq!(position_of(&args, "--missing"), None);
    assert!(has_flag(&args, "--flag"));
    assert!(!has_flag(&args, "--other"));
    assert_eq!(optional_arg(&args, "--case"), Some("c1".to_string()));
    assert_eq!(optional_arg(&args, "--flag"), None);
    assert_eq!(named_arg(&args, "--case"), Ok("c1".to_string()));
    assert_eq!(named_arg(&args, "--flag"), Err("--flag requires a value".to_string()));
    assert_eq!(named_arg(&args, "--tenant"), Err("--tenant is required".to_string()));
}

#[test]
fn journal_and_positional_errors() {
    assert_eq!(journal_arg(&words(&["--journal", "j.log"])), Ok("j.log".to_string()));
    assert_eq!(journal_arg(&words(&["--journal"])), Err("--journal requires a path".to_string()));
    assert_eq!(journal_arg(&words(&[])), Err("--journal <path> is required".to_string()));
    assert_eq!(positional(&words(&["case:1", "--x"]), "case"), Ok("case:1".to_string()));
    assert_eq!(positional(&words(&["--x"]), "case"), Err("case is required".to_string()));
    assert_eq!(positional(&words(&[]), "case"), Err("case is required".to_string()));
    assert_eq!(
        reject_journal_flag(&words(&["--journal", "x"]), "yai.case.enter"),
        Err("yai.case.enter does not accept --journal; materialize the case first and pass journal state through YAI_JOURNAL".to_string())
    );
    assert_eq!(reject_journal_flag(&words(&["--case", "x"]), "yai.case.enter"), Ok(()));
}

#[test]
fn repeated_options_in_order() {
    let args = words(&["--tag", "a", "--x", "--tag", "b"]);
    assert_eq!(repeated(&args, "--tag"), Ok(words(&["a", "b"])));
    assert_eq!(repeated(&words(&["--tag", "a", "--tag"]), "--tag"), Err("missing value for --tag".to_string()));
    assert_eq!(repeated(&words(&["--x"]), "--tag"), Ok(vec![]));
}

#[test]
fn numeric_options() {
    assert_eq!(parse_pid_arg(&words(&["--pid", "42"])), Ok(42));
    assert_eq!(parse_pid_arg(&words(&["--pid", "-7"])), Ok(-7));
    assert_eq!(parse_pid_arg(&words(&["--pid", "x"])), Err("--pid must be an integer".to_string()));
    assert_eq!(parse_pid_arg(&words(&[])), Err("--pid is required".to_string()));
    assert_eq!(parse_limit(&words(&[])), Ok(20));
    assert_eq!(parse_limit(&words(&["--limit", "5"])), Ok(5));
    assert_eq!(parse_limit(&words(&["--limit", "0"])), Err("--limit must be greater than zero".to_string()));
    assert_eq!(parse_limit(&words(&["--limit", "ten"])), Err("invalid --limit value: ten".to_string()));
    assert_eq!(parse_dimension(&words(&["--dimension", "384"])), Ok(384));
    assert_eq!(
        parse_dimension(&words(&["--dimension", "big"])),
        Err("memory_profile_vector_dimension_invalid".to_string())
    );
    assert_eq!(parse_dimension(&words(&[])), Err("--dimension is required".to_string()));
    assert_eq!(parse_max_bytes(&words(&[]), 4096), Ok(4096));
    assert_eq!(parse_max_bytes(&words(&["--max-bytes", "10"]), 4096), Ok(10));
    assert_eq!(
        parse_max_bytes(&words(&["--max-bytes", ""]), 4096),
        Err("invalid --max-bytes: cannot parse integer from empty string".to_string())
    );
}

#[test]
fn graph_query_bounds() {
    assert_eq!(graph_query_limit(&words(&[])), Ok((20, false)));
    assert_eq!(graph_query_limit(&words(&["--limit", "200"])), Ok((200, false)));
    assert_eq!(graph_query_limit(&words(&["--limit", "500"])), Ok((200, true)));
    assert_eq!(graph_query_depth(&words(&[]), "--depth", 2, 5), Ok((2, false)));
    assert_eq!(graph_query_depth(&words(&["--depth", "9"]), "--depth", 2, 5), Ok((5, true)));
    assert_eq!(
        graph_query_depth(&words(&["--depth", "0"]), "--depth", 2, 5),
        Err("--depth must be greater than zero".to_string())
    );
    assert_eq!(
        graph_query_depth(&words(&["--depth", "-1"]), "--depth", 2, 5),
        Err("invalid --depth value: -1".to_string())
    );
}

#[test]
fn provider_arguments_are_completed() {
    let out = provider_args_for_case(&words(&["--model", "m"]), "case:1", "participant:p");
    assert_eq!(out, words(&["--model", "m", "--case", "case:1", "--subject", "participant:p"]));
    let kept = provider_args_for_case(&words(&["--case", "case:9"]), "case:1", "participant:p");
    assert_eq!(kept, words(&["--case", "case:9", "--subject", "participant:p"]));
}

#[test]
fn replace_and_remove_named_options() {
    let mut args = words(&["--model", "a", "--x"]);
    replace_named_arg(&mut args, "--model", "b");
    assert_eq!(args, words(&["--model", "b", "--x"]));
    replace_named_arg(&mut args, "--url", "u");
    assert_eq!(args, words(&["--model", "b", "--x", "--url", "u"]));
    assert_eq!(optional_arg(&args, "--url"), Some("u".to_string()));
    remove_named_arg(&mut args, "--model", true);
    assert_eq!(args, words(&["--x", "--url", "u"]));
    remove_named_arg(&mut args, "--x", false);
    assert_eq!(args, words(&["--url", "u"]));
    remove_named_arg(&mut args, "--absent", true);
    assert_eq!(args, words(&["--url", "u"]));
}

#[test]
fn replace_of_trailing_name_is_not_read_back() {
    let mut args = words(&["--model"]);
    replace_named_arg(&mut args, "--model", "b");
    assert_eq!(args, words(&["--model", "--model", "b"]));
    assert_eq!(optional_arg(&args, "--model"), Some("--model".to_string()));
}

#[test]
fn second_turn_plans() {
    let plain = second_turn_provider_args(&words(&["--model", "m"]), "case:1", "p").unwrap();
    assert!(plain.attach.is_none());
    assert_eq!(plain.args, words(&["--model", "m", "--case", "case:1", "--subject", "p"]));

    let args = words(&[
        "--base-url", "http://a", "--model", "m1", "--second-model", "m2", "--continuation-ref", "r",
        "--continuation-capable",
    ]);
    let plan = second_turn_provider_args(&args, "case:1", "p").unwrap();
    assert_eq!(
        plan.attach,
        Some(words(&[
            "--case", "case:1", "--subject", "p", "--base-url", "http://a", "--provider-id",
            "provider:openai-compatible", "--model", "m2",
        ]))
    );
    assert_eq!(
        plan.args,
        words(&[
            "--base-url", "http://a", "--model", "m2", "--second-model", "m2", "--case", "case:1",
            "--subject", "p", "--provider-id", "provider:openai-compatible",
        ])
    );
    let missing = second_turn_provider_args(&words(&["--second-model", "m2"]), "c", "p");
    assert_eq!(missing.err(), Some("second provider requires --second-base-url or --base-url".to_string()));
    let no_model = second_turn_provider_args(&words(&["--second-base-url", "u"]), "c", "p");
    assert_eq!(no_model.err(), Some("second provider requires --second-model or --model".to_string()));
}

#[test]
fn failpoint_option() {
    assert_eq!(failpoint(&words(&["--failpoint", "after-commit"])), Some("after-commit".to_string()));
    assert_eq!(failpoint(&words(&[])), None);
}

#[test]
fn integers_parse_as_std_does() {
    assert_eq!(parse_usize(&chars("123")), Ok(123));
    assert_eq!(parse_usize(&chars("+7")), Ok(7));
    assert_eq!(parse_usize(&chars("")), Err(IntErrorKind::Empty));
    assert_eq!(parse_usize(&chars("+")), Err(IntErrorKind::InvalidDigit));
    assert_eq!(parse_usize(&chars("-1")), Err(IntErrorKind::InvalidDigit));
    assert_eq!(parse_usize(&chars("99999999999999999999999")), Err(IntErrorKind::Overflow));
    assert_eq!(parse_unsigned(&chars("ff"), 16, 255), Ok(255));
    assert_eq!(parse_unsigned(&chars("100"), 16, 255), Err(IntErrorKind::Overflow));
    assert_eq!(parse_i32(&chars("-2147483648")), Some(i32::MIN));
    assert_eq!(parse_i32(&chars("2147483648")), None);
    assert_eq!(parse_i32(&chars("-")), None);
    assert_eq!(int_error_text(IntErrorKind::InvalidDigit), "invalid digit found in string");
    for n in [0u64, 7, 10, 12345, u64::MAX] {
        assert_eq!(decimal(n), n.to_string());
    }
}

#[test]
fn quoting_and_identifiers() {
    assert_eq!(shell_quote("plain"), "'plain'");
    assert_eq!(shell_quote("it's"), "'it'\\''s'");
    assert_eq!(shell_quote(""), "''");
    assert_eq!(canonical_id_component("case:a b/c.d-e_f"), "case:a_b_c.d-e_f");
    assert_eq!(safe_case_ref_for_filename("case:a b/c.d"), "case_a_b_c.d");
    let once = canonical_id_component("x y:é");
    assert_eq!(canonical_id_component(&once), once);
    let file = safe_case_ref_for_filename("x y:é");
    assert_eq!(safe_case_ref_for_filename(&file), file);
}
