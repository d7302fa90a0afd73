//! Command arguments: named options (`--name value`), flags, positionals and
//! the numeric options the commands share.
//!
//! A named option is read at its first occurrence only; later repetitions
//! are ignored except by [`repeated`].

use vstd::prelude::*;
use crate::numbers::{int_error_text, parse_i32, parse_i32_spec, parse_unsigned_spec, parse_usize, IntErrorKind, int_error_text_spec};
use crate::seqs::{
    first_item, is_first_item, lemma_first_item_facts, lemma_first_item_is, lemma_first_item_none,
    views,
};
use crate::text::{chars_of, join2, join3, owned, starts_with, str_eq};

verus! {

/// Position of the first argument equal to `name`, or -1.
pub open spec fn arg_position(args: Seq<Seq<char>>, name: Seq<char>) -> int {
    first_item(args, name)
}

/// Value of the named option: the argument after its first occurrence.
pub open spec fn arg_value(args: Seq<Seq<char>>, name: Seq<char>) -> Option<Seq<char>> {
    let i = arg_position(args, name);
    if 0 <= i && i + 1 < args.len() {
        Some(args[i + 1])
    } else {
        None
    }
}

/// Whether `name` stands among the arguments.
pub open spec fn has_arg(args: Seq<Seq<char>>, name: Seq<char>) -> bool {
    arg_position(args, name) >= 0
}

pub proof fn lemma_position_facts(args: Seq<Seq<char>>, name: Seq<char>)
    ensures
        arg_position(args, name) == -1 || (0 <= arg_position(args, name) < args.len()
            && args[arg_position(args, name)] == name && is_first_item(args, name, 0, arg_position(args, name))),
        arg_position(args, name) == -1 ==> forall|j: int| 0 <= j < args.len() ==> args[j] != name,
{
    lemma_first_item_facts(args, name, 0);
}

/// Position of the first argument equal to `name`.
pub fn position_of(args: &[String], name: &str) -> (r: Option<usize>)
    ensures
        match r {
            Some(i) => arg_position(views(args@), name@) == i as int && i < args.len(),
            None => arg_position(views(args@), name@) == -1,
        },
{
    let mut index: usize = 0;
    while index < args.len()
        invariant
            index <= args.len(),
            forall|j: int| 0 <= j < index ==> views(args@)[j] != name@,
        decreases args.len() - index,
    {
        if str_eq(args[index].as_str(), name) {
            proof {
                lemma_first_item_is(views(args@), name@, 0, index as int);
            }
            return Some(index);
        }
        index += 1;
    }
    proof {
        lemma_first_item_none(views(args@), name@, 0);
    }
    None
}

/// Whether the flag `name` was given.
pub fn has_flag(args: &[String], name: &str) -> (r: bool)
    ensures
        r == has_arg(views(args@), name@),
{
    position_of(args, name).is_some()
}

/// Value of the named option `name`, if it was given one.
pub fn optional_arg(args: &[String], name: &str) -> (r: Option<String>)
    ensures
        match r {
            Some(v) => arg_value(views(args@), name@) == Some(v@),
            None => arg_value(views(args@), name@) is None,
        },
{
    match position_of(args, name) {
        Some(index) => {
            if index + 1 < args.len() {
                Some(args[index + 1].clone())
            } else {
                None
            }
        },
        None => None,
    }
}

/// Value of the required named option `name`.
pub fn named_arg(args: &[String], name: &str) -> (r: Result<String, String>)
    ensures
        match r {
            Ok(v) => arg_value(views(args@), name@) == Some(v@),
            Err(e) => arg_value(views(args@), name@) is None && e@ == (if has_arg(
                views(args@),
                name@,
            ) {
                name@ + " requires a value"@
            } else {
                name@ + " is required"@
            }),
        },
{
    match position_of(args, name) {
        Some(index) => {
            if index + 1 < args.len() {
                Ok(args[index + 1].clone())
            } else {
                Err(join2(name, " requires a value"))
            }
        },
        None => Err(join2(name, " is required")),
    }
}

/// The journal path given with `--journal`.
pub fn journal_arg(args: &[String]) -> (r: Result<String, String>)
    ensures
        match r {
            Ok(v) => arg_value(views(args@), "--journal"@) == Some(v@),
            Err(e) => arg_value(views(args@), "--journal"@) is None && e@ == (if has_arg(
                views(args@),
                "--journal"@,
            ) {
                "--journal requires a path"@
            } else {
                "--journal <path> is required"@
            }),
        },
{
    match position_of(args, "--journal") {
        Some(index) => {
            if index + 1 < args.len() {
                Ok(args[index + 1].clone())
            } else {
                Err(owned("--journal requires a path"))
            }
        },
        None => Err(owned("--journal <path> is required")),
    }
}

/// The first argument, when it is not an option.
pub fn positional(args: &[String], label: &str) -> (r: Result<String, String>)
    ensures
        match r {
            Ok(v) => args.len() > 0 && v@ == args@[0]@ && !(2 <= args@[0]@.len()
                && args@[0]@.subrange(0, 2) == "--"@),
            Err(e) => (args.len() == 0 || (2 <= args@[0]@.len() && args@[0]@.subrange(0, 2)
                == "--"@)) && e@ == label@ + " is required"@,
        },
{
    if args.len() > 0 && !starts_with(args[0].as_str(), "--") {
        Ok(args[0].clone())
    } else {
        proof {
            if args.len() > 0 {
                assert("--"@.len() == 2) by {
                    reveal_strlit("--");
                }
            }
        }
        Err(join2(label, " is required"))
    }
}

/// Values of every occurrence of `flag` from position `i` on, or `None`
/// when one occurrence has no value.
pub open spec fn repeated_from(args: Seq<Seq<char>>, flag: Seq<char>, i: int) -> Option<
    Seq<Seq<char>>,
>
    decreases args.len() - i,
{
    if i < 0 || i >= args.len() {
        Some(Seq::empty())
    } else if args[i] == flag {
        if i + 1 < args.len() {
            match repeated_from(args, flag, i + 2) {
                Some(rest) => Some(seq![args[i + 1]] + rest),
                None => None,
            }
        } else {
            None
        }
    } else {
        repeated_from(args, flag, i + 1)
    }
}

/// Values of every occurrence of the option `flag`, in order.
pub fn repeated(args: &[String], flag: &str) -> (r: Result<Vec<String>, String>)
    ensures
        match r {
            Ok(values) => repeated_from(views(args@), flag@, 0) == Some(views(values@)),
            Err(e) => repeated_from(views(args@), flag@, 0) is None && e@ == "missing value for "@
                + flag@,
        },
{
    let ghost a = views(args@);
    let mut values: Vec<String> = Vec::new();
    let mut index: usize = 0;
    while index < args.len()
        invariant
            a == views(args@),
            index <= args.len() + 1,
            repeated_from(a, flag@, 0) == (match repeated_from(a, flag@, index as int) {
                Some(rest) => Some(views(values@) + rest),
                None => None::<Seq<Seq<char>>>,
            }),
        decreases args.len() + 1 - index,
    {
        if str_eq(args[index].as_str(), flag) {
            if index + 1 < args.len() {
                let ghost before = views(values@);
                values.push(args[index + 1].clone());
                proof {
                    assert(views(values@) =~= before + seq![a[index + 1]]);
                    match repeated_from(a, flag@, index + 2) {
                        Some(rest) => {
                            assert(before + (seq![a[index + 1]] + rest) =~= views(values@)
                                + rest);
                        },
                        None => {},
                    }
                }
                index += 2;
            } else {
                return Err(join2("missing value for ", flag));
            }
        } else {
            index += 1;
        }
    }
    proof {
        assert(views(values@) + Seq::<Seq<char>>::empty() =~= views(values@));
    }
    Ok(values)
}

/// Refuse `--journal` for commands that take journal state from elsewhere.
pub fn reject_journal_flag(args: &[String], command: &str) -> (r: Result<(), String>)
    ensures
        match r {
            Ok(()) => !has_arg(views(args@), "--journal"@),
            Err(e) => has_arg(views(args@), "--journal"@) && e@ == command@
                + " does not accept --journal; materialize the case first and pass journal state through YAI_JOURNAL"@,
        },
{
    if has_flag(args, "--journal") {
        return Err(
            join2(
                command,
                " does not accept --journal; materialize the case first and pass journal state through YAI_JOURNAL",
            ),
        );
    }
    Ok(())
}

/// The process id given with `--pid`.
pub fn parse_pid_arg(args: &[String]) -> (r: Result<i32, String>)
    ensures
        match r {
            Ok(pid) => match arg_value(views(args@), "--pid"@) {
                Some(v) => parse_i32_spec(v) == Some(pid as int),
                None => false,
            },
            Err(e) => match arg_value(views(args@), "--pid"@) {
                Some(v) => parse_i32_spec(v) is None && e@ == "--pid must be an integer"@,
                None => e@ == "--pid is required"@,
            },
        },
{
    let value = match optional_arg(args, "--pid") {
        Some(v) => v,
        None => {
            return Err(owned("--pid is required"));
        },
    };
    match parse_i32(&chars_of(value.as_str())) {
        Some(pid) => Ok(pid),
        None => Err(owned("--pid must be an integer")),
    }
}

/// Text of the `--limit` option, `20` when absent.
pub open spec fn limit_text(args: Seq<Seq<char>>) -> Seq<char> {
    match arg_value(args, "--limit"@) {
        Some(v) => v,
        None => "20"@,
    }
}

/// The `--limit` option: a positive count, 20 by default.
pub fn parse_limit(args: &[String]) -> (r: Result<usize, String>)
    ensures
        match r {
            Ok(n) => n > 0 && parse_unsigned_spec(limit_text(views(args@)), 10, usize::MAX as int)
                == Ok::<int, IntErrorKind>(n as int),
            Err(e) => match parse_unsigned_spec(
                limit_text(views(args@)),
                10,
                usize::MAX as int,
            ) {
                Ok(v) => v == 0 && e@ == "--limit must be greater than zero"@,
                Err(_) => e@ == "invalid --limit value: "@ + limit_text(views(args@)),
            },
        },
{
    let limit = match optional_arg(args, "--limit") {
        Some(v) => v,
        None => owned("20"),
    };
    let parsed = match parse_usize(&chars_of(limit.as_str())) {
        Ok(v) => v,
        Err(_) => {
            return Err(join2("invalid --limit value: ", limit.as_str()));
        },
    };
    if parsed == 0 {
        return Err(owned("--limit must be greater than zero"));
    }
    Ok(parsed)
}

/// The required `--dimension` option as a count.
pub fn parse_dimension(args: &[String]) -> (r: Result<usize, String>)
    ensures
        match r {
            Ok(n) => match arg_value(views(args@), "--dimension"@) {
                Some(v) => parse_unsigned_spec(v, 10, usize::MAX as int) == Ok::<int, IntErrorKind>(
                    n as int,
                ),
                None => false,
            },
            Err(e) => match arg_value(views(args@), "--dimension"@) {
                Some(v) => parse_unsigned_spec(v, 10, usize::MAX as int) is Err && e@
                    == "memory_profile_vector_dimension_invalid"@,
                None => e@ == (if has_arg(views(args@), "--dimension"@) {
                    "--dimension"@ + " requires a value"@
                } else {
                    "--dimension"@ + " is required"@
                }),
            },
        },
{
    let value = named_arg(args, "--dimension")?;
    match parse_usize(&chars_of(value.as_str())) {
        Ok(v) => Ok(v),
        Err(_) => Err(owned("memory_profile_vector_dimension_invalid")),
    }
}

/// The `--max-bytes` option, or `default` when absent.
pub fn parse_max_bytes(args: &[String], default: usize) -> (r: Result<usize, String>)
    ensures
        match arg_value(views(args@), "--max-bytes"@) {
            None => r == Ok::<usize, String>(default),
            Some(v) => match parse_unsigned_spec(v, 10, usize::MAX as int) {
                Ok(n) => r == Ok::<usize, String>(n as usize),
                Err(k) => r is Err && r->Err_0@ == "invalid --max-bytes: "@ + int_error_text_spec(
                    k,
                ),
            },
        },
{
    match optional_arg(args, "--max-bytes") {
        None => Ok(default),
        Some(value) => match parse_usize(&chars_of(value.as_str())) {
            Ok(n) => Ok(n),
            Err(k) => Err(join2("invalid --max-bytes: ", int_error_text(k))),
        },
    }
}

/// The `--limit` of a graph query, held to 200; the flag tells whether it
/// was lowered.
pub fn graph_query_limit(args: &[String]) -> (r: Result<(usize, bool), String>)
    ensures
        match r {
            Ok((n, clamped)) => parse_unsigned_spec(
                limit_text(views(args@)),
                10,
                usize::MAX as int,
            ) is Ok && ({
                let v = parse_unsigned_spec(limit_text(views(args@)), 10, usize::MAX as int)->Ok_0;
                &&& v > 0
                &&& n == (if v < 200 {
                    v
                } else {
                    200
                })
                &&& clamped == (v > 200)
            }),
            Err(e) => match parse_unsigned_spec(
                limit_text(views(args@)),
                10,
                usize::MAX as int,
            ) {
                Ok(v) => v == 0 && e@ == "--limit must be greater than zero"@,
                Err(_) => e@ == "invalid --limit value: "@ + limit_text(views(args@)),
            },
        },
{
    let limit = parse_limit(args)?;
    let n = if limit < 200 {
        limit
    } else {
        200
    };
    Ok((n, limit > 200))
}

/// A depth option `name` of a graph query: positive, `default` when absent,
/// held to `max`; the flag tells whether it was lowered.
pub fn graph_query_depth(args: &[String], name: &str, default: usize, max: usize) -> (r: Result<
    (usize, bool),
    String,
>)
    ensures
        ({
            let parsed: Result<int, IntErrorKind> = match arg_value(views(args@), name@) {
                Some(v) => parse_unsigned_spec(v, 10, usize::MAX as int),
                None => Ok(default as int),
            };
            match r {
                Ok((n, clamped)) => parsed is Ok && parsed->Ok_0 > 0 && n == (if parsed->Ok_0
                    < max {
                    parsed->Ok_0
                } else {
                    max as int
                }) && clamped == (parsed->Ok_0 > max),
                Err(e) => match parsed {
                    Ok(v) => v == 0 && e@ == name@ + " must be greater than zero"@,
                    Err(_) => e@ == "invalid "@ + name@ + " value: "@ + arg_value(
                        views(args@),
                        name@,
                    )->Some_0,
                },
            }
        }),
{
    let parsed = match optional_arg(args, name) {
        None => default,
        Some(raw) => match parse_usize(&chars_of(raw.as_str())) {
            Ok(v) => v,
            Err(_) => {
                return Err(join3(&join2("invalid ", name), " value: ", raw.as_str()));
            },
        },
    };
    if parsed == 0 {
        return Err(join2(name, " must be greater than zero"));
    }
    let n = if parsed < max {
        parsed
    } else {
        max
    };
    Ok((n, parsed > max))
}

/// The arguments with `name value` appended when the option has no value.
pub open spec fn with_default_arg(args: Seq<Seq<char>>, name: Seq<char>, value: Seq<char>) -> Seq<
    Seq<char>,
> {
    if arg_value(args, name) is None {
        args + seq![name, value]
    } else {
        args
    }
}

fn push_default_arg(args: &mut Vec<String>, name: &str, value: &str)
    ensures
        views(final(args)@) == with_default_arg(views(old(args)@), name@, value@),
{
    if optional_arg(args.as_slice(), name).is_none() {
        let ghost before = views(args@);
        args.push(owned(name));
        args.push(owned(value));
        assert(views(args@) =~= before + seq![name@, value@]);
    }
}

/// The arguments of a provider call for this Case and Participant: `--case`
/// and `--subject` are added where the caller gave no value for them.
pub fn provider_args_for_case(args: &[String], case_id: &str, participant_id: &str) -> (out: Vec<
    String,
>)
    ensures
        views(out@) == with_default_arg(
            with_default_arg(views(args@), "--case"@, case_id@),
            "--subject"@,
            participant_id@,
        ),
{
    let mut result: Vec<String> = Vec::new();
    let mut i: usize = 0;
    while i < args.len()
        invariant
            i <= args.len(),
            result@ == args@.subrange(0, i as int),
        decreases args.len() - i,
    {
        result.push(args[i].clone());
        i += 1;
        assert(result@ =~= args@.subrange(0, i as int));
    }
    assert(result@ =~= args@);
    push_default_arg(&mut result, "--case", case_id);
    push_default_arg(&mut result, "--subject", participant_id);
    result
}

/// The arguments with the value of `name` set to `value`: the value after the
/// first occurrence is replaced, or `name value` is appended.
pub open spec fn replace_arg_spec(args: Seq<Seq<char>>, name: Seq<char>, value: Seq<char>) -> Seq<
    Seq<char>,
> {
    let i = arg_position(args, name);
    if 0 <= i && i + 1 < args.len() {
        args.update(i + 1, value)
    } else {
        args + seq![name, value]
    }
}

/// Set the value of the option `name`.
pub fn replace_named_arg(args: &mut Vec<String>, name: &str, value: &str)
    ensures
        views(final(args)@) == replace_arg_spec(views(old(args)@), name@, value@),
{
    let ghost before = views(args@);
    match position_of(args.as_slice(), name) {
        Some(index) => {
            if index + 1 < args.len() {
                args.set(index + 1, owned(value));
                assert(views(args@) =~= before.update(index + 1, value@));
                return ;
            }
        },
        None => {},
    }
    args.push(owned(name));
    args.push(owned(value));
    assert(views(args@) =~= before + seq![name@, value@]);
}

/// The arguments without the first occurrence of `name`, and without its
/// value too when `takes_value`.
pub open spec fn remove_arg_spec(args: Seq<Seq<char>>, name: Seq<char>, takes_value: bool) -> Seq<
    Seq<char>,
> {
    let i = arg_position(args, name);
    if i < 0 {
        args
    } else if takes_value && i + 1 < args.len() {
        args.subrange(0, i) + args.subrange(i + 2, args.len() as int)
    } else {
        args.remove(i)
    }
}

/// Remove the option `name` (with its value when `takes_value`).
pub fn remove_named_arg(args: &mut Vec<String>, name: &str, takes_value: bool)
    ensures
        views(final(args)@) == remove_arg_spec(views(old(args)@), name@, takes_value),
{
    let ghost before = views(args@);
    match position_of(args.as_slice(), name) {
        Some(index) => {
            args.remove(index);
            if takes_value && index < args.len() {
                args.remove(index);
                assert(views(args@) =~= before.subrange(0, index as int) + before.subrange(
                    index + 2,
                    before.len() as int,
                ));
            } else {
                assert(views(args@) =~= before.remove(index as int));
            }
        },
        None => {},
    }
}

/// What a second provider turn needs: the attachment arguments to apply
/// first (when another provider was named) and the arguments of the call.
pub struct SecondTurnPlan {
    pub attach: Option<Vec<String>>,
    pub args: Vec<String>,
}

/// Argument words of the attachment of a second provider.
pub open spec fn second_attach_spec(
    case_id: Seq<char>,
    participant_id: Seq<char>,
    base_url: Seq<char>,
    provider_id: Seq<char>,
    model: Seq<char>,
    api_key_env: Option<Seq<char>>,
) -> Seq<Seq<char>> {
    let base = seq![
        "--case"@,
        case_id,
        "--subject"@,
        participant_id,
        "--base-url"@,
        base_url,
        "--provider-id"@,
        provider_id,
        "--model"@,
        model,
    ];
    match api_key_env {
        Some(k) => base + seq!["--api-key-env"@, k],
        None => base,
    }
}

/// Arguments of the second provider call.
pub open spec fn second_args_spec(
    base: Seq<Seq<char>>,
    base_url: Seq<char>,
    provider_id: Seq<char>,
    model: Seq<char>,
) -> Seq<Seq<char>> {
    remove_arg_spec(
        remove_arg_spec(
            remove_arg_spec(
                replace_arg_spec(
                    replace_arg_spec(replace_arg_spec(base, "--base-url"@, base_url), "--provider-id"@, provider_id),
                    "--model"@,
                    model,
                ),
                "--continuation-ref"@,
                true,
            ),
            "--provider-runtime-id"@,
            true,
        ),
        "--continuation-capable"@,
        false,
    )
}

/// `first` if present, else `second`.
pub open spec fn or_else_spec(first: Option<Seq<char>>, second: Option<Seq<char>>) -> Option<Seq<char>> {
    match first {
        Some(v) => Some(v),
        None => second,
    }
}

fn or_else_arg(first: Option<String>, args: &[String], name: &str) -> (r: Option<String>)
    ensures
        match r {
            Some(v) => or_else_spec(
                match first {
                    Some(f) => Some(f@),
                    None => None,
                },
                arg_value(views(args@), name@),
            ) == Some(v@),
            None => first is None && arg_value(views(args@), name@) is None,
        },
{
    match first {
        Some(v) => Some(v),
        None => optional_arg(args, name),
    }
}

/// Plan the second provider turn of a controlled effect: the arguments of
/// the first turn, switched to the second provider when one of
/// `--second-base-url`, `--second-provider-id`, `--second-model` is given.
pub fn second_turn_provider_args(args: &[String], case_id: &str, participant_id: &str) -> (r:
    Result<SecondTurnPlan, String>)
    ensures
        ({
            let a = views(args@);
            let base = with_default_arg(
                with_default_arg(a, "--case"@, case_id@),
                "--subject"@,
                participant_id@,
            );
            let sb = arg_value(a, "--second-base-url"@);
            let sp = arg_value(a, "--second-provider-id"@);
            let sm = arg_value(a, "--second-model"@);
            let url = or_else_spec(sb, arg_value(a, "--base-url"@));
            let pid = match or_else_spec(sp, arg_value(a, "--provider-id"@)) {
                Some(p) => p,
                None => "provider:openai-compatible"@,
            };
            let model = or_else_spec(sm, arg_value(a, "--model"@));
            if sb is None && sp is None && sm is None {
                r is Ok && r->Ok_0.attach is None && views(r->Ok_0.args@) == base
            } else if url is None {
                r is Err && r->Err_0@ == "second provider requires --second-base-url or --base-url"@
            } else if model is None {
                r is Err && r->Err_0@ == "second provider requires --second-model or --model"@
            } else {
                &&& r is Ok
                &&& r->Ok_0.attach is Some
                &&& views(r->Ok_0.attach->Some_0@) == second_attach_spec(
                    case_id@,
                    participant_id@,
                    url->Some_0,
                    pid,
                    model->Some_0,
                    arg_value(a, "--api-key-env"@),
                )
                &&& views(r->Ok_0.args@) == second_args_spec(base, url->Some_0, pid, model->Some_0)
            }
        }),
{
    let mut result = provider_args_for_case(args, case_id, participant_id);
    let second_base_url = optional_arg(args, "--second-base-url");
    let second_provider_id = optional_arg(args, "--second-provider-id");
    let second_model = optional_arg(args, "--second-model");
    if second_base_url.is_none() && second_provider_id.is_none() && second_model.is_none() {
        return Ok(SecondTurnPlan { attach: None, args: result });
    }
    let base_url = match or_else_arg(second_base_url, args, "--base-url") {
        Some(v) => v,
        None => {
            return Err(owned("second provider requires --second-base-url or --base-url"));
        },
    };
    let provider_id = match or_else_arg(second_provider_id, args, "--provider-id") {
        Some(v) => v,
        None => owned("provider:openai-compatible"),
    };
    let model = match or_else_arg(second_model, args, "--model") {
        Some(v) => v,
        None => {
            return Err(owned("second provider requires --second-model or --model"));
        },
    };
    let mut attach: Vec<String> = Vec::new();
    attach.push(owned("--case"));
    attach.push(owned(case_id));
    attach.push(owned("--subject"));
    attach.push(owned(participant_id));
    attach.push(owned("--base-url"));
    attach.push(base_url.clone());
    attach.push(owned("--provider-id"));
    attach.push(provider_id.clone());
    attach.push(owned("--model"));
    attach.push(model.clone());
    let ghost first_ten = views(attach@);
    match optional_arg(args, "--api-key-env") {
        Some(api_key_env) => {
            attach.push(owned("--api-key-env"));
            attach.push(api_key_env);
        },
        None => {},
    }
    proof {
        let base = seq![
            "--case"@,
            case_id@,
            "--subject"@,
            participant_id@,
            "--base-url"@,
            base_url@,
            "--provider-id"@,
            provider_id@,
            "--model"@,
            model@,
        ];
        assert(first_ten =~= base);
        match arg_value(views(args@), "--api-key-env"@) {
            Some(k) => {
                assert(views(attach@) =~= base + seq!["--api-key-env"@, k]);
            },
            None => {
                assert(views(attach@) =~= base);
            },
        }
    }
    replace_named_arg(&mut result, "--base-url", base_url.as_str());
    replace_named_arg(&mut result, "--provider-id", provider_id.as_str());
    replace_named_arg(&mut result, "--model", model.as_str());
    remove_named_arg(&mut result, "--continuation-ref", true);
    remove_named_arg(&mut result, "--provider-runtime-id", true);
    remove_named_arg(&mut result, "--continuation-capable", false);
    Ok(SecondTurnPlan { attach: Some(attach), args: result })
}

/// The crash-injection point named with `--failpoint`, if any.
pub fn failpoint(args: &[String]) -> (r: Option<String>)
    ensures
        match r {
            Some(v) => arg_value(views(args@), "--failpoint"@) == Some(v@),
            None => arg_value(views(args@), "--failpoint"@) is None,
        },
{
    optional_arg(args, "--failpoint")
}

/// Setting an option and reading it back gives the value set, unless the
/// option's first occurrence is the last argument (then the appended name is
/// read as its value).
pub proof fn law_replace_then_read(args: Seq<Seq<char>>, name: Seq<char>, value: Seq<char>)
    requires
        arg_position(args, name) != args.len() - 1,
    ensures
        arg_value(replace_arg_spec(args, name, value), name) == Some(value),
{
    lemma_position_facts(args, name);
    let i = arg_position(args, name);
    let out = replace_arg_spec(args, name, value);
    if 0 <= i && i + 1 < args.len() {
        assert(is_first_item(out, name, 0, i));
        lemma_first_item_is(out, name, 0, i);
    } else {
        assert(i == -1);
        assert(is_first_item(out, name, 0, args.len() as int));
        lemma_first_item_is(out, name, 0, args.len() as int);
    }
}

/// After filling in the Case defaults, both `--case` and `--subject` have a
/// value and the caller's arguments are kept as they were, in front.
pub proof fn law_provider_args_complete(args: Seq<Seq<char>>, case_id: Seq<char>, participant_id: Seq<char>)
    ensures
        ({
            let out = with_default_arg(with_default_arg(args, "--case"@, case_id), "--subject"@, participant_id);
            &&& arg_value(out, "--case"@) is Some
            &&& arg_value(out, "--subject"@) is Some
            &&& out.subrange(0, args.len() as int) == args
        }),
{
    let once = with_default_arg(args, "--case"@, case_id);
    lemma_value_after_default(args, "--case"@, case_id);
    lemma_default_keeps_value(once, "--subject"@, participant_id, "--case"@);
    lemma_value_after_default(once, "--subject"@, participant_id);
    assert(once.subrange(0, args.len() as int) =~= args);
    let out = with_default_arg(once, "--subject"@, participant_id);
    assert(out.subrange(0, once.len() as int) =~= once);
    assert(out.subrange(0, args.len() as int) =~= args);
}

proof fn lemma_value_after_default(args: Seq<Seq<char>>, name: Seq<char>, value: Seq<char>)
    ensures
        arg_value(with_default_arg(args, name, value), name) is Some,
{
    lemma_position_facts(args, name);
    let out = with_default_arg(args, name, value);
    if arg_value(args, name) is None {
        let i = arg_position(args, name);
        if i == -1 {
            assert(is_first_item(out, name, 0, args.len() as int));
            lemma_first_item_is(out, name, 0, args.len() as int);
        } else {
            assert(i == args.len() - 1);
            assert(is_first_item(out, name, 0, i));
            lemma_first_item_is(out, name, 0, i);
        }
    }
}

proof fn lemma_default_keeps_value(args: Seq<Seq<char>>, name: Seq<char>, value: Seq<char>, other: Seq<char>)
    requires
        arg_value(args, other) is Some,
    ensures
        arg_value(with_default_arg(args, name, value), other) is Some,
{
    lemma_position_facts(args, other);
    let out = with_default_arg(args, name, value);
    let i = arg_position(args, other);
    assert(is_first_item(out, other, 0, i));
    lemma_first_item_is(out, other, 0, i);
}

} // verus!
