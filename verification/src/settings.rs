//! The settings of a prompt session with a provider, read from the command
//! line and the environment, and the checks that the provider is admitted to
//! the Case and attached to it before any prompt is sent.

use vstd::prelude::*;
use crate::args::{arg_value, has_arg, named_arg, optional_arg, or_else_spec};
use crate::numbers::{parse_unsigned, parse_unsigned_spec};
use crate::observe::{env_assignment_spec, parse_env_assignment};
use crate::seqs::views;
use crate::text::{chars_of, owned, push_str, str_eq, string_of};
use crate::threads::{first_foreign, lemma_no_foreign, validate_loaded_journal_case_binding, JournalRecord};

verus! {

/// The environment as the host sees it: names and values, the process
/// environment first, then the YAI environment file.
pub open spec fn env_views(env: Seq<(String, String)>) -> Seq<(Seq<char>, Seq<char>)> {
    env.map_values(|e: (String, String)| (e.0@, e.1@))
}

/// The value of the first entry named `name`.
pub open spec fn env_lookup(env: Seq<(Seq<char>, Seq<char>)>, name: Seq<char>) -> Option<Seq<char>>
    decreases env.len(),
{
    if env.len() == 0 {
        None
    } else if env[0].0 == name {
        Some(env[0].1)
    } else {
        env_lookup(env.drop_first(), name)
    }
}

/// The value of the variable `name`.
pub fn env_var(env: &Vec<(String, String)>, name: &str) -> (r: Option<String>)
    ensures
        match r {
            Some(v) => env_lookup(env_views(env@), name@) == Some(v@),
            None => env_lookup(env_views(env@), name@) is None,
        },
{
    let ghost ev = env_views(env@);
    let mut i: usize = 0;
    assert(ev.subrange(0, ev.len() as int) =~= ev);
    while i < env.len()
        invariant
            i <= env.len(),
            ev == env_views(env@),
            env_lookup(ev, name@) == env_lookup(ev.subrange(i as int, ev.len() as int), name@),
        decreases env.len() - i,
    {
        let ghost rest = ev.subrange(i as int, ev.len() as int);
        assert(rest[0] == (env@[i as int].0@, env@[i as int].1@));
        if str_eq(env[i].0.as_str(), name) {
            return Some(env[i].1.clone());
        }
        assert(rest.drop_first() =~= ev.subrange(i + 1, ev.len() as int));
        i += 1;
    }
    None
}

/// The settings of a prompt session.
pub struct ProviderSettings {
    pub case_ref: String,
    pub subject_ref: String,
    pub base_url: String,
    pub model: String,
    pub provider_id: String,
    pub api_key: Option<String>,
    pub language_mode: String,
    pub continuation_supported: bool,
    /// Provider id, runtime id, opaque reference.
    pub continuation: Option<(String, String, String)>,
    /// Selection id, target id, logical turn id, attempt number.
    pub governance: Option<(String, String, String, u32)>,
}

pub open spec fn ov(o: Option<String>) -> Option<Seq<char>> {
    match o {
        Some(s) => Some(s@),
        None => None,
    }
}

/// The view of the settings.
pub open spec fn settings_view(s: ProviderSettings) -> (
    Seq<char>,
    Seq<char>,
    Seq<char>,
    Seq<char>,
    Seq<char>,
    Option<Seq<char>>,
    Seq<char>,
    bool,
    Option<(Seq<char>, Seq<char>, Seq<char>)>,
    Option<(Seq<char>, Seq<char>, Seq<char>, int)>,
) {
    (
        s.case_ref@,
        s.subject_ref@,
        s.base_url@,
        s.model@,
        s.provider_id@,
        ov(s.api_key),
        s.language_mode@,
        s.continuation_supported,
        match s.continuation {
            Some(c) => Some((c.0@, c.1@, c.2@)),
            None => None,
        },
        match s.governance {
            Some(g) => Some((g.0@, g.1@, g.2@, g.3 as int)),
            None => None,
        },
    )
}

/// A value given on the command line, else by the first of two variables.
pub open spec fn from_arg_or_env(a: Seq<Seq<char>>, e: Seq<(Seq<char>, Seq<char>)>, flag: Seq<char>, v1: Seq<char>, v2: Option<Seq<char>>) -> Option<Seq<char>> {
    or_else_spec(
        arg_value(a, flag),
        or_else_spec(
            env_lookup(e, v1),
            match v2 {
                Some(n) => env_lookup(e, n),
                None => None,
            },
        ),
    )
}

/// The value, or `d` where there is none.
pub open spec fn or_default(o: Option<Seq<char>>, d: Seq<char>) -> Seq<char> {
    match o {
        Some(v) => v,
        None => d,
    }
}

/// The governance of a governed invocation: with `--selection-id`, the
/// target, the logical turn and the attempt number must be given too.
pub open spec fn governance_spec(a: Seq<Seq<char>>) -> Result<Option<(Seq<char>, Seq<char>, Seq<char>, int)>, Seq<char>> {
    match arg_value(a, "--selection-id"@) {
        None => Ok(None),
        Some(sel) => match arg_value(a, "--target-id"@) {
            None => Err(if has_arg(a, "--target-id"@) { "--target-id"@ + " requires a value"@ } else { "--target-id"@ + " is required"@ }),
            Some(target) => match arg_value(a, "--logical-turn-id"@) {
                None => Err(if has_arg(a, "--logical-turn-id"@) { "--logical-turn-id"@ + " requires a value"@ } else { "--logical-turn-id"@ + " is required"@ }),
                Some(turn) => match arg_value(a, "--attempt-number"@) {
                    None => Err(if has_arg(a, "--attempt-number"@) { "--attempt-number"@ + " requires a value"@ } else { "--attempt-number"@ + " is required"@ }),
                    Some(n) => match parse_unsigned_spec(n, 10, 0xffff_ffff) {
                        Ok(v) => Ok(Some((sel, target, turn, v))),
                        Err(_) => Err("provider_attempt_number_invalid"@),
                    },
                },
            },
        },
    }
}

/// The settings of a prompt session from the arguments and the
/// environment, or the first refusal: the Case, the provider's base URL and
/// its model must be known, and the language mode must be `auto` or `none`.
pub open spec fn settings_spec(a: Seq<Seq<char>>, e: Seq<(Seq<char>, Seq<char>)>) -> Result<
    (
        Seq<char>,
        Seq<char>,
        Seq<char>,
        Seq<char>,
        Seq<char>,
        Option<Seq<char>>,
        Seq<char>,
        bool,
        Option<(Seq<char>, Seq<char>, Seq<char>)>,
        Option<(Seq<char>, Seq<char>, Seq<char>, int)>,
    ),
    Seq<char>,
> {
    let case_ref = from_arg_or_env(a, e, "--case"@, "YAI_CASE_REF"@, None);
    let subject = or_default(from_arg_or_env(a, e, "--subject"@, "YAI_PROVIDER_SUBJECT_REF"@, Some("YAI_SUBJECT_REF"@)), "subject:llm-provider"@);
    let base_url = from_arg_or_env(a, e, "--base-url"@, "YAI_PROVIDER_BASE_URL"@, Some("YAI_LLM_BASE_URL"@));
    let model = from_arg_or_env(a, e, "--model"@, "YAI_PROVIDER_MODEL"@, Some("YAI_LLM_MODEL"@));
    let provider_id = or_default(from_arg_or_env(a, e, "--provider-id"@, "YAI_PROVIDER_ID"@, None), "provider:openai-compatible"@);
    let key_env = or_default(from_arg_or_env(a, e, "--api-key-env"@, "YAI_PROVIDER_API_KEY_ENV"@, None), "OPENCODE_LLM_API_KEY"@);
    let api_key = or_else_spec(env_lookup(e, "YAI_PROVIDER_API_KEY"@), or_else_spec(env_lookup(e, key_env), env_lookup(e, "OPENCODE_LLM_API_KEY"@)));
    let language = or_default(from_arg_or_env(a, e, "--language-mode"@, "YAI_PROVIDER_LANGUAGE_MODE"@, None), "none"@);
    let supported = a.contains("--continuation-capable"@) || env_lookup(e, "YAI_PROVIDER_CONTINUATION_CAPABLE"@) == Some("1"@);
    let reference = from_arg_or_env(a, e, "--continuation-ref"@, "YAI_PROVIDER_CONTINUATION_REF"@, None);
    let runtime = or_default(from_arg_or_env(a, e, "--provider-runtime-id"@, "YAI_PROVIDER_RUNTIME_ID"@, None), "runtime:unspecified"@);
    match case_ref {
        None => Err("YAI_CASE_REF is required; run `yai case enter` first"@),
        Some(c) => match base_url {
            None => Err("provider base URL missing; run `yai case attach-provider` or export YAI_PROVIDER_BASE_URL"@),
            Some(b) => match model {
                None => Err("provider model missing; run `yai case attach-provider` or export YAI_PROVIDER_MODEL"@),
                Some(m) => if language != "none"@ && language != "auto"@ {
                    Err("--language-mode must be auto or none"@)
                } else {
                    match governance_spec(a) {
                        Err(x) => Err(x),
                        Ok(g) => Ok((c, subject, b, m, provider_id, api_key, language, supported,
                            if g is Some { None } else {
                                match reference {
                                    Some(r) => Some((provider_id, runtime, r)),
                                    None => None,
                                }
                            },
                            g)),
                    }
                },
            },
        },
    }
}

fn arg_or_env(args: &[String], env: &Vec<(String, String)>, flag: &str, v1: &str, v2: Option<&str>) -> (r: Option<String>)
    ensures
        ov(r) == from_arg_or_env(views(args@), env_views(env@), flag@, v1@, match v2 {
            Some(n) => Some(n@),
            None => None,
        }),
{
    match optional_arg(args, flag) {
        Some(v) => Some(v),
        None => match env_var(env, v1) {
            Some(v) => Some(v),
            None => match v2 {
                Some(n) => env_var(env, n),
                None => None,
            },
        },
    }
}

fn or_default_exec(o: Option<String>, d: &str) -> (r: String)
    ensures
        r@ == or_default(ov(o), d@),
{
    match o {
        Some(v) => v,
        None => owned(d),
    }
}

fn has_exact_arg(args: &[String], name: &str) -> (r: bool)
    ensures
        r == views(args@).contains(name@),
{
    let mut i: usize = 0;
    while i < args.len()
        invariant
            i <= args.len(),
            forall|k: int| 0 <= k < i ==> (#[trigger] args@[k])@ != name@,
        decreases args.len() - i,
    {
        if str_eq(args[i].as_str(), name) {
            assert(views(args@)[i as int] == name@);
            return true;
        }
        i += 1;
    }
    assert(!views(args@).contains(name@)) by {
        if views(args@).contains(name@) {
            let k = choose|k: int| 0 <= k < views(args@).len() && views(args@)[k] == name@;
            assert(args@[k]@ == name@);
        }
    }
    false
}

fn governance_exec(args: &[String]) -> (r: Result<Option<(String, String, String, u32)>, String>)
    ensures
        match r {
            Ok(g) => governance_spec(views(args@)) == Ok::<Option<(Seq<char>, Seq<char>, Seq<char>, int)>, Seq<char>>(match g {
                Some(x) => Some((x.0@, x.1@, x.2@, x.3 as int)),
                None => None,
            }),
            Err(e) => governance_spec(views(args@)) == Err::<Option<(Seq<char>, Seq<char>, Seq<char>, int)>, Seq<char>>(e@),
        },
{
    let sel = match optional_arg(args, "--selection-id") {
        None => return Ok(None),
        Some(s) => s,
    };
    let target = named_arg(args, "--target-id")?;
    let turn = named_arg(args, "--logical-turn-id")?;
    let n = named_arg(args, "--attempt-number")?;
    match parse_unsigned(&chars_of(n.as_str()), 10, 0xffff_ffffu64) {
        Ok(v) => Ok(Some((sel, target, turn, v as u32))),
        Err(_) => Err(owned("provider_attempt_number_invalid")),
    }
}

/// The settings of a prompt session; `env` is the environment (process
/// variables first, then the environment file).
pub fn provider_settings(args: &[String], env: &Vec<(String, String)>) -> (r: Result<ProviderSettings, String>)
    ensures
        match r {
            Ok(s) => settings_spec(views(args@), env_views(env@)) matches Ok(v) && v == settings_view(s),
            Err(e) => settings_spec(views(args@), env_views(env@)) matches Err(m) && m == e@,
        },
{
    let case_ref = arg_or_env(args, env, "--case", "YAI_CASE_REF", None);
    let subject = or_default_exec(arg_or_env(args, env, "--subject", "YAI_PROVIDER_SUBJECT_REF", Some("YAI_SUBJECT_REF")), "subject:llm-provider");
    let base_url = arg_or_env(args, env, "--base-url", "YAI_PROVIDER_BASE_URL", Some("YAI_LLM_BASE_URL"));
    let model = arg_or_env(args, env, "--model", "YAI_PROVIDER_MODEL", Some("YAI_LLM_MODEL"));
    let provider_id = or_default_exec(arg_or_env(args, env, "--provider-id", "YAI_PROVIDER_ID", None), "provider:openai-compatible");
    let key_env = or_default_exec(arg_or_env(args, env, "--api-key-env", "YAI_PROVIDER_API_KEY_ENV", None), "OPENCODE_LLM_API_KEY");
    let api_key = match env_var(env, "YAI_PROVIDER_API_KEY") {
        Some(k) => Some(k),
        None => match env_var(env, key_env.as_str()) {
            Some(k) => Some(k),
            None => env_var(env, "OPENCODE_LLM_API_KEY"),
        },
    };
    let language = or_default_exec(arg_or_env(args, env, "--language-mode", "YAI_PROVIDER_LANGUAGE_MODE", None), "none");
    let capable_env = env_var(env, "YAI_PROVIDER_CONTINUATION_CAPABLE");
    let supported = has_exact_arg(args, "--continuation-capable") || match &capable_env {
        Some(v) => str_eq(v.as_str(), "1"),
        None => false,
    };
    let reference = arg_or_env(args, env, "--continuation-ref", "YAI_PROVIDER_CONTINUATION_REF", None);
    let runtime = or_default_exec(arg_or_env(args, env, "--provider-runtime-id", "YAI_PROVIDER_RUNTIME_ID", None), "runtime:unspecified");
    let c = match case_ref {
        None => return Err(owned("YAI_CASE_REF is required; run `yai case enter` first")),
        Some(c) => c,
    };
    let b = match base_url {
        None => return Err(owned("provider base URL missing; run `yai case attach-provider` or export YAI_PROVIDER_BASE_URL")),
        Some(b) => b,
    };
    let m = match model {
        None => return Err(owned("provider model missing; run `yai case attach-provider` or export YAI_PROVIDER_MODEL")),
        Some(m) => m,
    };
    if !str_eq(language.as_str(), "none") && !str_eq(language.as_str(), "auto") {
        return Err(owned("--language-mode must be auto or none"));
    }
    let governance = governance_exec(args)?;
    let continuation = if governance.is_some() {
        None
    } else {
        match reference {
            Some(r) => Some((provider_id.clone(), runtime, r)),
            None => None,
        }
    };
    Ok(ProviderSettings {
        case_ref: c,
        subject_ref: subject,
        base_url: b,
        model: m,
        provider_id,
        api_key,
        language_mode: language,
        continuation_supported: supported,
        continuation,
        governance,
    })
}

/// A participant of the Case and how many views it was admitted to.
pub struct ParticipantEntry {
    pub participant_id: String,
    pub admitted_views: usize,
}

/// A recorded provider selection of a governed invocation.
pub struct SelectionEntry {
    pub selection_id: String,
    pub selected_target_id: String,
    pub logical_turn_id: String,
    pub attempt_number: u32,
    pub participant_id: String,
    pub selected_model_id: String,
}

/// The provider binding of the Case.
pub struct ProviderBinding {
    pub participant_id: String,
    pub provider_id: String,
    pub provider_kind: String,
    pub model_id: String,
}

/// The first participant with the subject's id decides: it is admitted when
/// the invocation is governed or it holds a view.
pub open spec fn admitted_spec(ps: Seq<ParticipantEntry>, subject: Seq<char>, governed: bool) -> bool
    decreases ps.len(),
{
    if ps.len() == 0 {
        false
    } else if ps[0].participant_id@ == subject {
        governed || ps[0].admitted_views > 0
    } else {
        admitted_spec(ps.drop_first(), subject, governed)
    }
}

/// A selection that matches the governance and the session exactly.
pub open spec fn selection_matches(s: SelectionEntry, g: (Seq<char>, Seq<char>, Seq<char>, int), subject: Seq<char>, model: Seq<char>) -> bool {
    &&& s.selection_id@ == g.0
    &&& s.selected_target_id@ == g.1
    &&& s.logical_turn_id@ == g.2
    &&& s.attempt_number as int == g.3
    &&& s.participant_id@ == subject
    &&& s.selected_model_id@ == model
}

/// The provider is attached: a matching selection for a governed
/// invocation, else the Case's OpenAI-compatible binding of the subject to
/// this model (and this provider, where the binding names one).
pub open spec fn attached_spec(
    sels: Seq<SelectionEntry>,
    binding: Option<ProviderBinding>,
    governance: Option<(Seq<char>, Seq<char>, Seq<char>, int)>,
    subject: Seq<char>,
    provider_id: Seq<char>,
    model: Seq<char>,
) -> bool {
    match governance {
        Some(g) => exists|i: int| 0 <= i < sels.len() && selection_matches(#[trigger] sels[i], g, subject, model),
        None => match binding {
            Some(p) => p.participant_id@ == subject && (p.provider_id@.len() == 0 || p.provider_id@ == provider_id)
                && p.provider_kind@ == "openai_compatible"@ && p.model_id@ == model,
            None => false,
        },
    }
}

/// A refusal about the subject in the Case.
pub open spec fn subject_refusal(subject: Seq<char>, middle: Seq<char>, case_ref: Seq<char>, tail: Seq<char>) -> Seq<char> {
    subject + middle + case_ref + tail
}

fn admitted_exec(ps: &Vec<ParticipantEntry>, subject: &str, governed: bool) -> (r: bool)
    ensures
        r == admitted_spec(ps@, subject@, governed),
{
    let mut i: usize = 0;
    assert(ps@.subrange(0, ps.len() as int) =~= ps@);
    while i < ps.len()
        invariant
            i <= ps.len(),
            admitted_spec(ps@, subject@, governed) == admitted_spec(ps@.subrange(i as int, ps.len() as int), subject@, governed),
        decreases ps.len() - i,
    {
        let ghost rest = ps@.subrange(i as int, ps.len() as int);
        assert(rest[0] == ps@[i as int]);
        if str_eq(ps[i].participant_id.as_str(), subject) {
            return governed || ps[i].admitted_views > 0;
        }
        assert(rest.drop_first() =~= ps@.subrange(i + 1, ps.len() as int));
        i += 1;
    }
    false
}

/// The subject of the session may prompt in the Case: it has entered the
/// Case, and its provider is attached.
pub fn provider_admission_check(
    s: &ProviderSettings,
    participants: &Vec<ParticipantEntry>,
    selections: &Vec<SelectionEntry>,
    binding: Option<&ProviderBinding>,
) -> (r: Result<(), String>)
    ensures
        !admitted_spec(participants@, s.subject_ref@, s.governance is Some) ==> (r matches Err(e) && e@
            == subject_refusal(s.subject_ref@, " has not entered "@, s.case_ref@, "; run `yai case enter` first or bind a governed provider target"@)),
        admitted_spec(participants@, s.subject_ref@, s.governance is Some) && !attached_spec(
            selections@,
            match binding { Some(b) => Some(*b), None => None },
            settings_view(*s).9,
            s.subject_ref@,
            s.provider_id@,
            s.model@,
        ) ==> (r matches Err(e) && e@ == subject_refusal(s.subject_ref@, " has no provider attachment in "@, s.case_ref@, "; run `yai case attach-provider` first"@)),
        admitted_spec(participants@, s.subject_ref@, s.governance is Some) && attached_spec(
            selections@,
            match binding { Some(b) => Some(*b), None => None },
            settings_view(*s).9,
            s.subject_ref@,
            s.provider_id@,
            s.model@,
        ) ==> r is Ok,
{
    let subject = s.subject_ref.as_str();
    if !admitted_exec(participants, subject, s.governance.is_some()) {
        let mut m = chars_of(subject);
        push_str(&mut m, " has not entered ");
        push_str(&mut m, s.case_ref.as_str());
        push_str(&mut m, "; run `yai case enter` first or bind a governed provider target");
        return Err(string_of(&m));
    }
    let attached = match &s.governance {
        Some(g) => {
            let mut found = false;
            let mut i: usize = 0;
            while i < selections.len()
                invariant
                    i <= selections.len(),
                    subject@ == s.subject_ref@,
                    found == exists|k: int| 0 <= k < i && selection_matches(#[trigger] selections@[k], (g.0@, g.1@, g.2@, g.3 as int), s.subject_ref@, s.model@),
                decreases selections.len() - i,
            {
                let e = &selections[i];
                let m = str_eq(e.selection_id.as_str(), g.0.as_str()) && str_eq(e.selected_target_id.as_str(), g.1.as_str())
                    && str_eq(e.logical_turn_id.as_str(), g.2.as_str()) && e.attempt_number == g.3
                    && str_eq(e.participant_id.as_str(), subject) && str_eq(e.selected_model_id.as_str(), s.model.as_str());
                let ghost gv = (g.0@, g.1@, g.2@, g.3 as int);
                assert(m == selection_matches(selections@[i as int], gv, s.subject_ref@, s.model@));
                let ghost before = found;
                found = found || m;
                proof {
                    if m {
                        assert(selection_matches(selections@[i as int], gv, s.subject_ref@, s.model@));
                    }
                    if !found {
                        assert forall|k: int| 0 <= k < i + 1 implies !selection_matches(#[trigger] selections@[k], gv, s.subject_ref@, s.model@) by {
                            if k < i {
                            }
                        }
                    }
                }
                i += 1;
            }
            found
        },
        None => match binding {
            Some(p) => str_eq(p.participant_id.as_str(), subject) && (chars_of(p.provider_id.as_str()).len() == 0 || str_eq(p.provider_id.as_str(), s.provider_id.as_str()))
                && str_eq(p.provider_kind.as_str(), "openai_compatible") && str_eq(p.model_id.as_str(), s.model.as_str()),
            None => false,
        },
    };
    if !attached {
        let mut m = chars_of(subject);
        push_str(&mut m, " has no provider attachment in ");
        push_str(&mut m, s.case_ref.as_str());
        push_str(&mut m, "; run `yai case attach-provider` first");
        return Err(string_of(&m));
    }
    Ok(())
}

/// The process variables that hold a value (an empty one counts as unset).
pub open spec fn set_vars(vars: Seq<(Seq<char>, Seq<char>)>) -> Seq<(Seq<char>, Seq<char>)>
    decreases vars.len(),
{
    if vars.len() == 0 {
        Seq::empty()
    } else {
        let rest = set_vars(vars.drop_first());
        if vars[0].1.len() > 0 {
            seq![vars[0]] + rest
        } else {
            rest
        }
    }
}

/// The assignments with a non-empty value among the lines of an
/// environment file, in order.
pub open spec fn file_vars(lines: Seq<Seq<char>>) -> Seq<(Seq<char>, Seq<char>)>
    decreases lines.len(),
{
    if lines.len() == 0 {
        Seq::empty()
    } else {
        let rest = file_vars(lines.drop_first());
        match env_assignment_spec(lines[0]) {
            Some(kv) => if kv.1.len() > 0 {
                seq![kv] + rest
            } else {
                rest
            },
            None => rest,
        }
    }
}

/// The environment a session reads: the process variables that hold a
/// value, then the assignments of the environment file that do; a variable
/// is read from the first entry that names it.
pub fn session_environment(process: &Vec<(String, String)>, file_lines: &Vec<String>) -> (out: Vec<(String, String)>)
    ensures
        env_views(out@) == set_vars(env_views(process@)) + file_vars(views(file_lines@)),
{
    let ghost pv = env_views(process@);
    let ghost fl = views(file_lines@);
    let mut tail: Vec<(String, String)> = Vec::new();
    let mut j: usize = file_lines.len();
    while j > 0
        invariant
            j <= file_lines.len(),
            fl == views(file_lines@),
            env_views(tail@) == file_vars(fl.subrange(j as int, fl.len() as int)),
        decreases j,
    {
        let ghost after = fl.subrange(j as int, fl.len() as int);
        proof {
            assert(fl.subrange(j - 1, fl.len() as int).drop_first() =~= after);
        }
        match parse_env_assignment(file_lines[j - 1].as_str()) {
            Some(kv) => {
                if chars_of(kv.1.as_str()).len() > 0 {
                    let ghost before = env_views(tail@);
                    tail.insert(0, kv);
                    assert(env_views(tail@) =~= seq![env_views(tail@)[0]] + before);
                }
            },
            None => {},
        }
        j -= 1;
    }
    assert(fl.subrange(0, fl.len() as int) =~= fl);
    let ghost file_part = env_views(tail@);
    let mut i: usize = process.len();
    while i > 0
        invariant
            i <= process.len(),
            pv == env_views(process@),
            env_views(tail@) == set_vars(pv.subrange(i as int, pv.len() as int)) + file_part,
        decreases i,
    {
        let ghost after = pv.subrange(i as int, pv.len() as int);
        proof {
            assert(pv.subrange(i - 1, pv.len() as int).drop_first() =~= after);
        }
        let entry = &process[i - 1];
        if chars_of(entry.1.as_str()).len() > 0 {
            let ghost before = env_views(tail@);
            tail.insert(0, (entry.0.clone(), entry.1.clone()));
            assert(env_views(tail@) =~= seq![env_views(tail@)[0]] + before);
        }
        i -= 1;
    }
    assert(pv.subrange(0, pv.len() as int) =~= pv);
    tail
}

/// Output is coloured on a terminal unless `NO_COLOR` or `YAI_NO_COLOR` is
/// set or `TERM` is `dumb`.
pub fn colors_enabled(is_terminal: bool, env: &Vec<(String, String)>) -> (r: bool)
    ensures
        r == (is_terminal && env_lookup(env_views(env@), "NO_COLOR"@) is None && env_lookup(
            env_views(env@),
            "YAI_NO_COLOR"@,
        ) is None && env_lookup(env_views(env@), "TERM"@) != Some("dumb"@)),
{
    if !is_terminal || env_var(env, "NO_COLOR").is_some() || env_var(env, "YAI_NO_COLOR").is_some() {
        return false;
    }
    match env_var(env, "TERM") {
        Some(t) => !str_eq(t.as_str(), "dumb"),
        None => true,
    }
}

proof fn lemma_lookup_concat(a: Seq<(Seq<char>, Seq<char>)>, b: Seq<(Seq<char>, Seq<char>)>, name: Seq<char>)
    ensures
        env_lookup(a + b, name) == match env_lookup(a, name) {
            Some(v) => Some(v),
            None => env_lookup(b, name),
        },
    decreases a.len(),
{
    if a.len() > 0 {
        assert((a + b).drop_first() =~= a.drop_first() + b);
        lemma_lookup_concat(a.drop_first(), b, name);
    } else {
        assert(a + b =~= b);
    }
}

proof fn lemma_set_vars_nonempty(vars: Seq<(Seq<char>, Seq<char>)>, name: Seq<char>)
    ensures
        env_lookup(set_vars(vars), name) matches Some(v) ==> v.len() > 0,
    decreases vars.len(),
{
    if vars.len() > 0 {
        lemma_set_vars_nonempty(vars.drop_first(), name);
        if vars[0].1.len() > 0 {
            let s = seq![vars[0]] + set_vars(vars.drop_first());
            assert(s.drop_first() =~= set_vars(vars.drop_first()));
        }
    }
}

proof fn lemma_file_vars_nonempty(lines: Seq<Seq<char>>, name: Seq<char>)
    ensures
        env_lookup(file_vars(lines), name) matches Some(v) ==> v.len() > 0,
    decreases lines.len(),
{
    if lines.len() > 0 {
        lemma_file_vars_nonempty(lines.drop_first(), name);
        match env_assignment_spec(lines[0]) {
            Some(kv) => if kv.1.len() > 0 {
                let s = seq![kv] + file_vars(lines.drop_first());
                assert(s.drop_first() =~= file_vars(lines.drop_first()));
            },
            None => {},
        }
    }
}

/// How the Case journal of a prompt session was found: an explicit path
/// that names no file, a refusal to locate the default journal, a journal
/// that could not be loaded, or its records.
pub enum JournalRead {
    /// The explicit path, as shown.
    Missing(String),
    Unlocated(String),
    LoadFailed(String),
    Loaded(Vec<JournalRecord>),
}

/// The settings of a prompt session whose journal was read as `j`: an
/// explicit path naming no file and a default journal that cannot be
/// located are refused first, then the settings are read, then a journal
/// that failed to load is refused, and last every record must belong to the
/// session's Case.
pub open spec fn prompt_runtime_spec(
    a: Seq<Seq<char>>,
    e: Seq<(Seq<char>, Seq<char>)>,
    j: JournalRead,
) -> Result<
    (
        Seq<char>,
        Seq<char>,
        Seq<char>,
        Seq<char>,
        Seq<char>,
        Option<Seq<char>>,
        Seq<char>,
        bool,
        Option<(Seq<char>, Seq<char>, Seq<char>)>,
        Option<(Seq<char>, Seq<char>, Seq<char>, int)>,
    ),
    Seq<char>,
> {
    match j {
        JournalRead::Missing(p) => Err("explicit Case journal does not exist: "@ + p@),
        JournalRead::Unlocated(m) => Err(m@),
        _ => match settings_spec(a, e) {
            Err(m) => Err(m),
            Ok(v) => match j {
                JournalRead::Loaded(rs) => match first_foreign(rs@, v.0) {
                    Some(x) => Err(
                        "journal_case_identity_mismatch: expected="@ + v.0 + " observed="@
                            + x.case_ref@ + " record_id="@ + x.id@,
                    ),
                    None => Ok(v),
                },
                JournalRead::LoadFailed(m) => Err(m@),
                _ => Ok(v),
            },
        },
    }
}

/// The settings of a prompt session, checked against the journal it reads.
pub fn prompt_runtime_settings(args: &[String], env: &Vec<(String, String)>, journal: &JournalRead) -> (r: Result<ProviderSettings, String>)
    ensures
        match r {
            Ok(s) => prompt_runtime_spec(views(args@), env_views(env@), *journal) matches Ok(v) && v == settings_view(s),
            Err(e) => prompt_runtime_spec(views(args@), env_views(env@), *journal) matches Err(m) && m == e@,
        },
{
    match journal {
        JournalRead::Missing(p) => {
            let mut m = chars_of("explicit Case journal does not exist: ");
            push_str(&mut m, p.as_str());
            return Err(string_of(&m));
        },
        JournalRead::Unlocated(m) => return Err(m.clone()),
        _ => {},
    }
    let s = provider_settings(args, env)?;
    match journal {
        JournalRead::LoadFailed(m) => Err(m.clone()),
        JournalRead::Loaded(rs) => {
            validate_loaded_journal_case_binding(rs, s.case_ref.as_str())?;
            Ok(s)
        },
        _ => Ok(s),
    }
}

/// A prompt session only starts on settings that keep their promises: its
/// language mode is `none` or `auto`, a governed invocation carries no
/// continuation, and every record of the journal it read belongs to its
/// Case; an explicit journal path that names no file is refused by name.
pub proof fn law_prompt_runtime(a: Seq<Seq<char>>, e: Seq<(Seq<char>, Seq<char>)>, j: JournalRead)
    ensures
        prompt_runtime_spec(a, e, j) matches Ok(v) ==> (v.6 == "none"@ || v.6 == "auto"@) && (v.9 is Some
            ==> v.8 is None) && (j matches JournalRead::Loaded(rs) ==> forall|i: int|
            0 <= i < rs@.len() ==> (#[trigger] rs@[i]).case_ref@ == v.0),
        j matches JournalRead::Missing(p) ==> prompt_runtime_spec(a, e, j) == Err::<
            (
                Seq<char>,
                Seq<char>,
                Seq<char>,
                Seq<char>,
                Seq<char>,
                Option<Seq<char>>,
                Seq<char>,
                bool,
                Option<(Seq<char>, Seq<char>, Seq<char>)>,
                Option<(Seq<char>, Seq<char>, Seq<char>, int)>,
            ),
            Seq<char>,
        >("explicit Case journal does not exist: "@ + p@),
{
    if let JournalRead::Loaded(rs) = j {
        if let Ok(v) = settings_spec(a, e) {
            if first_foreign(rs@, v.0) is None {
                lemma_no_foreign(rs@, v.0);
            }
        }
    }
}

/// A variable of the session environment is the process variable where it
/// holds a value, else the first value the environment file gives it; an
/// empty value is never read.
pub proof fn law_environment_precedence(process: Seq<(Seq<char>, Seq<char>)>, lines: Seq<Seq<char>>, name: Seq<char>)
    ensures
        env_lookup(set_vars(process) + file_vars(lines), name) == match env_lookup(set_vars(process), name) {
            Some(v) => Some(v),
            None => env_lookup(file_vars(lines), name),
        },
        env_lookup(set_vars(process) + file_vars(lines), name) matches Some(v) ==> v.len() > 0,
{
    lemma_lookup_concat(set_vars(process), file_vars(lines), name);
    lemma_set_vars_nonempty(process, name);
    lemma_file_vars_nonempty(lines, name);
}

} // verus!
