//! Decisions of the guided setup of the conversation workbench: a typed
//! answer, a confirmation, a choice among visible names, the participants a
//! model may execute as, and the locality of a provider endpoint.

use vstd::prelude::*;
use crate::conversation::{CaseParticipant, PrincipalLink};
use crate::json_scan::{char_is_control, is_control};
use crate::numbers::{decimal_spec, parse_unsigned_spec, parse_usize, push_decimal, IntErrorKind};
use crate::render::{literal_external_text, literal_spec};
use crate::semantic::pair_views;
use crate::seqs::views;
use crate::terminal::ProviderLocality;
use crate::text::{chars_of, owned, push_str, str_eq, string_of, trim_chars, trim_spec};

verus! {

/// The prompt of a question, with its default in brackets where it has one.
pub fn question_label(label: &str, default: Option<&str>) -> (out: String)
    ensures
        out@ == match default {
            Some(d) => label@ + " ["@ + d@ + "]"@,
            None => label@,
        },
{
    let mut o = chars_of(label);
    match default {
        Some(d) => {
            push_str(&mut o, " [");
            push_str(&mut o, d);
            push_str(&mut o, "]");
        },
        None => {},
    }
    string_of(&o)
}

/// What a submitted answer gives: refused where it holds a control
/// character, the default (or nothing) where it is blank, else the answer
/// trimmed.
pub open spec fn answer_spec(value: Seq<char>, default: Option<Seq<char>>) -> Result<Seq<char>, Seq<char>> {
    let t = trim_spec(value);
    if exists|k: int| 0 <= k < t.len() && is_control(#[trigger] t[k]) {
        Err("setup_single_value_required"@)
    } else if t.len() == 0 {
        Ok(match default {
            Some(d) => d,
            None => Seq::empty(),
        })
    } else {
        Ok(t)
    }
}

/// The answer a submitted line gives.
pub fn submitted_answer(value: &str, default: Option<&str>) -> (r: Result<String, String>)
    ensures
        match answer_spec(value@, match default {
            Some(d) => Some(d@),
            None => None,
        }) {
            Ok(a) => r matches Ok(x) && x@ == a,
            Err(m) => r matches Err(e) && e@ == m,
        },
{
    let t = trim_chars(&chars_of(value));
    let mut k: usize = 0;
    while k < t.len()
        invariant
            k <= t.len(),
            t@ == trim_spec(value@),
            forall|j: int| 0 <= j < k ==> !is_control(#[trigger] t@[j]),
        decreases t.len() - k,
    {
        if char_is_control(t[k]) {
            assert(is_control(t@[k as int]));
            return Err(owned("setup_single_value_required"));
        }
        k += 1;
    }
    if t.len() == 0 {
        proof {
            reveal_strlit("");
        }
        return Ok(
            match default {
                Some(d) => owned(d),
                None => owned(""),
            },
        );
    }
    Ok(string_of(&t))
}

/// A confirmation holds only where the exact word was typed.
pub fn confirm_answer(answer: &str, word: &str) -> (r: Result<(), String>)
    ensures
        answer@ == word@ ==> r is Ok,
        answer@ != word@ ==> (r matches Err(e) && e@ == "setup_cancelled_no_approval"@),
{
    if str_eq(answer, word) {
        Ok(())
    } else {
        Err(owned("setup_cancelled_no_approval"))
    }
}

/// How a choice is made: none is possible, the only one is taken, or the
/// numbered menu is shown.
pub enum ChoicePlan {
    NoChoices(String),
    Only(String),
    Menu(String),
}

/// The numbered menu lines of the choices from position `i` on.
pub open spec fn menu_lines(choices: Seq<Seq<char>>, n: int) -> Seq<char>
    decreases n,
{
    if n <= 0 || n > choices.len() {
        Seq::empty()
    } else {
        menu_lines(choices, n - 1) + "  "@ + decimal_spec(n as nat) + ". "@ + literal_spec(choices[n - 1]) + "\n"@
    }
}

/// How a choice among `choices` is made under `label`.
pub fn choice_plan(label: &str, choices: &Vec<String>) -> (r: ChoicePlan)
    ensures
        choices.len() == 0 ==> (r matches ChoicePlan::NoChoices(e) && e@ == "setup_no_choices:"@ + label@),
        choices.len() == 1 ==> (r matches ChoicePlan::Only(c) && c@ == choices@[0]@),
        choices.len() > 1 ==> (r matches ChoicePlan::Menu(m) && m@ == label@ + "\n"@ + menu_lines(
            views(choices@),
            choices.len() as int,
        )),
{
    if choices.len() == 0 {
        let mut m = chars_of("setup_no_choices:");
        push_str(&mut m, label);
        return ChoicePlan::NoChoices(string_of(&m));
    }
    if choices.len() == 1 {
        return ChoicePlan::Only(choices[0].clone());
    }
    let mut o = chars_of(label);
    push_str(&mut o, "\n");
    let ghost head = o@;
    let mut i: usize = 0;
    while i < choices.len()
        invariant
            i <= choices.len(),
            o@ == head + menu_lines(views(choices@), i as int),
        decreases choices.len() - i,
    {
        push_str(&mut o, "  ");
        push_decimal(&mut o, (i + 1) as u64);
        push_str(&mut o, ". ");
        push_str(&mut o, literal_external_text(choices[i].as_str()).as_str());
        push_str(&mut o, "\n");
        i += 1;
    }
    ChoicePlan::Menu(string_of(&o))
}

/// The choice a typed answer makes: an exact name shown, else the number of
/// one (from 1).
pub open spec fn chosen_spec(choices: Seq<Seq<char>>, answer: Seq<char>) -> Option<Seq<char>> {
    if choices.contains(answer) {
        Some(answer)
    } else {
        match parse_unsigned_spec(answer, 10, usize::MAX as int) {
            Ok(n) => if 1 <= n <= choices.len() {
                Some(choices[n - 1])
            } else {
                None
            },
            Err(_) => None,
        }
    }
}

/// A numeric answer that is not itself a name shown picks the choice
/// printed under that number in the menu (counted from 1); an answer that is
/// a name shown picks that name; what a choice picks is always one of the
/// choices shown; an answer that is neither is refused.
pub proof fn law_answer_picks_numbered_choice(choices: Seq<Seq<char>>, answer: Seq<char>, n: int)
    ensures
        !choices.contains(answer) && parse_unsigned_spec(answer, 10, usize::MAX as int) == Ok::<int, IntErrorKind>(n)
            && 1 <= n <= choices.len() ==> chosen_spec(choices, answer) == Some(choices[n - 1]),
        choices.contains(answer) ==> chosen_spec(choices, answer) == Some(answer),
        chosen_spec(choices, answer) matches Some(x) ==> choices.contains(x),
        chosen_spec(choices, answer) is None <==> !choices.contains(answer) && !(parse_unsigned_spec(
            answer,
            10,
            usize::MAX as int,
        ) matches Ok(m) && 1 <= m <= choices.len()),
{
    if let Some(x) = chosen_spec(choices, answer) {
        if !choices.contains(answer) {
            let m = parse_unsigned_spec(answer, 10, usize::MAX as int)->Ok_0;
            assert(choices[m - 1] == x);
        }
    }
}

/// The choice a typed answer makes, or the refusal.
pub fn choice_from_answer(choices: &Vec<String>, answer: &str) -> (r: Result<String, String>)
    ensures
        match chosen_spec(views(choices@), answer@) {
            Some(c) => r matches Ok(x) && x@ == c,
            None => r matches Err(e) && e@ == "setup_selection_not_in_visible_choices"@,
        },
{
    let mut i: usize = 0;
    while i < choices.len()
        invariant
            i <= choices.len(),
            forall|j: int| 0 <= j < i ==> (#[trigger] choices@[j])@ != answer@,
        decreases choices.len() - i,
    {
        if str_eq(choices[i].as_str(), answer) {
            assert(views(choices@)[i as int] == answer@);
            return Ok(owned(answer));
        }
        i += 1;
    }
    proof {
        if views(choices@).contains(answer@) {
            let j = choose|j: int| 0 <= j < views(choices@).len() && views(choices@)[j] == answer@;
            assert(choices@[j]@ == answer@);
        }
    }
    match parse_usize(&chars_of(answer)) {
        Ok(n) => if 1 <= n && n <= choices.len() {
            Ok(choices[n - 1].clone())
        } else {
            Err(owned("setup_selection_not_in_visible_choices"))
        },
        Err(_) => Err(owned("setup_selection_not_in_visible_choices")),
    }
}

/// A participant admitted to the model's context that no principal speaks as.
pub open spec fn model_candidate(p: CaseParticipant, links: Seq<PrincipalLink>) -> bool {
    &&& pair_views(p.admitted_views@).contains(("model"@, "model_context"@))
    &&& !(exists|l: int| 0 <= l < links.len() && (#[trigger] links[l]).participant_id@ == p.participant_id@)
}

/// The candidates, in order.
pub open spec fn candidates_spec(ps: Seq<CaseParticipant>, links: Seq<PrincipalLink>) -> Seq<Seq<char>>
    decreases ps.len(),
{
    if ps.len() == 0 {
        Seq::empty()
    } else {
        candidates_spec(ps.drop_last(), links) + if model_candidate(ps.last(), links) {
            seq![ps.last().participant_id@]
        } else {
            Seq::empty()
        }
    }
}

fn has_model_context(p: &CaseParticipant) -> (b: bool)
    ensures
        b == pair_views(p.admitted_views@).contains(("model"@, "model_context"@)),
{
    let ghost pv = pair_views(p.admitted_views@);
    let mut j: usize = 0;
    while j < p.admitted_views.len()
        invariant
            j <= p.admitted_views.len(),
            pv == pair_views(p.admitted_views@),
            forall|m: int| 0 <= m < j ==> pv[m] != ("model"@, "model_context"@),
        decreases p.admitted_views.len() - j,
    {
        if str_eq(p.admitted_views[j].0.as_str(), "model") && str_eq(p.admitted_views[j].1.as_str(), "model_context") {
            assert(pv[j as int] == ("model"@, "model_context"@));
            return true;
        }
        j += 1;
    }
    proof {
        if pv.contains(("model"@, "model_context"@)) {
            let m = choose|m: int| 0 <= m < pv.len() && pv[m] == ("model"@, "model_context"@);
            assert(pv[m] != ("model"@, "model_context"@));
        }
    }
    false
}

fn linked_to_principal(links: &Vec<PrincipalLink>, participant: &str) -> (b: bool)
    ensures
        b == exists|l: int| 0 <= l < links@.len() && (#[trigger] links@[l]).participant_id@ == participant@,
{
    let mut l: usize = 0;
    while l < links.len()
        invariant
            l <= links.len(),
            forall|m: int| 0 <= m < l ==> (#[trigger] links@[m]).participant_id@ != participant@,
        decreases links.len() - l,
    {
        if str_eq(links[l].participant_id.as_str(), participant) {
            return true;
        }
        l += 1;
    }
    false
}

/// The participants a model may execute as: admitted to the model's
/// context and linked to no principal.
pub fn model_candidates(participants: &Vec<CaseParticipant>, links: &Vec<PrincipalLink>) -> (out: Vec<String>)
    ensures
        views(out@) == candidates_spec(participants@, links@),
{
    let mut out: Vec<String> = Vec::new();
    let mut i: usize = 0;
    while i < participants.len()
        invariant
            i <= participants.len(),
            views(out@) == candidates_spec(participants@.subrange(0, i as int), links@),
        decreases participants.len() - i,
    {
        let ghost before = views(out@);
        proof {
            assert(participants@.subrange(0, i + 1).drop_last() =~= participants@.subrange(0, i as int));
        }
        let p = &participants[i];
        if has_model_context(p) && !linked_to_principal(links, p.participant_id.as_str()) {
            out.push(p.participant_id.clone());
            assert(views(out@) =~= before + seq![p.participant_id@]);
        } else {
            assert(before + Seq::<Seq<char>>::empty() =~= before);
        }
        i += 1;
    }
    assert(participants@.subrange(0, participants.len() as int) =~= participants@);
    out
}

/// The locality an operator types for an endpoint.
pub fn locality_answer(answer: &str) -> (r: Result<ProviderLocality, String>)
    ensures
        answer@ == "loopback"@ ==> r == Ok::<ProviderLocality, String>(ProviderLocality::Loopback),
        answer@ == "private_network"@ ==> r == Ok::<ProviderLocality, String>(ProviderLocality::PrivateNetwork),
        answer@ == "remote"@ ==> r == Ok::<ProviderLocality, String>(ProviderLocality::Remote),
        !(answer@ == "loopback"@ || answer@ == "private_network"@ || answer@ == "remote"@) ==> (r matches Err(e)
            && e@ == "connect_locality_invalid"@),
{
    proof {
        reveal_strlit("loopback");
        reveal_strlit("private_network");
        reveal_strlit("remote");
        assert("loopback"@.len() != "private_network"@.len());
        assert("loopback"@.len() != "remote"@.len());
        assert("private_network"@.len() != "remote"@.len());
    }
    if str_eq(answer, "loopback") {
        Ok(ProviderLocality::Loopback)
    } else if str_eq(answer, "private_network") {
        Ok(ProviderLocality::PrivateNetwork)
    } else if str_eq(answer, "remote") {
        Ok(ProviderLocality::Remote)
    } else {
        Err(owned("connect_locality_invalid"))
    }
}

} // verus!
