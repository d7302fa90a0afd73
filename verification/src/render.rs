//! Text shaping for the terminal and the shell: quoting, identifiers made
//! safe for records and file names, word wrapping, and the neutralisation of
//! external text before it is shown.

use vstd::prelude::*;
use crate::json_scan::is_control;
use crate::seqs::{first_item_from, lemma_first_item_facts};
use crate::text::{chars_of, char_is_space, code_of, find_char_from, is_space, join2, join3, owned, push_all, push_str, skip_space, slice_chars, string_of, starts_with};

verus! {

/// Quoted form of one character inside single quotes.
pub open spec fn shell_quote_char(c: char) -> Seq<char> {
    if c == '\'' {
        seq!['\'', '\\', '\'', '\'']
    } else {
        seq![c]
    }
}

/// Body of a single-quoted shell word.
pub open spec fn shell_quote_body(s: Seq<char>) -> Seq<char>
    decreases s.len(),
{
    if s.len() == 0 {
        Seq::empty()
    } else {
        shell_quote_body(s.drop_last()) + shell_quote_char(s.last())
    }
}

/// `value` as one single-quoted shell word: every `'` is closed, escaped and
/// reopened.
pub fn shell_quote(value: &str) -> (out: String)
    ensures
        out@ == seq!['\''] + shell_quote_body(value@) + seq!['\''],
{
    let s = chars_of(value);
    let mut quoted: Vec<char> = Vec::new();
    quoted.push('\'');
    let mut i: usize = 0;
    while i < s.len()
        invariant
            i <= s.len(),
            quoted@ == seq!['\''] + shell_quote_body(s@.subrange(0, i as int)),
        decreases s.len() - i,
    {
        let ghost before = quoted@;
        if s[i] == '\'' {
            quoted.push('\'');
            quoted.push('\\');
            quoted.push('\'');
            quoted.push('\'');
        } else {
            quoted.push(s[i]);
        }
        proof {
            assert(s@.subrange(0, i + 1).drop_last() =~= s@.subrange(0, i as int));
            assert(quoted@ =~= before + shell_quote_char(s@[i as int]));
        }
        i += 1;
    }
    quoted.push('\'');
    assert(s@.subrange(0, s.len() as int) =~= s@);
    string_of(&quoted)
}

/// An ASCII letter or digit.
pub open spec fn is_ascii_alnum(c: char) -> bool {
    ('0' <= c && c <= '9') || ('a' <= c && c <= 'z') || ('A' <= c && c <= 'Z')
}

fn char_is_ascii_alnum(c: char) -> (r: bool)
    ensures
        r == is_ascii_alnum(c),
{
    ('0' <= c && c <= '9') || ('a' <= c && c <= 'z') || ('A' <= c && c <= 'Z')
}

/// A character kept as it is in a record identifier.
pub open spec fn id_char_kept(c: char) -> bool {
    is_ascii_alnum(c) || c == ':' || c == '-' || c == '_' || c == '.'
}

/// A character kept as it is in a file name.
pub open spec fn file_char_kept(c: char) -> bool {
    is_ascii_alnum(c) || c == '-' || c == '_' || c == '.'
}

/// `value` with every character outside the identifier alphabet turned to `_`.
pub open spec fn canonical_id_spec(s: Seq<char>) -> Seq<char> {
    s.map_values(|c: char| if id_char_kept(c) { c } else { '_' })
}

/// `value` with every character outside the file-name alphabet turned to `_`.
pub open spec fn safe_file_spec(s: Seq<char>) -> Seq<char> {
    s.map_values(|c: char| if file_char_kept(c) { c } else { '_' })
}

/// A component of a record identifier made from free text.
pub fn canonical_id_component(value: &str) -> (out: String)
    ensures
        out@ == canonical_id_spec(value@),
{
    let s = chars_of(value);
    let mut out: Vec<char> = Vec::new();
    let mut i: usize = 0;
    while i < s.len()
        invariant
            i <= s.len(),
            out@ == canonical_id_spec(s@.subrange(0, i as int)),
        decreases s.len() - i,
    {
        let c = s[i];
        if char_is_ascii_alnum(c) || c == ':' || c == '-' || c == '_' || c == '.' {
            out.push(c);
        } else {
            out.push('_');
        }
        i += 1;
        assert(out@ =~= canonical_id_spec(s@.subrange(0, i as int)));
    }
    assert(s@.subrange(0, s.len() as int) =~= s@);
    string_of(&out)
}

/// A Case reference made safe to stand in a file name.
pub fn safe_case_ref_for_filename(case_ref: &str) -> (out: String)
    ensures
        out@ == safe_file_spec(case_ref@),
{
    let s = chars_of(case_ref);
    let mut out: Vec<char> = Vec::new();
    let mut i: usize = 0;
    while i < s.len()
        invariant
            i <= s.len(),
            out@ == safe_file_spec(s@.subrange(0, i as int)),
        decreases s.len() - i,
    {
        let c = s[i];
        if char_is_ascii_alnum(c) || c == '-' || c == '_' || c == '.' {
            out.push(c);
        } else {
            out.push('_');
        }
        i += 1;
        assert(out@ =~= safe_file_spec(s@.subrange(0, i as int)));
    }
    assert(s@.subrange(0, s.len() as int) =~= s@);
    string_of(&out)
}

/// Making an identifier component twice changes nothing more, and the result
/// holds only identifier characters.
pub proof fn law_canonical_id_idempotent(s: Seq<char>)
    ensures
        canonical_id_spec(canonical_id_spec(s)) == canonical_id_spec(s),
        forall|i: int| 0 <= i < s.len() ==> id_char_kept(#[trigger] canonical_id_spec(s)[i]),
{
    assert(canonical_id_spec(canonical_id_spec(s)) =~= canonical_id_spec(s));
}

/// Making a file name safe twice changes nothing more, and the result holds
/// only file-name characters: no `/`, so no path escapes the report folder.
pub proof fn law_safe_file_idempotent(s: Seq<char>)
    ensures
        safe_file_spec(safe_file_spec(s)) == safe_file_spec(s),
        forall|i: int| 0 <= i < s.len() ==> file_char_kept(#[trigger] safe_file_spec(s)[i]),
{
    assert(safe_file_spec(safe_file_spec(s)) =~= safe_file_spec(s));
}

/// Right-to-left embedding and isolate controls, which can hide the order of text.
pub open spec fn is_bidi_control(c: char) -> bool {
    ('\u{202a}' <= c && c <= '\u{202e}') || ('\u{2066}' <= c && c <= '\u{2069}')
}

/// A character that external text may not show as it is.
pub open spec fn must_escape(c: char) -> bool {
    (is_control(c) && c != '\n' && c != '\t') || is_bidi_control(c)
}

/// Lowercase hexadecimal digit of `v` (below 16).
pub open spec fn hex_lower(v: int) -> char {
    crate::json_scan::hex_digit(v)
}

/// Hexadecimal digits of `v` without leading zeros (`v` below 65536).
pub open spec fn hex_min(v: int) -> Seq<char> {
    if v < 16 {
        seq![hex_lower(v)]
    } else if v < 256 {
        seq![hex_lower(v / 16), hex_lower(v % 16)]
    } else if v < 4096 {
        seq![hex_lower(v / 256), hex_lower((v / 16) % 16), hex_lower(v % 16)]
    } else {
        seq![hex_lower(v / 4096), hex_lower((v / 256) % 16), hex_lower((v / 16) % 16), hex_lower(v % 16)]
    }
}

/// std's `char::escape_default` of a character that must be escaped.
pub open spec fn escape_default_spec(c: char) -> Seq<char> {
    if c == '\r' {
        seq!['\\', 'r']
    } else {
        seq!['\\', 'u', '{'] + hex_min(c as int) + seq!['}']
    }
}

/// How one character of external text is shown.
pub open spec fn literal_char(c: char) -> Seq<char> {
    if must_escape(c) {
        escape_default_spec(c)
    } else {
        seq![c]
    }
}

/// External text as shown: controls and direction overrides are written out.
pub open spec fn literal_spec(s: Seq<char>) -> Seq<char>
    decreases s.len(),
{
    if s.len() == 0 {
        Seq::empty()
    } else {
        literal_spec(s.drop_last()) + literal_char(s.last())
    }
}

/// A character that is safe to put on the terminal.
pub open spec fn shown_safely(c: char) -> bool {
    !must_escape(c)
}

fn push_hex_min(out: &mut Vec<char>, v: u32)
    requires
        v < 65536,
    ensures
        final(out)@ == old(out)@ + hex_min(v as int),
{
    if v < 16 {
        out.push(hex_exec(v));
    } else if v < 256 {
        out.push(hex_exec(v / 16));
        out.push(hex_exec(v % 16));
    } else if v < 4096 {
        out.push(hex_exec(v / 256));
        out.push(hex_exec((v / 16) % 16));
        out.push(hex_exec(v % 16));
    } else {
        out.push(hex_exec(v / 4096));
        out.push(hex_exec((v / 256) % 16));
        out.push(hex_exec((v / 16) % 16));
        out.push(hex_exec(v % 16));
    }
}

fn hex_exec(v: u32) -> (c: char)
    requires
        v < 16,
    ensures
        c == hex_lower(v as int),
        c != '\n' && c != '\t' && !is_control(c) && !is_bidi_control(c),
{
    if v < 10 {
        ((v + 48) as u8) as char
    } else {
        ((v + 87) as u8) as char
    }
}

proof fn lemma_hex_min_safe(v: int)
    requires
        0 <= v < 65536,
    ensures
        forall|k: int| 0 <= k < hex_min(v).len() ==> shown_safely(#[trigger] hex_min(v)[k]),
{
    crate::json_scan::lemma_hex_digit_is_digit(v / 4096 % 16);
    crate::json_scan::lemma_hex_digit_is_digit((v / 256) % 16);
    crate::json_scan::lemma_hex_digit_is_digit((v / 16) % 16);
    crate::json_scan::lemma_hex_digit_is_digit(v % 16);
    crate::json_scan::lemma_hex_digit_is_digit(v / 16);
    crate::json_scan::lemma_hex_digit_is_digit(v / 256);
    crate::json_scan::lemma_hex_digit_is_digit(v / 4096);
    crate::json_scan::lemma_hex_digit_is_digit(v);
}

/// External text (a provider reply, an error detail, a model name) made safe
/// to print: every control character other than newline and tab, and every
/// direction override, is written out as an escape. The original is kept.
pub fn literal_external_text(text: &str) -> (out: String)
    ensures
        out@ == literal_spec(text@),
        forall|k: int| 0 <= k < out@.len() ==> shown_safely(#[trigger] out@[k]),
        (forall|k: int| 0 <= k < text@.len() ==> !must_escape(#[trigger] text@[k])) ==> out@
            == text@,
{
    let s = chars_of(text);
    let mut out: Vec<char> = Vec::new();
    let mut i: usize = 0;
    while i < s.len()
        invariant
            i <= s.len(),
            out@ == literal_spec(s@.subrange(0, i as int)),
            forall|k: int| 0 <= k < out@.len() ==> shown_safely(#[trigger] out@[k]),
            (forall|k: int| 0 <= k < i ==> !must_escape(#[trigger] s@[k])) ==> out@ == s@.subrange(
                0,
                i as int,
            ),
        decreases s.len() - i,
    {
        let c = s[i];
        let ghost before = out@;
        let v = code_of(c);
        let control = c <= '\u{1f}' || ('\u{7f}' <= c && c <= '\u{9f}');
        let bidi = ('\u{202a}' <= c && c <= '\u{202e}') || ('\u{2066}' <= c && c <= '\u{2069}');
        if (control && c != '\n' && c != '\t') || bidi {
            if c == '\r' {
                out.push('\\');
                out.push('r');
            } else {
                out.push('\\');
                out.push('u');
                out.push('{');
                proof {
                    lemma_hex_min_safe(v as int);
                }
                push_hex_min(&mut out, v);
                out.push('}');
            }
            proof {
                assert(out@ =~= before + escape_default_spec(c));
            }
        } else {
            out.push(c);
        }
        proof {
            assert(s@.subrange(0, i + 1).drop_last() =~= s@.subrange(0, i as int));
            assert(out@ =~= before + literal_char(c));
            if forall|k: int| 0 <= k < i + 1 ==> !must_escape(#[trigger] s@[k]) {
                assert(!must_escape(s@[i as int]));
                assert(out@ =~= s@.subrange(0, i + 1));
            }
        }
        i += 1;
    }
    assert(s@.subrange(0, s.len() as int) =~= s@);
    string_of(&out)
}

/// `o` with `v` put before the text it holds.
pub open spec fn prefixed(v: Seq<char>, o: Option<Seq<char>>) -> Option<Seq<char>> {
    match o {
        Some(t) => Some(v + t),
        None => None,
    }
}

/// The word a POSIX shell reads from `w`, inside single quotes or not: a
/// quote opens or closes quoting, a backslash outside quotes takes the next
/// character as it is; none where a quote is left open.
pub open spec fn shell_read(w: Seq<char>, quoted: bool) -> Option<Seq<char>>
    decreases w.len(),
{
    if w.len() == 0 {
        if quoted {
            None
        } else {
            Some(Seq::empty())
        }
    } else if quoted {
        if w[0] == '\'' {
            shell_read(w.drop_first(), false)
        } else {
            prefixed(seq![w[0]], shell_read(w.drop_first(), true))
        }
    } else if w[0] == '\'' {
        shell_read(w.drop_first(), true)
    } else if w[0] == '\\' && w.len() >= 2 {
        prefixed(seq![w[1]], shell_read(w.subrange(2, w.len() as int), false))
    } else {
        prefixed(seq![w[0]], shell_read(w.drop_first(), false))
    }
}

proof fn lemma_read_quote_char(c: char, rest: Seq<char>)
    ensures
        shell_read(shell_quote_char(c) + rest, true) == prefixed(seq![c], shell_read(rest, true)),
{
    let w = shell_quote_char(c) + rest;
    if c == '\'' {
        let w1 = seq!['\\', '\'', '\''] + rest;
        let w2 = seq!['\''] + rest;
        assert(w[0] == '\'');
        assert(w.drop_first() =~= w1);
        assert(shell_read(w, true) == shell_read(w1, false));
        assert(w1[0] == '\\' && w1[1] == '\'');
        assert(w1.subrange(2, w1.len() as int) =~= w2);
        assert(shell_read(w1, false) == prefixed(seq!['\''], shell_read(w2, false)));
        assert(w2[0] == '\'');
        assert(w2.drop_first() =~= rest);
        assert(shell_read(w2, false) == shell_read(rest, true));
    } else {
        assert(w[0] == c);
        assert(w.drop_first() =~= rest);
    }
}

proof fn lemma_read_quoted_body(v: Seq<char>, rest: Seq<char>)
    ensures
        shell_read(shell_quote_body(v) + rest, true) == prefixed(v, shell_read(rest, true)),
    decreases v.len(),
{
    if v.len() == 0 {
        assert(shell_quote_body(v) + rest =~= rest);
        match shell_read(rest, true) {
            Some(t) => assert(v + t =~= t),
            None => {},
        }
    } else {
        let p = v.drop_last();
        let c = v.last();
        assert(shell_quote_body(v) + rest =~= shell_quote_body(p) + (shell_quote_char(c) + rest));
        lemma_read_quoted_body(p, shell_quote_char(c) + rest);
        lemma_read_quote_char(c, rest);
        match shell_read(rest, true) {
            Some(t) => assert(p + (seq![c] + t) =~= v + t),
            None => {},
        }
    }
}

/// A value quoted by `shell_quote` is read back by the shell as exactly
/// that value, whatever quotes it holds.
pub proof fn law_shell_quote_reads_back(v: Seq<char>)
    ensures
        shell_read(seq!['\''] + shell_quote_body(v) + seq!['\''], false) == Some(v),
{
    let w = seq!['\''] + shell_quote_body(v) + seq!['\''];
    let close = seq!['\''];
    assert(w[0] == '\'');
    assert(w.drop_first() =~= shell_quote_body(v) + close);
    assert(shell_read(w, false) == shell_read(shell_quote_body(v) + close, true));
    lemma_read_quoted_body(v, close);
    assert(close[0] == '\'');
    assert(close.drop_first() =~= Seq::<char>::empty());
    assert(shell_read(close, true) == shell_read(Seq::<char>::empty(), false));
    assert(v + Seq::<char>::empty() =~= v);
}

} // verus!
