//! Layout of what the command line shows: colour codes, section rules,
//! prompt labels, model output laid out line by line, and the framed blocks
//! and notices of the Case conversation.

use vstd::prelude::*;
use crate::numbers::{parse_unsigned_spec, parse_usize, IntErrorKind};
use crate::render::{literal_external_text, literal_spec, shown_safely};
use crate::seqs::{find, views};
use crate::text::{
    chars_of, contains_spec, contains_str, push_all, push_str, slice_chars, starts_with,
    string_of, trim_chars, trim_spec, utf8_len, utf8_width,
};
use crate::words::{wrap_spec, wrap_words};

verus! {

pub const ANSI_RESET: &'static str = "\x1b[0m";

pub const ANSI_BOLD: &'static str = "\x1b[1m";

pub const ANSI_DIM: &'static str = "\x1b[2m";

pub const ANSI_CYAN: &'static str = "\x1b[36m";

pub const ANSI_GREEN: &'static str = "\x1b[32m";

pub const ANSI_YELLOW: &'static str = "\x1b[33m";

/// A record field as listed: `fallback` where the field is empty.
pub fn display_field(value: &str, fallback: &str) -> (out: String)
    ensures
        out@ == if value@.len() == 0 {
            fallback@
        } else {
            value@
        },
{
    let cs = chars_of(value);
    if cs.len() == 0 {
        let f = chars_of(fallback);
        string_of(&f)
    } else {
        string_of(&cs)
    }
}

/// What `paint` shows.
pub open spec fn paint_spec(enabled: bool, code: Seq<char>, value: Seq<char>) -> Seq<char> {
    if enabled {
        code + value + ANSI_RESET@
    } else {
        value
    }
}

/// `value` in the colour `code`, reset after it, where colours are enabled.
pub fn paint(enabled: bool, code: &str, value: &str) -> (out: String)
    ensures
        out@ == paint_spec(enabled, code@, value@),
{
    if enabled {
        let mut cs = chars_of(code);
        push_str(&mut cs, value);
        push_str(&mut cs, ANSI_RESET);
        string_of(&cs)
    } else {
        let cs = chars_of(value);
        string_of(&cs)
    }
}

/// The prompt of the Case shell.
pub fn prompt_label(case_ref: &str, colors: bool) -> (out: String)
    ensures
        colors ==> out@ == ANSI_BOLD@ + ANSI_CYAN@ + "yai"@ + "("@ + ANSI_YELLOW@ + case_ref@
            + ANSI_RESET@ + ")> "@,
        !colors ==> out@ == "yai("@ + case_ref@ + ")> "@,
{
    let mut cs: Vec<char> = Vec::new();
    if colors {
        push_str(&mut cs, ANSI_BOLD);
        push_str(&mut cs, ANSI_CYAN);
        push_str(&mut cs, "yai");
        push_str(&mut cs, "(");
        push_str(&mut cs, ANSI_YELLOW);
        push_str(&mut cs, case_ref);
        push_str(&mut cs, ANSI_RESET);
        push_str(&mut cs, ")> ");
        assert(cs@ =~= ANSI_BOLD@ + ANSI_CYAN@ + "yai"@ + "("@ + ANSI_YELLOW@ + case_ref@
            + ANSI_RESET@ + ")> "@);
    } else {
        push_str(&mut cs, "yai(");
        push_str(&mut cs, case_ref);
        push_str(&mut cs, ")> ");
        assert(cs@ =~= "yai("@ + case_ref@ + ")> "@);
    }
    string_of(&cs)
}

/// The width the output is laid out for, from the `COLUMNS` setting: a
/// number of at least 50, at most 120; 92 otherwise.
pub open spec fn terminal_width_spec(columns: Option<Seq<char>>) -> int {
    match columns {
        Some(c) => match parse_unsigned_spec(c, 10, usize::MAX as int) {
            Ok(v) => if v < 50 {
                92
            } else if v > 120 {
                120
            } else {
                v
            },
            Err(_) => 92,
        },
        None => 92,
    }
}

/// The layout width for the value of `COLUMNS`, if it is set.
pub fn terminal_width(columns: Option<&str>) -> (w: usize)
    ensures
        w as int == terminal_width_spec(
            match columns {
                Some(c) => Some(c@),
                None => None,
            },
        ),
{
    match columns {
        Some(c) => {
            let cs = chars_of(c);
            match parse_usize(&cs) {
                Ok(v) => if v < 50 {
                    92
                } else if v > 120 {
                    120
                } else {
                    v
                },
                Err(_) => 92,
            }
        },
        None => 92,
    }
}

/// `n` dashes.
pub open spec fn dashes(n: int) -> Seq<char> {
    Seq::new(n as nat, |i: int| '-')
}

/// A section rule: `-- TITLE ` filled with dashes to `width` bytes.
pub open spec fn section_line_spec(label: Seq<char>, detail: Seq<char>, width: int) -> Seq<char> {
    let title = if detail.len() == 0 {
        label
    } else {
        label + seq![' '] + detail
    };
    let plain = seq!['-', '-', ' '] + title + seq![' '];
    if utf8_width(plain) >= width {
        plain
    } else {
        plain + dashes(width - utf8_width(plain))
    }
}

/// The rule that opens a section of command output.
pub fn cli_section_line(label: &str, detail: &str, width: usize) -> (out: String)
    ensures
        out@ == section_line_spec(label@, detail@, width as int),
{
    let mut plain: Vec<char> = Vec::new();
    plain.push('-');
    plain.push('-');
    plain.push(' ');
    push_str(&mut plain, label);
    let d = chars_of(detail);
    if d.len() > 0 {
        plain.push(' ');
        push_all(&mut plain, &d);
    }
    plain.push(' ');
    proof {
        if detail@.len() == 0 {
            assert(plain@ =~= seq!['-', '-', ' '] + label@ + seq![' ']);
        } else {
            assert(plain@ =~= seq!['-', '-', ' '] + (label@ + seq![' '] + detail@) + seq![' ']);
        }
    }
    let n = utf8_len(&plain);
    if n >= width as u128 {
        return string_of(&plain);
    }
    let fill: usize = width - (n as usize);
    let ghost base = plain@;
    let mut k: usize = 0;
    while k < fill
        invariant
            k <= fill,
            plain@ == base + dashes(k as int),
        decreases fill - k,
    {
        plain.push('-');
        k += 1;
        assert(plain@ =~= base + dashes(k as int));
    }
    string_of(&plain)
}

/// Whether every character is an ASCII digit.
pub open spec fn all_digits(s: Seq<char>) -> bool {
    forall|i: int| 0 <= i < s.len() ==> '0' <= #[trigger] s[i] && s[i] <= '9'
}

/// Length of the marker `N. ` of an ordered list item: digits, a dot and a
/// space before a non-empty rest.
pub open spec fn ordered_marker_spec(line: Seq<char>) -> Option<int> {
    let p = find(line, seq!['.', ' ']);
    if p < 0 || p == 0 || p + 2 >= line.len() || !all_digits(line.subrange(0, p)) {
        None
    } else {
        Some(p + 2)
    }
}

/// The length of an ordered list marker that begins `line`, if there is one.
pub fn ordered_list_marker(line: &Vec<char>) -> (r: Option<usize>)
    ensures
        match r {
            Some(n) => ordered_marker_spec(line@) == Some(n as int),
            None => ordered_marker_spec(line@) is None,
        },
{
    let mut pat: Vec<char> = Vec::new();
    pat.push('.');
    pat.push(' ');
    assert(pat@ =~= seq!['.', ' ']);
    let p = match crate::text::find_chars_from(line, &pat, 0) {
        Some(p) => p,
        None => return None,
    };
    proof {
        crate::seqs::lemma_find_bounds(line@, pat@, 0);
    }
    if p == 0 || line.len() - p <= 2 {
        return None;
    }
    let mut i: usize = 0;
    while i < p
        invariant
            i <= p < line.len(),
            0 < p,
            p + 2 < line.len(),
            find(line@, seq!['.', ' ']) == p as int,
            all_digits(line@.subrange(0, i as int)),
        decreases p - i,
    {
        if !('0' <= line[i] && line[i] <= '9') {
            assert(line@.subrange(0, p as int)[i as int] == line@[i as int]);
            assert(!all_digits(line@.subrange(0, p as int)));
            return None;
        }
        i += 1;
        assert(all_digits(line@.subrange(0, i as int))) by {
            assert forall|k: int| 0 <= k < i implies '0' <= #[trigger] line@.subrange(0, i as int)[k]
                && line@.subrange(0, i as int)[k] <= '9' by {
                if k < i - 1 {
                    assert(line@.subrange(0, i as int)[k] == line@.subrange(0, i - 1)[k]);
                }
            }
        }
    }
    Some(p + 2)
}

/// Two lines of a list item: the first after `first`, the rest after four spaces.
pub open spec fn list_item_lines(first: Seq<char>, wrapped: Seq<Seq<char>>) -> Seq<Seq<char>> {
    Seq::new(
        wrapped.len(),
        |i: int|
            if i == 0 {
                first + wrapped[i]
            } else {
                seq![' ', ' ', ' ', ' '] + wrapped[i]
            },
    )
}

/// How one line of model output is laid out on the terminal: headings bold
/// after an empty line, code fences dim, list items with a coloured marker and
/// hanging indent, other text wrapped with a two-space indent.
pub open spec fn model_line_spec(colors: bool, line: Seq<char>, width: int) -> Seq<Seq<char>> {
    let t = trim_spec(line);
    let narrow = if width >= 4 {
        width - 4
    } else {
        0
    };
    if t.len() == 0 {
        seq![Seq::empty()]
    } else if t.len() >= 3 && t.subrange(0, 3) == seq!['`', '`', '`'] {
        seq![paint_spec(colors, ANSI_DIM@, t)]
    } else if t.len() >= 4 && t.subrange(0, 4) == seq!['#', '#', '#', ' '] {
        seq![Seq::empty(), paint_spec(colors, ANSI_BOLD@, t.subrange(4, t.len() as int))]
    } else if t.len() >= 3 && t.subrange(0, 3) == seq!['#', '#', ' '] {
        seq![Seq::empty(), paint_spec(colors, ANSI_BOLD@, t.subrange(3, t.len() as int))]
    } else if t.len() >= 2 && t.subrange(0, 2) == seq!['#', ' '] {
        seq![Seq::empty(), paint_spec(colors, ANSI_BOLD@, t.subrange(2, t.len() as int))]
    } else if t.len() >= 2 && (t.subrange(0, 2) == seq!['*', ' '] || t.subrange(0, 2) == seq![
        '-',
        ' ',
    ]) {
        list_item_lines(
            seq![' ', ' '] + paint_spec(colors, ANSI_GREEN@, seq!['-']) + seq![' '],
            wrap_spec(t.subrange(2, t.len() as int), Seq::empty(), narrow),
        )
    } else {
        match ordered_marker_spec(t) {
            Some(n) => list_item_lines(
                seq![' ', ' '] + paint_spec(colors, ANSI_GREEN@, t.subrange(0, n - 1)) + seq![' '],
                wrap_spec(t.subrange(n, t.len() as int), Seq::empty(), narrow),
            ),
            None => wrap_spec(t, seq![' ', ' '], width),
        }
    }
}

fn prefix_is(t: &Vec<char>, p: &str) -> (r: bool)
    ensures
        r == (p@.len() <= t@.len() && t@.subrange(0, p@.len() as int) == p@),
{
    let ps = chars_of(p);
    if ps.len() > t.len() {
        return false;
    }
    crate::text::chars_match_at(t, &ps, 0)
}

fn one_line(s: String) -> (out: Vec<String>)
    ensures
        views(out@) == seq![s@],
{
    let mut out: Vec<String> = Vec::new();
    out.push(s);
    assert(views(out@) =~= seq![s@]);
    out
}

fn heading(colors: bool, t: &Vec<char>, skip: usize) -> (out: Vec<String>)
    requires
        skip <= t.len(),
    ensures
        views(out@) == seq![
            Seq::<char>::empty(),
            paint_spec(colors, ANSI_BOLD@, t@.subrange(skip as int, t.len() as int)),
        ],
{
    let mut out: Vec<String> = Vec::new();
    let empty: Vec<char> = Vec::new();
    out.push(string_of(&empty));
    let title = string_of(&slice_chars(t, skip, t.len()));
    out.push(paint(colors, ANSI_BOLD, title.as_str()));
    assert(views(out@) =~= seq![
        Seq::<char>::empty(),
        paint_spec(colors, ANSI_BOLD@, t@.subrange(skip as int, t.len() as int)),
    ]);
    out
}

fn list_item(first: &Vec<char>, wrapped: Vec<String>) -> (out: Vec<String>)
    ensures
        views(out@) == list_item_lines(first@, views(wrapped@)),
{
    let mut out: Vec<String> = Vec::new();
    let mut i: usize = 0;
    while i < wrapped.len()
        invariant
            i <= wrapped.len(),
            views(out@) == list_item_lines(first@, views(wrapped@)).subrange(0, i as int),
        decreases wrapped.len() - i,
    {
        let mut l: Vec<char> = Vec::new();
        if i == 0 {
            push_all(&mut l, first);
        } else {
            l.push(' ');
            l.push(' ');
            l.push(' ');
            l.push(' ');
        }
        push_str(&mut l, wrapped[i].as_str());
        let ghost before = views(out@);
        out.push(string_of(&l));
        proof {
            assert(views(wrapped@)[i as int] == wrapped@[i as int]@);
            assert(list_item_lines(first@, views(wrapped@))[i as int] == l@);
            assert(views(out@) =~= before.push(l@));
            assert(list_item_lines(first@, views(wrapped@)).subrange(0, i + 1) =~= list_item_lines(
                first@,
                views(wrapped@),
            ).subrange(0, i as int).push(l@));
        }
        i += 1;
    }
    assert(list_item_lines(first@, views(wrapped@)).subrange(0, wrapped.len() as int)
        =~= list_item_lines(first@, views(wrapped@)));
    out
}

/// The terminal lines for one line of model output.
pub fn model_line_layout(colors: bool, line: &str, width: usize) -> (out: Vec<String>)
    ensures
        views(out@) == model_line_spec(colors, line@, width as int),
{
    let t = trim_chars(&chars_of(line));
    let narrow: usize = if width >= 4 {
        width - 4
    } else {
        0
    };
    let ts = string_of(&t);
    proof {
        reveal_strlit("```");
        reveal_strlit("### ");
        reveal_strlit("## ");
        reveal_strlit("# ");
        reveal_strlit("* ");
        reveal_strlit("- ");
        assert("```"@ =~= seq!['`', '`', '`']);
        assert("### "@ =~= seq!['#', '#', '#', ' ']);
        assert("## "@ =~= seq!['#', '#', ' ']);
        assert("# "@ =~= seq!['#', ' ']);
        assert("* "@ =~= seq!['*', ' ']);
        assert("- "@ =~= seq!['-', ' ']);
        reveal_strlit("");
        reveal_strlit("-");
        reveal_strlit("  ");
        assert(""@ =~= Seq::<char>::empty());
        assert("-"@ =~= seq!['-']);
        assert("  "@ =~= seq![' ', ' ']);
    }
    if t.len() == 0 {
        let empty: Vec<char> = Vec::new();
        return one_line(string_of(&empty));
    }
    if prefix_is(&t, "```") {
        return one_line(paint(colors, ANSI_DIM, ts.as_str()));
    }
    if prefix_is(&t, "### ") {
        return heading(colors, &t, 4);
    }
    if prefix_is(&t, "## ") {
        return heading(colors, &t, 3);
    }
    if prefix_is(&t, "# ") {
        return heading(colors, &t, 2);
    }
    if prefix_is(&t, "* ") || prefix_is(&t, "- ") {
        let rest = string_of(&slice_chars(&t, 2, t.len()));
        let wrapped = wrap_words(rest.as_str(), "", narrow);
        proof {
            reveal_strlit("");
        }
        let mut first: Vec<char> = Vec::new();
        first.push(' ');
        first.push(' ');
        let bullet = paint(colors, ANSI_GREEN, "-");
        proof {
            reveal_strlit("-");
        }
        push_str(&mut first, bullet.as_str());
        first.push(' ');
        assert(first@ =~= seq![' ', ' '] + paint_spec(colors, ANSI_GREEN@, seq!['-']) + seq![' ']);
        return list_item(&first, wrapped);
    }
    match ordered_list_marker(&t) {
        Some(n) => {
            let rest = string_of(&slice_chars(&t, n, t.len()));
            let wrapped = wrap_words(rest.as_str(), "", narrow);
            proof {
                reveal_strlit("");
            }
            let marker = string_of(&slice_chars(&t, 0, n - 1));
            let mut first: Vec<char> = Vec::new();
            first.push(' ');
            first.push(' ');
            let painted = paint(colors, ANSI_GREEN, marker.as_str());
            push_str(&mut first, painted.as_str());
            first.push(' ');
            assert(first@ =~= seq![' ', ' '] + paint_spec(
                colors,
                ANSI_GREEN@,
                t@.subrange(0, n - 1),
            ) + seq![' ']);
            list_item(&first, wrapped)
        },
        None => {
            let r = wrap_words(ts.as_str(), "  ", width);
            proof {
                reveal_strlit("  ");
            }
            r
        },
    }
}

} // verus!
