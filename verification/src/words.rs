//! Text taken apart into white-space separated words, and put back together:
//! compacted to one line or wrapped to a terminal width.

use vstd::prelude::*;
use crate::seqs::views;
use crate::text::{
    char_is_space, chars_of, is_space, lemma_skip_space_bounds, lemma_utf8_width_bounds,
    push_all, skip_space, slice_chars, string_of, utf8_len, utf8_width,
};

verus! {

/// Position of the first white-space character at or after `j`, or the length.
pub open spec fn word_end(s: Seq<char>, j: int) -> int
    decreases s.len() - j,
{
    if j < 0 || j >= s.len() || is_space(s[j]) {
        j
    } else {
        word_end(s, j + 1)
    }
}

pub proof fn lemma_word_end_bounds(s: Seq<char>, j: int)
    requires
        0 <= j <= s.len(),
    ensures
        j <= word_end(s, j) <= s.len(),
        j < s.len() && !is_space(s[j]) ==> j < word_end(s, j),
        forall|k: int| j <= k < word_end(s, j) ==> !is_space(#[trigger] s[k]),
        word_end(s, j) < s.len() ==> is_space(s[word_end(s, j)]),
    decreases s.len() - j,
{
    if j < s.len() && !is_space(s[j]) {
        lemma_word_end_bounds(s, j + 1);
    }
}

/// The white-space separated words of `s` from position `i` on, as std's
/// `str::split_whitespace` yields them.
pub open spec fn words_from(s: Seq<char>, i: int) -> Seq<Seq<char>>
    decreases s.len() - i,
{
    let j = skip_space(s, i);
    if i < 0 || j >= s.len() {
        Seq::empty()
    } else {
        let k = word_end(s, j);
        if k <= i || k > s.len() || j < i {
            Seq::empty()
        } else {
            seq![s.subrange(j, k)] + words_from(s, k)
        }
    }
}

/// The words of `s`.
pub open spec fn words(s: Seq<char>) -> Seq<Seq<char>> {
    words_from(s, 0)
}

/// The words joined by single spaces.
pub open spec fn join_words(ws: Seq<Seq<char>>) -> Seq<char>
    decreases ws.len(),
{
    if ws.len() == 0 {
        Seq::empty()
    } else if ws.len() == 1 {
        ws[0]
    } else {
        join_words(ws.drop_last()) + seq![' '] + ws.last()
    }
}

/// The character views of a vector of character vectors.
pub open spec fn char_views(v: Seq<Vec<char>>) -> Seq<Seq<char>> {
    v.map_values(|x: Vec<char>| x@)
}

/// The words of `s`.
pub fn split_words(s: &Vec<char>) -> (out: Vec<Vec<char>>)
    ensures
        char_views(out@) == words(s@),
{
    let mut out: Vec<Vec<char>> = Vec::new();
    let mut i: usize = 0;
    while i < s.len()
        invariant
            i <= s.len(),
            char_views(out@) + words_from(s@, i as int) == words(s@),
        decreases s.len() - i,
    {
        let mut j = i;
        while j < s.len() && char_is_space(s[j])
            invariant
                i <= j <= s.len(),
                skip_space(s@, i as int) == skip_space(s@, j as int),
            decreases s.len() - j,
        {
            j += 1;
        }
        proof {
            lemma_skip_space_bounds(s@, j as int);
        }
        if j >= s.len() {
            assert(words_from(s@, s.len() as int) =~= Seq::<Seq<char>>::empty());
            i = s.len();
        } else {
            let mut k = j;
            while k < s.len() && !char_is_space(s[k])
                invariant
                    j <= k <= s.len(),
                    word_end(s@, j as int) == word_end(s@, k as int),
                decreases s.len() - k,
            {
                k += 1;
            }
            proof {
                lemma_word_end_bounds(s@, j as int);
            }
            let w = slice_chars(s, j, k);
            let ghost before = char_views(out@);
            out.push(w);
            proof {
                assert(char_views(out@) =~= before.push(w@));
                assert(words_from(s@, i as int) == seq![s@.subrange(j as int, k as int)]
                    + words_from(s@, k as int));
                assert(char_views(out@) + words_from(s@, k as int) =~= before + words_from(
                    s@,
                    i as int,
                ));
            }
            i = k;
        }
    }
    assert(words_from(s@, i as int) =~= Seq::<Seq<char>>::empty());
    assert(char_views(out@) + Seq::<Seq<char>>::empty() =~= char_views(out@));
    out
}

/// Every word is non-empty and holds no white space.
pub proof fn lemma_words_shape(s: Seq<char>, i: int)
    requires
        0 <= i <= s.len(),
    ensures
        forall|n: int| 0 <= n < words_from(s, i).len() ==> (#[trigger] words_from(s, i)[n]).len()
            > 0 && forall|m: int| 0 <= m < words_from(s, i)[n].len() ==> !is_space(
            words_from(s, i)[n][m],
        ),
    decreases s.len() - i,
{
    lemma_skip_space_bounds(s, i);
    let j = skip_space(s, i);
    if j < s.len() {
        lemma_word_end_bounds(s, j);
        let k = word_end(s, j);
        lemma_words_shape(s, k);
        let ws = words_from(s, i);
        assert forall|n: int| 0 <= n < ws.len() implies (#[trigger] ws[n]).len() > 0 && forall|
            m: int,
        | 0 <= m < ws[n].len() ==> !is_space(ws[n][m]) by {
            if n > 0 {
                assert(ws[n] == words_from(s, k)[n - 1]);
            } else {
                assert(ws[n] == s.subrange(j, k));
                assert forall|m: int| 0 <= m < ws[n].len() implies !is_space(ws[n][m]) by {
                    assert(ws[n][m] == s[j + m]);
                }
            }
        }
    }
}

/// The words joined by single spaces.
pub fn join_words_vec(ws: &Vec<Vec<char>>) -> (out: Vec<char>)
    ensures
        out@ == join_words(char_views(ws@)),
{
    let mut out: Vec<char> = Vec::new();
    let mut n: usize = 0;
    while n < ws.len()
        invariant
            n <= ws.len(),
            out@ == join_words(char_views(ws@).subrange(0, n as int)),
        decreases ws.len() - n,
    {
        let ghost before = out@;
        if n > 0 {
            out.push(' ');
        }
        push_all(&mut out, &ws[n]);
        proof {
            let vs = char_views(ws@);
            assert(vs.subrange(0, n + 1).drop_last() =~= vs.subrange(0, n as int));
            if n == 0 {
                assert(out@ =~= vs.subrange(0, 1)[0]);
            } else {
                assert(out@ =~= before + seq![' '] + vs[n as int]);
            }
        }
        n += 1;
    }
    assert(char_views(ws@).subrange(0, ws.len() as int) =~= char_views(ws@));
    out
}

/// `s` on one line with runs of white space made single spaces, cut after
/// `max` characters, with `...` where something was cut.
pub open spec fn compact_spec(s: Seq<char>, max: int) -> Seq<char> {
    let c = join_words(words(s));
    if c.len() > max {
        c.subrange(0, max) + "..."@
    } else {
        c
    }
}

/// One-line summary of free text for a listing.
pub fn compact_text(value: &str, max_chars: usize) -> (out: String)
    ensures
        out@ == compact_spec(value@, max_chars as int),
{
    let s = chars_of(value);
    let ws = split_words(&s);
    let c = join_words_vec(&ws);
    if c.len() > max_chars {
        let mut r = slice_chars(&c, 0, max_chars);
        r.push('.');
        r.push('.');
        r.push('.');
        proof {
            reveal_strlit("...");
            assert(r@ =~= c@.subrange(0, max_chars as int) + "..."@);
        }
        string_of(&r)
    } else {
        string_of(&c)
    }
}


/// Room for words on a line after `indent` in a terminal `width` bytes wide;
/// never below 24.
pub open spec fn wrap_room(width: int, indent: Seq<char>) -> int {
    let r = if width > utf8_width(indent) {
        width - utf8_width(indent)
    } else {
        0
    };
    if r < 24 {
        24
    } else {
        r
    }
}

/// Greedy filling of lines with the words `ws`: the finished lines, and the
/// line being filled. A word goes on the current line when the line, a space
/// and the word fit in `room` bytes; else the line is finished.
pub open spec fn wrap_state(ws: Seq<Seq<char>>, indent: Seq<char>, room: int) -> (
    Seq<Seq<char>>,
    Seq<char>,
)
    decreases ws.len(),
{
    if ws.len() == 0 {
        (Seq::empty(), Seq::empty())
    } else {
        let prev = wrap_state(ws.drop_last(), indent, room);
        let w = ws.last();
        if prev.1.len() == 0 {
            (prev.0, w)
        } else if utf8_width(prev.1) + 1 + utf8_width(w) > room {
            (prev.0.push(indent + prev.1), w)
        } else {
            (prev.0, prev.1 + seq![' '] + w)
        }
    }
}

/// The lines of `text` wrapped at `width`, each led by `indent`; one empty
/// line where there is no word.
pub open spec fn wrap_spec(text: Seq<char>, indent: Seq<char>, width: int) -> Seq<Seq<char>> {
    let st = wrap_state(words(text), indent, wrap_room(width, indent));
    let lines = if st.1.len() > 0 {
        st.0.push(indent + st.1)
    } else {
        st.0
    };
    if lines.len() == 0 {
        seq![Seq::empty()]
    } else {
        lines
    }
}

fn indented(indent: &Vec<char>, body: &Vec<char>) -> (out: String)
    ensures
        out@ == indent@ + body@,
{
    let mut l: Vec<char> = Vec::new();
    push_all(&mut l, indent);
    push_all(&mut l, body);
    string_of(&l)
}

/// `text` wrapped for a terminal `width` bytes wide, each line led by `indent`.
pub fn wrap_words(text: &str, indent: &str, width: usize) -> (lines: Vec<String>)
    ensures
        views(lines@) == wrap_spec(text@, indent@, width as int),
{
    let s = chars_of(text);
    let ind = chars_of(indent);
    let ilen = utf8_len(&ind);
    let w128 = width as u128;
    let mut room: u128 = if w128 > ilen {
        w128 - ilen
    } else {
        0
    };
    if room < 24 {
        room = 24;
    }
    let ws = split_words(&s);
    let mut lines: Vec<String> = Vec::new();
    let mut current: Vec<char> = Vec::new();
    let mut n: usize = 0;
    while n < ws.len()
        invariant
            n <= ws.len(),
            room == wrap_room(width as int, ind@),
            wrap_state(char_views(ws@).subrange(0, n as int), ind@, room as int) == (
                views(lines@),
                current@,
            ),
        decreases ws.len() - n,
    {
        let ghost vs = char_views(ws@);
        let ghost prev_lines = views(lines@);
        let ghost prev_cur = current@;
        proof {
            assert(vs.subrange(0, n + 1).drop_last() =~= vs.subrange(0, n as int));
        }
        if current.len() == 0 {
            push_all(&mut current, &ws[n]);
            assert(current@ =~= vs[n as int]);
        } else {
            let clen = utf8_len(&current);
            let wlen = utf8_len(&ws[n]);
            proof {
                lemma_utf8_width_bounds(current@);
                lemma_utf8_width_bounds(ws@[n as int]@);
                assert(current.len() <= usize::MAX);
                assert(ws@[n as int].len() <= usize::MAX);
                assert(clen <= 4 * current.len());
                assert(wlen <= 4 * ws@[n as int].len());
            }
            if clen + 1 + wlen > room {
                let l = indented(&ind, &current);
                lines.push(l);
                current = Vec::new();
                push_all(&mut current, &ws[n]);
                assert(views(lines@) =~= prev_lines.push(ind@ + prev_cur));
                assert(current@ =~= vs[n as int]);
            } else {
                current.push(' ');
                push_all(&mut current, &ws[n]);
                assert(current@ =~= prev_cur + seq![' '] + vs[n as int]);
            }
        }
        n += 1;
    }
    assert(char_views(ws@).subrange(0, ws.len() as int) =~= char_views(ws@));
    if current.len() > 0 {
        let ghost prev_lines = views(lines@);
        let l = indented(&ind, &current);
        lines.push(l);
        assert(views(lines@) =~= prev_lines.push(ind@ + current@));
    }
    if lines.len() == 0 {
        let empty: Vec<char> = Vec::new();
        lines.push(string_of(&empty));
        assert(views(lines@) =~= seq![Seq::<char>::empty()]);
    }
    lines
}


/// Every item is a non-empty run of non-space characters.
pub open spec fn all_words(ws: Seq<Seq<char>>) -> bool {
    forall|n: int| 0 <= n < ws.len() ==> (#[trigger] ws[n]).len() > 0 && forall|m: int|
        0 <= m < ws[n].len() ==> !is_space(ws[n][m])
}

/// The body of a wrapped line fits in `room` bytes, or is one word that fits
/// nowhere.
pub open spec fn body_fits(body: Seq<char>, room: int) -> bool {
    utf8_width(body) <= room || forall|m: int| 0 <= m < body.len() ==> !is_space(#[trigger] body[m])
}

/// A wrapped line: the indent, then a body that fits.
pub open spec fn line_fits(line: Seq<char>, indent: Seq<char>, room: int) -> bool {
    &&& indent.len() <= line.len()
    &&& line.subrange(0, indent.len() as int) == indent
    &&& body_fits(line.subrange(indent.len() as int, line.len() as int), room)
}

proof fn lemma_wrap_state_fits(ws: Seq<Seq<char>>, indent: Seq<char>, room: int)
    requires
        all_words(ws),
    ensures
        forall|n: int| 0 <= n < wrap_state(ws, indent, room).0.len() ==> line_fits(
            #[trigger] wrap_state(ws, indent, room).0[n],
            indent,
            room,
        ),
        body_fits(wrap_state(ws, indent, room).1, room),
        ws.len() > 0 ==> wrap_state(ws, indent, room).1.len() > 0,
    decreases ws.len(),
{
    if ws.len() > 0 {
        let rest = ws.drop_last();
        assert forall|n: int| 0 <= n < rest.len() implies (#[trigger] rest[n]).len() > 0 && forall|
            m: int,
        | 0 <= m < rest[n].len() ==> !is_space(rest[n][m]) by {
            assert(rest[n] == ws[n]);
        }
        lemma_wrap_state_fits(rest, indent, room);
        let prev = wrap_state(rest, indent, room);
        let w = ws.last();
        assert(w == ws[ws.len() - 1]);
        if prev.1.len() == 0 {
        } else if utf8_width(prev.1) + 1 + utf8_width(w) > room {
            let line = indent + prev.1;
            assert(line.subrange(0, indent.len() as int) =~= indent);
            assert(line.subrange(indent.len() as int, line.len() as int) =~= prev.1);
        } else {
            crate::text::lemma_utf8_width_add(prev.1, seq![' ']);
            crate::text::lemma_utf8_width_add(prev.1 + seq![' '], w);
            assert(utf8_width(seq![' ']) == 1) by {
                assert(seq![' '].drop_last() =~= Seq::<char>::empty());
                assert(seq![' '].last() == ' ');
                assert(utf8_width(Seq::<char>::empty()) == 0);
            }
        }
    }
}

/// Wrapping loses no promise of the width: every line is the indent, then
/// words that fit in the room the width leaves, or a single word longer than
/// that room; text without words gives one empty line.
pub proof fn law_wrap_lines_fit(text: Seq<char>, indent: Seq<char>, width: int)
    ensures
        words(text).len() == 0 ==> wrap_spec(text, indent, width) == seq![Seq::<char>::empty()],
        words(text).len() > 0 ==> forall|n: int|
            0 <= n < wrap_spec(text, indent, width).len() ==> line_fits(
                #[trigger] wrap_spec(text, indent, width)[n],
                indent,
                wrap_room(width, indent),
            ),
{
    let room = wrap_room(width, indent);
    lemma_words_shape(text, 0);
    let ws = words(text);
    lemma_wrap_state_fits(ws, indent, room);
    let st = wrap_state(ws, indent, room);
    if ws.len() > 0 {
        let line = indent + st.1;
        assert(line.subrange(0, indent.len() as int) =~= indent);
        assert(line.subrange(indent.len() as int, line.len() as int) =~= st.1);
        assert forall|n: int| 0 <= n < wrap_spec(text, indent, width).len() implies line_fits(
            #[trigger] wrap_spec(text, indent, width)[n],
            indent,
            room,
        ) by {
            if n < st.0.len() {
                assert(wrap_spec(text, indent, width)[n] == st.0[n]);
            } else {
                assert(wrap_spec(text, indent, width)[n] == line);
            }
        }
    }
}


/// The bodies of wrapped lines: each line without its indent.
pub open spec fn line_bodies(lines: Seq<Seq<char>>, indent: Seq<char>) -> Seq<Seq<char>> {
    lines.map_values(|l: Seq<char>| l.subrange(indent.len() as int, l.len() as int))
}

/// The first word of a line body: everything before its first white space.
pub open spec fn first_word(b: Seq<char>) -> Seq<char> {
    b.subrange(0, word_end(b, 0))
}

proof fn lemma_word_end_concat(x: Seq<char>, y: Seq<char>, j: int)
    requires
        0 <= j <= x.len(),
        y.len() > 0,
        is_space(y[0]),
    ensures
        word_end(x + y, j) == word_end(x, j),
    decreases x.len() - j,
{
    if j < x.len() {
        assert((x + y)[j] == x[j]);
        if !is_space(x[j]) {
            lemma_word_end_concat(x, y, j + 1);
        }
    } else {
        assert((x + y)[j] == y[0]);
    }
}

proof fn lemma_join_push(a: Seq<Seq<char>>, x: Seq<char>)
    ensures
        a.len() > 0 ==> join_words(a.push(x)) == join_words(a) + seq![' '] + x,
        a.len() == 0 ==> join_words(a.push(x)) == x,
{
    assert(a.push(x).drop_last() =~= a);
    assert(a.push(x).last() == x);
    if a.len() == 0 {
        assert(a.push(x).len() == 1);
        assert(a.push(x)[0] == x);
    }
}

proof fn lemma_wrap_state_keeps(ws: Seq<Seq<char>>, indent: Seq<char>, room: int)
    requires
        all_words(ws),
        ws.len() > 0,
    ensures
        wrap_state(ws, indent, room).1.len() > 0,
        !is_space(wrap_state(ws, indent, room).1[0]),
        join_words(line_bodies(wrap_state(ws, indent, room).0, indent).push(
            wrap_state(ws, indent, room).1,
        )) == join_words(ws),
        forall|n: int|
            0 <= n < line_bodies(wrap_state(ws, indent, room).0, indent).len() ==> utf8_width(
                #[trigger] line_bodies(wrap_state(ws, indent, room).0, indent).push(
                    wrap_state(ws, indent, room).1,
                )[n],
            ) + 1 + utf8_width(
                first_word(
                    line_bodies(wrap_state(ws, indent, room).0, indent).push(
                        wrap_state(ws, indent, room).1,
                    )[n + 1],
                ),
            ) > room,
    decreases ws.len(),
{
    let rest = ws.drop_last();
    let w = ws.last();
    assert(w == ws[ws.len() - 1]);
    assert(w.len() > 0 && forall|m: int| 0 <= m < w.len() ==> !is_space(w[m]));
    lemma_word_end_bounds(w, 0);
    assert(word_end(w, 0) == w.len());
    assert(first_word(w) =~= w);
    let st = wrap_state(ws, indent, room);
    if rest.len() == 0 {
        let prev0 = wrap_state(rest, indent, room);
        assert(prev0.1.len() == 0 && prev0.0.len() == 0);
        assert(st.0 =~= Seq::<Seq<char>>::empty() && st.1 == w);
        assert(line_bodies(st.0, indent) =~= Seq::<Seq<char>>::empty());
        lemma_join_push(Seq::<Seq<char>>::empty(), w);
        assert(ws =~= seq![w]);
        assert(Seq::<Seq<char>>::empty().push(w) =~= seq![w]);
    } else {
        assert forall|n: int| 0 <= n < rest.len() implies (#[trigger] rest[n]).len() > 0 && forall|
            m: int,
        | 0 <= m < rest[n].len() ==> !is_space(rest[n][m]) by {
            assert(rest[n] == ws[n]);
        }
        lemma_wrap_state_keeps(rest, indent, room);
        let prev = wrap_state(rest, indent, room);
        let pb = line_bodies(prev.0, indent);
        let pall = pb.push(prev.1);
        assert(join_words(ws) == join_words(rest) + seq![' '] + w);
        if utf8_width(prev.1) + 1 + utf8_width(w) > room {
            let line = indent + prev.1;
            assert(line.subrange(indent.len() as int, line.len() as int) =~= prev.1);
            let nb = line_bodies(prev.0.push(line), indent);
            assert(nb =~= pall);
            lemma_join_push(pall, w);
            let all = nb.push(w);
            assert forall|n: int| 0 <= n < nb.len() implies utf8_width(#[trigger] all[n]) + 1
                + utf8_width(first_word(all[n + 1])) > room by {
                if n + 1 < nb.len() {
                    assert(all[n] == pall[n]);
                    assert(all[n + 1] == pall[n + 1]);
                } else {
                    assert(all[n] == prev.1);
                    assert(all[n + 1] == w);
                }
            }
        } else {
            let cur = prev.1 + seq![' '] + w;
            assert(cur =~= prev.1 + (seq![' '] + w));
            lemma_word_end_concat(prev.1, seq![' '] + w, 0);
            assert(first_word(cur) =~= first_word(prev.1)) by {
                lemma_word_end_bounds(prev.1, 0);
            }
            assert(cur[0] == prev.1[0]);
            let all = pb.push(cur);
            if pb.len() > 0 {
                lemma_join_push(pb, prev.1);
                lemma_join_push(pb, cur);
            } else {
                lemma_join_push(pb, prev.1);
                lemma_join_push(pb, cur);
            }
            assert(join_words(all) =~= join_words(pall) + seq![' '] + w);
            assert forall|n: int| 0 <= n < pb.len() implies utf8_width(#[trigger] all[n]) + 1
                + utf8_width(first_word(all[n + 1])) > room by {
                assert(all[n] == pall[n]);
                if n + 1 < pb.len() {
                    assert(all[n + 1] == pall[n + 1]);
                } else {
                    assert(all[n + 1] == cur);
                    assert(pall[n + 1] == prev.1);
                }
            }
        }
    }
}

/// Wrapping keeps every word and fills greedily: the line bodies joined by
/// single spaces are the words of the text joined by single spaces, and no
/// line could have taken the first word of the next one.
pub proof fn law_wrap_keeps_words_greedy(text: Seq<char>, indent: Seq<char>, width: int)
    requires
        words(text).len() > 0,
    ensures
        join_words(line_bodies(wrap_spec(text, indent, width), indent)) == join_words(
            words(text),
        ),
        forall|n: int|
            0 <= n < wrap_spec(text, indent, width).len() - 1 ==> utf8_width(
                #[trigger] line_bodies(wrap_spec(text, indent, width), indent)[n],
            ) + 1 + utf8_width(first_word(line_bodies(wrap_spec(text, indent, width), indent)[n + 1]))
                > wrap_room(width, indent),
{
    let room = wrap_room(width, indent);
    lemma_words_shape(text, 0);
    let ws = words(text);
    lemma_wrap_state_keeps(ws, indent, room);
    let st = wrap_state(ws, indent, room);
    let line = indent + st.1;
    assert(line.subrange(indent.len() as int, line.len() as int) =~= st.1);
    assert(wrap_spec(text, indent, width) == st.0.push(line));
    assert(line_bodies(st.0.push(line), indent) =~= line_bodies(st.0, indent).push(st.1));
}

/// A compacted summary never runs past its limit by more than the `...`
/// that marks the cut.
pub proof fn law_compact_bounded(s: Seq<char>, max: int)
    requires
        max >= 0,
    ensures
        compact_spec(s, max).len() <= max + 3,
{
    reveal_strlit("...");
}

} // verus!
