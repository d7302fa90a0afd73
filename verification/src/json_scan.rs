//! Small JSON readers and writers for the flat documents the CLI keeps
//! itself (hot-state snapshots, rebuild reports) and for provider replies.
//!
//! The readers scan text; they do not build a document. A field is found by
//! its first spelling `"key":` in the text.

use vstd::prelude::*;
use vstd::string::StringSliceAdditionalSpecFns;
use crate::seqs::{find, find_from, first_item_from, lemma_find_bounds, lemma_first_item_facts};
use crate::text::{
    chars_of, find_bytes_from, find_char_from, find_chars_from, push_all, push_str, slice_chars,
    string_of, trim_chars, trim_spec,
};

verus! {

/// Text of the string field `key`: the characters between `"key":"` and the
/// next `"`.
pub open spec fn string_field_spec(content: Seq<char>, key: Seq<char>) -> Option<Seq<char>> {
    let marker = "\""@ + key + "\":\""@;
    let p = find(content, marker);
    if p < 0 {
        None
    } else {
        let start = p + marker.len();
        let e = first_item_from(content, '"', start);
        if e < 0 {
            None
        } else {
            Some(content.subrange(start, e))
        }
    }
}

fn field_marker(key: &str, tail: &str) -> (out: Vec<char>)
    ensures
        out@ == "\""@ + key@ + tail@,
{
    let mut m = chars_of("\"");
    push_str(&mut m, key);
    push_str(&mut m, tail);
    m
}

/// The string field `key` of a flat JSON text.
pub fn json_string_field(content: &str, key: &str) -> (r: Option<String>)
    ensures
        match r {
            Some(v) => string_field_spec(content@, key@) == Some(v@),
            None => string_field_spec(content@, key@) is None,
        },
{
    let c = chars_of(content);
    let _n = c.len();
    let marker = field_marker(key, "\":\"");
    let p = match find_chars_from(&c, &marker, 0) {
        Some(p) => p,
        None => {
            return None;
        },
    };
    proof {
        lemma_find_bounds(c@, marker@, 0);
    }
    assert(p + marker@.len() <= c@.len());
    let start = p + marker.len();
    let e = match find_char_from(&c, '"', start) {
        Some(e) => e,
        None => {
            return None;
        },
    };
    Some(string_of(&slice_chars(&c, start, e)))
}

/// An ASCII decimal digit.
pub open spec fn is_ascii_digit(c: char) -> bool {
    '0' <= c && c <= '9'
}

/// End of the run of ASCII digits that starts at `i`.
pub open spec fn digit_run_end(s: Seq<char>, i: int) -> int
    decreases s.len() - i,
{
    if i < 0 {
        0
    } else if i >= s.len() {
        s.len() as int
    } else if is_ascii_digit(s[i]) {
        digit_run_end(s, i + 1)
    } else {
        i
    }
}

/// Text of the number field `key`: the digits that follow `"key":`.
pub open spec fn number_field_spec(content: Seq<char>, key: Seq<char>) -> Option<Seq<char>> {
    let marker = "\""@ + key + "\":"@;
    let p = find(content, marker);
    if p < 0 {
        None
    } else {
        let start = p + marker.len();
        let e = digit_run_end(content, start);
        if e > start {
            Some(content.subrange(start, e))
        } else {
            None
        }
    }
}

proof fn lemma_digit_run_bounds(s: Seq<char>, i: int)
    requires
        0 <= i <= s.len(),
    ensures
        i <= digit_run_end(s, i) <= s.len(),
    decreases s.len() - i,
{
    if i < s.len() && is_ascii_digit(s[i]) {
        lemma_digit_run_bounds(s, i + 1);
    }
}

/// The number field `key` of a flat JSON text, as its digits.
pub fn json_number_field(content: &str, key: &str) -> (r: Option<String>)
    ensures
        match r {
            Some(v) => number_field_spec(content@, key@) == Some(v@),
            None => number_field_spec(content@, key@) is None,
        },
{
    let c = chars_of(content);
    let _n = c.len();
    let marker = field_marker(key, "\":");
    let p = match find_chars_from(&c, &marker, 0) {
        Some(p) => p,
        None => {
            return None;
        },
    };
    proof {
        lemma_find_bounds(c@, marker@, 0);
    }
    let start = p + marker.len();
    let mut e = start;
    while e < c.len() && '0' <= c[e] && c[e] <= '9'
        invariant
            start <= e <= c.len(),
            digit_run_end(c@, start as int) == digit_run_end(c@, e as int),
        decreases c.len() - e,
    {
        e += 1;
    }
    if e > start {
        Some(string_of(&slice_chars(&c, start, e)))
    } else {
        None
    }
}

/// The string field `key`, or `fallback` when it is missing or empty.
pub open spec fn string_or_spec(content: Seq<char>, key: Seq<char>, fallback: Seq<char>) -> Seq<char> {
    match string_field_spec(content, key) {
        Some(v) => if v.len() > 0 {
            v
        } else {
            fallback
        },
        None => fallback,
    }
}

/// The string field `key`, or `fallback` when it is missing or empty.
pub fn json_string_or(content: &str, key: &str, fallback: &str) -> (r: String)
    ensures
        r@ == string_or_spec(content@, key@, fallback@),
{
    match json_string_field(content, key) {
        Some(v) => {
            if chars_of(v.as_str()).len() > 0 {
                v
            } else {
                crate::text::owned(fallback)
            }
        },
        None => crate::text::owned(fallback),
    }
}

/// String keys a hot-state snapshot must carry.
pub open spec fn hot_string_keys() -> Seq<Seq<char>> {
    seq![
        "hot_state_id"@,
        "case_ref"@,
        "case_session_id"@,
        "case_context_id"@,
        "case_session_status"@,
        "case_world_status"@,
        "case_context_status"@,
        "projection_freshness"@,
        "projection_stale_reason"@,
    ]
}

/// Number keys a hot-state snapshot must carry.
pub open spec fn hot_number_keys() -> Seq<Seq<char>> {
    seq!["case_version"@, "updated_at_unix_ms"@]
}

/// A usable hot-state snapshot: a braced text of schema
/// `yai.hot_state.v1` that carries every required field.
pub open spec fn hot_snapshot_valid(content: Seq<char>) -> bool {
    let t = trim_spec(content);
    &&& t.len() > 0
    &&& t[0] == '{'
    &&& t[t.len() - 1] == '}'
    &&& string_field_spec(content, "schema"@) == Some("yai.hot_state.v1"@)
    &&& forall|k: int|
        0 <= k < hot_string_keys().len() ==> string_field_spec(content, #[trigger] hot_string_keys()[k]) is Some
    &&& forall|k: int|
        0 <= k < hot_number_keys().len() ==> number_field_spec(content, #[trigger] hot_number_keys()[k]) is Some
}

fn hot_string_key_list() -> (out: Vec<&'static str>)
    ensures
        out@.len() == hot_string_keys().len(),
        forall|k: int| 0 <= k < out@.len() ==> out@[k]@ == hot_string_keys()[k],
{
    let v = vec![
        "hot_state_id",
        "case_ref",
        "case_session_id",
        "case_context_id",
        "case_session_status",
        "case_world_status",
        "case_context_status",
        "projection_freshness",
        "projection_stale_reason",
    ];
    v
}

/// Whether a hot-state snapshot can be used.
pub fn validate_hot_snapshot(content: &str) -> (ok: bool)
    ensures
        ok == hot_snapshot_valid(content@),
{
    let t = trim_chars(&chars_of(content));
    if t.len() == 0 || t[0] != '{' || t[t.len() - 1] != '}' {
        return false;
    }
    match json_string_field(content, "schema") {
        Some(schema) => {
            let sc = chars_of(schema.as_str());
            let want = chars_of("yai.hot_state.v1");
            if !chars_equal(&sc, &want) {
                return false;
            }
        },
        None => {
            return false;
        },
    }
    let keys = hot_string_key_list();
    let mut k: usize = 0;
    while k < keys.len()
        invariant
            k <= keys.len(),
            keys@.len() == hot_string_keys().len(),
            forall|m: int| 0 <= m < keys@.len() ==> keys@[m]@ == hot_string_keys()[m],
            forall|m: int|
                0 <= m < k ==> string_field_spec(content@, #[trigger] hot_string_keys()[m]) is Some,
        decreases keys.len() - k,
    {
        if json_string_field(content, keys[k]).is_none() {
            assert(string_field_spec(content@, hot_string_keys()[k as int]) is None);
            return false;
        }
        k += 1;
    }
    let case_version = json_number_field(content, "case_version");
    let updated = json_number_field(content, "updated_at_unix_ms");
    proof {
        assert(hot_number_keys()[0] == "case_version"@);
        assert(hot_number_keys()[1] == "updated_at_unix_ms"@);
    }
    case_version.is_some() && updated.is_some()
}

/// Equality of two character vectors.
pub fn chars_equal(a: &Vec<char>, b: &Vec<char>) -> (r: bool)
    ensures
        r == (a@ == b@),
{
    if a.len() != b.len() {
        return false;
    }
    let mut i: usize = 0;
    while i < a.len()
        invariant
            a.len() == b.len(),
            i <= a.len(),
            forall|m: int| 0 <= m < i ==> a@[m] == b@[m],
        decreases a.len() - i,
    {
        if a[i] != b[i] {
            return false;
        }
        i += 1;
    }
    assert(a@ =~= b@);
    true
}

/// A control character (Unicode general category Cc).
pub open spec fn is_control(c: char) -> bool {
    c <= '\u{1f}' || ('\u{7f}' <= c && c <= '\u{9f}')
}

pub fn char_is_control(c: char) -> (r: bool)
    ensures
        r == is_control(c),
{
    c <= '\u{1f}' || ('\u{7f}' <= c && c <= '\u{9f}')
}

/// Lowercase hexadecimal digit of `v` (below 16).
pub open spec fn hex_digit(v: int) -> char {
    if v < 10 {
        ((v + 48) as u8) as char
    } else {
        ((v + 87) as u8) as char
    }
}

/// A digit written for a value below 16 is an ASCII digit or lowercase letter.
pub proof fn lemma_hex_digit_is_digit(v: int)
    ensures
        0 <= v < 16 ==> (('0' <= hex_digit(v) && hex_digit(v) <= '9') || ('a' <= hex_digit(v)
            && hex_digit(v) <= 'f')),
{
}

/// Four lowercase hexadecimal digits of `v` (below 65536).
pub open spec fn hex4(v: int) -> Seq<char> {
    seq![hex_digit(v / 4096), hex_digit((v / 256) % 16), hex_digit((v / 16) % 16), hex_digit(v % 16)]
}

/// How one character is written inside a JSON string.
pub open spec fn escape_char(c: char) -> Seq<char> {
    if c == '"' {
        seq!['\\', '"']
    } else if c == '\\' {
        seq!['\\', '\\']
    } else if c == '\n' {
        seq!['\\', 'n']
    } else if c == '\r' {
        seq!['\\', 'r']
    } else if c == '\t' {
        seq!['\\', 't']
    } else if is_control(c) {
        seq!['\\', 'u'] + hex4(c as int)
    } else {
        seq![c]
    }
}

/// A text written as the content of a JSON string.
pub open spec fn escape_spec(s: Seq<char>) -> Seq<char>
    decreases s.len(),
{
    if s.len() == 0 {
        Seq::empty()
    } else {
        escape_spec(s.drop_last()) + escape_char(s.last())
    }
}

fn hex_digit_exec(v: u32) -> (c: char)
    requires
        v < 16,
    ensures
        c == hex_digit(v as int),
{
    if v < 10 {
        ((v + 48) as u8) as char
    } else {
        ((v + 87) as u8) as char
    }
}

/// Write `s` as the content of a JSON string.
pub fn json_escape(value: &str) -> (out: String)
    ensures
        out@ == escape_spec(value@),
{
    let s = chars_of(value);
    let mut out: Vec<char> = Vec::new();
    let mut i: usize = 0;
    while i < s.len()
        invariant
            i <= s.len(),
            out@ == escape_spec(s@.subrange(0, i as int)),
        decreases s.len() - i,
    {
        let c = s[i];
        let ghost before = out@;
        if c == '"' {
            out.push('\\');
            out.push('"');
        } else if c == '\\' {
            out.push('\\');
            out.push('\\');
        } else if c == '\n' {
            out.push('\\');
            out.push('n');
        } else if c == '\r' {
            out.push('\\');
            out.push('r');
        } else if c == '\t' {
            out.push('\\');
            out.push('t');
        } else if char_is_control(c) {
            let v = crate::text::code_of(c);
            assert(v <= 0x9f);
            out.push('\\');
            out.push('u');
            out.push(hex_digit_exec(v / 4096));
            out.push(hex_digit_exec((v / 256) % 16));
            out.push(hex_digit_exec((v / 16) % 16));
            out.push(hex_digit_exec(v % 16));
        } else {
            out.push(c);
        }
        proof {
            assert(out@ =~= before + escape_char(c));
            assert(s@.subrange(0, i + 1).drop_last() =~= s@.subrange(0, i as int));
        }
        i += 1;
    }
    assert(s@.subrange(0, s.len() as int) =~= s@);
    string_of(&out)
}

/// `v` with each item written as a JSON string, separated by commas.
pub open spec fn string_array_spec(v: Seq<Seq<char>>) -> Seq<char>
    decreases v.len(),
{
    if v.len() == 0 {
        Seq::empty()
    } else if v.len() == 1 {
        seq!['"'] + escape_spec(v[0]) + seq!['"']
    } else {
        string_array_spec(v.drop_last()) + seq![','] + seq!['"'] + escape_spec(v.last()) + seq!['"']
    }
}

/// The items of `values` written as JSON strings, separated by commas.
pub fn json_string_array(values: &[String]) -> (out: String)
    ensures
        out@ == string_array_spec(crate::seqs::views(values@)),
{
    let ghost vs = crate::seqs::views(values@);
    let mut out: Vec<char> = Vec::new();
    let mut i: usize = 0;
    while i < values.len()
        invariant
            i <= values.len(),
            vs == crate::seqs::views(values@),
            out@ == string_array_spec(vs.subrange(0, i as int)),
        decreases values.len() - i,
    {
        let ghost before = out@;
        if i > 0 {
            out.push(',');
        }
        out.push('"');
        let esc = json_escape(values[i].as_str());
        push_str(&mut out, esc.as_str());
        out.push('"');
        proof {
            let pre = vs.subrange(0, i + 1);
            assert(pre.drop_last() =~= vs.subrange(0, i as int));
            assert(pre.last() == values@[i as int]@);
            if i == 0 {
                assert(out@ =~= seq!['"'] + escape_spec(pre[0]) + seq!['"']);
            } else {
                assert(out@ =~= before + seq![','] + seq!['"'] + escape_spec(pre.last()) + seq!['"']);
            }
        }
        i += 1;
    }
    assert(vs.subrange(0, values.len() as int) =~= vs);
    string_of(&out)
}

/// A hexadecimal digit byte.
pub open spec fn is_hex_byte(b: u8) -> bool {
    (48 <= b <= 57) || (97 <= b <= 102) || (65 <= b <= 70)
}

/// Value of a hexadecimal digit byte.
pub open spec fn hex_byte_value(b: u8) -> int {
    if 48 <= b <= 57 {
        b - 48
    } else if 97 <= b <= 102 {
        b - 87
    } else {
        b - 55
    }
}

/// Value of the four bytes after `\u`, read as std's `u16::from_str_radix`
/// reads them with radix 16 (an optional `+` counts as a sign).
pub open spec fn hex4_bytes_value(q: Seq<u8>) -> Option<int> {
    if q.len() != 4 {
        None
    } else if q[0] == 43 {
        if is_hex_byte(q[1]) && is_hex_byte(q[2]) && is_hex_byte(q[3]) {
            Some(hex_byte_value(q[1]) * 256 + hex_byte_value(q[2]) * 16 + hex_byte_value(q[3]))
        } else {
            None
        }
    } else if is_hex_byte(q[0]) && is_hex_byte(q[1]) && is_hex_byte(q[2]) && is_hex_byte(q[3]) {
        Some(
            hex_byte_value(q[0]) * 4096 + hex_byte_value(q[1]) * 256 + hex_byte_value(q[2]) * 16
                + hex_byte_value(q[3]),
        )
    } else {
        None
    }
}

/// A UTF-16 surrogate, which names no character.
pub open spec fn is_surrogate(v: int) -> bool {
    0xD800 <= v <= 0xDFFF
}

/// The character an escape `\e` stands for, `e` other than `u`.
pub open spec fn unescape_byte(e: u8) -> char {
    if e == 34 {
        '"'
    } else if e == 92 {
        '\\'
    } else if e == 47 {
        '/'
    } else if e == 98 {
        '\u{8}'
    } else if e == 102 {
        '\u{c}'
    } else if e == 110 {
        '\n'
    } else if e == 114 {
        '\r'
    } else if e == 116 {
        '\t'
    } else {
        e as char
    }
}

/// The rest of a JSON string from byte `i` on, with `acc` read so far: the
/// text and the position after the closing quote. Plain bytes are taken one
/// by one as characters.
pub open spec fn string_body(b: Seq<u8>, i: int, acc: Seq<char>) -> Option<(Seq<char>, int)>
    decreases b.len() - i,
{
    if i < 0 || i >= b.len() {
        None
    } else if b[i] == 34 {
        Some((acc, i + 1))
    } else if b[i] == 92 {
        if i + 1 >= b.len() {
            None
        } else if b[i + 1] == 117 {
            if i + 6 > b.len() {
                None
            } else {
                match hex4_bytes_value(b.subrange(i + 2, i + 6)) {
                    None => None,
                    Some(v) => string_body(
                        b,
                        i + 6,
                        if is_surrogate(v) {
                            acc
                        } else {
                            acc.push(v as char)
                        },
                    ),
                }
            }
        } else {
            string_body(b, i + 2, acc.push(unescape_byte(b[i + 1])))
        }
    } else {
        string_body(b, i + 1, acc.push(b[i] as char))
    }
}

/// The JSON string that starts at byte `i`: its text and the position after it.
pub open spec fn string_at_spec(b: Seq<u8>, i: int) -> Option<(Seq<char>, int)> {
    if 0 <= i < b.len() && b[i] == 34 {
        string_body(b, i + 1, Seq::empty())
    } else {
        None
    }
}

/// The character of code point `v`, when `v` is one. Calls std's
/// `char::from_u32`; claims it gives a character exactly for the values
/// that are not surrogates and not above 0x10FFFF.
#[verifier::external_body]
fn char_from_code(v: u32) -> (r: Option<char>)
    ensures
        v <= 0xFFFF ==> (match r {
            Some(c) => !is_surrogate(v as int) && c == (v as char),
            None => is_surrogate(v as int),
        }),
{
    char::from_u32(v)
}

fn hex_byte_exec(b: u8) -> (r: Option<u32>)
    ensures
        match r {
            Some(v) => is_hex_byte(b) && v == hex_byte_value(b),
            None => !is_hex_byte(b),
        },
{
    if 48 <= b && b <= 57 {
        Some((b - 48) as u32)
    } else if 97 <= b && b <= 102 {
        Some((b - 87) as u32)
    } else if 65 <= b && b <= 70 {
        Some((b - 55) as u32)
    } else {
        None
    }
}

fn hex4_exec(b: &[u8], i: usize) -> (r: Option<u32>)
    requires
        i + 4 <= b.len(),
    ensures
        match r {
            Some(v) => hex4_bytes_value(b@.subrange(i as int, i + 4)) == Some(v as int) && v <= 0xFFFF,
            None => hex4_bytes_value(b@.subrange(i as int, i + 4)) is None,
        },
{
    let ghost q = b@.subrange(i as int, i + 4);
    assert(q[0] == b@[i as int] && q[1] == b@[i + 1] && q[2] == b@[i + 2] && q[3] == b@[i + 3]);
    if b[i] == 43 {
        match (hex_byte_exec(b[i + 1]), hex_byte_exec(b[i + 2]), hex_byte_exec(b[i + 3])) {
            (Some(x), Some(y), Some(z)) => Some(x * 256 + y * 16 + z),
            _ => None,
        }
    } else {
        match (
            hex_byte_exec(b[i]),
            hex_byte_exec(b[i + 1]),
            hex_byte_exec(b[i + 2]),
            hex_byte_exec(b[i + 3]),
        ) {
            (Some(w), Some(x), Some(y), Some(z)) => Some(w * 4096 + x * 256 + y * 16 + z),
            _ => None,
        }
    }
}

fn unescape_exec(e: u8) -> (c: char)
    ensures
        c == unescape_byte(e),
{
    if e == 34 {
        '"'
    } else if e == 92 {
        '\\'
    } else if e == 47 {
        '/'
    } else if e == 98 {
        '\u{8}'
    } else if e == 102 {
        '\u{c}'
    } else if e == 110 {
        '\n'
    } else if e == 114 {
        '\r'
    } else if e == 116 {
        '\t'
    } else {
        e as char
    }
}

/// Read the JSON string that starts at byte `index` of `bytes`.
pub fn parse_json_string_at(bytes: &[u8], index: usize) -> (r: Option<(String, usize)>)
    ensures
        match r {
            Some((text, end)) => string_at_spec(bytes@, index as int) == Some((text@, end as int)),
            None => string_at_spec(bytes@, index as int) is None,
        },
{
    if index >= bytes.len() || bytes[index] != 34 {
        return None;
    }
    let mut out: Vec<char> = Vec::new();
    let mut i = index + 1;
    while i < bytes.len()
        invariant
            index < bytes.len(),
            bytes@[index as int] == 34,
            index < i <= bytes.len(),
            string_at_spec(bytes@, index as int) == string_body(bytes@, i as int, out@),
        decreases bytes.len() - i,
    {
        let byte = bytes[i];
        if byte == 34 {
            return Some((string_of(&out), i + 1));
        } else if byte == 92 {
            if i + 1 >= bytes.len() {
                return None;
            }
            let escaped = bytes[i + 1];
            if escaped == 117 {
                if bytes.len() - i < 6 {
                    return None;
                }
                match hex4_exec(bytes, i + 2) {
                    None => {
                        return None;
                    },
                    Some(v) => {
                        match char_from_code(v) {
                            Some(ch) => out.push(ch),
                            None => {},
                        }
                    },
                }
                i += 6;
            } else {
                out.push(unescape_exec(escaped));
                i += 2;
            }
        } else {
            out.push(byte as char);
            i += 1;
        }
    }
    None
}

/// An ASCII white-space byte, as std's `u8::is_ascii_whitespace`.
pub open spec fn is_ascii_space(b: u8) -> bool {
    b == 32 || b == 9 || b == 10 || b == 12 || b == 13
}

/// The first byte at or after `i` that is not ASCII white space, or the length.
pub open spec fn skip_ascii_space(b: Seq<u8>, i: int) -> int
    decreases b.len() - i,
{
    if i < 0 {
        0
    } else if i >= b.len() {
        b.len() as int
    } else if is_ascii_space(b[i]) {
        skip_ascii_space(b, i + 1)
    } else {
        i
    }
}

proof fn lemma_skip_ascii_bounds(b: Seq<u8>, i: int)
    requires
        0 <= i <= b.len(),
    ensures
        i <= skip_ascii_space(b, i) <= b.len(),
    decreases b.len() - i,
{
    if i < b.len() && is_ascii_space(b[i]) {
        lemma_skip_ascii_bounds(b, i + 1);
    }
}

/// The bytes `"field"` that name a field.
pub open spec fn field_needle(field: Seq<u8>) -> Seq<u8> {
    seq![34u8] + field + seq![34u8]
}

/// Search for the string value of `"field"` from byte `start` on: every
/// spelling of the name is tried until one is followed by `:` and a string.
pub open spec fn extract_from(b: Seq<u8>, needle: Seq<u8>, start: int) -> Option<Seq<char>>
    decreases b.len() - start,
{
    let p = find_from(b, needle, start);
    if start < 0 || p < 0 || needle.len() == 0 {
        None
    } else {
        let i = skip_ascii_space(b, p + needle.len());
        if i >= b.len() || i <= start {
            None
        } else if b[i] != 58 {
            extract_from(b, needle, i)
        } else {
            let j = skip_ascii_space(b, i + 1);
            if j >= b.len() || j <= start {
                None
            } else {
                match string_at_spec(b, j) {
                    Some((v, _)) => Some(v),
                    None => extract_from(b, needle, j),
                }
            }
        }
    }
}

/// The string value of the field `field` anywhere in `source`.
pub fn extract_json_string_field(source: &str, field: &str) -> (r: Option<String>)
    ensures
        match r {
            Some(v) => extract_from(source.spec_bytes(), field_needle(field.spec_bytes()), 0) == Some(v@),
            None => extract_from(source.spec_bytes(), field_needle(field.spec_bytes()), 0) is None,
        },
{
    let bytes = source.as_bytes();
    let fb = field.as_bytes();
    let mut needle: Vec<u8> = Vec::new();
    needle.push(34);
    let mut k: usize = 0;
    while k < fb.len()
        invariant
            k <= fb.len(),
            needle@ == seq![34u8] + fb@.subrange(0, k as int),
        decreases fb.len() - k,
    {
        needle.push(fb[k]);
        k += 1;
        assert(needle@ =~= seq![34u8] + fb@.subrange(0, k as int));
    }
    needle.push(34);
    assert(needle@ =~= field_needle(fb@));
    let ghost b = bytes@;
    let ghost nd = needle@;
    let mut start: usize = 0;
    loop
        invariant
            b == bytes@,
            nd == needle@,
            b == source.spec_bytes(),
            nd == field_needle(field.spec_bytes()),
            nd.len() >= 2,
            start <= bytes.len(),
            extract_from(b, nd, 0) == extract_from(b, nd, start as int),
        decreases bytes.len() - start,
    {
        let p = match find_bytes_from(bytes, needle.as_slice(), start) {
            Some(p) => p,
            None => {
                return None;
            },
        };
        proof {
            crate::seqs::lemma_find_bounds(b, nd, start as int);
        }
        let mut index = p + needle.len();
        while index < bytes.len() && (bytes[index] == 32 || bytes[index] == 9 || bytes[index] == 10
            || bytes[index] == 12 || bytes[index] == 13)
            invariant
                b == bytes@,
                p + nd.len() <= index <= bytes.len(),
                skip_ascii_space(b, p + nd.len()) == skip_ascii_space(b, index as int),
            decreases bytes.len() - index,
        {
            index += 1;
        }
        if index >= bytes.len() {
            return None;
        }
        proof {
            lemma_skip_ascii_bounds(b, p + nd.len());
        }
        if bytes[index] != 58 {
            start = index;
            continue;
        }
        let mut j = index + 1;
        while j < bytes.len() && (bytes[j] == 32 || bytes[j] == 9 || bytes[j] == 10 || bytes[j]
            == 12 || bytes[j] == 13)
            invariant
                b == bytes@,
                index + 1 <= j <= bytes.len(),
                skip_ascii_space(b, index + 1) == skip_ascii_space(b, j as int),
            decreases bytes.len() - j,
        {
            j += 1;
        }
        proof {
            lemma_skip_ascii_bounds(b, index + 1);
        }
        if j >= bytes.len() {
            return None;
        }
        match parse_json_string_at(bytes, j) {
            Some((value, _)) => {
                return Some(value);
            },
            None => {
                start = j;
            },
        }
    }
}

/// The bytes of a text of ASCII characters.
pub open spec fn ascii_bytes(t: Seq<char>) -> Seq<u8> {
    t.map_values(|c: char| c as u8)
}

/// Every character of `s` is ASCII.
pub open spec fn is_ascii_text(s: Seq<char>) -> bool {
    forall|i: int| 0 <= i < s.len() ==> (s[i] as int) < 128
}

proof fn lemma_escape_front(s: Seq<char>)
    requires
        s.len() > 0,
    ensures
        escape_spec(s) == escape_char(s[0]) + escape_spec(s.drop_first()),
    decreases s.len(),
{
    if s.len() == 1 {
        assert(s.drop_last() =~= Seq::<char>::empty());
        assert(s.drop_first() =~= Seq::<char>::empty());
        assert(escape_spec(s.drop_last()) == Seq::<char>::empty());
        assert(escape_spec(s.drop_first()) == Seq::<char>::empty());
        assert(s.last() == s[0]);
        assert(escape_spec(s) =~= escape_char(s[0]) + escape_spec(s.drop_first()));
    } else {
        lemma_escape_front(s.drop_last());
        assert(s.drop_last().drop_first() =~= s.drop_first().drop_last());
        assert(s.drop_first().last() == s.last());
        assert(escape_spec(s) =~= escape_char(s[0]) + escape_spec(s.drop_first()));
    }
}

proof fn lemma_ascii_bytes_add(a: Seq<char>, b: Seq<char>)
    ensures
        ascii_bytes(a + b) == ascii_bytes(a) + ascii_bytes(b),
{
    assert(ascii_bytes(a + b) =~= ascii_bytes(a) + ascii_bytes(b));
}

proof fn lemma_hex_digit_byte(v: int)
    requires
        0 <= v < 16,
    ensures
        is_hex_byte(hex_digit(v) as u8),
        hex_byte_value(hex_digit(v) as u8) == v,
        (hex_digit(v) as u8) != 43,
{
}

/// One escaped ASCII character is read back as itself.
proof fn lemma_body_char(b: Seq<u8>, i: int, acc: Seq<char>, c: char)
    requires
        (c as int) < 128,
        0 <= i,
        i + escape_char(c).len() < b.len(),
        b.subrange(i, i + escape_char(c).len()) == ascii_bytes(escape_char(c)),
    ensures
        string_body(b, i, acc) == string_body(b, i + escape_char(c).len(), acc.push(c)),
{
    let e = escape_char(c);
    assert(b[i] == ascii_bytes(e)[0]);
    if c == '"' || c == '\\' || c == '\n' || c == '\r' || c == '\t' {
        assert(b[i + 1] == ascii_bytes(e)[1]);
    } else if is_control(c) {
        assert(b[i + 1] == ascii_bytes(e)[1]);
        let v = c as int;
        lemma_hex_digit_byte(v / 4096);
        lemma_hex_digit_byte((v / 256) % 16);
        lemma_hex_digit_byte((v / 16) % 16);
        lemma_hex_digit_byte(v % 16);
        let q = b.subrange(i + 2, i + 6);
        assert(q[0] == ascii_bytes(e)[2]);
        assert(q[1] == ascii_bytes(e)[3]);
        assert(q[2] == ascii_bytes(e)[4]);
        assert(q[3] == ascii_bytes(e)[5]);
        assert(v / 4096 == 0);
        assert(hex4_bytes_value(q) == Some(v));
        assert((v as char) == c);
    } else {
        assert(b[i] == c as u8);
        assert((b[i] as char) == c);
    }
}

proof fn lemma_body_escaped(b: Seq<u8>, i: int, acc: Seq<char>, s: Seq<char>)
    requires
        is_ascii_text(s),
        0 <= i,
        i + escape_spec(s).len() < b.len(),
        b.subrange(i, i + escape_spec(s).len()) == ascii_bytes(escape_spec(s)),
        b[i + escape_spec(s).len()] == 34,
    ensures
        string_body(b, i, acc) == Some((acc + s, i + escape_spec(s).len() + 1)),
    decreases s.len(),
{
    if s.len() == 0 {
        assert(acc + s =~= acc);
    } else {
        lemma_escape_front(s);
        let c = s[0];
        let rest = s.drop_first();
        let k = escape_char(c).len() as int;
        lemma_ascii_bytes_add(escape_char(c), escape_spec(rest));
        assert(b.subrange(i, i + k) =~= ascii_bytes(escape_spec(s)).subrange(0, k));
        assert(ascii_bytes(escape_spec(s)).subrange(0, k) =~= ascii_bytes(escape_char(c)));
        lemma_body_char(b, i, acc, c);
        assert(b.subrange(i + k, i + k + escape_spec(rest).len()) =~= ascii_bytes(
            escape_spec(s),
        ).subrange(k, escape_spec(s).len() as int));
        assert(ascii_bytes(escape_spec(s)).subrange(k, escape_spec(s).len() as int)
            =~= ascii_bytes(escape_spec(rest)));
        assert(is_ascii_text(rest));
        lemma_body_escaped(b, i + k, acc.push(c), rest);
        assert(acc.push(c) + rest =~= acc + s);
    }
}

/// Reading back a written JSON string gives the text that was written, for
/// every ASCII text.
pub proof fn law_escape_then_read(s: Seq<char>)
    requires
        is_ascii_text(s),
    ensures
        string_at_spec(ascii_bytes(seq!['"'] + escape_spec(s) + seq!['"']), 0) == Some(
            (s, escape_spec(s).len() + 2int),
        ),
{
    let e = escape_spec(s);
    let b = ascii_bytes(seq!['"'] + e + seq!['"']);
    lemma_ascii_bytes_add(seq!['"'] + e, seq!['"']);
    lemma_ascii_bytes_add(seq!['"'], e);
    assert(b[0] == 34);
    assert(b.subrange(1, 1 + e.len() as int) =~= ascii_bytes(e));
    assert(b[1 + e.len() as int] == 34);
    lemma_body_escaped(b, 1, Seq::empty(), s);
    assert(Seq::<char>::empty() + s =~= s);
}

} // verus!
