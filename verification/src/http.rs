//! The plain HTTP/1.1 carrier of provider calls: endpoint URLs, the request
//! text, the reading of a response head, chunked bodies, and the decisions
//! around a continuation that the provider refuses.

use vstd::prelude::*;
use crate::json_scan::{escape_spec, json_escape};
use crate::numbers::{
    decimal, decimal_spec, int_error_text, int_error_text_spec, parse_unsigned, parse_unsigned_spec,
    usize_max, IntErrorKind,
};
use crate::presentation::has_prefix;
use crate::seqs::{find_from, first_item, lemma_find_bounds};
use crate::terminal::{split_once_spec, strip_spec};
use crate::text::{
    chars_of, contains_spec, find_bytes_from, find_char_from, push_all, push_str, slice_chars,
    string_of, trim_chars, trim_spec, utf8_len, utf8_width,
};
use crate::words::{char_views, split_words, words};
use vstd::utf8::{decode_utf8, valid_utf8};

verus! {

/// The characters that well-formed UTF-8 `bytes` encode; none where they
/// are not well-formed.
pub open spec fn utf8_decode(bytes: Seq<u8>) -> Option<Seq<char>> {
    if valid_utf8(bytes) {
        Some(decode_utf8(bytes))
    } else {
        None
    }
}

/// The message of the `Utf8Error` that std's `str::from_utf8` gives for `bytes`.
pub uninterp spec fn utf8_error_text(bytes: Seq<u8>) -> Seq<char>;

/// The text that std's `String::from_utf8_lossy` makes of `bytes`.
pub uninterp spec fn utf8_lossy(bytes: Seq<u8>) -> Seq<char>;

/// Every byte is ASCII.
pub open spec fn ascii_only(bytes: Seq<u8>) -> bool {
    forall|i: int| 0 <= i < bytes.len() ==> #[trigger] bytes[i] < 128
}

/// ASCII bytes read as the characters they encode.
pub open spec fn ascii_chars(bytes: Seq<u8>) -> Seq<char> {
    bytes.map_values(|b: u8| b as char)
}

/// The text of `bytes`. Calls std's `str::from_utf8`; claims that it reads
/// exactly the well-formed UTF-8 byte sequences, as the characters they
/// encode (vstd's definition of UTF-8), that the error is its message, and,
/// as UTF-8 encodes ASCII as itself, that ASCII bytes read as their
/// characters.
#[verifier::external_body]
fn utf8_text(bytes: &[u8]) -> (r: Result<String, String>)
    ensures
        r matches Ok(s) ==> utf8_decode(bytes@) == Some(s@),
        r matches Err(e) ==> e@ == utf8_error_text(bytes@),
        r is Err ==> utf8_decode(bytes@) is None,
        r is Ok || !ascii_only(bytes@),
        r matches Ok(s) ==> (ascii_only(bytes@) ==> s@ == ascii_chars(bytes@)),
{
    match std::str::from_utf8(bytes) {
        Ok(s) => Ok(s.to_string()),
        Err(e) => Err(e.to_string()),
    }
}

/// The text of `bytes` with ill-formed sequences replaced. Calls std's
/// `String::from_utf8_lossy`; claims the result is what that function makes
/// (named), that well-formed input reads as `str::from_utf8` reads it, and
/// that ASCII bytes read as their characters.
#[verifier::external_body]
fn lossy_text(bytes: &[u8]) -> (s: String)
    ensures
        s@ == utf8_lossy(bytes@),
        utf8_decode(bytes@) matches Some(d) ==> s@ == d,
        ascii_only(bytes@) ==> s@ == ascii_chars(bytes@),
{
    String::from_utf8_lossy(bytes).to_string()
}

/// The text of a head line: ASCII bytes read as their characters, other
/// bytes as `str::from_utf8` reads them.
pub open spec fn head_text(bytes: Seq<u8>) -> Option<Seq<char>> {
    if ascii_only(bytes) {
        Some(ascii_chars(bytes))
    } else {
        utf8_decode(bytes)
    }
}

/// The text of a response head: ASCII bytes read as their characters,
/// other bytes as `String::from_utf8_lossy` makes them.
pub open spec fn head_text_lossy(bytes: Seq<u8>) -> Seq<char> {
    if ascii_only(bytes) {
        ascii_chars(bytes)
    } else {
        utf8_lossy(bytes)
    }
}

/// Position of the last `c` in `s` before `j`, or -1.
pub open spec fn last_item_before(s: Seq<char>, c: char, j: int) -> int
    decreases j,
{
    if j <= 0 || j > s.len() {
        -1
    } else if s[j - 1] == c {
        j - 1
    } else {
        last_item_before(s, c, j - 1)
    }
}

/// A provider endpoint: host, port, and the path of the request.
pub struct HttpUrl {
    pub host: String,
    pub port: u16,
    pub path: String,
}

/// An `http://` URL read into host, port (80 where none is given) and path
/// (`/` where none is given).
pub open spec fn http_url_spec(url: Seq<char>) -> Result<(Seq<char>, int, Seq<char>), Seq<char>> {
    match strip_spec(url, "http://"@) {
        None => Err("only http:// provider URLs are supported in this carrier"@),
        Some(rest) => {
            let ap = match split_once_spec(rest, '/') {
                Some(p) => (p.0, seq!['/'] + p.1),
                None => (rest, seq!['/']),
            };
            let authority = ap.0;
            let k = last_item_before(authority, ':', authority.len() as int);
            if k < 0 {
                Ok((authority, 80, ap.1))
            } else {
                match parse_unsigned_spec(
                    authority.subrange(k + 1, authority.len() as int),
                    10,
                    65535,
                ) {
                    Ok(port) => Ok((authority.subrange(0, k), port, ap.1)),
                    Err(e) => Err("invalid provider port: "@ + int_error_text_spec(e)),
                }
            }
        },
    }
}

fn last_char_before(s: &Vec<char>, c: char) -> (r: Option<usize>)
    ensures
        match r {
            Some(k) => last_item_before(s@, c, s.len() as int) == k as int && k < s.len(),
            None => last_item_before(s@, c, s.len() as int) == -1,
        },
{
    let mut j = s.len();
    while j > 0
        invariant
            j <= s.len(),
            last_item_before(s@, c, s.len() as int) == last_item_before(s@, c, j as int),
        decreases j,
    {
        if s[j - 1] == c {
            return Some(j - 1);
        }
        j -= 1;
    }
    None
}

/// The endpoint of a provider base URL.
pub fn parse_http_url(url: &str) -> (r: Result<HttpUrl, String>)
    ensures
        match r {
            Ok(u) => http_url_spec(url@) == Ok::<(Seq<char>, int, Seq<char>), Seq<char>>(
                (u.host@, u.port as int, u.path@),
            ),
            Err(e) => http_url_spec(url@) == Err::<(Seq<char>, int, Seq<char>), Seq<char>>(e@),
        },
{
    let cs = chars_of(url);
    let pre = chars_of("http://");
    if pre.len() > cs.len() || !crate::text::chars_match_at(&cs, &pre, 0) {
        return Err(crate::text::owned("only http:// provider URLs are supported in this carrier"));
    }
    let rest = slice_chars(&cs, pre.len(), cs.len());
    assert(strip_spec(url@, "http://"@) == Some(rest@));
    let (authority, path) = match find_char_from(&rest, '/', 0) {
        Some(i) => {
            let mut p: Vec<char> = Vec::new();
            p.push('/');
            let tail = slice_chars(&rest, i + 1, rest.len());
            push_all(&mut p, &tail);
            assert(p@ =~= seq!['/'] + tail@);
            (slice_chars(&rest, 0, i), p)
        },
        None => {
            let mut p: Vec<char> = Vec::new();
            p.push('/');
            assert(p@ =~= seq!['/']);
            assert(rest@.subrange(0, rest.len() as int) =~= rest@);
            (slice_chars(&rest, 0, rest.len()), p)
        },
    };
    match last_char_before(&authority, ':') {
        None => Ok(HttpUrl { host: string_of(&authority), port: 80, path: string_of(&path) }),
        Some(k) => {
            let digits = slice_chars(&authority, k + 1, authority.len());
            match parse_unsigned(&digits, 10, 65535) {
                Ok(port) => Ok(
                    HttpUrl {
                        host: string_of(&slice_chars(&authority, 0, k)),
                        port: port as u16,
                        path: string_of(&path),
                    },
                ),
                Err(e) => {
                    let mut m = chars_of("invalid provider port: ");
                    push_str(&mut m, int_error_text(e));
                    Err(string_of(&m))
                },
            }
        },
    }
}

/// The part of `s` before its first `c`, all of `s` where there is none.
pub open spec fn before_first(s: Seq<char>, c: char) -> Seq<char> {
    let i = first_item(s, c);
    if i < 0 {
        s
    } else {
        s.subrange(0, i)
    }
}

/// A chunked transfer body decoded from byte `i` on: each chunk is a size
/// line in hexadecimal (extensions after `;` ignored), CRLF, the data, CRLF;
/// a chunk of size zero ends the body.
pub open spec fn chunked_from(b: Seq<u8>, i: int) -> Result<Seq<u8>, Seq<char>>
    decreases b.len() - i,
{
    let le = find_from(b, seq![13u8, 10u8], i);
    if i < 0 || le < i {
        Err("invalid chunked response"@)
    } else {
        let header = b.subrange(i, le);
        match head_text(header) {
            None => Err("invalid chunk header: "@ + utf8_error_text(header)),
            Some(line) => match parse_unsigned_spec(
                trim_spec(before_first(line, ';')),
                16,
                usize::MAX as int,
            ) {
                Err(k) => Err("invalid chunk size: "@ + int_error_text_spec(k)),
                Ok(size) => {
                    let start = le + 2;
                    if size <= 0 {
                        Ok(Seq::empty())
                    } else if start + size + 2 > b.len() {
                        Err("truncated chunked response"@)
                    } else {
                        match chunked_from(b, start + size + 2) {
                            Ok(rest) => Ok(b.subrange(start, start + size) + rest),
                            Err(e) => Err(e),
                        }
                    }
                },
            },
        }
    }
}

/// The declared size of the chunk whose size line runs from `i` to `le`.
pub open spec fn chunk_size_at(b: Seq<u8>, i: int, le: int) -> Option<int> {
    match head_text(b.subrange(i, le)) {
        None => None,
        Some(line) => match parse_unsigned_spec(trim_spec(before_first(line, ';')), 16, usize::MAX as int) {
            Ok(n) => Some(n),
            Err(_) => None,
        },
    }
}

/// A chunked body is read chunk by chunk from position `i`: a size line
/// without its CRLF is refused as invalid; a chunk whose declared size runs
/// past the bytes left (however large the size) is refused as truncated; a
/// chunk that fits gives its payload, then what follows it; a chunk of size
/// zero ends the body.
pub proof fn law_chunked_reading(b: Seq<u8>, i: int)
    requires
        0 <= i,
    ensures
        find_from(b, seq![13u8, 10u8], i) < i ==> chunked_from(b, i) == Err::<Seq<u8>, Seq<char>>(
            "invalid chunked response"@,
        ),
        ({
            let le = find_from(b, seq![13u8, 10u8], i);
            le >= i ==> match chunk_size_at(b, i, le) {
                Some(n) => if n <= 0 {
                    chunked_from(b, i) == Ok::<Seq<u8>, Seq<char>>(Seq::empty())
                } else if le + 2 + n + 2 > b.len() {
                    chunked_from(b, i) == Err::<Seq<u8>, Seq<char>>("truncated chunked response"@)
                } else {
                    chunked_from(b, i) == match chunked_from(b, le + 2 + n + 2) {
                        Ok(rest) => Ok::<Seq<u8>, Seq<char>>(b.subrange(le + 2, le + 2 + n) + rest),
                        Err(e) => Err(e),
                    }
                },
                None => chunked_from(b, i) is Err,
            }
        }),
{
}

fn chunk_size(header: &[u8]) -> (r: Result<usize, String>)
    ensures
        match r {
            Ok(n) => head_text(header@) matches Some(line) && parse_unsigned_spec(
                trim_spec(before_first(line, ';')),
                16,
                usize::MAX as int,
            ) == Ok::<int, IntErrorKind>(n as int),
            Err(e) => match head_text(header@) {
                None => e@ == "invalid chunk header: "@ + utf8_error_text(header@),
                Some(line) => parse_unsigned_spec(
                    trim_spec(before_first(line, ';')),
                    16,
                    usize::MAX as int,
                ) matches Err(k) && e@ == "invalid chunk size: "@ + int_error_text_spec(k),
            },
        },
{
    let line = match utf8_text(header) {
        Ok(s) => chars_of(s.as_str()),
        Err(e) => {
            let mut m = chars_of("invalid chunk header: ");
            push_str(&mut m, e.as_str());
            return Err(string_of(&m));
        },
    };
    let head = match find_char_from(&line, ';', 0) {
        Some(i) => slice_chars(&line, 0, i),
        None => {
            assert(line@.subrange(0, line.len() as int) =~= line@);
            slice_chars(&line, 0, line.len())
        },
    };
    assert(head@ == before_first(line@, ';'));
    let size_text = trim_chars(&head);
    match parse_unsigned(&size_text, 16, usize_max()) {
        Ok(n) => Ok(n as usize),
        Err(k) => {
            let mut m = chars_of("invalid chunk size: ");
            push_str(&mut m, int_error_text(k));
            Err(string_of(&m))
        },
    }
}

/// The data of a chunked transfer body.
pub fn decode_chunked_body(body: &[u8]) -> (r: Result<Vec<u8>, String>)
    ensures
        match r {
            Ok(v) => chunked_from(body@, 0) == Ok::<Seq<u8>, Seq<char>>(v@),
            Err(e) => chunked_from(body@, 0) == Err::<Seq<u8>, Seq<char>>(e@),
        },
{
    let mut crlf: Vec<u8> = Vec::new();
    crlf.push(13u8);
    crlf.push(10u8);
    assert(crlf@ =~= seq![13u8, 10u8]);
    let mut index: usize = 0;
    let mut decoded: Vec<u8> = Vec::new();
    loop
        invariant
            index <= body.len(),
            crlf@ == seq![13u8, 10u8],
            match chunked_from(body@, 0) {
                Ok(all) => chunked_from(body@, index as int) matches Ok(rest) && all == decoded@
                    + rest,
                Err(e) => chunked_from(body@, index as int) == Err::<Seq<u8>, Seq<char>>(e),
            },
            chunked_from(body@, index as int) is Err ==> chunked_from(body@, 0) is Err,
        decreases body.len() - index,
    {
        let line_end = match find_bytes_from(body, crlf.as_slice(), index) {
            Some(p) => p,
            None => {
                return Err(crate::text::owned("invalid chunked response"));
            },
        };
        proof {
            lemma_find_bounds(body@, crlf@, index as int);
        }
        let header = crate::text::slice_bytes(body, index, line_end);
        let size = match chunk_size(header.as_slice()) {
            Ok(n) => n,
            Err(e) => return Err(e),
        };
        let start = line_end + 2;
        if size == 0 {
            proof {
                assert(decoded@ + Seq::<u8>::empty() =~= decoded@);
            }
            return Ok(decoded);
        }
        if size > body.len() - start || body.len() - start - size < 2 {
            return Err(crate::text::owned("truncated chunked response"));
        }
        let ghost before = decoded@;
        let mut k = start;
        while k < start + size
            invariant
                start <= k <= start + size <= body.len(),
                decoded@ == before + body@.subrange(start as int, k as int),
            decreases start + size - k,
        {
            decoded.push(body[k]);
            k += 1;
            assert(decoded@ =~= before + body@.subrange(start as int, k as int));
        }
        proof {
            match chunked_from(body@, start + size + 2) {
                Ok(rest) => {
                    assert(before + (body@.subrange(start as int, start + size) + rest) =~= decoded@
                        + rest);
                },
                Err(_) => {},
            }
        }
        index = start + size + 2;
    }
}


/// The first line of a response head, as std's `str::lines` yields it: up to
/// the first newline, a carriage return before that newline dropped.
pub open spec fn first_line(h: Seq<char>) -> Option<Seq<char>> {
    if h.len() == 0 {
        None
    } else {
        let i = first_item(h, '\n');
        if i < 0 {
            Some(h)
        } else {
            let l = h.subrange(0, i);
            if l.len() > 0 && l.last() == '\r' {
                Some(l.drop_last())
            } else {
                Some(l)
            }
        }
    }
}

/// The status code of a response head: the second word of its first line,
/// a number that fits 16 bits.
pub open spec fn status_of(h: Seq<char>) -> Option<int> {
    match first_line(h) {
        None => None,
        Some(l) => if words(l).len() >= 2 {
            match parse_unsigned_spec(words(l)[1], 10, 65535) {
                Ok(v) => Some(v),
                Err(_) => None,
            }
        } else {
            None
        },
    }
}

/// ASCII upper-case letters made lower-case, as std's `to_ascii_lowercase`.
pub open spec fn ascii_lower(s: Seq<char>) -> Seq<char> {
    s.map_values(|c: char| if 'A' <= c && c <= 'Z' { ((c as int) + 32) as char } else { c })
}

fn ascii_lower_exec(s: &Vec<char>) -> (out: Vec<char>)
    ensures
        out@ == ascii_lower(s@),
{
    let mut out: Vec<char> = Vec::new();
    let mut i: usize = 0;
    while i < s.len()
        invariant
            i <= s.len(),
            out@ == ascii_lower(s@.subrange(0, i as int)),
        decreases s.len() - i,
    {
        let c = s[i];
        if 'A' <= c && c <= 'Z' {
            let v = crate::text::code_of(c);
            let lower = ((v + 32) as u8) as char;
            out.push(lower);
        } else {
            out.push(c);
        }
        i += 1;
        assert(out@ =~= ascii_lower(s@.subrange(0, i as int)));
    }
    assert(s@.subrange(0, s.len() as int) =~= s@);
    out
}

/// A response read off the wire: status and body.
pub struct HttpReply {
    pub status: u16,
    pub body: Vec<u8>,
}

/// The status and body of a raw HTTP response; `written` is the number of
/// request bytes sent, which every refusal reports.
pub open spec fn http_reply_spec(resp: Seq<u8>, written: int) -> Result<(int, Seq<u8>), Seq<char>> {
    let split = find_from(resp, seq![13u8, 10u8, 13u8, 10u8], 0);
    let n = decimal_spec(written as nat);
    if split < 0 {
        Err("provider_delivery_indeterminate:invalid_http_response:bytes="@ + n)
    } else {
        let headers = head_text_lossy(resp.subrange(0, split));
        let body = resp.subrange(split + 4, resp.len() as int);
        match status_of(headers) {
            None => Err("provider_delivery_indeterminate:invalid_http_status:bytes="@ + n),
            Some(st) => if contains_spec(ascii_lower(headers), "transfer-encoding: chunked"@) {
                match chunked_from(body, 0) {
                    Ok(b) => Ok((st, b)),
                    Err(e) => Err("provider_delivery_indeterminate:response_body:bytes="@ + n
                        + ":"@ + e),
                }
            } else {
                Ok((st, body))
            },
        }
    }
}

fn status_exec(h: &Vec<char>) -> (r: Option<u16>)
    ensures
        match r {
            Some(v) => status_of(h@) == Some(v as int),
            None => status_of(h@) is None,
        },
{
    if h.len() == 0 {
        return None;
    }
    let line = match find_char_from(h, '\n', 0) {
        Some(i) => {
            let l = slice_chars(h, 0, i);
            if l.len() > 0 && l[l.len() - 1] == '\r' {
                let d = slice_chars(&l, 0, l.len() - 1);
                assert(d@ =~= l@.drop_last());
                d
            } else {
                l
            }
        },
        None => slice_chars(h, 0, h.len()),
    };
    assert(h@.subrange(0, h.len() as int) =~= h@);
    assert(first_line(h@) == Some(line@));
    let ws = split_words(&line);
    if ws.len() < 2 {
        return None;
    }
    assert(char_views(ws@)[1] == ws@[1]@);
    match parse_unsigned(&ws[1], 10, 65535) {
        Ok(v) => Some(v as u16),
        Err(_) => None,
    }
}

fn with_count(prefix: &str, written: usize) -> (out: Vec<char>)
    ensures
        out@ == prefix@ + decimal_spec(written as nat),
{
    let mut m = chars_of(prefix);
    crate::numbers::push_decimal(&mut m, written as u64);
    m
}

/// Status and body of the raw response to a provider request.
pub fn read_http_response(response: &[u8], written: usize) -> (r: Result<HttpReply, String>)
    ensures
        match r {
            Ok(reply) => http_reply_spec(response@, written as int) == Ok::<
                (int, Seq<u8>),
                Seq<char>,
            >((reply.status as int, reply.body@)),
            Err(e) => http_reply_spec(response@, written as int) == Err::<
                (int, Seq<u8>),
                Seq<char>,
            >(e@),
        },
{
    let mut sep: Vec<u8> = Vec::new();
    sep.push(13u8);
    sep.push(10u8);
    sep.push(13u8);
    sep.push(10u8);
    assert(sep@ =~= seq![13u8, 10u8, 13u8, 10u8]);
    let sep_slice = sep.as_slice();
    assert(sep_slice@ == sep@);
    let split = match find_bytes_from(response, sep_slice, 0) {
        Some(p) => p,
        None => {
            let m = with_count("provider_delivery_indeterminate:invalid_http_response:bytes=", written);
            return Err(string_of(&m));
        },
    };
    proof {
        lemma_find_bounds(response@, sep@, 0);
        assert(split + 4 <= response.len());
    }
    let head = crate::text::slice_bytes(response, 0, split);
    let headers = chars_of(lossy_text(head.as_slice()).as_str());
    let body = crate::text::slice_bytes(response, split + 4, response.len());
    let status = match status_exec(&headers) {
        Some(v) => v,
        None => {
            let m = with_count("provider_delivery_indeterminate:invalid_http_status:bytes=", written);
            return Err(string_of(&m));
        },
    };
    let lower = string_of(&ascii_lower_exec(&headers));
    if crate::text::contains_str(lower.as_str(), "transfer-encoding: chunked") {
        match decode_chunked_body(body.as_slice()) {
            Ok(b) => Ok(HttpReply { status, body: b }),
            Err(e) => {
                let mut m = with_count("provider_delivery_indeterminate:response_body:bytes=", written);
                push_str(&mut m, ":");
                push_str(&mut m, e.as_str());
                Err(string_of(&m))
            },
        }
    } else {
        Ok(HttpReply { status, body })
    }
}

/// The JSON body of a chat completion request.
pub open spec fn chat_body_spec(
    model: Seq<char>,
    system: Seq<char>,
    user: Seq<char>,
    continuation: Option<(Seq<char>, Seq<char>)>,
) -> Seq<char> {
    let field = match continuation {
        Some(c) => ",\"yai_provider_continuation\":{\"runtime_id\":\""@ + escape_spec(c.0)
            + "\",\"reference\":\""@ + escape_spec(c.1) + "\"}"@,
        None => Seq::empty(),
    };
    "{\"model\":\""@ + escape_spec(model)
        + "\",\"stream\":false,\"messages\":[{\"role\":\"system\",\"content\":\""@ + escape_spec(
        system,
    ) + "\"},{\"role\":\"user\",\"content\":\""@ + escape_spec(user) + "\"}]"@ + field + " }"@
}

/// The JSON body of a chat completion request: the model, the system and
/// user messages, and the continuation reference where there is one.
pub fn chat_request_body(
    model: &str,
    system: &str,
    user: &str,
    continuation: Option<(&str, &str)>,
) -> (out: String)
    ensures
        out@ == chat_body_spec(
            model@,
            system@,
            user@,
            match continuation {
                Some(c) => Some((c.0@, c.1@)),
                None => None,
            },
        ),
{
    let mut b: Vec<char> = Vec::new();
    push_str(&mut b, "{\"model\":\"");
    push_str(&mut b, json_escape(model).as_str());
    push_str(&mut b, "\",\"stream\":false,\"messages\":[{\"role\":\"system\",\"content\":\"");
    push_str(&mut b, json_escape(system).as_str());
    push_str(&mut b, "\"},{\"role\":\"user\",\"content\":\"");
    push_str(&mut b, json_escape(user).as_str());
    push_str(&mut b, "\"}]");
    let ghost head = b@;
    match continuation {
        Some((runtime_id, reference)) => {
            push_str(&mut b, ",\"yai_provider_continuation\":{\"runtime_id\":\"");
            push_str(&mut b, json_escape(runtime_id).as_str());
            push_str(&mut b, "\",\"reference\":\"");
            push_str(&mut b, json_escape(reference).as_str());
            push_str(&mut b, "\"}");
        },
        None => {},
    }
    push_str(&mut b, " }");
    proof {
        let c = match continuation {
            Some(c) => Some((c.0@, c.1@)),
            None => None,
        };
        assert(b@ =~= chat_body_spec(model@, system@, user@, c));
    }
    string_of(&b)
}

/// The text of an HTTP/1.1 POST of `body` to `path` on `host`, with a bearer
/// credential where one is given.
pub open spec fn http_request_spec(
    path: Seq<char>,
    host: Seq<char>,
    api_key: Option<Seq<char>>,
    body: Seq<char>,
) -> Seq<char> {
    let auth = match api_key {
        Some(k) => "Authorization: Bearer "@ + k + "\r\n"@,
        None => Seq::empty(),
    };
    "POST "@ + path + " HTTP/1.1\r\nHost: "@ + host
        + "\r\nContent-Type: application/json\r\nAccept: application/json\r\n"@ + auth
        + "Content-Length: "@ + decimal_spec(utf8_width(body) as nat)
        + "\r\nConnection: close\r\n\r\n"@ + body
}

/// The request text sent to a provider endpoint.
pub fn http_request_text(path: &str, host: &str, api_key: Option<&str>, body: &str) -> (out: String)
    requires
        utf8_width(body@) <= u64::MAX,
    ensures
        out@ == http_request_spec(
            path@,
            host@,
            match api_key {
                Some(k) => Some(k@),
                None => None,
            },
            body@,
        ),
{
    let mut r: Vec<char> = Vec::new();
    push_str(&mut r, "POST ");
    push_str(&mut r, path);
    push_str(&mut r, " HTTP/1.1\r\nHost: ");
    push_str(&mut r, host);
    push_str(&mut r, "\r\nContent-Type: application/json\r\nAccept: application/json\r\n");
    match api_key {
        Some(k) => {
            push_str(&mut r, "Authorization: Bearer ");
            push_str(&mut r, k);
            push_str(&mut r, "\r\n");
        },
        None => {},
    }
    push_str(&mut r, "Content-Length: ");
    let bs = chars_of(body);
    let n = utf8_len(&bs);
    crate::numbers::push_decimal(&mut r, n as u64);
    push_str(&mut r, "\r\nConnection: close\r\n\r\n");
    push_all(&mut r, &bs);
    proof {
        let k = match api_key {
            Some(k) => Some(k@),
            None => None,
        };
        assert(r@ =~= http_request_spec(path@, host@, k, body@));
    }
    string_of(&r)
}

/// Why writing a request stopped: nothing written means the request was
/// never dispatched; a partial write leaves delivery uncertain.
pub open spec fn write_failure_spec(written: int, error: Option<Seq<char>>) -> Seq<char> {
    match error {
        None => if written == 0 {
            "provider_not_dispatched:zero_write"@
        } else {
            "provider_delivery_indeterminate:partial_write:"@ + decimal_spec(written as nat)
        },
        Some(e) => if written == 0 {
            "provider_not_dispatched:write:"@ + e
        } else {
            "provider_delivery_indeterminate:partial_write:"@ + decimal_spec(written as nat) + ":"@
                + e
        },
    }
}

/// The refusal for a request write that stopped after `written` bytes:
/// `error` is the write error, none where the stream accepted no byte.
pub fn write_failure_text(written: usize, error: Option<&str>) -> (out: String)
    ensures
        out@ == write_failure_spec(
            written as int,
            match error {
                Some(e) => Some(e@),
                None => None,
            },
        ),
{
    match error {
        None => if written == 0 {
            crate::text::owned("provider_not_dispatched:zero_write")
        } else {
            string_of(&with_count("provider_delivery_indeterminate:partial_write:", written))
        },
        Some(e) => if written == 0 {
            let mut m = chars_of("provider_not_dispatched:write:");
            push_str(&mut m, e);
            string_of(&m)
        } else {
            let mut m = with_count("provider_delivery_indeterminate:partial_write:", written);
            push_str(&mut m, ":");
            push_str(&mut m, e);
            string_of(&m)
        },
    }
}

/// What the stream did with one write of the rest of a request: it took
/// `n` bytes (none where it was closed), or the write failed.
pub enum WriteEvent {
    Wrote(usize),
    Failed(String),
}

/// What follows one write: more of the request to write, all of it sent,
/// or the refusal.
pub enum WriteStep {
    More(usize),
    Sent,
    Refused(String),
}

/// The step after `ev`, `written` of `total` bytes written before it.
pub open spec fn write_step_spec(written: int, total: int, ev: WriteEvent) -> (Option<int>, Option<Seq<char>>) {
    match ev {
        WriteEvent::Wrote(n) => if n == 0 {
            (None, Some(write_failure_spec(written, None)))
        } else {
            (Some(written + n), None)
        },
        WriteEvent::Failed(e) => (None, Some(write_failure_spec(written, Some(e@)))),
    }
}

/// One write of a request of `total` bytes, `written` of them written
/// before it: the bytes written after it, or the refusal.
pub fn request_write_step(written: usize, total: usize, ev: &WriteEvent) -> (s: WriteStep)
    requires
        written < total,
        ev matches WriteEvent::Wrote(n) ==> n <= total - written,
    ensures
        match s {
            WriteStep::More(w) => write_step_spec(written as int, total as int, *ev) == (Some(w as int), None::<Seq<char>>) && w < total,
            WriteStep::Sent => write_step_spec(written as int, total as int, *ev) == (Some(total as int), None::<Seq<char>>),
            WriteStep::Refused(e) => write_step_spec(written as int, total as int, *ev) == (None::<int>, Some(e@)),
        },
{
    match ev {
        WriteEvent::Wrote(n) => if *n == 0 {
            WriteStep::Refused(write_failure_text(written, None))
        } else if written + *n >= total {
            WriteStep::Sent
        } else {
            WriteStep::More(written + *n)
        },
        WriteEvent::Failed(e) => WriteStep::Refused(write_failure_text(written, Some(e.as_str()))),
    }
}

/// The reply to a request whose `written` bytes were all sent, from what
/// reading the response gave: the response, or the read error.
pub open spec fn response_spec(written: int, read: Result<Seq<u8>, Seq<char>>) -> Result<(int, Seq<u8>), Seq<char>> {
    match read {
        Err(e) => Err("provider_delivery_indeterminate:response_read:bytes="@ + decimal_spec(written as nat) + ":"@ + e),
        Ok(resp) => http_reply_spec(resp, written),
    }
}

/// The reply to a request of `written` bytes, all sent.
pub fn response_outcome(written: usize, read: &Result<Vec<u8>, String>) -> (r: Result<HttpReply, String>)
    ensures
        match r {
            Ok(reply) => response_spec(written as int, match read { Ok(b) => Ok(b@), Err(e) => Err(e@) }) == Ok::<(int, Seq<u8>), Seq<char>>((reply.status as int, reply.body@)),
            Err(e) => response_spec(written as int, match read { Ok(b) => Ok(b@), Err(e) => Err(e@) }) == Err::<(int, Seq<u8>), Seq<char>>(e@),
        },
{
    match read {
        Ok(b) => read_http_response(b.as_slice(), written),
        Err(e) => {
            let mut m = with_count("provider_delivery_indeterminate:response_read:bytes=", written);
            push_str(&mut m, ":");
            push_str(&mut m, e.as_str());
            Err(string_of(&m))
        },
    }
}

/// A whole delivery of a request of `total` bytes, `written` of them
/// written: the writes `writes` in turn, then the reading of the response.
/// It gives the bytes written and the reply or refusal; none where the
/// writes run out before the request is sent, or a write takes more than
/// what was left.
pub open spec fn delivery_spec(
    total: int,
    written: int,
    writes: Seq<WriteEvent>,
    read: Result<Seq<u8>, Seq<char>>,
) -> Option<(int, Result<(int, Seq<u8>), Seq<char>>)>
    decreases writes.len(),
{
    if written >= total {
        Some((written, response_spec(written, read)))
    } else if writes.len() == 0 {
        None
    } else {
        match write_step_spec(written, total, writes[0]) {
            (Some(w), _) => if w > total {
                None
            } else {
                delivery_spec(total, w, writes.drop_first(), read)
            },
            (None, Some(e)) => Some((written, Err(e))),
            _ => None,
        }
    }
}

proof fn lemma_prefix_of(a: Seq<char>, b: Seq<char>, p: Seq<char>)
    requires
        has_prefix(a, p),
    ensures
        has_prefix(a + b, p),
{
    assert((a + b).subrange(0, p.len() as int) =~= a.subrange(0, p.len() as int));
}

proof fn lemma_reply_refusal_prefix(resp: Seq<u8>, written: int)
    requires
        0 <= written,
    ensures
        http_reply_spec(resp, written) matches Err(e) ==> has_prefix(e, "provider_delivery_indeterminate:"@),
{
    let p = "provider_delivery_indeterminate:"@;
    let n = decimal_spec(written as nat);
    reveal_strlit("provider_delivery_indeterminate:");
    reveal_strlit("provider_delivery_indeterminate:invalid_http_response:bytes=");
    reveal_strlit("provider_delivery_indeterminate:invalid_http_status:bytes=");
    reveal_strlit("provider_delivery_indeterminate:response_body:bytes=");
    assert(has_prefix("provider_delivery_indeterminate:invalid_http_response:bytes="@, p)) by {
        assert("provider_delivery_indeterminate:invalid_http_response:bytes="@.subrange(0, p.len() as int) =~= p);
    }
    assert(has_prefix("provider_delivery_indeterminate:invalid_http_status:bytes="@, p)) by {
        assert("provider_delivery_indeterminate:invalid_http_status:bytes="@.subrange(0, p.len() as int) =~= p);
    }
    assert(has_prefix("provider_delivery_indeterminate:response_body:bytes="@, p)) by {
        assert("provider_delivery_indeterminate:response_body:bytes="@.subrange(0, p.len() as int) =~= p);
    }
    lemma_prefix_of("provider_delivery_indeterminate:invalid_http_response:bytes="@, n, p);
    lemma_prefix_of("provider_delivery_indeterminate:invalid_http_status:bytes="@, n, p);
    lemma_prefix_of("provider_delivery_indeterminate:response_body:bytes="@, n, p);
    let split = find_from(resp, seq![13u8, 10u8, 13u8, 10u8], 0);
    if split >= 0 {
        let body = resp.subrange(split + 4, resp.len() as int);
        match chunked_from(body, 0) {
            Err(e) => {
                lemma_prefix_of("provider_delivery_indeterminate:response_body:bytes="@ + n, ":"@, p);
                lemma_prefix_of("provider_delivery_indeterminate:response_body:bytes="@ + n + ":"@, e, p);
            },
            _ => {},
        }
    }
}

proof fn lemma_count_named(h: Seq<char>, n: Seq<char>, rest: Seq<char>)
    requires
        h.len() >= 6,
        h.subrange(h.len() - 6, h.len() as int) == "bytes="@,
    ensures
        contains_spec(h + n + rest, "bytes="@ + n),
{
    reveal_strlit("bytes=");
    let s = h + n + rest;
    let pat = "bytes="@ + n;
    let i = h.len() - 6;
    assert(s.subrange(i, i + pat.len()) =~= pat) by {
        assert forall|k: int| 0 <= k < pat.len() implies s.subrange(i, i + pat.len())[k] == pat[k] by {
            if k < 6 {
                assert(s[i + k] == h[i + k]);
                assert(h.subrange(h.len() - 6, h.len() as int)[k] == h[i + k]);
            } else {
                assert(s[i + k] == n[k - 6]);
            }
        }
    }
    crate::seqs::lemma_find_some(s, pat, i);
}

proof fn lemma_reply_refusal_count(resp: Seq<u8>, written: int)
    requires
        0 <= written,
    ensures
        http_reply_spec(resp, written) matches Err(e) ==> contains_spec(e, "bytes="@ + decimal_spec(written as nat)),
{
    let n = decimal_spec(written as nat);
    let a = "provider_delivery_indeterminate:invalid_http_response:bytes="@;
    let b = "provider_delivery_indeterminate:invalid_http_status:bytes="@;
    let c = "provider_delivery_indeterminate:response_body:bytes="@;
    reveal_strlit("bytes=");
    reveal_strlit("provider_delivery_indeterminate:invalid_http_response:bytes=");
    reveal_strlit("provider_delivery_indeterminate:invalid_http_status:bytes=");
    reveal_strlit("provider_delivery_indeterminate:response_body:bytes=");
    assert(a.subrange(a.len() - 6, a.len() as int) =~= "bytes="@);
    assert(b.subrange(b.len() - 6, b.len() as int) =~= "bytes="@);
    assert(c.subrange(c.len() - 6, c.len() as int) =~= "bytes="@);
    lemma_count_named(a, n, Seq::empty());
    lemma_count_named(b, n, Seq::empty());
    assert(a + n + Seq::<char>::empty() =~= a + n);
    assert(b + n + Seq::<char>::empty() =~= b + n);
    let split = find_from(resp, seq![13u8, 10u8, 13u8, 10u8], 0);
    if split >= 0 {
        let body = resp.subrange(split + 4, resp.len() as int);
        match chunked_from(body, 0) {
            Err(x) => {
                lemma_count_named(c, n, ":"@ + x);
                assert(c + n + ":"@ + x =~= c + n + (":"@ + x));
            },
            _ => {},
        }
    }
}

/// Delivery of a provider request is never ambiguous about dispatch: a
/// refusal before any byte of the request is written says it was not
/// dispatched; once a byte is written every refusal says delivery is
/// indeterminate, and once the whole request is written it names the bytes
/// written; a reply comes only after the whole request was written.
pub proof fn law_delivery_dispatch(total: int, written: int, writes: Seq<WriteEvent>, read: Result<Seq<u8>, Seq<char>>)
    requires
        0 <= written <= total,
        0 < total,
    ensures
        delivery_spec(total, written, writes, read) matches Some((w, r)) ==> (r matches Err(e) ==> (w
            == 0 ==> has_prefix(e, "provider_not_dispatched:"@)) && (w > 0 ==> has_prefix(
            e,
            "provider_delivery_indeterminate:"@,
        )) && (w == total ==> contains_spec(e, "bytes="@ + decimal_spec(w as nat)))) && (r is Ok ==> w == total),
    decreases writes.len(),
{
    let ind = "provider_delivery_indeterminate:"@;
    let nd = "provider_not_dispatched:"@;
    reveal_strlit("provider_delivery_indeterminate:");
    reveal_strlit("provider_not_dispatched:");
    if written >= total {
        lemma_reply_refusal_prefix(read->Ok_0, written);
        lemma_reply_refusal_count(read->Ok_0, written);
        if read is Err {
            reveal_strlit("provider_delivery_indeterminate:response_read:bytes=");
            let h = "provider_delivery_indeterminate:response_read:bytes="@;
            assert(has_prefix(h, ind)) by {
                assert(h.subrange(0, ind.len() as int) =~= ind);
            }
            lemma_prefix_of(h, decimal_spec(written as nat), ind);
            lemma_prefix_of(h + decimal_spec(written as nat), ":"@, ind);
            lemma_prefix_of(h + decimal_spec(written as nat) + ":"@, read->Err_0, ind);
            assert(h.subrange(h.len() - 6, h.len() as int) =~= "bytes="@) by {
                reveal_strlit("bytes=");
            }
            lemma_count_named(h, decimal_spec(written as nat), ":"@ + read->Err_0);
            assert(h + decimal_spec(written as nat) + ":"@ + read->Err_0 =~= h + decimal_spec(written as nat) + (":"@
                + read->Err_0));
        }
    } else if writes.len() > 0 {
        match write_step_spec(written, total, writes[0]) {
            (Some(w), _) => if w <= total {
                law_delivery_dispatch(total, w, writes.drop_first(), read);
            },
            (None, Some(e)) => {
                reveal_strlit("provider_not_dispatched:zero_write");
                reveal_strlit("provider_not_dispatched:write:");
                reveal_strlit("provider_delivery_indeterminate:partial_write:");
                let pw = "provider_delivery_indeterminate:partial_write:"@;
                let n = decimal_spec(written as nat);
                assert(has_prefix("provider_not_dispatched:zero_write"@, nd)) by {
                    assert("provider_not_dispatched:zero_write"@.subrange(0, nd.len() as int) =~= nd);
                }
                assert(has_prefix("provider_not_dispatched:write:"@, nd)) by {
                    assert("provider_not_dispatched:write:"@.subrange(0, nd.len() as int) =~= nd);
                }
                assert(has_prefix(pw, ind)) by {
                    assert(pw.subrange(0, ind.len() as int) =~= ind);
                }
                lemma_prefix_of(pw, n, ind);
                lemma_prefix_of(pw + n, ":"@, ind);
                if let WriteEvent::Failed(x) = writes[0] {
                    lemma_prefix_of("provider_not_dispatched:write:"@, x@, nd);
                    lemma_prefix_of(pw + n + ":"@, x@, ind);
                }
            },
            _ => {},
        }
    }
}

/// A request that carries a continuation goes only to the provider that
/// issued it, and only where the provider supports continuations.
pub fn continuation_check(
    reference_provider: Option<&str>,
    provider_id: &str,
    supported: bool,
) -> (r: Result<(), String>)
    ensures
        match reference_provider {
            None => r is Ok,
            Some(p) => if p@ != provider_id@ {
                r matches Err(e) && e@ == "provider_continuation_provider_mismatch"@
            } else if !supported {
                r matches Err(e) && e@ == "provider_continuation_not_supported"@
            } else {
                r is Ok
            },
        },
{
    match reference_provider {
        None => Ok(()),
        Some(p) => if !crate::text::str_eq(p, provider_id) {
            Err(crate::text::owned("provider_continuation_provider_mismatch"))
        } else if !supported {
            Err(crate::text::owned("provider_continuation_not_supported"))
        } else {
            Ok(())
        },
    }
}

/// What became of a continuation reference offered with a request.
#[derive(Clone, Copy, Debug, PartialEq, Eq, Structural)]
pub enum ContinuationDisposition {
    NotProvided,
    Used,
    InvalidatedAndRetried,
}

/// The record label of a continuation disposition.
pub fn continuation_disposition_label(value: ContinuationDisposition) -> (out: &'static str)
    ensures
        out@ == match value {
            ContinuationDisposition::NotProvided => "not_provided"@,
            ContinuationDisposition::Used => "used"@,
            ContinuationDisposition::InvalidatedAndRetried => "invalidated_and_retried"@,
        },
{
    match value {
        ContinuationDisposition::NotProvided => "not_provided",
        ContinuationDisposition::Used => "used",
        ContinuationDisposition::InvalidatedAndRetried => "invalidated_and_retried",
    }
}

/// What to do with a provider's first reply.
pub enum ReplyStep {
    /// Decode the reply.
    Accept { disposition: ContinuationDisposition },
    /// The provider refused the continuation: send once more without it.
    RetryWithoutContinuation,
    /// The reply is a refusal; the message says so.
    Fail { message: String },
}

/// A status in the success range.
pub open spec fn success_status(status: int) -> bool {
    200 <= status < 300
}

/// The refusal for a reply outside the success range.
pub open spec fn remote_refusal(status: int, written: int) -> Seq<char> {
    "provider_remote_response:"@ + decimal_spec(status as nat) + ":bytes="@ + decimal_spec(
        written as nat,
    )
}

/// The step after the first reply of a provider: a success is decoded, a
/// refused continuation is retried once without it, anything else fails.
pub fn first_reply_step(status: u16, body: &str, continuation: bool, written: usize) -> (r:
    ReplyStep)
    ensures
        success_status(status as int) ==> r == (ReplyStep::Accept {
            disposition: if continuation {
                ContinuationDisposition::Used
            } else {
                ContinuationDisposition::NotProvided
            },
        }),
        !success_status(status as int) && continuation && contains_spec(
            ascii_lower(body@),
            "invalid_continuation"@,
        ) ==> r is RetryWithoutContinuation,
        !success_status(status as int) && !(continuation && contains_spec(
            ascii_lower(body@),
            "invalid_continuation"@,
        )) ==> (r matches ReplyStep::Fail { message } && message@ == remote_refusal(
            status as int,
            written as int,
        )),
{
    if 200 <= status && status < 300 {
        return ReplyStep::Accept {
            disposition: if continuation {
                ContinuationDisposition::Used
            } else {
                ContinuationDisposition::NotProvided
            },
        };
    }
    if continuation {
        let lower = string_of(&ascii_lower_exec(&chars_of(body)));
        if crate::text::contains_str(lower.as_str(), "invalid_continuation") {
            return ReplyStep::RetryWithoutContinuation;
        }
    }
    let mut m = with_count("provider_remote_response:", status as usize);
    push_str(&mut m, ":bytes=");
    crate::numbers::push_decimal(&mut m, written as u64);
    ReplyStep::Fail { message: string_of(&m) }
}

/// A retry without the continuation must succeed; else the refusal says it
/// was the retry.
pub fn retry_reply_check(status: u16, written: usize) -> (r: Result<(), String>)
    ensures
        success_status(status as int) ==> r is Ok,
        !success_status(status as int) ==> (r matches Err(e) && e@ == remote_refusal(
            status as int,
            written as int,
        ) + ":continuation_retry"@),
{
    if 200 <= status && status < 300 {
        return Ok(());
    }
    let mut m = with_count("provider_remote_response:", status as usize);
    push_str(&mut m, ":bytes=");
    crate::numbers::push_decimal(&mut m, written as u64);
    push_str(&mut m, ":continuation_retry");
    Err(string_of(&m))
}

} // verus!
