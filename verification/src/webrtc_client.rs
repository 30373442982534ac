//! Signalling with the SFU: the host of the signalling URL, the TLS options of
//! the HTTP client, the answer it returns and the codec lines of an offer.

use vstd::prelude::*;
use crate::text::{
    ascii_lowercase, ascii_lowercase_chars, contains_chars, has_substring, line_at,
    line_content_end, lines_from, next_newline, next_newline_exec, occurs_at, str_chars, str_lines,
    lemma_lines_from_shift, lemma_next_newline_before_join, lemma_next_newline_bounds,
};

verus! {

/// A line of an SDP that maps a payload type to H.264 or H.265: it holds
/// `a=rtpmap:` and, ignoring ASCII case, `h264` or `h265`.
pub open spec fn is_h26x_rtpmap_line(l: Seq<char>) -> bool {
    &&& has_substring(l, "a=rtpmap:"@)
    &&& (has_substring(ascii_lowercase(l), "h264"@) || has_substring(ascii_lowercase(l), "h265"@))
}

/// The H.264/H.265 rtpmap lines among `lines`, in order.
pub open spec fn h26x_rtpmap_filter(lines: Seq<Seq<char>>) -> Seq<Seq<char>> {
    lines.filter(|l: Seq<char>| is_h26x_rtpmap_line(l))
}

/// The characters of each string of `v`.
pub open spec fn strings_view(v: Seq<String>) -> Seq<Seq<char>> {
    v.map_values(|x: String| x@)
}

/// The H.264/H.265 rtpmap lines of an SDP, in the order in which they occur.
pub fn extract_h26x_rtpmap_lines(sdp: &str) -> (r: Vec<String>)
    ensures
        strings_view(r@) == h26x_rtpmap_filter(str_lines(sdp@)),
{
    let v = str_chars(sdp);
    let rtpmap = str_chars("a=rtpmap:");
    let h264 = str_chars("h264");
    let h265 = str_chars("h265");
    let mut out: Vec<String> = Vec::new();
    let n = v.len();
    let mut start: usize = 0;
    while start < n
        invariant
            n == v@.len(),
            v@ == sdp@,
            rtpmap@ == "a=rtpmap:"@,
            h264@ == "h264"@,
            h265@ == "h265"@,
            start <= n,
            strings_view(out@) + h26x_rtpmap_filter(lines_from(v@, start as int))
                == h26x_rtpmap_filter(lines_from(v@, 0)),
        decreases n - start,
    {
        let e = next_newline_exec(&v, start);
        let end = line_content_end(&v, start, e);
        proof {
            lemma_next_newline_bounds(v@, start as int);
        }
        let line: &str = sdp.substring_char(start, end);
        let lc = str_chars(line);
        let mut keep = contains_chars(&lc, &rtpmap);
        if keep {
            let low = ascii_lowercase_chars(&lc);
            keep = contains_chars(&low, &h264) || contains_chars(&low, &h265);
        }
        let ghost old_out = out@;
        let ghost l = line_at(v@, start as int);
        let ghost rest = lines_from(v@, e + 1);
        proof {
            assert(lc@ == l);
            assert(lines_from(v@, start as int) == seq![l] + rest);
            rest.lemma_filter_prepend(l, |x: Seq<char>| is_h26x_rtpmap_line(x));
        }
        if keep {
            let owned = line.to_owned();
            out.push(owned);
            proof {
                assert(strings_view(out@) =~= strings_view(old_out) + seq![l]);
            }
        }
        if e < n {
            start = e + 1;
        } else {
            proof {
                assert(lines_from(v@, e + 1) == Seq::<Seq<char>>::empty());
            }
            start = n;
        }
    }
    proof {
        assert(lines_from(v@, start as int) == Seq::<Seq<char>>::empty());
        assert(h26x_rtpmap_filter(Seq::<Seq<char>>::empty()) =~= Seq::<Seq<char>>::empty());
        assert(strings_view(out@) + Seq::<Seq<char>>::empty() =~= strings_view(out@));
    }
    out
}

/// The codec lines of `a + "\n" + b` from a position of `a` on: those of `a`
/// from there, then those after the added newline.
proof fn lemma_rtpmap_filter_before_join(a: Seq<char>, b: Seq<char>, i: int)
    requires
        0 <= i <= a.len(),
        a.len() == 0 || a.last() != '\r',
    ensures
        h26x_rtpmap_filter(lines_from(a + seq!['\n'] + b, i)) == h26x_rtpmap_filter(lines_from(a, i))
            + h26x_rtpmap_filter(lines_from(a + seq!['\n'] + b, a.len() + 1int)),
    decreases a.len() - i,
{
    let s = a + seq!['\n'] + b;
    let pred = |l: Seq<char>| is_h26x_rtpmap_line(l);
    lemma_next_newline_before_join(a, b, i);
    lemma_next_newline_bounds(a, i);
    let e = next_newline(a, i);
    if i == a.len() {
        let rest = lines_from(s, a.len() + 1int);
        reveal_strlit("a=rtpmap:");
        assert(line_at(s, i) =~= Seq::<char>::empty());
        assert(!has_substring(Seq::<char>::empty(), "a=rtpmap:"@)) by {
            assert forall|k: int| !occurs_at(Seq::<char>::empty(), "a=rtpmap:"@, k) by {}
        }
        assert(lines_from(s, i) == seq![line_at(s, i)] + rest);
        rest.lemma_filter_prepend(line_at(s, i), pred);
        assert(lines_from(a, i) == Seq::<Seq<char>>::empty());
        assert(h26x_rtpmap_filter(Seq::<Seq<char>>::empty()) =~= Seq::<Seq<char>>::empty());
        assert(h26x_rtpmap_filter(rest) =~= Seq::<Seq<char>>::empty() + h26x_rtpmap_filter(rest));
    } else {
        assert(s.subrange(i, e) =~= a.subrange(i, e));
        assert(line_at(s, i) == line_at(a, i));
        let l = line_at(a, i);
        let rs = lines_from(s, e + 1);
        let ra = lines_from(a, e + 1);
        assert(lines_from(s, i) == seq![l] + rs);
        assert(lines_from(a, i) == seq![l] + ra);
        rs.lemma_filter_prepend(l, pred);
        ra.lemma_filter_prepend(l, pred);
        if e < a.len() {
            lemma_rtpmap_filter_before_join(a, b, e + 1);
        } else {
            assert(ra == Seq::<Seq<char>>::empty());
            assert(h26x_rtpmap_filter(ra) =~= Seq::<Seq<char>>::empty());
        }
        let fr = h26x_rtpmap_filter(ra);
        let tail = h26x_rtpmap_filter(lines_from(s, a.len() + 1int));
        assert((seq![l] + fr) + tail =~= seq![l] + (fr + tail));
        assert(Seq::<Seq<char>>::empty() + fr + tail =~= fr + tail);
    }
}

/// The codec lines of two SDP texts joined by a newline are those of the
/// first followed by those of the second, where the first does not end in
/// `'\r'` (which the newline would turn into part of a line ending).
pub proof fn law_rtpmap_lines_of_joined_sdp(a: Seq<char>, b: Seq<char>)
    requires
        a.len() == 0 || a.last() != '\r',
    ensures
        h26x_rtpmap_filter(str_lines(a + seq!['\n'] + b)) == h26x_rtpmap_filter(str_lines(a))
            + h26x_rtpmap_filter(str_lines(b)),
{
    lemma_rtpmap_filter_before_join(a, b, 0);
    lemma_lines_from_shift(a + seq!['\n'], b, 0);
    assert(a + seq!['\n'] + b == (a + seq!['\n']) + b);
    assert((a + seq!['\n']).len() + 0 == a.len() + 1);
}

/// The host that `url::Url::parse` and `Url::host_str` find in a URL; `None`
/// where the text does not parse or the URL has no host.
pub uninterp spec fn url_host(url: Seq<char>) -> Option<Seq<char>>;

/// The characters of an optional string.
pub open spec fn opt_string_view(s: Option<String>) -> Option<Seq<char>> {
    match s {
        Some(x) => Some(x@),
        None => None,
    }
}

/// Calls `url::Url::parse` and, on success, `Url::host_str`; the result is
/// the named `url_host` of the text.
#[verifier::external_body]
fn parse_url_host(url: &str) -> (r: Option<String>)
    ensures
        opt_string_view(r) == url_host(url@),
{
    match url::Url::parse(url) {
        Ok(u) => u.host_str().map(|h| h.to_string()),
        Err(_) => None,
    }
}

/// The host of the signalling URL (`https://10.24.88.31:7200/webrtc...` gives
/// `10.24.88.31`).
pub fn host_from_webrtc_url(url: &str) -> (r: Option<String>)
    ensures
        opt_string_view(r) == url_host(url@),
{
    parse_url_host(url)
}

/// TLS options of the HTTP client that posts the offer.
#[derive(Debug, Clone, Copy)]
pub struct HttpTlsOptions {
    pub insecure_skip_verify: bool,
}

/// The answer of the server: its SDP and, where present, its code, id and type.
#[derive(Debug)]
pub struct AnswerResponse {
    pub sdp: String,
    pub code: Option<i32>,
    pub id: Option<String>,
    pub typ: Option<String>,
}

/// Why an answer to the offer was not accepted.
#[derive(Debug)]
pub enum AnswerError {
    /// The server replied with a status other than 2xx; its status and body.
    Http { status: u16, body: String },
    /// The body is not JSON.
    InvalidJson { body: String },
    /// The JSON has no string field `sdp`.
    MissingSdp { body: String },
}

/// The error of `serde_json` for text that does not parse.
#[verifier::external_type_specification]
#[verifier::external_body]
pub struct ExJsonError(serde_json::Error);

/// Whether `serde_json::from_str::<serde_json::Value>` accepts a text.
pub uninterp spec fn json_text_parses(text: Seq<char>) -> bool;

/// Calls `serde_json::from_str::<serde_json::Value>`; it succeeds exactly
/// where the text parses. The value itself is opaque to the proofs.
#[verifier::external_body]
fn json_from_str(text: &str) -> (r: Result<serde_json::Value, serde_json::Error>)
    ensures
        r is Ok <==> json_text_parses(text@),
{
    serde_json::from_str::<serde_json::Value>(text)
}

/// The text of the field `key` of the JSON object parsed from `text`, where
/// the text parses and that field is a JSON string; `None` otherwise.
pub uninterp spec fn json_string_field(text: Seq<char>, key: Seq<char>) -> Option<Seq<char>>;

/// The field `key` of the JSON object parsed from `text`, where the text
/// parses and that field is a JSON number that fits `i64`; `None` otherwise.
pub uninterp spec fn json_integer_field(text: Seq<char>, key: Seq<char>) -> Option<i64>;

/// Calls `serde_json::from_str::<serde_json::Value>` on `text`, then
/// `Value::get(key)`, and keeps the field's text where it is a JSON string:
/// the named `json_string_field` of the text and the key.
#[verifier::external_body]
fn json_str_field(text: &str, key: &str) -> (r: Option<String>)
    ensures
        opt_string_view(r) == json_string_field(text@, key@),
{
    match serde_json::from_str::<serde_json::Value>(text) {
        Ok(v) => match v.get(key) {
            Some(serde_json::Value::String(s)) => Some(s.clone()),
            _ => None,
        },
        Err(_) => None,
    }
}

/// Calls `serde_json::from_str::<serde_json::Value>` on `text`, then
/// `Value::get(key)` and, where the field is a JSON number, `Number::as_i64`:
/// the named `json_integer_field` of the text and the key.
#[verifier::external_body]
fn json_i64_field(text: &str, key: &str) -> (r: Option<i64>)
    ensures
        r == json_integer_field(text@, key@),
{
    match serde_json::from_str::<serde_json::Value>(text) {
        Ok(v) => match v.get(key) {
            Some(serde_json::Value::Number(n)) => n.as_i64(),
            _ => None,
        },
        Err(_) => None,
    }
}

/// Whether an HTTP status is a success (2xx).
pub open spec fn status_is_success(status: u16) -> bool {
    200 <= status <= 299
}

/// The answer's code: the JSON integer truncated to 32 bits.
pub open spec fn truncated_code(code: Option<i64>) -> Option<i32> {
    match code {
        Some(c) => Some(c as i32),
        None => None,
    }
}

/// The answer made of the fields read from its JSON: the `sdp` string is
/// required; the code is truncated to 32 bits.
pub fn answer_from_fields(
    body: String,
    sdp: Option<String>,
    code: Option<i64>,
    id: Option<String>,
    typ: Option<String>,
) -> (r: Result<AnswerResponse, AnswerError>)
    ensures
        sdp is None ==> (r matches Err(AnswerError::MissingSdp { body: b }) && b@ == body@),
        sdp matches Some(s) ==> (r matches Ok(a) && a.sdp@ == s@ && a.code == truncated_code(code)
            && opt_string_view(a.id) == opt_string_view(id) && opt_string_view(a.typ)
            == opt_string_view(typ)),
{
    match sdp {
        None => Err(AnswerError::MissingSdp { body }),
        Some(sdp) => {
            let code = match code {
                Some(c) => Some(
                    #[verifier::truncate]
                    (c as i32),
                ),
                None => None,
            };
            Ok(AnswerResponse { sdp, code, id, typ })
        },
    }
}

/// Reads the answer of the server from the HTTP status and body of its reply
/// to the offer: a non-2xx status and a body that is not JSON are errors;
/// otherwise the answer is the string field `sdp` of the JSON object, with its
/// integer `code` and its string fields `id` and `type` where present, and
/// an error where `sdp` is missing or not a string.
pub fn answer_from_reply(status: u16, body: String) -> (r: Result<AnswerResponse, AnswerError>)
    ensures
        !status_is_success(status) ==> (r matches Err(AnswerError::Http { status: s, body: b }) && s
            == status && b@ == body@),
        status_is_success(status) && !json_text_parses(body@) ==> (r matches Err(
            AnswerError::InvalidJson { body: b },
        ) && b@ == body@),
        status_is_success(status) && json_text_parses(body@) ==> match json_string_field(
            body@,
            "sdp"@,
        ) {
            Some(s) => r matches Ok(a) && a.sdp@ == s && a.code == truncated_code(
                json_integer_field(body@, "code"@),
            ) && opt_string_view(a.id) == json_string_field(body@, "id"@) && opt_string_view(a.typ)
                == json_string_field(body@, "type"@),
            None => r matches Err(AnswerError::MissingSdp { body: b }) && b@ == body@,
        },
{
    if !(200 <= status && status <= 299) {
        return Err(AnswerError::Http { status, body });
    }
    if json_from_str(body.as_str()).is_err() {
        return Err(AnswerError::InvalidJson { body });
    }
    let text = body.as_str();
    let sdp = json_str_field(text, "sdp");
    let code = json_i64_field(text, "code");
    let id = json_str_field(text, "id");
    let typ = json_str_field(text, "type");
    answer_from_fields(body, sdp, code, id, typ)
}

} // verus!
