//! Content negotiation on the `Accept` header.
use vstd::prelude::*;

use crate::request::{header_text, header_value, HeaderField};

verus! {

/// The representation of a response.
#[derive(Clone, Copy, Debug, PartialEq, Eq)]
pub enum ResponseFormat {
    PlainText,
    Json,
    Html,
}

/// What `str::to_lowercase` makes of a string.
pub uninterp spec fn lower_of(s: Seq<char>) -> Seq<char>;

/// Relies on `str::to_lowercase`: the lower-case mapping of each character,
/// which depends on the characters alone.
#[verifier::external_body]
pub(crate) fn lowercase(s: &str) -> (r: String)
    ensures
        r@ == lower_of(s@),
{
    s.to_lowercase()
}

/// `s[a..b]` is one of the pieces that splitting `s` at every comma gives.
pub open spec fn is_piece(s: Seq<char>, a: int, b: int) -> bool {
    &&& 0 <= a <= b <= s.len()
    &&& (a == 0 || s[a - 1] == ',')
    &&& (b == s.len() || s[b] == ',')
    &&& forall|k: int| a <= k < b ==> s[k] != ','
}

/// `token` is exactly one of the comma-separated pieces of `s` (no trimming).
pub open spec fn has_token(s: Seq<char>, token: Seq<char>) -> bool {
    exists|a: int, b: int| is_piece(s, a, b) && s.subrange(a, b) == token
}

/// The `Accept` value of `fields` lists `accept`, compared after lower-casing it.
pub open spec fn accepts(fields: Seq<HeaderField>, accept: Seq<char>) -> bool {
    match header_text(fields, seq!['a', 'c', 'c', 'e', 'p', 't']) {
        Some(v) => has_token(lower_of(v), accept),
        None => false,
    }
}

pub open spec fn json_type() -> Seq<char> {
    seq!['a', 'p', 'p', 'l', 'i', 'c', 'a', 't', 'i', 'o', 'n', '/', 'j', 's', 'o', 'n']
}

pub open spec fn html_type() -> Seq<char> {
    seq!['t', 'e', 'x', 't', '/', 'h', 't', 'm', 'l']
}

/// JSON where `application/json` is listed, else HTML where `text/html` is,
/// else plain text.
pub open spec fn negotiated(fields: Seq<HeaderField>) -> ResponseFormat {
    if accepts(fields, json_type()) {
        ResponseFormat::Json
    } else if accepts(fields, html_type()) {
        ResponseFormat::Html
    } else {
        ResponseFormat::PlainText
    }
}

/// Whether `s[from..to]` holds exactly the characters of `t`.
fn segment_equals(s: &str, from: usize, to: usize, t: &str) -> (r: bool)
    requires
        from <= to <= s@.len(),
    ensures
        r == (s@.subrange(from as int, to as int) == t@),
{
    let n = t.unicode_len();
    if to - from != n {
        return false;
    }
    let mut k: usize = 0;
    while k < n
        invariant
            from <= to <= s@.len(),
            n == t@.len() == to - from,
            k <= n,
            forall|j: int| 0 <= j < k ==> s@[from + j] == t@[j],
        decreases n - k,
    {
        if s.get_char(from + k) != t.get_char(k) {
            return false;
        }
        k = k + 1;
    }
    assert(s@.subrange(from as int, to as int) =~= t@);
    true
}

/// Whether `token` is one of the comma-separated pieces of `s`, compared as
/// they stand.
pub fn contains_token(s: &str, token: &str) -> (r: bool)
    ensures
        r == has_token(s@, token@),
{
    let n = s.unicode_len();
    let mut start: usize = 0;
    let mut i: usize = 0;
    let mut found = false;
    while i < n
        invariant
            n == s@.len(),
            start <= i <= n,
            start == 0 || s@[start - 1] == ',',
            forall|k: int| start <= k < i ==> s@[k] != ',',
            found == exists|a: int, b: int|
                b < i && is_piece(s@, a, b) && s@.subrange(a, b) == token@,
        decreases n - i,
    {
        if s.get_char(i) == ',' {
            let eq = segment_equals(s, start, i, token);
            proof {
                lemma_piece_ending_at(s@, start as int, i as int);
            }
            found = found || eq;
            start = i + 1;
        }
        i = i + 1;
    }
    let eq = segment_equals(s, start, n, token);
    proof {
        lemma_piece_ending_at(s@, start as int, n as int);
    }
    found || eq
}

/// A piece that ends at `b` starts right after the last comma before `b`.
proof fn lemma_piece_ending_at(s: Seq<char>, start: int, b: int)
    requires
        0 <= start <= b <= s.len(),
        start == 0 || s[start - 1] == ',',
        b == s.len() || s[b] == ',',
        forall|k: int| start <= k < b ==> s[k] != ',',
    ensures
        is_piece(s, start, b),
        forall|a: int| #[trigger] is_piece(s, a, b) ==> a == start,
{
    assert forall|a: int| #[trigger] is_piece(s, a, b) implies a == start by {
        if a < start {
            assert(s[start - 1] == ',');
        } else if a > start {
            assert(s[a - 1] == ',');
        }
    }
}

/// Whether the request's `Accept` header lists `accept` (after lower-casing
/// the header's value). No `Accept` header, or one that is not visible text,
/// lists nothing.
pub fn check_request_accept(headers: &Vec<HeaderField>, accept: &str) -> (r: bool)
    ensures
        r == accepts(headers@, accept@),
{
    proof {
        reveal_strlit("accept");
        assert("accept"@ =~= seq!['a', 'c', 'c', 'e', 'p', 't']);
    }
    match header_value(headers, "accept") {
        Some(v) => {
            let lowered = lowercase(v.as_str());
            contains_token(lowered.as_str(), accept)
        },
        None => false,
    }
}

pub fn is_request_json(headers: &Vec<HeaderField>) -> (r: bool)
    ensures
        r == accepts(headers@, json_type()),
{
    proof {
        reveal_strlit("application/json");
        assert("application/json"@ =~= json_type());
    }
    check_request_accept(headers, "application/json")
}

pub fn is_request_html(headers: &Vec<HeaderField>) -> (r: bool)
    ensures
        r == accepts(headers@, html_type()),
{
    proof {
        reveal_strlit("text/html");
        assert("text/html"@ =~= html_type());
    }
    check_request_accept(headers, "text/html")
}

/// The format a response takes for these request headers.
pub fn negotiate(headers: &Vec<HeaderField>) -> (r: ResponseFormat)
    ensures
        r == negotiated(headers@),
{
    if is_request_json(headers) {
        ResponseFormat::Json
    } else if is_request_html(headers) {
        ResponseFormat::Html
    } else {
        ResponseFormat::PlainText
    }
}

} // verus!
