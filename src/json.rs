//! Rendering of string pairs as a JSON object or as `key: value` lines, and a
//! reader for such objects.
use vstd::prelude::*;

use crate::headers::pairs_view;
use crate::ip::{digit_char, digit_str};

verus! {

/// How one character stands inside a JSON string: quote, backslash and
/// control characters escaped (`\b \f \n \r \t`, the rest as `\u00XX` in
/// lower-case hex), everything else as it is.
pub open spec fn escape_char(c: char) -> Seq<char> {
    if c == '"' {
        seq!['\\', '"']
    } else if c == '\\' {
        seq!['\\', '\\']
    } else if c == '\n' {
        seq!['\\', 'n']
    } else if c == '\r' {
        seq!['\\', 'r']
    } else if c == '\t' {
        seq!['\\', 't']
    } else if c == '\x08' {
        seq!['\\', 'b']
    } else if c == '\x0c' {
        seq!['\\', 'f']
    } else if (c as u32) < 0x20 {
        seq!['\\', 'u', '0', '0', digit_char((c as u32 / 16) as nat), digit_char((c as u32 % 16) as nat)]
    } else {
        seq![c]
    }
}

pub open spec fn escape(s: Seq<char>) -> Seq<char>
    decreases s.len(),
{
    if s.len() == 0 {
        Seq::empty()
    } else {
        escape_char(s[0]) + escape(s.drop_first())
    }
}

pub open spec fn json_string(s: Seq<char>) -> Seq<char> {
    seq!['"'] + escape(s) + seq!['"']
}

pub open spec fn json_member(p: (Seq<char>, Seq<char>)) -> Seq<char> {
    json_string(p.0) + seq![':'] + json_string(p.1)
}

pub open spec fn json_members(e: Seq<(Seq<char>, Seq<char>)>) -> Seq<char>
    decreases e.len(),
{
    if e.len() == 0 {
        Seq::empty()
    } else if e.len() == 1 {
        json_member(e[0])
    } else {
        json_member(e[0]) + seq![','] + json_members(e.drop_first())
    }
}

/// A JSON object with one string member per pair, in order, without spaces.
pub open spec fn json_object(e: Seq<(Seq<char>, Seq<char>)>) -> Seq<char> {
    seq!['{'] + json_members(e) + seq!['}']
}

pub open spec fn text_line(p: (Seq<char>, Seq<char>)) -> Seq<char> {
    p.0 + seq![':', ' '] + p.1
}

/// One `key: value` line per pair, joined by newlines, with no newline at the end.
pub open spec fn text_lines(e: Seq<(Seq<char>, Seq<char>)>) -> Seq<char>
    decreases e.len(),
{
    if e.len() == 0 {
        Seq::empty()
    } else if e.len() == 1 {
        text_line(e[0])
    } else {
        text_lines(e.drop_last()) + seq!['\n'] + text_line(e.last())
    }
}

/// The value of a hex digit.
pub open spec fn hex_value(c: char) -> Option<nat> {
    if '0' <= c && c <= '9' {
        Some((c as u32 - '0' as u32) as nat)
    } else if 'a' <= c && c <= 'f' {
        Some((c as u32 - 'a' as u32 + 10) as nat)
    } else if 'A' <= c && c <= 'F' {
        Some((c as u32 - 'A' as u32 + 10) as nat)
    } else {
        None
    }
}

/// The character a one-letter JSON escape stands for.
pub open spec fn unescape_letter(c: char) -> Option<char> {
    if c == '"' {
        Some('"')
    } else if c == '\\' {
        Some('\\')
    } else if c == '/' {
        Some('/')
    } else if c == 'b' {
        Some('\x08')
    } else if c == 'f' {
        Some('\x0c')
    } else if c == 'n' {
        Some('\n')
    } else if c == 'r' {
        Some('\r')
    } else if c == 't' {
        Some('\t')
    } else {
        None
    }
}

/// The code of a `\uXXXX` escape at the start of `t`, outside the surrogates.
pub open spec fn unicode_escape(t: Seq<char>) -> Option<u32> {
    if t.len() >= 6 && t[0] == '\\' && t[1] == 'u' && hex_value(t[2]) is Some && hex_value(
        t[3],
    ) is Some && hex_value(t[4]) is Some && hex_value(t[5]) is Some {
        let v = hex_value(t[2])->0 * 4096 + hex_value(t[3])->0 * 256 + hex_value(t[4])->0 * 16
            + hex_value(t[5])->0;
        if v < 0xd800 {
            Some(v as u32)
        } else {
            None
        }
    } else {
        None
    }
}

pub open spec fn code_of(c: char) -> u32 {
    c as u32
}

/// The character whose code is `v`.
pub open spec fn char_with_code(v: u32) -> char {
    choose|c: char| #[trigger] code_of(c) == v
}

/// Reads the contents of a JSON string up to its closing quote: the decoded
/// characters and what follows the quote.
pub open spec fn read_string(t: Seq<char>) -> Option<(Seq<char>, Seq<char>)>
    decreases t.len(),
{
    if t.len() == 0 {
        None
    } else if t[0] == '"' {
        Some((Seq::empty(), t.drop_first()))
    } else if t[0] == '\\' {
        if t.len() >= 2 && unescape_letter(t[1]) is Some {
            match read_string(t.subrange(2, t.len() as int)) {
                Some(p) => Some((seq![unescape_letter(t[1])->0] + p.0, p.1)),
                None => None,
            }
        } else if unicode_escape(t) is Some {
            match read_string(t.subrange(6, t.len() as int)) {
                Some(p) => Some(
                    (seq![char_with_code(unicode_escape(t)->0)] + p.0, p.1),
                ),
                None => None,
            }
        } else {
            None
        }
    } else {
        match read_string(t.drop_first()) {
            Some(p) => Some((seq![t[0]] + p.0, p.1)),
            None => None,
        }
    }
}

proof fn lemma_read_string_shorter(t: Seq<char>)
    ensures
        read_string(t) matches Some(p) ==> p.1.len() < t.len(),
    decreases t.len(),
{
    if t.len() > 0 && t[0] != '"' {
        if t[0] == '\\' {
            if t.len() >= 2 && unescape_letter(t[1]) is Some {
                lemma_read_string_shorter(t.subrange(2, t.len() as int));
            } else if unicode_escape(t) is Some {
                lemma_read_string_shorter(t.subrange(6, t.len() as int));
            }
        } else {
            lemma_read_string_shorter(t.drop_first());
        }
    }
}

/// Reads `"key":"value"` members separated by commas up to the closing brace,
/// which must end the text.
pub open spec fn read_members(t: Seq<char>) -> Option<Seq<(Seq<char>, Seq<char>)>>
    decreases t.len() via read_members_decreases
{
    if t.len() > 0 && t[0] == '"' {
        match read_string(t.drop_first()) {
            Some(k) => if k.1.len() >= 2 && k.1[0] == ':' && k.1[1] == '"' {
                match read_string(k.1.subrange(2, k.1.len() as int)) {
                    Some(v) => if v.1 == seq!['}'] {
                        Some(seq![(k.0, v.0)])
                    } else if v.1.len() > 0 && v.1[0] == ',' {
                        match read_members(v.1.drop_first()) {
                            Some(rest) => Some(seq![(k.0, v.0)] + rest),
                            None => None,
                        }
                    } else {
                        None
                    },
                    None => None,
                }
            } else {
                None
            },
            None => None,
        }
    } else {
        None
    }
}

#[via_fn]
proof fn read_members_decreases(t: Seq<char>) {
    if t.len() > 0 && t[0] == '"' {
        lemma_read_string_shorter(t.drop_first());
        if let Some(k) = read_string(t.drop_first()) {
            if k.1.len() >= 2 {
                lemma_read_string_shorter(k.1.subrange(2, k.1.len() as int));
            }
        }
    }
}

/// Reads a JSON object whose members are all strings, written without spaces.
pub open spec fn read_object(t: Seq<char>) -> Option<Seq<(Seq<char>, Seq<char>)>> {
    if t == seq!['{', '}'] {
        Some(Seq::empty())
    } else if t.len() > 0 && t[0] == '{' {
        read_members(t.drop_first())
    } else {
        None
    }
}

proof fn lemma_digit_hex_value(d: nat)
    requires
        d < 16,
    ensures
        hex_value(digit_char(d)) == Some(d),
{
    let t = seq!['0', '1', '2', '3', '4', '5', '6', '7', '8', '9', 'a', 'b', 'c', 'd', 'e', 'f'];
    assert(t[0] == '0' && t[1] == '1' && t[2] == '2' && t[3] == '3' && t[4] == '4' && t[5] == '5'
        && t[6] == '6' && t[7] == '7' && t[8] == '8' && t[9] == '9' && t[10] == 'a' && t[11] == 'b'
        && t[12] == 'c' && t[13] == 'd' && t[14] == 'e' && t[15] == 'f');
}

proof fn lemma_char_with_code(c: char)
    ensures
        char_with_code(c as u32) == c,
{
    assert(code_of(c) == c as u32);
}

/// Reading an escaped string followed by a quote gives back the string and
/// what follows the quote.
pub proof fn lemma_read_escaped(s: Seq<char>, rest: Seq<char>)
    ensures
        read_string(escape(s) + seq!['"'] + rest) == Some((s, rest)),
    decreases s.len(),
{
    let t = escape(s) + seq!['"'] + rest;
    if s.len() == 0 {
        assert(t =~= seq!['"'] + rest);
        assert(t.drop_first() =~= rest);
    } else {
        let c = s[0];
        let s1 = s.drop_first();
        let u = escape(s1) + seq!['"'] + rest;
        lemma_read_escaped(s1, rest);
        let ec = escape_char(c);
        assert(t =~= ec + u);
        if ec.len() == 2 {
            assert(t.subrange(2, t.len() as int) =~= u);
        } else if ec.len() == 6 {
            let v = c as u32;
            lemma_digit_hex_value((v / 16) as nat);
            lemma_digit_hex_value((v % 16) as nat);
            lemma_char_with_code(c);
            assert(t[2] == '0' && t[3] == '0');
            assert(unicode_escape(t) == Some(v));
            assert(t.subrange(6, t.len() as int) =~= u);
        } else {
            assert(t.drop_first() =~= u);
        }
        assert(seq![c] + s1 =~= s);
    }
}

proof fn lemma_read_members(e: Seq<(Seq<char>, Seq<char>)>)
    requires
        e.len() >= 1,
    ensures
        read_members(json_members(e) + seq!['}']) == Some(e),
    decreases e.len(),
{
    let p = e[0];
    let r = if e.len() == 1 {
        seq!['}']
    } else {
        seq![','] + json_members(e.drop_first()) + seq!['}']
    };
    let r1 = seq![':', '"'] + escape(p.1) + seq!['"'] + r;
    let t = json_members(e) + seq!['}'];
    assert(t =~= seq!['"'] + escape(p.0) + seq!['"'] + r1);
    assert(t.drop_first() =~= escape(p.0) + seq!['"'] + r1);
    lemma_read_escaped(p.0, r1);
    assert(r1.subrange(2, r1.len() as int) =~= escape(p.1) + seq!['"'] + r);
    lemma_read_escaped(p.1, r);
    if e.len() > 1 {
        lemma_read_members(e.drop_first());
        assert(r.drop_first() =~= json_members(e.drop_first()) + seq!['}']);
        assert(r[0] == ',');
        assert(r != seq!['}']);
        assert(seq![p] + e.drop_first() =~= e);
    } else {
        assert(seq![p] =~= e);
    }
}

/// Reading back the JSON object rendered from a list of pairs gives exactly
/// those pairs, keys and values, in their order.
pub proof fn json_round_trip(e: Seq<(Seq<char>, Seq<char>)>)
    ensures
        read_object(json_object(e)) == Some(e),
{
    let t = json_object(e);
    if e.len() == 0 {
        assert(t =~= seq!['{', '}']);
        assert(e =~= Seq::empty());
    } else {
        lemma_read_members(e);
        assert(t.drop_first() =~= json_members(e) + seq!['}']);
        assert(json_members(e)[0] == '"');
        assert(t[1] == '"');
        assert(t != seq!['{', '}']);
    }
}

proof fn lemma_escape_push(s: Seq<char>, c: char)
    ensures
        escape(s.push(c)) == escape(s) + escape_char(c),
    decreases s.len(),
{
    if s.len() == 0 {
        assert(s.push(c).drop_first() =~= Seq::<char>::empty());
        assert(s.push(c)[0] == c);
        assert(escape(s.push(c).drop_first()) == Seq::<char>::empty());
        assert(escape(s) == Seq::<char>::empty());
        assert(escape(s.push(c)) =~= escape(s) + escape_char(c));
    } else {
        lemma_escape_push(s.drop_first(), c);
        assert(s.push(c).drop_first() =~= s.drop_first().push(c));
        assert(s.push(c)[0] == s[0]);
        assert(escape(s.push(c)) == escape_char(s[0]) + escape(s.drop_first().push(c)));
        assert(escape(s.push(c)) =~= escape(s) + escape_char(c));
    }
}

proof fn lemma_members_push(e: Seq<(Seq<char>, Seq<char>)>, p: (Seq<char>, Seq<char>))
    requires
        e.len() >= 1,
    ensures
        json_members(e.push(p)) == json_members(e) + seq![','] + json_member(p),
    decreases e.len(),
{
    assert(e.push(p)[0] == e[0]);
    if e.len() == 1 {
        assert(e.push(p).drop_first() =~= seq![p]);
        assert(json_members(seq![p]) == json_member(p));
    } else {
        lemma_members_push(e.drop_first(), p);
        assert(e.push(p).drop_first() =~= e.drop_first().push(p));
    }
    assert(json_members(e.push(p)) =~= json_members(e) + seq![','] + json_member(p));
}

/// Relies on `String::push`: the character is appended.
#[verifier::external_body]
fn push_char(s: &mut String, c: char)
    ensures
        final(s)@ == old(s)@.push(c),
{
    s.push(c);
}

fn push_escaped(out: &mut String, c: char)
    ensures
        final(out)@ == old(out)@ + escape_char(c),
{
    proof {
        reveal_strlit("\\\"");
        reveal_strlit("\\\\");
        reveal_strlit("\\n");
        reveal_strlit("\\r");
        reveal_strlit("\\t");
        reveal_strlit("\\b");
        reveal_strlit("\\f");
        reveal_strlit("\\u00");
    }
    if c == '"' {
        out.append("\\\"");
    } else if c == '\\' {
        out.append("\\\\");
    } else if c == '\n' {
        out.append("\\n");
    } else if c == '\r' {
        out.append("\\r");
    } else if c == '\t' {
        out.append("\\t");
    } else if c == '\x08' {
        out.append("\\b");
    } else if c == '\x0c' {
        out.append("\\f");
    } else if (c as u32) < 0x20 {
        out.append("\\u00");
        out.append(digit_str(c as u32 / 16));
        out.append(digit_str(c as u32 % 16));
    } else {
        push_char(out, c);
    }
    assert(out@ =~= old(out)@ + escape_char(c));
}

/// Appends `s` as a JSON string, quotes included.
fn push_json_string(out: &mut String, s: &str)
    ensures
        final(out)@ == old(out)@ + json_string(s@),
{
    proof {
        reveal_strlit("\"");
    }
    out.append("\"");
    let n = s.unicode_len();
    let mut i: usize = 0;
    assert(s@.subrange(0, 0) =~= Seq::<char>::empty());
    while i < n
        invariant
            n == s@.len(),
            i <= n,
            out@ == old(out)@ + seq!['"'] + escape(s@.subrange(0, i as int)),
        decreases n - i,
    {
        let c = s.get_char(i);
        push_escaped(out, c);
        proof {
            lemma_escape_push(s@.subrange(0, i as int), c);
            assert(s@.subrange(0, i + 1) =~= s@.subrange(0, i as int).push(c));
        }
        i = i + 1;
    }
    out.append("\"");
    assert(s@.subrange(0, n as int) =~= s@);
    assert(out@ =~= old(out)@ + json_string(s@));
}

/// The pairs as a JSON object, in order: `{"k":"v",...}`.
pub fn render_json(pairs: &Vec<(String, String)>) -> (r: String)
    ensures
        r@ == json_object(pairs_view(pairs@)),
{
    let ghost pv = pairs_view(pairs@);
    proof {
        reveal_strlit("{");
        reveal_strlit("}");
    }
    let mut out = String::from_str("{");
    let mut i: usize = 0;
    assert(pv.subrange(0, 0) =~= Seq::<(Seq<char>, Seq<char>)>::empty());
    while i < pairs.len()
        invariant
            pv == pairs_view(pairs@),
            i <= pairs@.len(),
            out@ == seq!['{'] + json_members(pv.subrange(0, i as int)),
        decreases pairs.len() - i,
    {
        proof {
            reveal_strlit(",");
            reveal_strlit(":");
        }
        let ghost before = out@;
        if i > 0 {
            out.append(",");
        }
        push_json_string(&mut out, pairs[i].0.as_str());
        out.append(":");
        push_json_string(&mut out, pairs[i].1.as_str());
        proof {
            let e = pv.subrange(0, i + 1);
            assert(pv[i as int] == (pairs@[i as int].0@, pairs@[i as int].1@));
            if i == 0 {
                assert(e.len() == 1);
                assert(out@ =~= seq!['{'] + json_members(e));
            } else {
                lemma_members_push(pv.subrange(0, i as int), pv[i as int]);
                assert(pv.subrange(0, i as int).push(pv[i as int]) =~= e);
                assert(out@ =~= seq!['{'] + json_members(e));
            }
        }
        i = i + 1;
    }
    out.append("}");
    assert(pv.subrange(0, pairs@.len() as int) =~= pv);
    out
}

/// The pairs as `key: value` lines joined by newlines, no newline at the end.
pub fn render_text(pairs: &Vec<(String, String)>) -> (r: String)
    ensures
        r@ == text_lines(pairs_view(pairs@)),
{
    let ghost pv = pairs_view(pairs@);
    let mut out = String::new();
    let mut i: usize = 0;
    assert(pv.subrange(0, 0) =~= Seq::<(Seq<char>, Seq<char>)>::empty());
    while i < pairs.len()
        invariant
            pv == pairs_view(pairs@),
            i <= pairs@.len(),
            out@ == text_lines(pv.subrange(0, i as int)),
        decreases pairs.len() - i,
    {
        proof {
            reveal_strlit("\n");
            reveal_strlit(": ");
        }
        if i > 0 {
            out.append("\n");
        }
        out.append(pairs[i].0.as_str());
        out.append(": ");
        out.append(pairs[i].1.as_str());
        proof {
            let e = pv.subrange(0, i + 1);
            assert(pv[i as int] == (pairs@[i as int].0@, pairs@[i as int].1@));
            assert(e.drop_last() =~= pv.subrange(0, i as int));
            assert(out@ =~= text_lines(e));
        }
        i = i + 1;
    }
    assert(pv.subrange(0, pairs@.len() as int) =~= pv);
    out
}

} // verus!
