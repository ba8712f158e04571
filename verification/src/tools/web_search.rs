//! `WebSearch`: a query against DuckDuckGo's server-rendered HTML page,
//! whose result list is cut down to `title | url | snippet` entries.
use crate::text::{
    chars_of, decimal, find_char_from, find_from, find_seq_from, first_char_from, from_utf8_lossy, lemma_find_from,
    lemma_first_char_from, occurs_at, replace_all, replace_all_vec, string_of, subvec, trim, trimmed, usize_decimal,
    utf8_bytes, utf8_encode, utf8_lossy,
};
use vstd::string::StringExecFns;
use vstd::prelude::*;

verus! {

/// Results shown when the model does not ask for a count.
pub const DEFAULT_COUNT: usize = 8;
/// Most results ever shown.
pub const MAX_COUNT: usize = 15;
/// Seconds before the request is abandoned.
pub const TIMEOUT_SECS: u64 = 15;

pub const DESCRIPTION: &'static str = "Search the web via DuckDuckGo and return a ranked list of result titles, URLs, and snippets. Use BEFORE WebFetch when the user asks a factual question and you don't know the URL. Returns 8 results by default, up to 15. Do NOT call WebFetch on google.com/search or bing.com directly — use WebSearch.";

pub const PARAMETERS: &'static str = "{\"type\":\"object\",\"properties\":{\"query\":{\"type\":\"string\",\"description\":\"Search query in plain English. Be specific.\"},\"count\":{\"type\":\"integer\",\"description\":\"How many results to return (default 8, max 15).\"}},\"required\":[\"query\"],\"additionalProperties\":false}";

pub open spec fn is_unreserved(b: u8) -> bool {
    (65 <= b <= 90) || (97 <= b <= 122) || (48 <= b <= 57) || b == 45 || b == 95 || b == 46 || b == 126
}

pub open spec fn hex_upper(d: u8) -> char {
    if d < 10 {
        (48 + d) as char
    } else {
        (55 + d) as char
    }
}

/// Form encoding of one byte: unreserved bytes as themselves, space as `+`,
/// anything else as `%XX` (upper-case hex).
pub open spec fn encode_byte(b: u8) -> Seq<char> {
    if is_unreserved(b) {
        seq![b as char]
    } else if b == 32 {
        seq!['+']
    } else {
        seq!['%', hex_upper(b / 16), hex_upper(b % 16)]
    }
}

pub open spec fn encode_bytes(bs: Seq<u8>) -> Seq<char>
    decreases bs.len(),
{
    if bs.len() == 0 {
        Seq::empty()
    } else {
        encode_bytes(bs.drop_last()) + encode_byte(bs.last())
    }
}

fn hex_digit(d: u8) -> (c: char)
    requires
        d < 16,
    ensures
        c == hex_upper(d),
{
    if d < 10 {
        (48 + d) as char
    } else {
        (55 + d) as char
    }
}

/// Form-encode `s` (its UTF-8 bytes).
pub fn urlencode(s: &str) -> (r: String)
    ensures
        r@ == encode_bytes(utf8_encode(s@)),
{
    let bytes = utf8_bytes(s);
    let mut out: Vec<char> = Vec::new();
    let mut i: usize = 0;
    while i < bytes.len()
        invariant
            i <= bytes@.len(),
            out@ == encode_bytes(bytes@.take(i as int)),
        decreases bytes@.len() - i,
    {
        let b = bytes[i];
        assert(bytes@.take(i + 1).drop_last() =~= bytes@.take(i as int));
        let ghost before = out@;
        if (65 <= b && b <= 90) || (97 <= b && b <= 122) || (48 <= b && b <= 57) || b == 45 || b == 95 || b == 46
            || b == 126 {
            out.push(b as char);
        } else if b == 32 {
            out.push('+');
        } else {
            out.push('%');
            out.push(hex_digit(b / 16));
            out.push(hex_digit(b % 16));
        }
        assert(out@ =~= before + encode_byte(b));
        i = i + 1;
    }
    assert(bytes@.take(i as int) =~= bytes@);
    string_of(out.as_slice())
}

pub open spec fn hex_val(b: u8) -> Option<u8> {
    if 48 <= b <= 57 {
        Some((b - 48) as u8)
    } else if 65 <= b <= 70 {
        Some((b - 55) as u8)
    } else if 97 <= b <= 102 {
        Some((b - 87) as u8)
    } else {
        None
    }
}

/// The byte two characters after `%` stand for: a two-digit hex number (a
/// leading `+` sign allowed), or 0 when they are not one.
pub open spec fn escape_value(b1: u8, b2: u8) -> u8 {
    match (hex_val(b1), hex_val(b2)) {
        (Some(h), Some(l)) => (h * 16 + l) as u8,
        _ => if b1 == 43 {
            match hex_val(b2) {
                Some(l) => l,
                None => 0,
            }
        } else {
            0
        },
    }
}

/// Form decoding of `bs[k..]`: `+` is a space, `%` followed by two more bytes
/// is an escape, anything else is itself.
pub open spec fn decode_from(bs: Seq<u8>, k: int) -> Seq<u8>
    decreases bs.len() - k,
{
    if k < 0 || k >= bs.len() {
        Seq::empty()
    } else if bs[k] == 43 {
        seq![32u8] + decode_from(bs, k + 1)
    } else if bs[k] == 37 && k + 2 < bs.len() {
        seq![escape_value(bs[k + 1], bs[k + 2])] + decode_from(bs, k + 3)
    } else {
        seq![bs[k]] + decode_from(bs, k + 1)
    }
}

fn hex_val_exec(b: u8) -> (r: Option<u8>)
    ensures
        r == hex_val(b),
{
    if 48 <= b && b <= 57 {
        Some(b - 48)
    } else if 65 <= b && b <= 70 {
        Some(b - 55)
    } else if 97 <= b && b <= 102 {
        Some(b - 87)
    } else {
        None
    }
}

fn escape_value_exec(b1: u8, b2: u8) -> (r: u8)
    ensures
        r == escape_value(b1, b2),
{
    let x = hex_val_exec(b1);
    let y = hex_val_exec(b2);
    match (x, y) {
        (Some(h), Some(l)) => {
            assert(h < 16 && l < 16);
            assert(h * 16 + l <= 255) by (nonlinear_arith)
                requires
                    h < 16,
                    l < 16,
            ;
            h * 16 + l
        },
        _ => if b1 == 43 {
            match hex_val_exec(b2) {
                Some(l) => l,
                None => 0,
            }
        } else {
            0
        },
    }
}

/// Form-decode `s` (its UTF-8 bytes), reading the result as UTF-8 with
/// invalid sequences replaced.
pub fn urldecode(s: &str) -> (r: String)
    ensures
        r@ == utf8_lossy(decode_from(utf8_encode(s@), 0)),
        forall|x: Seq<char>| #[trigger] utf8_encode(x) == decode_from(utf8_encode(s@), 0) ==> r@ == x,
{
    let bytes = utf8_bytes(s);
    let ghost bs = bytes@;
    let mut out: Vec<u8> = Vec::new();
    let mut i: usize = 0;
    while i < bytes.len()
        invariant
            bs == bytes@,
            i <= bs.len(),
            out@ + decode_from(bs, i as int) == decode_from(bs, 0),
        decreases bs.len() - i,
    {
        let ghost before = out@;
        if bytes[i] == 43 {
            out.push(32);
            assert(out@ + decode_from(bs, i + 1) =~= before + decode_from(bs, i as int));
            i = i + 1;
        } else if bytes[i] == 37 && bytes.len() >= 3 && i < bytes.len() - 2 {
            out.push(escape_value_exec(bytes[i + 1], bytes[i + 2]));
            assert(out@ + decode_from(bs, i + 3) =~= before + decode_from(bs, i as int));
            i = i + 3;
        } else {
            out.push(bytes[i]);
            assert(out@ + decode_from(bs, i + 1) =~= before + decode_from(bs, i as int));
            i = i + 1;
        }
    }
    assert(out@ =~= decode_from(bs, 0));
    from_utf8_lossy(out.as_slice())
}

/// The byte a hex digit value `d` (below 16) is written as.
pub open spec fn hex_byte(d: u8) -> u8 {
    if d < 10 {
        (48 + d) as u8
    } else {
        (55 + d) as u8
    }
}

/// The UTF-8 bytes of the form encoding of one byte.
pub open spec fn byte_code(b: u8) -> Seq<u8> {
    if is_unreserved(b) {
        seq![b]
    } else if b == 32 {
        seq![43u8]
    } else {
        seq![37u8, hex_byte(b / 16), hex_byte(b % 16)]
    }
}

pub open spec fn code_bytes(bs: Seq<u8>) -> Seq<u8>
    decreases bs.len(),
{
    if bs.len() == 0 {
        Seq::empty()
    } else {
        code_bytes(bs.drop_last()) + byte_code(bs.last())
    }
}

proof fn lemma_utf8_encode_concat(a: Seq<char>, b: Seq<char>)
    ensures
        utf8_encode(a + b) == utf8_encode(a) + utf8_encode(b),
    decreases b.len(),
{
    if b.len() == 0 {
        assert(a + b =~= a);
        assert(utf8_encode(a) + utf8_encode(b) =~= utf8_encode(a));
    } else {
        assert((a + b).drop_last() =~= a + b.drop_last());
        assert((a + b).last() == b.last());
        lemma_utf8_encode_concat(a, b.drop_last());
        assert(utf8_encode(a + b) =~= utf8_encode(a) + utf8_encode(b));
    }
}

proof fn lemma_ascii_char(c: char)
    requires
        (c as u32) < 0x80,
    ensures
        utf8_encode(seq![c]) == seq![(c as u32) as u8],
{
    reveal_with_fuel(utf8_encode, 2);
    assert(seq![c].drop_last() =~= Seq::<char>::empty());
    assert(seq![c].last() == c);
    assert(utf8_encode(Seq::<char>::empty()) =~= Seq::<u8>::empty());
    assert(utf8_encode(seq![c]) =~= seq![(c as u32) as u8]);
}

proof fn lemma_hex_char(d: u8)
    requires
        d < 16,
    ensures
        (hex_upper(d) as u32) < 0x80,
        (hex_upper(d) as u32) as u8 == hex_byte(d),
        hex_val(hex_byte(d)) == Some(d),
{
}

proof fn lemma_byte_code(b: u8)
    ensures
        utf8_encode(encode_byte(b)) == byte_code(b),
{
    if is_unreserved(b) {
        lemma_ascii_char(b as char);
    } else if b == 32 {
        lemma_ascii_char('+');
    } else {
        let h = hex_upper(b / 16);
        let l = hex_upper(b % 16);
        lemma_hex_char(b / 16);
        lemma_hex_char(b % 16);
        lemma_ascii_char('%');
        lemma_ascii_char(h);
        lemma_ascii_char(l);
        assert(encode_byte(b) =~= seq!['%'] + seq![h] + seq![l]);
        lemma_utf8_encode_concat(seq!['%'] + seq![h], seq![l]);
        lemma_utf8_encode_concat(seq!['%'], seq![h]);
        assert(utf8_encode(encode_byte(b)) =~= byte_code(b));
    }
}

proof fn lemma_encode_bytes_code(bs: Seq<u8>)
    ensures
        utf8_encode(encode_bytes(bs)) == code_bytes(bs),
    decreases bs.len(),
{
    if bs.len() > 0 {
        lemma_encode_bytes_code(bs.drop_last());
        lemma_utf8_encode_concat(encode_bytes(bs.drop_last()), encode_byte(bs.last()));
        lemma_byte_code(bs.last());
    }
}

proof fn lemma_code_bytes_front(bs: Seq<u8>)
    requires
        bs.len() > 0,
    ensures
        code_bytes(bs) == byte_code(bs[0]) + code_bytes(bs.drop_first()),
    decreases bs.len(),
{
    if bs.len() == 1 {
        assert(bs.drop_last() =~= Seq::<u8>::empty());
        assert(bs.drop_first() =~= Seq::<u8>::empty());
        assert(code_bytes(bs) =~= byte_code(bs[0]) + code_bytes(bs.drop_first()));
    } else {
        lemma_code_bytes_front(bs.drop_last());
        assert(bs.drop_last().drop_first() =~= bs.drop_first().drop_last());
        assert(bs.drop_first().last() == bs.last());
        assert(code_bytes(bs) =~= byte_code(bs[0]) + code_bytes(bs.drop_first()));
    }
}

proof fn lemma_decode_shift(p: Seq<u8>, y: Seq<u8>, k: int)
    requires
        0 <= k,
    ensures
        decode_from(p + y, k + p.len()) == decode_from(y, k),
    decreases y.len() - k,
{
    let x = p + y;
    if k < y.len() {
        assert(x[k + p.len()] == y[k]);
        if y[k] == 43 {
            lemma_decode_shift(p, y, k + 1);
        } else if y[k] == 37 && k + 2 < y.len() {
            assert(x[k + p.len() + 1] == y[k + 1]);
            assert(x[k + p.len() + 2] == y[k + 2]);
            lemma_decode_shift(p, y, k + 3);
        } else {
            lemma_decode_shift(p, y, k + 1);
        }
    }
}

proof fn lemma_decode_code(bs: Seq<u8>)
    ensures
        decode_from(code_bytes(bs), 0) == bs,
    decreases bs.len(),
{
    if bs.len() > 0 {
        let b = bs[0];
        let c = byte_code(b);
        let rest = code_bytes(bs.drop_first());
        lemma_code_bytes_front(bs);
        let x = c + rest;
        lemma_decode_code(bs.drop_first());
        lemma_decode_shift(c, rest, 0);
        if is_unreserved(b) {
            assert(x[0] == b);
            assert(decode_from(x, 0) == seq![b] + decode_from(x, 1));
        } else if b == 32 {
            assert(x[0] == 43);
            assert(decode_from(x, 0) == seq![32u8] + decode_from(x, 1));
        } else {
            lemma_hex_char(b / 16);
            lemma_hex_char(b % 16);
            assert(x[0] == 37 && x[1] == hex_byte(b / 16) && x[2] == hex_byte(b % 16));
            assert((b / 16) * 16 + b % 16 == b) by (nonlinear_arith);
            assert(escape_value(x[1], x[2]) == b);
            assert(decode_from(x, 0) == seq![b] + decode_from(x, 3));
        }
        assert(decode_from(x, 0) =~= bs);
    }
}

/// Form decoding undoes form encoding: the bytes `urldecode` reads from
/// `urlencode(s)` are the UTF-8 bytes of `s`, so (by `urldecode`'s
/// contract) `urldecode(urlencode(s))` is `s`.
pub proof fn law_urldecode_inverts_urlencode(s: Seq<char>)
    ensures
        decode_from(utf8_encode(encode_bytes(utf8_encode(s))), 0) == utf8_encode(s),
{
    lemma_encode_bytes_code(utf8_encode(s));
    lemma_decode_code(utf8_encode(s));
}

/// `s` with every `<...>` tag removed (an unclosed tag runs to the end).
pub open spec fn drop_tags(s: Seq<char>, in_tag: bool) -> Seq<char>
    decreases s.len(),
{
    if s.len() == 0 {
        Seq::empty()
    } else if s[0] == '<' {
        drop_tags(s.drop_first(), true)
    } else if s[0] == '>' {
        drop_tags(s.drop_first(), false)
    } else if in_tag {
        drop_tags(s.drop_first(), true)
    } else {
        seq![s[0]] + drop_tags(s.drop_first(), false)
    }
}

/// The entity decoding of search results, applied in this order.
pub open spec fn decode_result_entities(s: Seq<char>) -> Seq<char> {
    replace_all(
        replace_all(
            replace_all(
                replace_all(replace_all(replace_all(s, "&amp;"@, "&"@), "&lt;"@, "<"@), "&gt;"@, ">"@),
                "&quot;"@,
                "\""@,
            ),
            "&#39;"@,
            "'"@,
        ),
        "&nbsp;"@,
        " "@,
    )
}

pub open spec fn stripped_tags(s: Seq<char>) -> Seq<char> {
    decode_result_entities(drop_tags(s, false))
}

fn drop_tags_vec(v: &[char]) -> (r: Vec<char>)
    ensures
        r@ == drop_tags(v@, false),
{
    let mut out: Vec<char> = Vec::new();
    let mut in_tag = false;
    let mut i: usize = 0;
    assert(v@.subrange(0, v@.len() as int) =~= v@);
    while i < v.len()
        invariant
            i <= v@.len(),
            out@ + drop_tags(v@.subrange(i as int, v@.len() as int), in_tag) == drop_tags(v@, false),
        decreases v@.len() - i,
    {
        let ghost rest = v@.subrange(i as int, v@.len() as int);
        assert(rest.drop_first() =~= v@.subrange(i + 1, v@.len() as int));
        let c = v[i];
        let ghost before = out@;
        if c == '<' {
            in_tag = true;
        } else if c == '>' {
            in_tag = false;
        } else if !in_tag {
            out.push(c);
            assert(out@ + drop_tags(v@.subrange(i + 1, v@.len() as int), false) =~= before + drop_tags(rest, false));
        }
        i = i + 1;
    }
    assert(v@.subrange(i as int, v@.len() as int) =~= Seq::<char>::empty());
    assert(out@ + Seq::<char>::empty() =~= out@);
    out
}

fn replace_str(v: Vec<char>, pat: &str, rep: &str) -> (r: Vec<char>)
    ensures
        r@ == replace_all(v@, pat@, rep@),
{
    let p = chars_of(pat);
    let q = chars_of(rep);
    replace_all_vec(v.as_slice(), p.as_slice(), q.as_slice())
}

fn strip_tags_vec(v: &[char]) -> (r: Vec<char>)
    ensures
        r@ == stripped_tags(v@),
{
    let t = drop_tags_vec(v);
    let t = replace_str(t, "&amp;", "&");
    let t = replace_str(t, "&lt;", "<");
    let t = replace_str(t, "&gt;", ">");
    let t = replace_str(t, "&quot;", "\"");
    let t = replace_str(t, "&#39;", "'");
    replace_str(t, "&nbsp;", " ")
}

/// Text of an HTML fragment: tags dropped, common entities decoded.
pub fn strip_tags(s: &str) -> (r: String)
    ensures
        r@ == stripped_tags(s@),
{
    let v = chars_of(s);
    string_of(strip_tags_vec(v.as_slice()).as_slice())
}

pub open spec fn strip_prefix_or_keep(s: Seq<char>, p: Seq<char>) -> Seq<char> {
    if s.len() >= p.len() && s.take(p.len() as int) == p {
        s.subrange(p.len() as int, s.len() as int)
    } else {
        s
    }
}

/// The target of a result link: the `uddg` parameter of a DuckDuckGo
/// redirect, decoded; otherwise the link itself, protocol-relative links
/// made `https:`.
pub open spec fn ddg_target(href: Seq<char>) -> Seq<char> {
    let t = strip_prefix_or_keep(strip_prefix_or_keep(strip_prefix_or_keep(href, "//"@), "https://"@), "http://"@);
    let q = find_from(t, "uddg="@, 0);
    if q >= 0 {
        let after = t.subrange(q + 5, t.len() as int);
        let e = first_char_from(after, '&', 0);
        let end = if e >= 0 { e } else { after.len() as int };
        utf8_lossy(decode_from(utf8_encode(after.take(end)), 0))
    } else if href.len() >= 2 && href.take(2) == "//"@ {
        "https:"@ + href
    } else {
        href
    }
}

fn strip_prefix_vec(v: Vec<char>, p: &str) -> (r: Vec<char>)
    ensures
        r@ == strip_prefix_or_keep(v@, p@),
{
    let pv = chars_of(p);
    if pv.len() <= v.len() && crate::text::seq_eq(subvec(v.as_slice(), 0, pv.len()).as_slice(), pv.as_slice()) {
        assert(v@.subrange(0, pv@.len() as int) =~= v@.take(pv@.len() as int));
        subvec(v.as_slice(), pv.len(), v.len())
    } else {
        proof {
            if v@.len() >= pv@.len() && v@.take(pv@.len() as int) == pv@ {
                assert(v@.subrange(0, pv@.len() as int) =~= v@.take(pv@.len() as int));
            }
        }
        v
    }
}

/// Where a result link points (see `ddg_target`).
pub fn decode_ddg_redirect(href: &str) -> (r: String)
    ensures
        r@ == ddg_target(href@),
{
    let hv = chars_of(href);
    let t = strip_prefix_vec(hv.clone(), "//");
    let t = strip_prefix_vec(t, "https://");
    let t = strip_prefix_vec(t, "http://");
    let key = chars_of("uddg=");
    proof { reveal_strlit("uddg="); }
    match find_seq_from(t.as_slice(), key.as_slice(), 0) {
        Some(q) => {
            proof { lemma_find_from(t@, key@, 0); }
            let after = subvec(t.as_slice(), q + 5, t.len());
            let end = match find_char_from(after.as_slice(), '&', 0) {
                Some(e) => e,
                None => after.len(),
            };
            proof { lemma_first_char_from(after@, '&', 0); }
            let piece = subvec(after.as_slice(), 0, end);
            assert(piece@ =~= after@.take(end as int));
            urldecode(string_of(piece.as_slice()).as_str())
        },
        None => {
            proof { reveal_strlit("//"); }
            if hv.len() >= 2 && hv[0] == '/' && hv[1] == '/' {
                assert(hv@.take(2) =~= "//"@);
                let mut s = String::from_str("https:");
                s.append(href);
                s
            } else {
                proof {
                    if hv@.len() >= 2 && hv@.take(2) == "//"@ {
                        assert(hv@.take(2)[0] == '/' && hv@.take(2)[1] == '/');
                    }
                }
                String::from_str(href)
            }
        },
    }
}

/// One search result.
#[derive(Debug, PartialEq, Eq)]
pub struct SearchResult {
    pub title: String,
    pub url: String,
    pub snippet: String,
}

pub struct SearchResultView {
    pub title: Seq<char>,
    pub url: Seq<char>,
    pub snippet: Seq<char>,
}

impl View for SearchResult {
    type V = SearchResultView;

    open spec fn view(&self) -> SearchResultView {
        SearchResultView { title: self.title@, url: self.url@, snippet: self.snippet@ }
    }
}

pub open spec fn results_view(v: Seq<SearchResult>) -> Seq<SearchResultView> {
    v.map_values(|r: SearchResult| r@)
}

/// The snippet after a result title: the text of the next
/// `class="result__snippet"` link, or nothing.
pub open spec fn snippet_after(after_title: Seq<char>) -> Seq<char> {
    let s_idx = find_from(after_title, "class=\"result__snippet\""@, 0);
    if s_idx < 0 {
        Seq::empty()
    } else {
        let after_s = after_title.subrange(s_idx, after_title.len() as int);
        let s_open = first_char_from(after_s, '>', 0);
        if s_open < 0 {
            Seq::empty()
        } else {
            let inner = after_s.subrange(s_open + 1, after_s.len() as int);
            let s_close = find_from(inner, "</a>"@, 0);
            if s_close < 0 {
                Seq::empty()
            } else {
                trim(stripped_tags(inner.take(s_close)))
            }
        }
    }
}

/// One step of the result scan from `cursor`: the result found (if its title
/// and url are not empty) and where scanning goes on, or `None` when no
/// further result link is complete.
pub open spec fn ddg_step(cursor: Seq<char>) -> Option<(Option<SearchResultView>, Seq<char>)> {
    let a = find_from(cursor, "class=\"result__a\""@, 0);
    if a < 0 {
        None
    } else {
        let ac = cursor.subrange(a, cursor.len() as int);
        let h = find_from(ac, "href=\""@, 0);
        if h < 0 {
            None
        } else {
            let us = h + 6;
            let ue = first_char_from(ac.subrange(us, ac.len() as int), '"', 0);
            let to = first_char_from(ac, '>', 0);
            if ue < 0 || to < 0 {
                None
            } else {
                let url = ddg_target(ac.subrange(us, us + ue));
                let ti = ac.subrange(to + 1, ac.len() as int);
                let tc = find_from(ti, "</a>"@, 0);
                if tc < 0 {
                    None
                } else {
                    let title = trim(stripped_tags(ti.take(tc)));
                    let after_title = ti.subrange(tc + 4, ti.len() as int);
                    let r = if title.len() > 0 && url.len() > 0 {
                        Some(SearchResultView { title, url, snippet: snippet_after(after_title) })
                    } else {
                        None
                    };
                    Some((r, after_title))
                }
            }
        }
    }
}

/// Results scanned from `cursor`, at most `max`.
pub open spec fn ddg_results(cursor: Seq<char>, max: nat) -> Seq<SearchResultView>
    decreases cursor.len(),
{
    if max == 0 {
        Seq::empty()
    } else {
        match ddg_step(cursor) {
            None => Seq::empty(),
            Some((r, next)) => if next.len() < cursor.len() {
                match r {
                    Some(x) => seq![x] + ddg_results(next, (max - 1) as nat),
                    None => ddg_results(next, max),
                }
            } else {
                Seq::empty()
            },
        }
    }
}

fn find_lit(v: &[char], pat: &str, k: usize) -> (r: Option<usize>)
    ensures
        match r {
            Some(i) => i as int == find_from(v@, pat@, k as int),
            None => find_from(v@, pat@, k as int) == -1,
        },
{
    let p = chars_of(pat);
    find_seq_from(v, p.as_slice(), k)
}

fn snippet_exec(at: &[char]) -> (r: Vec<char>)
    ensures
        r@ == snippet_after(at@),
{
    match find_lit(at, "class=\"result__snippet\"", 0) {
        None => Vec::new(),
        Some(s_idx) => {
            proof { lemma_find_from(at@, "class=\"result__snippet\""@, 0); }
            let after_s = subvec(at, s_idx, at.len());
            match find_char_from(after_s.as_slice(), '>', 0) {
                None => Vec::new(),
                Some(s_open) => {
                    proof { lemma_first_char_from(after_s@, '>', 0); }
                    let inner = subvec(after_s.as_slice(), s_open + 1, after_s.len());
                    match find_lit(inner.as_slice(), "</a>", 0) {
                        None => Vec::new(),
                        Some(s_close) => {
                            proof { lemma_find_from(inner@, "</a>"@, 0); }
                            let piece = subvec(inner.as_slice(), 0, s_close);
                            assert(piece@ =~= inner@.take(s_close as int));
                            trimmed(strip_tags_vec(piece.as_slice()).as_slice())
                        },
                    }
                },
            }
        },
    }
}

fn ddg_step_exec(cursor: &[char]) -> (r: Option<(Option<SearchResult>, Vec<char>)>)
    ensures
        match r {
            None => ddg_step(cursor@) is None,
            Some((x, next)) => ddg_step(cursor@) matches Some((y, n)) && n == next@ && match x {
                Some(sr) => y == Some(sr@),
                None => y is None,
            },
        },
{
    let a = match find_lit(cursor, "class=\"result__a\"", 0) {
        Some(a) => a,
        None => return None,
    };
    proof { lemma_find_from(cursor@, "class=\"result__a\""@, 0); }
    let ac = subvec(cursor, a, cursor.len());
    let h = match find_lit(ac.as_slice(), "href=\"", 0) {
        Some(h) => h,
        None => return None,
    };
    proof {
        lemma_find_from(ac@, "href=\""@, 0);
        reveal_strlit("href=\"");
    }
    let us = h + 6;
    let tail = subvec(ac.as_slice(), us, ac.len());
    let ue = find_char_from(tail.as_slice(), '"', 0);
    proof { lemma_first_char_from(tail@, '"', 0); }
    let to = find_char_from(ac.as_slice(), '>', 0);
    proof { lemma_first_char_from(ac@, '>', 0); }
    let (ue, to) = match (ue, to) {
        (Some(x), Some(y)) => (x, y),
        _ => return None,
    };
    let raw_href = subvec(ac.as_slice(), us, us + ue);
    let url = decode_ddg_redirect(string_of(raw_href.as_slice()).as_str());
    let ti = subvec(ac.as_slice(), to + 1, ac.len());
    let tc = match find_lit(ti.as_slice(), "</a>", 0) {
        Some(tc) => tc,
        None => return None,
    };
    proof {
        lemma_find_from(ti@, "</a>"@, 0);
        reveal_strlit("</a>");
    }
    let title_html = subvec(ti.as_slice(), 0, tc);
    assert(title_html@ =~= ti@.take(tc as int));
    let title = trimmed(strip_tags_vec(title_html.as_slice()).as_slice());
    let after_title = subvec(ti.as_slice(), tc + 4, ti.len());
    if title.len() > 0 && url.as_str().is_empty() == false {
        let snippet = snippet_exec(after_title.as_slice());
        Some((Some(SearchResult { title: string_of(title.as_slice()), url, snippet: string_of(snippet.as_slice()) }), after_title))
    } else {
        Some((None, after_title))
    }
}

/// The results of a DuckDuckGo HTML page, at most `max`.
pub fn parse_ddg_html(html: &str, max: usize) -> (r: Vec<SearchResult>)
    ensures
        results_view(r@) == ddg_results(html@, max as nat),
{
    let mut results: Vec<SearchResult> = Vec::new();
    let mut cursor = chars_of(html);
    loop
        invariant_except_break
            results@.len() <= max,
            results_view(results@) + ddg_results(cursor@, (max - results@.len()) as nat) == ddg_results(
                html@,
                max as nat,
            ),
        ensures
            results_view(results@) == ddg_results(html@, max as nat),
        decreases cursor@.len(),
    {
        if results.len() >= max {
            assert(results_view(results@) + Seq::<SearchResultView>::empty() =~= results_view(results@));
            break;
        }
        match ddg_step_exec(cursor.as_slice()) {
            None => {
                assert(results_view(results@) + Seq::<SearchResultView>::empty() =~= results_view(results@));
                break;
            },
            Some((found, next)) => {
                if next.len() >= cursor.len() {
                    assert(results_view(results@) + Seq::<SearchResultView>::empty() =~= results_view(results@));
                    break;
                }
                let ghost before = results_view(results@);
                let ghost left = (max - results@.len()) as nat;
                match found {
                    Some(sr) => {
                        let ghost srv = sr@;
                        results.push(sr);
                        assert(results_view(results@) =~= before.push(srv));
                        assert(results_view(results@) + ddg_results(next@, (max - results@.len()) as nat) =~= before
                            + ddg_results(cursor@, left));
                    },
                    None => {},
                }
                cursor = next;
            },
        }
    }
    results
}

/// The `count` argument: 8 when absent, clamped to 1..=15.
pub fn result_count(count: Option<u64>) -> (r: usize)
    ensures
        r == match count {
            None => DEFAULT_COUNT as int,
            Some(n) => if n < 1 {
                1
            } else if n > MAX_COUNT {
                MAX_COUNT as int
            } else {
                n as int
            },
        },
{
    match count {
        None => DEFAULT_COUNT,
        Some(n) => if n < 1 {
            1
        } else if n > 15 {
            MAX_COUNT
        } else {
            n as usize
        },
    }
}

/// The page fetched for a query.
pub fn search_url(query: &str) -> (r: String)
    ensures
        r@ == "https://html.duckduckgo.com/html/?q="@ + encode_bytes(utf8_encode(query@)),
{
    let mut s = String::from_str("https://html.duckduckgo.com/html/?q=");
    s.append(urlencode(query).as_str());
    s
}

pub open spec fn result_block(i: nat, r: SearchResultView) -> Seq<char> {
    decimal(i) + ". "@ + r.title + "\n   "@ + r.url + "\n"@ + (if r.snippet.len() > 0 {
        "   "@ + r.snippet + "\n"@
    } else {
        Seq::empty()
    }) + "\n"@
}

pub open spec fn result_blocks(rs: Seq<SearchResultView>) -> Seq<char>
    decreases rs.len(),
{
    if rs.len() == 0 {
        Seq::empty()
    } else {
        result_blocks(rs.drop_last()) + result_block(rs.len(), rs.last())
    }
}

/// The tool's reply for a query and its results.
pub open spec fn search_report(query: Seq<char>, rs: Seq<SearchResultView>) -> Seq<char> {
    if rs.len() == 0 {
        "WebSearch `"@ + query + "`: 0 results (DuckDuckGo HTML response was empty or unparseable)"@
    } else {
        "WebSearch `"@ + query + "` — "@ + decimal(rs.len()) + " results:\n\n"@ + result_blocks(rs)
    }
}

fn append_result_block(s: &mut String, idx: usize, r: &SearchResult)
    ensures
        final(s)@ == old(s)@ + result_block(idx as nat, r@),
{
    s.append(string_of(usize_decimal(idx).as_slice()).as_str());
    s.append(". ");
    s.append(r.title.as_str());
    s.append("\n   ");
    s.append(r.url.as_str());
    s.append("\n");
    if !r.snippet.as_str().is_empty() {
        s.append("   ");
        s.append(r.snippet.as_str());
        s.append("\n");
    }
    s.append("\n");
}

pub fn render_search_results(query: &str, results: &[SearchResult]) -> (r: String)
    ensures
        r@ == search_report(query@, results_view(results@)),
{
    if results.len() == 0 {
        let mut s = String::from_str("WebSearch `");
        s.append(query);
        s.append("`: 0 results (DuckDuckGo HTML response was empty or unparseable)");
        return s;
    }
    let ghost rv = results_view(results@);
    let mut s = String::from_str("WebSearch `");
    s.append(query);
    s.append("` — ");
    s.append(string_of(usize_decimal(results.len()).as_slice()).as_str());
    s.append(" results:\n\n");
    let ghost start = s@;
    let mut i: usize = 0;
    assert(rv.take(0) =~= Seq::<SearchResultView>::empty());
    assert(start + result_blocks(rv.take(0)) =~= start);
    while i < results.len()
        invariant
            rv == results_view(results@),
            i <= results@.len(),
            s@ == start + result_blocks(rv.take(i as int)),
        decreases results@.len() - i,
    {
        let r = &results[i];
        assert(rv.take(i + 1).drop_last() =~= rv.take(i as int));
        assert(rv.take(i + 1).last() == r@);
        append_result_block(&mut s, i + 1, r);
        assert(s@ =~= start + result_blocks(rv.take(i + 1)));
        i = i + 1;
    }
    assert(rv.take(i as int) =~= rv);
    s
}

} // verus!
