//! `WebFetch`: an HTTP GET whose HTML replies are cut down to plain text.
use crate::text::{
    chars_of, find_from, occurs_at, find_seq_from, is_ws, is_whitespace, lemma_find_from, lines, lines_of, replace_all,
    replace_all_vec, string_of, subvec, trim, trim_start, trimmed,
};
use vstd::prelude::*;

verus! {

/// Bytes of a response read before stripping.
pub const MAX_BYTES_RAW: usize = 512000;
/// Bytes of text returned.
pub const MAX_BYTES_OUTPUT: usize = 32768;
/// Seconds before the request is abandoned.
pub const TIMEOUT_SECS: u64 = 20;

pub const DESCRIPTION: &'static str = "Fetch the contents of a URL via HTTP GET. HTML responses are stripped to plain text (scripts/styles removed, entities decoded, tags dropped). Use to read web pages, JSON APIs, or documentation. Returns at most 32KB of text. Times out after 20s. Read-only.";

pub const PARAMETERS: &'static str = "{\"type\":\"object\",\"properties\":{\"url\":{\"type\":\"string\",\"description\":\"Absolute URL (http or https) to fetch.\"}},\"required\":[\"url\"],\"additionalProperties\":false}";

pub open spec fn starts_with(s: Seq<char>, p: Seq<char>) -> bool {
    s.len() >= p.len() && s.take(p.len() as int) == p
}

pub fn starts_with_str(s: &str, p: &str) -> (r: bool)
    ensures
        r == starts_with(s@, p@),
{
    let v = chars_of(s);
    let pv = chars_of(p);
    if pv.len() > v.len() {
        return false;
    }
    let head = subvec(v.as_slice(), 0, pv.len());
    assert(head@ =~= v@.take(pv@.len() as int));
    crate::text::seq_eq(head.as_slice(), pv.as_slice())
}

/// Only absolute `http://` and `https://` URLs are fetched.
pub fn url_allowed(url: &str) -> (r: bool)
    ensures
        r == (starts_with(url@, "http://"@) || starts_with(url@, "https://"@)),
{
    starts_with_str(url, "http://") || starts_with_str(url, "https://")
}

/// `s` with every block from `open` to the next `close` removed; an
/// unclosed block runs to the end.
pub open spec fn strip_block(s: Seq<char>, open: Seq<char>, close: Seq<char>) -> Seq<char>
    decreases s.len(),
{
    let i = find_from(s, open, 0);
    if close.len() == 0 || i < 0 {
        s
    } else {
        proof {
            lemma_find_from(s, open, 0);
        }
        let after_open = s.subrange(i, s.len() as int);
        let j = find_from(after_open, close, 0);
        if j < 0 {
            s.take(i)
        } else {
            proof {
                lemma_find_from(after_open, close, 0);
            }
            s.take(i) + strip_block(after_open.subrange(j + close.len(), after_open.len() as int), open, close)
        }
    }
}

fn strip_block_vec(v: &[char], open: &str, close: &str) -> (r: Vec<char>)
    requires
        close@.len() > 0,
    ensures
        r@ == strip_block(v@, open@, close@),
{
    let ov = chars_of(open);
    let cv = chars_of(close);
    let mut out: Vec<char> = Vec::new();
    let mut rest = subvec(v, 0, v.len());
    assert(rest@ =~= v@);
    loop
        invariant_except_break
            cv@ == close@,
            ov@ == open@,
            cv@.len() > 0,
            out@ + strip_block(rest@, open@, close@) == strip_block(v@, open@, close@),
        ensures
            out@ == strip_block(v@, open@, close@),
        decreases rest@.len(),
    {
        match find_seq_from(rest.as_slice(), ov.as_slice(), 0) {
            None => {
                let ghost before = out@;
                let mut t = rest;
                out.append(&mut t);
                break;
            },
            Some(start) => {
                proof { lemma_find_from(rest@, ov@, 0); }
                let ghost before = out@;
                let ghost rs = rest@;
                let mut head = subvec(rest.as_slice(), 0, start);
                assert(head@ =~= rs.take(start as int));
                out.append(&mut head);
                let after_open = subvec(rest.as_slice(), start, rest.len());
                match find_seq_from(after_open.as_slice(), cv.as_slice(), 0) {
                    None => {
                        assert(out@ + Seq::<char>::empty() =~= out@);
                        break;
                    },
                    Some(end) => {
                        proof { lemma_find_from(after_open@, cv@, 0); }
                        let next = subvec(after_open.as_slice(), end + cv.len(), after_open.len());
                        assert(before + strip_block(rs, open@, close@) =~= out@ + strip_block(next@, open@, close@));
                        rest = next;
                    },
                }
            },
        }
    }
    out
}

/// Tags dropped, each closing `>` leaving a space.
pub open spec fn detag(s: Seq<char>, in_tag: bool) -> Seq<char>
    decreases s.len(),
{
    if s.len() == 0 {
        Seq::empty()
    } else if s[0] == '<' {
        detag(s.drop_first(), true)
    } else if s[0] == '>' {
        seq![' '] + detag(s.drop_first(), false)
    } else if in_tag {
        detag(s.drop_first(), true)
    } else {
        seq![s[0]] + detag(s.drop_first(), false)
    }
}

fn detag_vec(v: &[char]) -> (r: Vec<char>)
    ensures
        r@ == detag(v@, false),
{
    let mut out: Vec<char> = Vec::new();
    let mut in_tag = false;
    let mut i: usize = 0;
    assert(v@.subrange(0, v@.len() as int) =~= v@);
    while i < v.len()
        invariant
            i <= v@.len(),
            out@ + detag(v@.subrange(i as int, v@.len() as int), in_tag) == detag(v@, false),
        decreases v@.len() - i,
    {
        let ghost rest = v@.subrange(i as int, v@.len() as int);
        assert(rest.drop_first() =~= v@.subrange(i + 1, v@.len() as int));
        let c = v[i];
        let ghost before = out@;
        if c == '<' {
            in_tag = true;
        } else if c == '>' {
            in_tag = false;
            out.push(' ');
            assert(out@ + detag(v@.subrange(i + 1, v@.len() as int), false) =~= before + detag(rest, true));
        } else if !in_tag {
            out.push(c);
            assert(out@ + detag(v@.subrange(i + 1, v@.len() as int), false) =~= before + detag(rest, false));
        }
        i = i + 1;
    }
    assert(v@.subrange(i as int, v@.len() as int) =~= Seq::<char>::empty());
    assert(out@ + Seq::<char>::empty() =~= out@);
    out
}

/// The entity decoding of fetched pages, applied in this order.
pub open spec fn decode_entities(s: Seq<char>) -> Seq<char> {
    replace_all(
        replace_all(
            replace_all(
                replace_all(
                    replace_all(replace_all(replace_all(s, "&nbsp;"@, " "@), "&amp;"@, "&"@), "&lt;"@, "<"@),
                    "&gt;"@,
                    ">"@,
                ),
                "&quot;"@,
                "\""@,
            ),
            "&apos;"@,
            "'"@,
        ),
        "&#39;"@,
        "'"@,
    )
}

fn replace_str(v: Vec<char>, pat: &str, rep: &str) -> (r: Vec<char>)
    ensures
        r@ == replace_all(v@, pat@, rep@),
{
    let p = chars_of(pat);
    let q = chars_of(rep);
    replace_all_vec(v.as_slice(), p.as_slice(), q.as_slice())
}

fn decode_entities_vec(v: Vec<char>) -> (r: Vec<char>)
    ensures
        r@ == decode_entities(v@),
{
    let t = replace_str(v, "&nbsp;", " ");
    let t = replace_str(t, "&amp;", "&");
    let t = replace_str(t, "&lt;", "<");
    let t = replace_str(t, "&gt;", ">");
    let t = replace_str(t, "&quot;", "\"");
    let t = replace_str(t, "&apos;", "'");
    replace_str(t, "&#39;", "'")
}

/// Runs of whitespace inside a line squeezed to one space (`prev` says
/// whether the text so far ends in a squeezed run).
pub open spec fn squeeze(t: Seq<char>, prev: bool) -> Seq<char>
    decreases t.len(),
{
    if t.len() == 0 {
        Seq::empty()
    } else if is_ws(t[0]) {
        if prev {
            squeeze(t.drop_first(), true)
        } else {
            seq![' '] + squeeze(t.drop_first(), true)
        }
    } else {
        seq![t[0]] + squeeze(t.drop_first(), false)
    }
}

/// Whitespace collapse over lines: each non-blank line trimmed and squeezed,
/// each run of blank lines kept as one empty line (none at the start).
pub open spec fn collapse_fold(ls: Seq<Seq<char>>) -> (Seq<char>, bool)
    decreases ls.len(),
{
    if ls.len() == 0 {
        (Seq::empty(), false)
    } else {
        let (out, last_blank) = collapse_fold(ls.drop_last());
        let t = trim(ls.last());
        if t.len() == 0 {
            if !last_blank && out.len() > 0 {
                (out.push('\n'), true)
            } else {
                (out, last_blank)
            }
        } else {
            (out + squeeze(t, false) + seq!['\n'], false)
        }
    }
}

pub open spec fn collapse_whitespace(s: Seq<char>) -> Seq<char> {
    collapse_fold(lines(s)).0
}

fn squeeze_vec(t: &[char], out: &mut Vec<char>)
    ensures
        final(out)@ == old(out)@ + squeeze(t@, false),
{
    let ghost start = out@;
    let mut prev = false;
    let mut i: usize = 0;
    assert(t@.subrange(0, t@.len() as int) =~= t@);
    while i < t.len()
        invariant
            i <= t@.len(),
            out@ + squeeze(t@.subrange(i as int, t@.len() as int), prev) == start + squeeze(t@, false),
        decreases t@.len() - i,
    {
        let ghost rest = t@.subrange(i as int, t@.len() as int);
        assert(rest.drop_first() =~= t@.subrange(i + 1, t@.len() as int));
        let ghost before = out@;
        let c = t[i];
        if is_whitespace(c) {
            if !prev {
                out.push(' ');
                prev = true;
                assert(out@ + squeeze(t@.subrange(i + 1, t@.len() as int), true) =~= before + squeeze(rest, false));
            }
        } else {
            out.push(c);
            assert(out@ + squeeze(t@.subrange(i + 1, t@.len() as int), false) =~= before + squeeze(rest, prev));
            prev = false;
        }
        i = i + 1;
    }
    assert(t@.subrange(i as int, t@.len() as int) =~= Seq::<char>::empty());
    assert(out@ + Seq::<char>::empty() =~= out@);
}

fn collapse_vec(v: &[char]) -> (r: Vec<char>)
    ensures
        r@ == collapse_whitespace(v@),
{
    let ls = lines_of(v);
    let ghost lv = lines(v@);
    let mut out: Vec<char> = Vec::new();
    let mut last_blank = false;
    let mut k: usize = 0;
    while k < ls.len()
        invariant
            ls.deep_view() == lv,
            k <= ls@.len(),
            (out@, last_blank) == collapse_fold(lv.take(k as int)),
        decreases ls@.len() - k,
    {
        assert(ls@[k as int]@ == lv[k as int]);
        assert(lv.take(k + 1).drop_last() =~= lv.take(k as int));
        assert(lv.take(k + 1).last() == lv[k as int]);
        let t = trimmed(ls[k].as_slice());
        if t.len() == 0 {
            if !last_blank && out.len() > 0 {
                out.push('\n');
                last_blank = true;
            }
        } else {
            squeeze_vec(t.as_slice(), &mut out);
            out.push('\n');
            last_blank = false;
        }
        k = k + 1;
    }
    assert(lv.take(k as int) =~= lv);
    out
}

/// Whether `s` has three newlines in a row (a run of two blank lines).
pub open spec fn has_blank_run(s: Seq<char>) -> bool {
    exists|i: int| 0 <= i && i + 2 < s.len() && #[trigger] s[i] == '\n' && s[i + 1] == '\n' && s[i + 2] == '\n'
}

proof fn lemma_squeeze_no_newline(t: Seq<char>, prev: bool)
    ensures
        forall|i: int| 0 <= i < squeeze(t, prev).len() ==> #[trigger] squeeze(t, prev)[i] != '\n',
        t.len() > 0 && !prev ==> squeeze(t, prev).len() > 0,
    decreases t.len(),
{
    if t.len() > 0 {
        lemma_squeeze_no_newline(t.drop_first(), true);
        lemma_squeeze_no_newline(t.drop_first(), false);
        let r = squeeze(t, prev);
        if is_ws(t[0]) {
            if !prev {
                assert(r == seq![' '] + squeeze(t.drop_first(), true));
                assert forall|i: int| 0 <= i < r.len() implies #[trigger] r[i] != '\n' by {
                    if i > 0 {
                        assert(r[i] == squeeze(t.drop_first(), true)[i - 1]);
                    }
                }
            }
        } else {
            let rest = squeeze(t.drop_first(), false);
            assert(r == seq![t[0]] + rest);
            assert forall|i: int| 0 <= i < r.len() implies #[trigger] r[i] != '\n' by {
                if i > 0 {
                    assert(r[i] == rest[i - 1]);
                }
            }
        }
    }
}

proof fn lemma_collapse_fold(ls: Seq<Seq<char>>)
    ensures
        ({
            let (out, last_blank) = collapse_fold(ls);
            &&& !has_blank_run(out)
            &&& out.len() > 0 ==> out.last() == '\n'
            &&& (out.len() > 0 && !last_blank) ==> (out.len() >= 2 && out[out.len() - 2] != '\n')
        }),
    decreases ls.len(),
{
    if ls.len() > 0 {
        lemma_collapse_fold(ls.drop_last());
        let (out, last_blank) = collapse_fold(ls.drop_last());
        let t = trim(ls.last());
        if t.len() == 0 {
            if !last_blank && out.len() > 0 {
                let o2 = out.push('\n');
                assert forall|i: int| 0 <= i && i + 2 < o2.len() && #[trigger] o2[i] == '\n' implies !(o2[i + 1] == '\n'
                    && o2[i + 2] == '\n') by {
                    if i + 2 < out.len() {
                        assert(o2[i] == out[i] && o2[i + 1] == out[i + 1] && o2[i + 2] == out[i + 2]);
                    } else {
                        assert(i == out.len() - 2);
                        assert(o2[i] == out[out.len() - 2]);
                    }
                }
            }
        } else {
            let sq = squeeze(t, false);
            lemma_squeeze_no_newline(t, false);
            let o2 = out + sq + seq!['\n'];
            assert(o2.last() == '\n');
            assert(o2[o2.len() - 2] == sq[sq.len() - 1]);
            assert forall|i: int| 0 <= i && i + 2 < o2.len() && #[trigger] o2[i] == '\n' implies !(o2[i + 1] == '\n'
                && o2[i + 2] == '\n') by {
                if i + 2 < out.len() {
                    assert(o2[i] == out[i] && o2[i + 1] == out[i + 1] && o2[i + 2] == out[i + 2]);
                } else if i + 1 < out.len() {
                    assert(o2[i + 2] == sq[i + 2 - out.len()]);
                } else if i < out.len() {
                    assert(o2[i + 1] == sq[i + 1 - out.len()]);
                } else {
                    assert(o2[i] == sq[i - out.len()]);
                }
            }
        }
    }
}

/// The text of an HTML page never holds two blank lines in a row: runs of
/// blank lines are collapsed to one.
pub proof fn law_html_text_has_no_blank_runs(html: Seq<char>)
    ensures
        !has_blank_run(html_text(html)),
{
    let s1 = strip_block(html, "<script"@, "</script>"@);
    let s2 = strip_block(s1, "<style"@, "</style>"@);
    let s3 = strip_block(s2, "<!--"@, "-->"@);
    lemma_collapse_fold(lines(decode_entities(detag(s3, false))));
}

/// The text of an HTML page: script, style and comment blocks removed, tags
/// dropped (each `>` leaving a space), entities decoded, whitespace
/// collapsed.
pub open spec fn html_text(html: Seq<char>) -> Seq<char> {
    let s1 = strip_block(html, "<script"@, "</script>"@);
    let s2 = strip_block(s1, "<style"@, "</style>"@);
    let s3 = strip_block(s2, "<!--"@, "-->"@);
    collapse_whitespace(decode_entities(detag(s3, false)))
}

/// Crude HTML to text conversion (see `html_text`); good enough for letting
/// a model read article-like pages, not a real parser.
pub fn html_to_text(html: &str) -> (r: String)
    ensures
        r@ == html_text(html@),
{
    let v = chars_of(html);
    proof {
        reveal_strlit("</script>");
        reveal_strlit("</style>");
        reveal_strlit("-->");
    }
    let s1 = strip_block_vec(v.as_slice(), "<script", "</script>");
    let s2 = strip_block_vec(s1.as_slice(), "<style", "</style>");
    let s3 = strip_block_vec(s2.as_slice(), "<!--", "-->");
    let d = decode_entities_vec(detag_vec(s3.as_slice()));
    string_of(collapse_vec(d.as_slice()).as_slice())
}

/// Whether a reply is treated as HTML: its content type says so (any case)
/// or its text starts with `<` after leading whitespace.
pub open spec fn looks_like_html(lower_content_type: Seq<char>, raw: Seq<char>) -> bool {
    find_from(lower_content_type, "html"@, 0) >= 0 || (trim_start(raw).len() > 0 && trim_start(raw)[0] == '<')
}

pub fn is_html(content_type: &str, raw: &str) -> (r: bool)
    ensures
        r == looks_like_html(crate::text::lowercase(content_type@), raw@),
{
    let low = crate::text::to_lowercase(content_type);
    let lv = chars_of(low.as_str());
    let pat = chars_of("html");
    if find_seq_from(lv.as_slice(), pat.as_slice(), 0).is_some() {
        return true;
    }
    let rv = chars_of(raw);
    let mut a: usize = 0;
    assert(rv@.subrange(0, rv@.len() as int) =~= rv@);
    while a < rv.len() && is_whitespace(rv[a])
        invariant
            a <= rv@.len(),
            trim_start(rv@) == trim_start(rv@.subrange(a as int, rv@.len() as int)),
        decreases rv@.len() - a,
    {
        assert(rv@.subrange(a as int, rv@.len() as int).drop_first() =~= rv@.subrange(a + 1, rv@.len() as int));
        a = a + 1;
    }
    let ghost t = rv@.subrange(a as int, rv@.len() as int);
    assert(trim_start(t) == t);
    a < rv.len() && rv[a] == '<'
}


/// The bytes a fetch keeps: at most `MAX_BYTES_RAW`.
pub open spec fn kept_body(body: Seq<u8>) -> Seq<u8> {
    if body.len() > MAX_BYTES_RAW {
        body.take(MAX_BYTES_RAW as int)
    } else {
        body
    }
}

/// Whether a reply (of this content type and body) is stripped as HTML.
pub open spec fn fetched_html(content_type: Seq<char>, body: Seq<u8>) -> bool {
    looks_like_html(crate::text::lowercase(content_type), crate::text::utf8_lossy(kept_body(body)))
}

/// The text of a reply before it is cut to `MAX_BYTES_OUTPUT` bytes.
pub open spec fn fetched_text(content_type: Seq<char>, body: Seq<u8>) -> Seq<char> {
    let raw = crate::text::utf8_lossy(kept_body(body));
    if fetched_html(content_type, body) {
        html_text(raw)
    } else {
        raw
    }
}

/// Whether the text can be cut at `MAX_BYTES_OUTPUT` bytes (it is short
/// enough, or that byte starts a character).
pub open spec fn fetch_cut_ok(content_type: Seq<char>, body: Seq<u8>) -> bool {
    let t = fetched_text(content_type, body);
    crate::tokens::utf8_len(t) <= MAX_BYTES_OUTPUT || crate::tools::shell::is_byte_boundary(t, MAX_BYTES_OUTPUT as int)
}

/// What a fetch reports: a header (URL, status, content type, byte counts)
/// and the text, cut to `MAX_BYTES_OUTPUT` bytes, with a note when the text
/// or the response was cut.
pub open spec fn fetch_report_text(url: Seq<char>, status: Seq<char>, content_type: Seq<char>, body: Seq<u8>) -> Seq<char> {
    let t = fetched_text(content_type, body);
    let cut = crate::tokens::utf8_len(t) > MAX_BYTES_OUTPUT;
    let shown = if cut {
        crate::tools::shell::byte_prefix(t, MAX_BYTES_OUTPUT as int)
    } else {
        t
    };
    "# GET "@ + url + "\nstatus: "@ + status + "\ncontent-type: "@ + content_type + "\nbytes-raw: "@
        + crate::text::decimal(body.len()) + ", bytes-text: "@ + crate::text::decimal(
        if cut {
            MAX_BYTES_OUTPUT as nat
        } else {
            crate::tokens::utf8_len(t)
        },
    ) + (if fetched_html(content_type, body) {
        " (HTML stripped)"@
    } else {
        Seq::empty()
    }) + "\n\n"@ + shown + if cut {
        "\n\n[truncated: text exceeds 32KB output cap]"@
    } else if body.len() > MAX_BYTES_RAW {
        "\n\n[truncated: response exceeds 500KB read limit before stripping]"@
    } else {
        Seq::empty()
    }
}

fn bytes_prefix(b: &[u8], n: usize) -> (r: Vec<u8>)
    requires
        n <= b@.len(),
    ensures
        r@ == b@.take(n as int),
{
    let mut out: Vec<u8> = Vec::new();
    let mut i: usize = 0;
    while i < n
        invariant
            i <= n,
            n <= b@.len(),
            out@ == b@.take(i as int),
        decreases n - i,
    {
        out.push(b[i]);
        assert(b@.take(i + 1) =~= b@.take(i as int).push(b@[i as int]));
        i = i + 1;
    }
    out
}

/// The report of a fetch from the response's status line, content type
/// and body (see `fetch_report_text`); `None` when the text would have to
/// be cut inside a character.
pub fn fetch_report(url: &str, status: &str, content_type: &str, body: &[u8]) -> (r: Option<String>)
    ensures
        match r {
            Some(s) => fetch_cut_ok(content_type@, body@) && s@ == fetch_report_text(url@, status@, content_type@, body@),
            None => !fetch_cut_ok(content_type@, body@),
        },
{
    let raw_cut = body.len() > MAX_BYTES_RAW;
    let raw = if raw_cut {
        crate::text::from_utf8_lossy(bytes_prefix(body, MAX_BYTES_RAW).as_slice())
    } else {
        crate::text::from_utf8_lossy(body)
    };
    let html = is_html(content_type, raw.as_str());
    let text = if html { html_to_text(raw.as_str()) } else { raw };
    let n = crate::tools::shell::utf8_len_of_str(text.as_str());
    let cut = match n {
        Some(k) => k > MAX_BYTES_OUTPUT,
        None => true,
    };
    let shown = if cut {
        let v = chars_of(text.as_str());
        match crate::tools::shell::char_index_at_byte_of(v.as_slice(), MAX_BYTES_OUTPUT) {
            Some(k) => {
                let head = subvec(v.as_slice(), 0, k);
                assert(head@ =~= text@.take(k as int));
                string_of(head.as_slice())
            },
            None => return None,
        }
    } else {
        text
    };
    let text_len: usize = match n {
        Some(k) => if cut { MAX_BYTES_OUTPUT } else { k },
        None => MAX_BYTES_OUTPUT,
    };
    let mut s = String::from_str("# GET ");
    s.append(url);
    s.append("\nstatus: ");
    s.append(status);
    s.append("\ncontent-type: ");
    s.append(content_type);
    s.append("\nbytes-raw: ");
    s.append(string_of(crate::text::usize_decimal(body.len()).as_slice()).as_str());
    s.append(", bytes-text: ");
    s.append(string_of(crate::text::usize_decimal(text_len).as_slice()).as_str());
    if html {
        s.append(" (HTML stripped)");
    }
    s.append("\n\n");
    s.append(shown.as_str());
    if cut {
        s.append("\n\n[truncated: text exceeds 32KB output cap]");
    } else if raw_cut {
        s.append("\n\n[truncated: response exceeds 500KB read limit before stripping]");
    }
    Some(s)
}


/// Whether `s` has no character `c`.
pub open spec fn lacks(s: Seq<char>, c: char) -> bool {
    forall|i: int| 0 <= i < s.len() ==> #[trigger] s[i] != c
}

/// A pattern whose first two characters never appear together in `s`
/// does not occur in it.
proof fn lemma_no_occurrence(s: Seq<char>, pat: Seq<char>)
    requires
        pat.len() >= 2,
        forall|i: int| 0 <= i < s.len() - 1 && #[trigger] s[i] == pat[0] ==> s[i + 1] != pat[1],
    ensures
        find_from(s, pat, 0) == -1,
{
    lemma_find_from(s, pat, 0);
    let f = find_from(s, pat, 0);
    if f >= 0 {
        assert(s.subrange(f, f + pat.len())[0] == pat[0]);
        assert(s.subrange(f, f + pat.len())[1] == pat[1]);
        assert(s[f] == pat[0] && s[f + 1] == pat[1]);
    }
}

/// Text without `&` has no entity to decode.
proof fn lemma_decode_plain(s: Seq<char>)
    requires
        lacks(s, '&'),
    ensures
        decode_entities(s) == s,
{
    reveal_strlit("&nbsp;");
    reveal_strlit("&amp;");
    reveal_strlit("&lt;");
    reveal_strlit("&gt;");
    reveal_strlit("&quot;");
    reveal_strlit("&apos;");
    reveal_strlit("&#39;");
    lemma_no_occurrence(s, "&nbsp;"@);
    lemma_no_occurrence(s, "&amp;"@);
    lemma_no_occurrence(s, "&lt;"@);
    lemma_no_occurrence(s, "&gt;"@);
    lemma_no_occurrence(s, "&quot;"@);
    lemma_no_occurrence(s, "&apos;"@);
    lemma_no_occurrence(s, "&#39;"@);
}

/// `&quot;` between two runs of text without `&` decodes to `"`.
proof fn lemma_decode_quot(a: Seq<char>, b: Seq<char>)
    requires
        lacks(a, '&'),
        lacks(b, '&'),
    ensures
        decode_entities(a + "&quot;"@ + b) == a + "\""@ + b,
{
    reveal_strlit("&nbsp;");
    reveal_strlit("&amp;");
    reveal_strlit("&lt;");
    reveal_strlit("&gt;");
    reveal_strlit("&quot;");
    reveal_strlit("&apos;");
    reveal_strlit("&#39;");
    reveal_strlit("\"");
    let q = "&quot;"@;
    let s = a + q + b;
    let n = a.len() as int;
    assert forall|i: int| 0 <= i < s.len() && #[trigger] s[i] == '&' implies i == n && s[i + 1] == 'q' by {
        if i < n {
            assert(s[i] == a[i]);
        } else if i >= n + 6 {
            assert(s[i] == b[i - n - 6]);
        } else {
            assert(s[i] == q[i - n]);
        }
    }
    lemma_no_occurrence(s, "&nbsp;"@);
    lemma_no_occurrence(s, "&amp;"@);
    lemma_no_occurrence(s, "&lt;"@);
    lemma_no_occurrence(s, "&gt;"@);
    lemma_find_from(s, q, 0);
    assert(s.subrange(n, n + 6) =~= q);
    let f = find_from(s, q, 0);
    assert(f == n) by {
        assert(occurs_at(s, q, n));
        if f != n {
            assert(s.subrange(f, f + 6)[0] == q[0]);
            assert(s[f] == '&');
        }
    }
    let rest = s.subrange(n + 6, s.len() as int);
    assert(rest =~= b);
    assert(s.take(n) =~= a);
    lemma_no_occurrence(b, q);
    let t = a + "\""@ + b;
    assert forall|i: int| 0 <= i < t.len() implies #[trigger] t[i] != '&' by {
        if i < n {
            assert(t[i] == a[i]);
        } else if i > n {
            assert(t[i] == b[i - n - 1]);
        }
    }
    lemma_no_occurrence(t, "&apos;"@);
    lemma_no_occurrence(t, "&#39;"@);
    assert(replace_all(s, "&nbsp;"@, " "@) == s);
    assert(replace_all(s, "&amp;"@, "&"@) == s);
    assert(replace_all(s, "&lt;"@, "<"@) == s);
    assert(replace_all(s, "&gt;"@, ">"@) == s);
    assert(replace_all(b, q, "\""@) == b);
    assert(replace_all(s, q, "\""@) == s.take(n) + "\""@ + replace_all(rest, q, "\""@));
    assert(replace_all(s, q, "\""@) =~= t);
    assert(replace_all(t, "&apos;"@, "'"@) == t);
    assert(replace_all(t, "&#39;"@, "'"@) == t);
}

/// Tags drop out of text without markup: `detag` copies a run of text
/// without `<` and `>` as it is.
proof fn lemma_detag_plain(x: Seq<char>, y: Seq<char>)
    requires
        lacks(x, '<'),
        lacks(x, '>'),
    ensures
        detag(x + y, false) == x + detag(y, false),
    decreases x.len(),
{
    if x.len() > 0 {
        assert(x[0] != '<' && x[0] != '>');
        assert((x + y).drop_first() =~= x.drop_first() + y);
        lemma_detag_plain(x.drop_first(), y);
        assert(x =~= seq![x[0]] + x.drop_first());
    } else {
        assert(x + y =~= y);
    }
}

/// The text of a paragraph `<p>x</p>` whose `x` has no markup and no `&`.
proof fn lemma_paragraph_text(x: Seq<char>)
    requires
        lacks(x, '<'),
        lacks(x, '>'),
    ensures
        detag("<p>"@ + x + "</p>"@, false) == " "@ + x + " "@,
        strip_block("<p>"@ + x + "</p>"@, "<script"@, "</script>"@) == "<p>"@ + x + "</p>"@,
        strip_block("<p>"@ + x + "</p>"@, "<style"@, "</style>"@) == "<p>"@ + x + "</p>"@,
        strip_block("<p>"@ + x + "</p>"@, "<!--"@, "-->"@) == "<p>"@ + x + "</p>"@,
{
    reveal_strlit("<p>");
    reveal_strlit("</p>");
    reveal_strlit(" ");
    reveal_strlit("<script");
    reveal_strlit("<style");
    reveal_strlit("<!--");
    let s = "<p>"@ + x + "</p>"@;
    let n = x.len() as int;
    assert forall|i: int| 0 <= i < s.len() - 1 && #[trigger] s[i] == '<' implies s[i + 1] == 'p' || s[i + 1] == '/' by {
        if i >= 3 && i < n + 3 {
            assert(s[i] == x[i - 3]);
        } else if i >= n + 3 {
            assert(s[i] == "</p>"@[i - n - 3]);
            assert(s[i + 1] == "</p>"@[i + 1 - n - 3]);
        }
    }
    lemma_no_occurrence(s, "<script"@);
    lemma_no_occurrence(s, "<style"@);
    lemma_no_occurrence(s, "<!--"@);
    // detag: "<p>" opens and closes a tag, leaving a space; then x; then "</p>" leaves a space.
    assert(s =~= seq!['<', 'p', '>'] + (x + "</p>"@));
    assert(s.drop_first() =~= seq!['p', '>'] + (x + "</p>"@));
    assert(s.drop_first().drop_first() =~= seq!['>'] + (x + "</p>"@));
    assert(s.drop_first().drop_first().drop_first() =~= x + "</p>"@);
    lemma_detag_plain(x, "</p>"@);
    let e = "</p>"@;
    assert(e.drop_first() =~= seq!['/', 'p', '>']);
    assert(e.drop_first().drop_first() =~= seq!['p', '>']);
    assert(e.drop_first().drop_first().drop_first() =~= seq!['>']);
    assert(seq!['>'].drop_first() =~= Seq::<char>::empty());
    let e3 = seq!['>'];
    let e2 = seq!['p', '>'];
    let e1 = seq!['/', 'p', '>'];
    assert(e =~= seq!['<', '/', 'p', '>']);
    assert(e3.drop_first() =~= Seq::<char>::empty());
    assert(detag(e3, true) == seq![' '] + detag(Seq::<char>::empty(), false));
    assert(detag(e3, true) =~= seq![' ']);
    assert(e2.drop_first() =~= e3);
    assert(detag(e2, true) == detag(e3, true));
    assert(e1.drop_first() =~= e2);
    assert(detag(e1, true) == detag(e2, true));
    assert(e.drop_first() =~= e1);
    assert(detag(e, false) == detag(e1, true));
    assert(detag(e, false) =~= seq![' ']);
    let s1 = s.drop_first();
    let s2 = s1.drop_first();
    let s3 = s2.drop_first();
    assert(detag(s, false) == detag(s1, true));
    assert(detag(s1, true) == detag(s2, true));
    assert(detag(s2, true) == seq![' '] + detag(s3, false));
    assert(detag(s, false) =~= seq![' '] + (x + seq![' ']));
}

/// Pages decode `&quot;`: a paragraph of plain text with `&quot;` in it
/// reads exactly as the same paragraph written with `"`.
pub proof fn law_quot_is_decoded(t1: Seq<char>, t2: Seq<char>)
    requires
        lacks(t1, '&') && lacks(t1, '<') && lacks(t1, '>'),
        lacks(t2, '&') && lacks(t2, '<') && lacks(t2, '>'),
    ensures
        html_text("<p>"@ + t1 + "&quot;"@ + t2 + "</p>"@) == html_text("<p>"@ + t1 + "\""@ + t2 + "</p>"@),
        decode_entities(t1 + "&quot;"@ + t2) == t1 + "\""@ + t2,
{
    reveal_strlit("&quot;");
    reveal_strlit("\"");
    reveal_strlit(" ");
    let x1 = t1 + "&quot;"@ + t2;
    let x2 = t1 + "\""@ + t2;
    let n = t1.len() as int;
    assert forall|i: int| 0 <= i < x1.len() implies #[trigger] x1[i] != '<' && x1[i] != '>' by {
        if i < n {
            assert(x1[i] == t1[i]);
        } else if i >= n + 6 {
            assert(x1[i] == t2[i - n - 6]);
        } else {
            assert(x1[i] == "&quot;"@[i - n]);
        }
    }
    assert forall|i: int| 0 <= i < x2.len() implies #[trigger] x2[i] != '<' && x2[i] != '>' by {
        if i < n {
            assert(x2[i] == t1[i]);
        } else if i > n {
            assert(x2[i] == t2[i - n - 1]);
        }
    }
    lemma_paragraph_text(x1);
    lemma_paragraph_text(x2);
    assert("<p>"@ + t1 + "&quot;"@ + t2 + "</p>"@ =~= "<p>"@ + x1 + "</p>"@);
    assert("<p>"@ + t1 + "\""@ + t2 + "</p>"@ =~= "<p>"@ + x2 + "</p>"@);
    let a = " "@ + t1;
    let b = t2 + " "@;
    assert forall|i: int| 0 <= i < a.len() implies #[trigger] a[i] != '&' by {
        if i > 0 {
            assert(a[i] == t1[i - 1]);
        }
    }
    assert forall|i: int| 0 <= i < b.len() implies #[trigger] b[i] != '&' by {
        if i < t2.len() {
            assert(b[i] == t2[i]);
        }
    }
    lemma_decode_quot(a, b);
    lemma_decode_quot(t1, t2);
    assert(" "@ + x1 + " "@ =~= a + "&quot;"@ + b);
    assert(" "@ + x2 + " "@ =~= a + "\""@ + b);
    let c = a + "\""@ + b;
    assert forall|i: int| 0 <= i < c.len() implies #[trigger] c[i] != '&' by {
        if i < a.len() {
            assert(c[i] == a[i]);
        } else if i > a.len() {
            assert(c[i] == b[i - a.len() - 1]);
        }
    }
    lemma_decode_plain(c);
}
} // verus!
