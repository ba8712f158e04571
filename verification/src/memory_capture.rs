//! Turning the extraction model's reply into typed facts.
//!
//! The model is asked for one `KIND|SLUG|VALUE` line per durable fact; every
//! other line of its reply is ignored.
use crate::memory::{kind_of_word, FactKind};
use crate::text::{
    ascii_alnum, chars_of, find_char_from, first_char_from, is_ascii_alnum, is_whitespace, is_ws, lemma_first_char_from,
    lines, lines_of, lower_each, lower_each_of, lowercase, string_of, subvec, trim, trim_char, trim_char_vec,
    trim_end, trim_end_char, trim_start, trimmed,
};
use vstd::prelude::*;

verus! {

/// A fact proposed by the extraction model.
#[derive(Debug, Clone, PartialEq, Eq)]
pub struct CapturedFact {
    pub kind: FactKind,
    pub slug: String,
    pub content: String,
}

pub struct CapturedFactView {
    pub kind: FactKind,
    pub slug: Seq<char>,
    pub content: Seq<char>,
}

impl View for CapturedFact {
    type V = CapturedFactView;

    open spec fn view(&self) -> CapturedFactView {
        CapturedFactView { kind: self.kind, slug: self.slug@, content: self.content@ }
    }
}

pub open spec fn captured_view(v: Seq<CapturedFact>) -> Seq<CapturedFactView> {
    v.map_values(|f: CapturedFact| f@)
}

/// The instructions given to the extraction model.
pub const EXTRACTION_SYSTEM: &'static str = "You extract DURABLE user facts from a chat message — facts that would still be true next week, in a separate conversation. Output ONE fact per line in the exact format: `KIND|SLUG|VALUE`.\n\nKIND ∈ {profile, concept, state, behavioral}:\n- profile: stable user identity (name, age, profession)\n- concept: attributes ABOUT the user — their location, their languages, their employer, their hardware. NOT subjects/topics they merely brought up in chat.\n- state: the user's persistent current project or focus. NOT the immediate conversation flow.\n- behavioral: how the user prefers Mochi to communicate (length, tone, language mix)\n\nSLUG: short kebab-case key. Reuse stable slugs across messages (`name`, `location`, `tone`) so the same attribute updates the same slot.\nVALUE: terse literal value. No sentences, no meta-commentary, no third-person preamble.\n\nThe single test for every emitted fact:\n> If the user opened a NEW Mochi session next month and never mentioned this again, would this fact still describe them?\n\nIf yes → emit. If no → do NOT emit.\n\nReject these categories outright:\n- topics, media, entities the user merely asked or talked about\n- one-shot interests, single-mention preferences without strong commitment language\n- meta-observations about how the user phrases or formats messages\n- describes the current conversation flow rather than the user themselves\n- anything the assistant said or did\n\nHard rules:\n- Small-talk / greeting / question / request → output NOTHING.\n- When unsure → output NOTHING. False negatives are cheaper than memory bloat.\n- No prose. No JSON. No markdown. Only fact lines, or nothing.";

/// Token budget of one extraction request.
pub const EXTRACTION_MAX_TOKENS: u32 = 256;

/// Whether a message is worth an extraction request: blank ones are not.
pub fn capture_wanted(user_text: &str) -> (r: bool)
    ensures
        r == (trim(user_text@).len() > 0),
{
    let v = chars_of(user_text);
    let t = trimmed(v.as_slice());
    t.len() > 0
}

/// One step of slug normalisation over a lowercased character: ASCII letters
/// and digits are kept, runs of `-`, `_` and whitespace become one dash (none
/// at the start), anything else is dropped. The flag says whether the output
/// so far ends a word (or is empty).
pub open spec fn slug_step(acc: (Seq<char>, bool), ch: char) -> (Seq<char>, bool) {
    if is_ascii_alnum(ch) {
        (acc.0.push(ch), false)
    } else if ch == '-' || ch == '_' || is_ws(ch) {
        if !acc.1 {
            (acc.0.push('-'), true)
        } else {
            acc
        }
    } else {
        acc
    }
}

pub open spec fn slug_fold(s: Seq<char>) -> (Seq<char>, bool)
    decreases s.len(),
{
    if s.len() == 0 {
        (Seq::empty(), true)
    } else {
        slug_step(slug_fold(s.drop_last()), s.last())
    }
}

/// The kebab-case slug of `raw`: lowercased character by character, folded
/// by `slug_step`, trailing dashes removed.
pub open spec fn normalized_slug(raw: Seq<char>) -> Seq<char> {
    trim_end_char(slug_fold(lower_each(raw)).0, '-')
}

/// Normalise a model-written slug to kebab case.
pub fn normalize_slug(raw: &str) -> (r: String)
    ensures
        r@ == normalized_slug(raw@),
{
    let chars = chars_of(raw);
    let low = lower_each_of(chars.as_slice());
    let mut out: Vec<char> = Vec::new();
    let mut last_was_dash = true;
    let mut i: usize = 0;
    while i < low.len()
        invariant
            i <= low@.len(),
            (out@, last_was_dash) == slug_fold(low@.take(i as int)),
        decreases low@.len() - i,
    {
        let ch = low[i];
        assert(low@.take(i + 1).drop_last() =~= low@.take(i as int));
        assert(low@.take(i + 1).last() == ch);
        if ascii_alnum(ch) {
            out.push(ch);
            last_was_dash = false;
        } else if ch == '-' || ch == '_' || is_whitespace(ch) {
            if !last_was_dash {
                out.push('-');
                last_was_dash = true;
            }
        }
        i = i + 1;
    }
    assert(low@.take(i as int) =~= low@);
    let ghost folded = out@;
    while out.len() > 0 && out[out.len() - 1] == '-'
        invariant
            trim_end_char(folded, '-') == trim_end_char(out@, '-'),
        decreases out@.len(),
    {
        out.pop();
    }
    string_of(out.as_slice())
}

/// `splitn(3, '|')` when it yields three parts.
pub open spec fn split3(line: Seq<char>) -> Option<(Seq<char>, Seq<char>, Seq<char>)> {
    let i = first_char_from(line, '|', 0);
    let j = first_char_from(line, '|', i + 1);
    if i < 0 || j < 0 {
        None
    } else {
        Some((line.subrange(0, i), line.subrange(i + 1, j), line.subrange(j + 1, line.len() as int)))
    }
}

/// The fact a reply line states, if it is a well-formed `KIND|SLUG|VALUE`
/// line: not blank, not a `#` comment, a known kind, and a slug and a value
/// (stripped of whitespace and surrounding quotes) that are not empty.
pub open spec fn capture_line(raw: Seq<char>) -> Option<CapturedFactView> {
    let line = trim(raw);
    if line.len() == 0 || line[0] == '#' {
        None
    } else {
        match split3(line) {
            None => None,
            Some((a, b, c)) => match kind_of_word(lowercase(trim(a))) {
                None => None,
                Some(kind) => {
                    let slug = normalized_slug(trim(b));
                    let content = trim_char(trim_char(trim(c), '"'), '\'');
                    if slug.len() == 0 || content.len() == 0 {
                        None
                    } else {
                        Some(CapturedFactView { kind, slug, content })
                    }
                },
            },
        }
    }
}

/// The facts of the lines, in order.
pub open spec fn captured_from(ls: Seq<Seq<char>>) -> Seq<CapturedFactView>
    decreases ls.len(),
{
    if ls.len() == 0 {
        Seq::empty()
    } else {
        let prev = captured_from(ls.drop_last());
        match capture_line(ls.last()) {
            Some(f) => prev.push(f),
            None => prev,
        }
    }
}

fn capture_line_exec(raw: &[char]) -> (r: Option<CapturedFact>)
    ensures
        match r {
            Some(f) => capture_line(raw@) == Some(f@),
            None => capture_line(raw@) is None,
        },
{
    let line = trimmed(raw);
    if line.len() == 0 || line[0] == '#' {
        return None;
    }
    let i = match find_char_from(line.as_slice(), '|', 0) {
        Some(i) => i,
        None => return None,
    };
    proof { lemma_first_char_from(line@, '|', 0); }
    let j = match find_char_from(line.as_slice(), '|', i + 1) {
        Some(j) => j,
        None => return None,
    };
    proof { lemma_first_char_from(line@, '|', i + 1); }
    let a = subvec(line.as_slice(), 0, i);
    let b = subvec(line.as_slice(), i + 1, j);
    let c = subvec(line.as_slice(), j + 1, line.len());
    let ta = trimmed(a.as_slice());
    let kind = match FactKind::parse(string_of(ta.as_slice()).as_str()) {
        Some(k) => k,
        None => return None,
    };
    let tb = trimmed(b.as_slice());
    let slug = normalize_slug(string_of(tb.as_slice()).as_str());
    let tc = trimmed(c.as_slice());
    let q1 = trim_char_vec(tc.as_slice(), '"');
    let q2 = trim_char_vec(q1.as_slice(), '\'');
    if slug.as_str().is_empty() || q2.len() == 0 {
        return None;
    }
    Some(CapturedFact { kind, slug, content: string_of(q2.as_slice()) })
}

/// The facts of an extraction reply, one per well-formed line, in order.
pub fn parse_capture_response(text: &str) -> (r: Vec<CapturedFact>)
    ensures
        captured_view(r@) == captured_from(lines(text@)),
{
    let v = chars_of(text);
    let ls = lines_of(v.as_slice());
    let ghost lv = lines(text@);
    let mut out: Vec<CapturedFact> = Vec::new();
    let mut k: usize = 0;
    while k < ls.len()
        invariant
            ls.deep_view() == lv,
            lv == lines(text@),
            k <= ls@.len(),
            captured_view(out@) == captured_from(lv.take(k as int)),
        decreases ls@.len() - k,
    {
        assert(ls@[k as int]@ == lv[k as int]);
        let ghost before = out@;
        let got = capture_line_exec(ls[k].as_slice());
        match got {
            Some(f) => {
                out.push(f);
            },
            None => {},
        }
        proof {
            assert(lv.take(k + 1).drop_last() =~= lv.take(k as int));
            assert(lv.take(k + 1).last() == lv[k as int]);
            assert(captured_view(out@) =~= captured_from(lv.take(k + 1)));
        }
        k = k + 1;
    }
    assert(lv.take(k as int) =~= lv);
    out
}


/// Whether `s` is kebab case: ASCII letters, digits and single dashes between
/// words, with no dash at either end.
pub open spec fn is_kebab(s: Seq<char>) -> bool {
    &&& forall|i: int| 0 <= i < s.len() ==> is_ascii_alnum(#[trigger] s[i]) || s[i] == '-'
    &&& s.len() > 0 ==> s[0] != '-' && s.last() != '-'
    &&& forall|i: int| 0 <= i < s.len() - 1 ==> !(#[trigger] s[i] == '-' && s[i + 1] == '-')
}

proof fn lemma_slug_fold_shape(s: Seq<char>)
    ensures
        ({
            let (o, d) = slug_fold(s);
            &&& forall|i: int| 0 <= i < o.len() ==> is_ascii_alnum(#[trigger] o[i]) || o[i] == '-'
            &&& d <==> (o.len() == 0 || o.last() == '-')
            &&& o.len() > 0 ==> o[0] != '-'
            &&& forall|i: int| 0 <= i < o.len() - 1 ==> !(#[trigger] o[i] == '-' && o[i + 1] == '-')
        }),
    decreases s.len(),
{
    if s.len() > 0 {
        lemma_slug_fold_shape(s.drop_last());
        let (o0, d0) = slug_fold(s.drop_last());
        let (o, d) = slug_fold(s);
        assert forall|i: int| 0 <= i < o.len() - 1 implies !(#[trigger] o[i] == '-' && o[i + 1] == '-') by {
            if i + 1 < o0.len() {
                assert(o[i] == o0[i] && o[i + 1] == o0[i + 1]);
            }
        }
        assert forall|i: int| 0 <= i < o.len() implies is_ascii_alnum(#[trigger] o[i]) || o[i] == '-' by {
            if i < o0.len() {
                assert(o[i] == o0[i]);
            }
        }
    }
}

proof fn lemma_trim_end_char_prefix(s: Seq<char>, c: char)
    ensures
        trim_end_char(s, c).len() <= s.len(),
        trim_end_char(s, c) == s.subrange(0, trim_end_char(s, c).len() as int),
        trim_end_char(s, c).len() > 0 ==> trim_end_char(s, c).last() != c,
    decreases s.len(),
{
    if s.len() > 0 && s.last() == c {
        lemma_trim_end_char_prefix(s.drop_last(), c);
        assert(s.drop_last().subrange(0, trim_end_char(s, c).len() as int) =~= s.subrange(
            0,
            trim_end_char(s, c).len() as int,
        ));
    } else {
        assert(s.subrange(0, s.len() as int) =~= s);
    }
}

/// Every normalised slug is kebab case.
pub proof fn law_normalized_slug_is_kebab(raw: Seq<char>)
    ensures
        is_kebab(normalized_slug(raw)),
{
    let o = slug_fold(lower_each(raw)).0;
    lemma_slug_fold_shape(lower_each(raw));
    lemma_trim_end_char_prefix(o, '-');
    let t = normalized_slug(raw);
    assert forall|i: int| 0 <= i < t.len() implies is_ascii_alnum(#[trigger] t[i]) || t[i] == '-' by {
        assert(t[i] == o[i]);
    }
    assert forall|i: int| 0 <= i < t.len() - 1 implies !(#[trigger] t[i] == '-' && t[i + 1] == '-') by {
        assert(t[i] == o[i] && t[i + 1] == o[i + 1]);
    }
    if t.len() > 0 {
        assert(t[0] == o[0]);
    }
}

/// Every captured fact has a kebab-case slug and a non-empty value, and a
/// reply gives at most one fact per line.
pub proof fn law_captured_facts_are_clean(ls: Seq<Seq<char>>)
    ensures
        captured_from(ls).len() <= ls.len(),
        forall|i: int|
            0 <= i < captured_from(ls).len() ==> is_kebab((#[trigger] captured_from(ls)[i]).slug) && captured_from(
                ls,
            )[i].slug.len() > 0 && captured_from(ls)[i].content.len() > 0,
    decreases ls.len(),
{
    if ls.len() > 0 {
        law_captured_facts_are_clean(ls.drop_last());
        let prev = captured_from(ls.drop_last());
        match capture_line(ls.last()) {
            Some(f) => {
                let line = trim(ls.last());
                let (a, b, c) = split3(line)->Some_0;
                law_normalized_slug_is_kebab(trim(b));
                assert forall|i: int| 0 <= i < captured_from(ls).len() implies is_kebab(
                    (#[trigger] captured_from(ls)[i]).slug,
                ) && captured_from(ls)[i].slug.len() > 0 && captured_from(ls)[i].content.len() > 0 by {
                    if i < prev.len() {
                        assert(captured_from(ls)[i] == prev[i]);
                    }
                }
            },
            None => {},
        }
    }
}


/// Whether `s` has no `|`.
pub open spec fn has_no_bar(s: Seq<char>) -> bool {
    forall|i: int| 0 <= i < s.len() ==> #[trigger] s[i] != '|'
}

proof fn lemma_trim_start_concat(x: Seq<char>, y: Seq<char>)
    requires
        y.len() > 0,
        !is_ws(y[0]),
    ensures
        trim_start(x + y) == trim_start(x) + y,
    decreases x.len(),
{
    if x.len() == 0 {
        assert(x + y =~= y);
        assert(Seq::<char>::empty() + y =~= y);
    } else {
        assert((x + y)[0] == x[0]);
        if is_ws(x[0]) {
            assert((x + y).drop_first() =~= x.drop_first() + y);
            lemma_trim_start_concat(x.drop_first(), y);
        }
    }
}

proof fn lemma_trim_end_after(x: Seq<char>, y: Seq<char>)
    requires
        x.len() > 0,
        !is_ws(x.last()),
    ensures
        trim_end(x + y) == x + trim_end(y),
    decreases y.len(),
{
    if y.len() == 0 {
        assert(x + y =~= x);
        assert(x + Seq::<char>::empty() =~= x);
    } else {
        assert((x + y).last() == y.last());
        if is_ws(y.last()) {
            assert((x + y).drop_last() =~= x + y.drop_last());
            lemma_trim_end_after(x, y.drop_last());
        }
    }
}

proof fn lemma_trim_start_shape(s: Seq<char>)
    ensures
        trim_start(s).len() <= s.len(),
        trim_start(s) == s.subrange(s.len() - trim_start(s).len(), s.len() as int),
        trim_start(s).len() > 0 ==> !is_ws(trim_start(s)[0]),
        trim_start(trim_start(s)) == trim_start(s),
    decreases s.len(),
{
    if s.len() > 0 && is_ws(s[0]) {
        lemma_trim_start_shape(s.drop_first());
        assert(s.drop_first().subrange(s.drop_first().len() - trim_start(s).len(), s.drop_first().len() as int)
            =~= s.subrange(s.len() - trim_start(s).len(), s.len() as int));
    } else {
        assert(s.subrange(0, s.len() as int) =~= s);
    }
}

proof fn lemma_trim_end_shape(s: Seq<char>)
    ensures
        trim_end(s) == s.subrange(0, trim_end(s).len() as int),
        trim_end(s).len() <= s.len(),
        (s.len() > 0 && !is_ws(s[0])) ==> trim_end(s).len() > 0,
        trim_end(trim_end(s)) == trim_end(s),
    decreases s.len(),
{
    if s.len() > 0 && is_ws(s.last()) {
        lemma_trim_end_shape(s.drop_last());
        assert(s.drop_last().subrange(0, trim_end(s).len() as int) =~= s.subrange(0, trim_end(s).len() as int));
        if s.len() > 0 && !is_ws(s[0]) {
            assert(s.len() > 1);
            assert(s.drop_last()[0] == s[0]);
        }
    } else {
        assert(s.subrange(0, s.len() as int) =~= s);
    }
}

/// `|` found at the end of a `|`-free prefix.
proof fn lemma_first_bar(p: Seq<char>, r: Seq<char>)
    requires
        has_no_bar(p),
    ensures
        first_char_from(p + seq!['|'] + r, '|', 0) == p.len(),
{
    let s = p + seq!['|'] + r;
    lemma_first_char_from(s, '|', 0);
    assert(s[p.len() as int] == '|');
    let f = first_char_from(s, '|', 0);
    if f != p.len() {
        if f >= 0 && f < p.len() {
            assert(s[f] == p[f]);
        }
    }
}

/// Searching past a prefix is searching the rest, shifted.
proof fn lemma_first_char_shift(x: Seq<char>, y: Seq<char>, c: char, k: int)
    requires
        0 <= k,
    ensures
        first_char_from(x + y, c, x.len() + k) == (if first_char_from(y, c, k) < 0 {
            -1
        } else {
            x.len() + first_char_from(y, c, k)
        }),
    decreases y.len() - k,
{
    if k < y.len() {
        assert((x + y)[x.len() + k] == y[k]);
        if y[k] != c {
            lemma_first_char_shift(x, y, c, k + 1);
        }
    }
}

/// Whitespace around the kind field of a capture line does not matter: a
/// line `K | S | V` states the same fact as `trim(K)|S|V`.
pub proof fn law_capture_kind_field_trimmed(a: Seq<char>, rest: Seq<char>)
    requires
        has_no_bar(a),
    ensures
        capture_line(a + seq!['|'] + rest) == capture_line(trim(a) + seq!['|'] + rest),
{
    let bar = seq!['|'];
    let y = bar + rest;
    assert(!is_ws('|'));
    assert(y[0] == '|');
    let u = trim_start(a);
    let v = trim_end(u);
    let rr = trim_end(rest);
    lemma_trim_start_shape(a);
    lemma_trim_end_shape(u);
    // the left line
    assert(a + bar + rest =~= a + y);
    lemma_trim_start_concat(a, y);
    assert(u + y =~= (u + bar) + rest);
    lemma_trim_end_after(u + bar, rest);
    let line1 = u + bar + rr;
    assert(trim(a + bar + rest) =~= line1);
    // the right line
    assert(trim(a) == v);
    assert(v + bar + rest =~= v + y);
    if v.len() > 0 {
        assert(v[0] == u[0]);
    }
    lemma_trim_start_concat(v, y);
    lemma_trim_start_shape(v);
    if v.len() > 0 {
        assert(trim_start(v) == v);
    } else {
        assert(trim_start(v) =~= v);
    }
    assert(v + y =~= (v + bar) + rest);
    lemma_trim_end_after(v + bar, rest);
    let line2 = v + bar + rr;
    assert(trim(v + bar + rest) =~= line2);
    // neither prefix has a `|`
    assert(has_no_bar(u)) by {
        assert forall|i: int| 0 <= i < u.len() implies #[trigger] u[i] != '|' by {
            assert(u[i] == a[a.len() - u.len() + i]);
        }
    }
    assert(has_no_bar(v)) by {
        assert forall|i: int| 0 <= i < v.len() implies #[trigger] v[i] != '|' by {
            assert(v[i] == u[i]);
        }
    }
    // the split
    lemma_first_bar(u, rr);
    lemma_first_bar(v, rr);
    assert(line1 =~= (u + bar) + rr);
    assert(line2 =~= (v + bar) + rr);
    lemma_first_char_shift(u + bar, rr, '|', 0);
    lemma_first_char_shift(v + bar, rr, '|', 0);
    let j = first_char_from(rr, '|', 0);
    if j >= 0 {
        lemma_first_char_from(rr, '|', 0);
        assert(line1.subrange(0, u.len() as int) =~= u);
        assert(line2.subrange(0, v.len() as int) =~= v);
        assert(line1.subrange(u.len() + 1int, u.len() + 1 + j) =~= rr.subrange(0, j));
        assert(line2.subrange(v.len() + 1int, v.len() + 1 + j) =~= rr.subrange(0, j));
        assert(line1.subrange(u.len() + 1 + j + 1, line1.len() as int) =~= rr.subrange(j + 1, rr.len() as int));
        assert(line2.subrange(v.len() + 1 + j + 1, line2.len() as int) =~= rr.subrange(j + 1, rr.len() as int));
    }
    // the kind
    assert(trim(u) == trim_end(u));
    lemma_trim_end_shape(v);
    lemma_trim_start_shape(v);
    assert(trim(v) == v);
    // the first character of each line
    if u.len() > 0 {
        assert(line1[0] == u[0]);
        assert(line2[0] == v[0]);
    } else {
        assert(v.len() == 0);
        assert(line1[0] == '|');
        assert(line2[0] == '|');
    }
}
} // verus!
