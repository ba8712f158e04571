//! Capture-time dedup and the background memory rewrites.
//!
//! Before a captured fact is stored, the closest stored fact of the same kind
//! (by token overlap) is shown to the model with the new one, and its
//! one-word verdict (`reuse`, `derive`, `replace` or `new`) decides what
//! happens. A `replace` of a profile or state fact archives the old fact and
//! starts a second pass: each stored state fact (at most five) is judged
//! against the change and kept, archived or marked unresolved. The other
//! helpers build the prompts of the restate, observe and consolidate passes
//! and clean their replies.
use crate::memory::{facts_view, kind_name, Fact, FactKind, FactStatus, FactView};
use crate::memory_capture::{CapturedFact, CapturedFactView};
use crate::memory_query::fact_text;
use crate::text::{
    ascii_lower, chars_of, decimal, decimal_int, i64_decimal, is_ws, is_whitespace, lines, lines_of, lowercase,
    string_of, str_eq, subvec, to_lowercase, trim, trim_char, trim_char_vec, trim_start, trimmed, usize_decimal,
};
use crate::tokens::{
    ascii_lower_vec, char_is_alphabetic, overlap_count, overlap_of, tokens, tokens_with, unicode_alpha, Stoplist,
};
use vstd::string::StringExecFns;
use vstd::prelude::*;

verus! {

/// The model's verdict on a captured fact against the closest stored one.
#[derive(Debug, Clone, Copy, PartialEq, Eq, Structural)]
pub enum JudgeOutcome {
    /// Same slot: overwrite the matched existing fact's content.
    Reuse { existing_id: i64 },
    /// Related but distinct: keep both, store the new fact under its own slug.
    Derive { existing_id: i64 },
    /// Same slot, but the user's value has changed: archive the matched fact
    /// and store the new one in its slot (profile and state facts only).
    Replace { existing_id: i64 },
    /// Unrelated: store as a brand-new fact.
    New,
}

pub const JUDGE_SYSTEM: &'static str = "Compare a newly captured user fact against an existing fact. Decide if they cover the SAME attribute of the user. Output EXACTLY ONE lowercase word: `reuse`, `derive`, `replace`, or `new`.\n\n- `reuse`: both facts describe the SAME attribute even if slugs or wording differ.   The new fact REPLACES the old. Use whenever the two are paraphrases / synonyms / restatements of the same user attribute.\n- `replace`: the SAME attribute, but the user's value has CHANGED (moved to another city, switched project, new job): the old value is no longer true. Only for `profile` and `state` facts; never for `concept` or `behavioral`.\n- `derive`: same general theme but different facets. Keep BOTH (e.g. broader vs narrower scope, or related but distinct attributes within the same area).\n- `new`: unrelated attributes.\n\nBias toward `reuse` when the two values would naturally update the same slot in a structured profile. Different slug strings alone are NEVER a reason to keep duplicates. Output one word.";

pub const JUDGE_MAX_TOKENS: u32 = 16;

pub const CONSOLIDATE_SYSTEM: &'static str = "You are a profile editor. Given a list of durable facts about a user, write a single ~200-word narrative paragraph in third person about the user. Mention name, role, preferences, location, current focus, communication style. Be factual — do NOT invent details not present in the input. If the input is sparse, write a short profile (one or two sentences). Output only the paragraph; no headings, no markdown, no commentary.";

pub const CONSOLIDATE_MAX_TOKENS: u32 = 400;

pub const RESTATE_SYSTEM: &'static str = "You maintain ONE state fact about a user across an ongoing chat. Given the fact's current answer and a list of recent user messages, decide what the answer should be NOW. Apply transitions implied by later messages over earlier ones. If recent messages don't touch this state, return the current answer unchanged. If the user has clearly moved on / contradicted the old state, write the new state in a short clause. Output ONLY the updated answer text (one short sentence or phrase). No prose, no preamble, no quotes, no third-person framing.";

pub const RESTATE_MAX_TOKENS: u32 = 200;

pub const OBSERVE_SYSTEM: &'static str = "You observe behavioral patterns in how a user communicates. Given a behavioral query and a list of recent user messages, summarize the pattern in ONE short clause (3-12 words) that could be stored as the user's behavioral preference. Examples of valid output: `prefers terse 1-3 sentence replies`, `often mixes Vietnamese and English`, `pushes back on hype phrasing`. If no clear pattern emerges from the messages, output exactly: `none`. Output ONLY the clause or `none`. No prose, no preamble.";

pub const OBSERVE_MAX_TOKENS: u32 = 200;

/// First index `>= k` of a whitespace character of `s`, or its length.
pub open spec fn ws_index_from(s: Seq<char>, k: int) -> int
    decreases s.len() - k,
{
    if k < 0 || k >= s.len() {
        s.len() as int
    } else if is_ws(s[k]) {
        k
    } else {
        ws_index_from(s, k + 1)
    }
}

/// The first whitespace-separated word of a line, if it has one.
pub open spec fn first_token(line: Seq<char>) -> Option<Seq<char>> {
    let t = trim_start(line);
    if t.len() == 0 {
        None
    } else {
        Some(t.take(ws_index_from(t, 0)))
    }
}

/// The first word of the first line that has one, or nothing.
pub open spec fn first_word_in(ls: Seq<Seq<char>>) -> Seq<char>
    decreases ls.len(),
{
    if ls.len() == 0 {
        Seq::empty()
    } else {
        match first_token(ls[0]) {
            Some(w) => w,
            None => first_word_in(ls.drop_first()),
        }
    }
}

pub open spec fn trim_nonalpha_start(s: Seq<char>) -> Seq<char>
    decreases s.len(),
{
    if s.len() > 0 && !unicode_alpha(s[0]) {
        trim_nonalpha_start(s.drop_first())
    } else {
        s
    }
}

pub open spec fn trim_nonalpha_end(s: Seq<char>) -> Seq<char>
    decreases s.len(),
{
    if s.len() > 0 && !unicode_alpha(s.last()) {
        trim_nonalpha_end(s.drop_last())
    } else {
        s
    }
}

/// The verdict word of a judge reply: the first word, stripped of
/// non-letters at both ends, ASCII-lowercased.
pub open spec fn verdict_word(raw: Seq<char>) -> Seq<char> {
    ascii_lower(trim_nonalpha_end(trim_nonalpha_start(first_word_in(lines(raw)))))
}

pub open spec fn judge_outcome(raw: Seq<char>, existing_id: i64) -> JudgeOutcome {
    let w = verdict_word(raw);
    if w == "reuse"@ {
        JudgeOutcome::Reuse { existing_id }
    } else if w == "derive"@ {
        JudgeOutcome::Derive { existing_id }
    } else if w == "replace"@ {
        JudgeOutcome::Replace { existing_id }
    } else {
        JudgeOutcome::New
    }
}

fn first_token_exec(line: &[char]) -> (r: Option<Vec<char>>)
    ensures
        match r {
            Some(w) => first_token(line@) == Some(w@),
            None => first_token(line@) is None,
        },
{
    let mut a: usize = 0;
    assert(line@.subrange(0, line@.len() as int) =~= line@);
    while a < line.len() && is_whitespace(line[a])
        invariant
            a <= line@.len(),
            trim_start(line@) == trim_start(line@.subrange(a as int, line@.len() as int)),
        decreases line@.len() - a,
    {
        assert(line@.subrange(a as int, line@.len() as int).drop_first() =~= line@.subrange(a + 1, line@.len() as int));
        a = a + 1;
    }
    proof {
        assert(line@.subrange(0, line@.len() as int) =~= line@);
    }
    if a == line.len() {
        assert(line@.subrange(a as int, line@.len() as int) =~= Seq::<char>::empty());
        return None;
    }
    let ghost t = line@.subrange(a as int, line@.len() as int);
    assert(trim_start(t) == t);
    let mut b: usize = a;
    while b < line.len() && !is_whitespace(line[b])
        invariant
            a <= b <= line@.len(),
            t == line@.subrange(a as int, line@.len() as int),
            ws_index_from(t, 0) == ws_index_from(t, b - a),
        decreases line@.len() - b,
    {
        b = b + 1;
    }
    let w = subvec(line, a, b);
    assert(w@ =~= t.take(b - a));
    Some(w)
}

fn trim_nonalpha(v: &[char]) -> (r: Vec<char>)
    ensures
        r@ == trim_nonalpha_end(trim_nonalpha_start(v@)),
{
    let mut a: usize = 0;
    assert(v@.subrange(0, v@.len() as int) =~= v@);
    while a < v.len() && !char_is_alphabetic(v[a])
        invariant
            a <= v@.len(),
            trim_nonalpha_start(v@) == trim_nonalpha_start(v@.subrange(a as int, v@.len() as int)),
        decreases v@.len() - a,
    {
        assert(v@.subrange(a as int, v@.len() as int).drop_first() =~= v@.subrange(a + 1, v@.len() as int));
        a = a + 1;
    }
    let ghost t = v@.subrange(a as int, v@.len() as int);
    assert(trim_nonalpha_start(t) == t);
    let mut b: usize = v.len();
    while b > a && !char_is_alphabetic(v[b - 1])
        invariant
            a <= b <= v@.len(),
            trim_nonalpha_end(t) == trim_nonalpha_end(v@.subrange(a as int, b as int)),
        decreases b,
    {
        assert(v@.subrange(a as int, b as int).drop_last() =~= v@.subrange(a as int, b - 1));
        b = b - 1;
    }
    subvec(v, a, b)
}

/// The verdict word of a model reply (see `verdict_word`).
pub fn reply_verdict(raw: &str) -> (r: String)
    ensures
        r@ == verdict_word(raw@),
{
    let v = chars_of(raw);
    let ls = lines_of(v.as_slice());
    let ghost lv = lines(raw@);
    let mut word: Vec<char> = Vec::new();
    let mut k: usize = 0;
    assert(lv.subrange(0, lv.len() as int) =~= lv);
    loop
        invariant_except_break
            ls.deep_view() == lv,
            k <= ls@.len(),
            first_word_in(lv) == first_word_in(lv.subrange(k as int, lv.len() as int)),
            word@ == Seq::<char>::empty(),
        ensures
            word@ == first_word_in(lv),
        decreases ls@.len() - k,
    {
        if k == ls.len() {
            assert(lv.subrange(k as int, lv.len() as int) =~= Seq::<Seq<char>>::empty());
            break;
        }
        assert(ls@[k as int]@ == lv[k as int]);
        let ghost rest = lv.subrange(k as int, lv.len() as int);
        assert(rest[0] == lv[k as int]);
        assert(rest.drop_first() =~= lv.subrange(k + 1, lv.len() as int));
        match first_token_exec(ls[k].as_slice()) {
            Some(w) => {
                word = w;
                break;
            },
            None => {},
        }
        k = k + 1;
    }
    let t = trim_nonalpha(word.as_slice());
    let low = ascii_lower_vec(t.as_slice());
    string_of(low.as_slice())
}

/// The verdict of a judge reply about the stored fact `existing_id`:
/// `reuse`, `derive` and `replace` name it, anything else is `New`.
pub fn parse_judge_response(raw: &str, existing_id: i64) -> (r: JudgeOutcome)
    ensures
        r == judge_outcome(raw@, existing_id),
{
    let w = reply_verdict(raw);
    if str_eq(w.as_str(), "reuse") {
        JudgeOutcome::Reuse { existing_id }
    } else if str_eq(w.as_str(), "derive") {
        JudgeOutcome::Derive { existing_id }
    } else if str_eq(w.as_str(), "replace") {
        JudgeOutcome::Replace { existing_id }
    } else {
        JudgeOutcome::New
    }
}


/// Tokens of `text` for capture-time similarity.
pub fn tokenize(text: &str) -> (r: Vec<String>)
    ensures
        r.deep_view() == tokens(text@, Stoplist::Judge),
{
    tokens_with(text, Stoplist::Judge)
}

/// How many tokens of `b` occur in `a`.
pub fn overlap(a: &[String], b: &[String]) -> (r: usize)
    ensures
        r == overlap_count(a.deep_view(), b.deep_view()),
{
    overlap_of(a, b)
}

pub open spec fn candidate_text(c: CapturedFactView) -> Seq<char> {
    c.slug + " "@ + c.content
}

pub open spec fn judge_score(ct: Seq<Seq<char>>, f: FactView) -> nat {
    overlap_count(ct, tokens(fact_text(f), Stoplist::Judge))
}

/// Index of the best-scoring fact among the first `n`; of several equal
/// best scores the last one wins.
pub open spec fn best_of(ct: Seq<Seq<char>>, fs: Seq<FactView>, n: int) -> int
    decreases n,
{
    if n <= 1 {
        0
    } else {
        let b = best_of(ct, fs, n - 1);
        if judge_score(ct, fs[n - 1]) >= judge_score(ct, fs[b]) {
            n - 1
        } else {
            b
        }
    }
}

/// Which stored fact the judge compares a capture with: none when there is
/// none; the first when the capture has no tokens; else the best overlap.
pub open spec fn pick_best_index(c: CapturedFactView, fs: Seq<FactView>) -> Option<int> {
    let ct = tokens(candidate_text(c), Stoplist::Judge);
    if fs.len() == 0 {
        None
    } else if ct.len() == 0 {
        Some(0)
    } else {
        Some(best_of(ct, fs, fs.len() as int))
    }
}

pub open spec fn ref_facts_view(fs: Seq<&Fact>) -> Seq<FactView> {
    fs.map_values(|f: &Fact| f@)
}

proof fn lemma_best_of_range(ct: Seq<Seq<char>>, fs: Seq<FactView>, n: int)
    requires
        1 <= n,
    ensures
        0 <= best_of(ct, fs, n) < n,
    decreases n,
{
    if n > 1 {
        lemma_best_of_range(ct, fs, n - 1);
    }
}

/// The stored fact most lexically similar to a capture (see `pick_best_index`).
pub fn pick_best_candidate<'a>(candidate: &CapturedFact, existing: &'a [&'a Fact]) -> (r: Option<&'a Fact>)
    ensures
        match pick_best_index(candidate@, ref_facts_view(existing@)) {
            Some(i) => 0 <= i < existing@.len() && r == Some(existing@[i]),
            None => r is None,
        },
{
    if existing.len() == 0 {
        return None;
    }
    let mut text = candidate.slug.clone();
    text.append(" ");
    text.append(candidate.content.as_str());
    let ct = tokenize(text.as_str());
    if ct.len() == 0 {
        return Some(existing[0]);
    }
    let ghost fv = ref_facts_view(existing@);
    let ghost ctv = ct.deep_view();
    let mut best: usize = 0;
    let mut best_score: usize = {
        let f = existing[0];
        let mut t = f.slug.clone();
        t.append(" ");
        t.append(f.content.as_str());
        let ft = tokenize(t.as_str());
        overlap(ct.as_slice(), ft.as_slice())
    };
    assert(fv[0] == existing@[0]@);
    let mut i: usize = 1;
    while i < existing.len()
        invariant
            fv == ref_facts_view(existing@),
            ctv == ct.deep_view(),
            1 <= i <= existing@.len(),
            best as int == best_of(ctv, fv, i as int),
            best < i,
            best_score == judge_score(ctv, fv[best as int]),
        decreases existing@.len() - i,
    {
        let f = existing[i];
        assert(fv[i as int] == f@);
        let mut t = f.slug.clone();
        t.append(" ");
        t.append(f.content.as_str());
        let ft = tokenize(t.as_str());
        let sc = overlap(ct.as_slice(), ft.as_slice());
        if sc >= best_score {
            best = i;
            best_score = sc;
        }
        i = i + 1;
    }
    Some(existing[best])
}

pub open spec fn judge_prompt_text(best: FactView, c: CapturedFactView) -> Seq<char> {
    "Existing fact (id="@ + decimal_int(best.id as int) + "):\n  kind: "@ + kind_name(best.kind) + "\n  slug: "@
        + best.slug + "\n  content: "@ + best.content + "\n\nNew fact:\n  kind: "@ + kind_name(c.kind)
        + "\n  slug: "@ + c.slug + "\n  content: "@ + c.content + "\n\nOutput one word: reuse, derive, replace, or new."@
}

/// The user message of a judge request comparing `best` with `candidate`.
pub fn judge_prompt(best: &Fact, candidate: &CapturedFact) -> (r: String)
    ensures
        r@ == judge_prompt_text(best@, candidate@),
{
    let mut out = String::from_str("Existing fact (id=");
    out.append(string_of(i64_decimal(best.id).as_slice()).as_str());
    out.append("):\n  kind: ");
    out.append(best.kind.as_str());
    out.append("\n  slug: ");
    out.append(best.slug.as_str());
    out.append("\n  content: ");
    out.append(best.content.as_str());
    out.append("\n\nNew fact:\n  kind: ");
    out.append(candidate.kind.as_str());
    out.append("\n  slug: ");
    out.append(candidate.slug.as_str());
    out.append("\n  content: ");
    out.append(candidate.content.as_str());
    out.append("\n\nOutput one word: reuse, derive, replace, or new.");
    out
}

/// Recent messages as a numbered list, one per line.
pub open spec fn numbered(msgs: Seq<Seq<char>>) -> Seq<char>
    decreases msgs.len(),
{
    if msgs.len() == 0 {
        Seq::empty()
    } else {
        numbered(msgs.drop_last()) + decimal(msgs.len()) + ". "@ + msgs.last() + "\n"@
    }
}

fn append_numbered(out: &mut String, msgs: &[String])
    ensures
        final(out)@ == old(out)@ + numbered(msgs.deep_view()),
{
    let ghost mv = msgs.deep_view();
    let ghost start = out@;
    let mut i: usize = 0;
    assert(mv.take(0) =~= Seq::<Seq<char>>::empty());
    assert(start + numbered(mv.take(0)) =~= start);
    while i < msgs.len()
        invariant
            mv == msgs.deep_view(),
            i <= msgs@.len(),
            out@ == start + numbered(mv.take(i as int)),
        decreases msgs@.len() - i,
    {
        assert(mv.take(i + 1).drop_last() =~= mv.take(i as int));
        assert(mv.take(i + 1).last() == msgs@[i as int]@);
        let n = usize_decimal(i + 1);
        out.append(string_of(n.as_slice()).as_str());
        out.append(". ");
        out.append(msgs[i].as_str());
        out.append("\n");
        assert(out@ =~= start + numbered(mv.take(i + 1)));
        i = i + 1;
    }
    assert(mv.take(i as int) =~= mv);
}

pub open spec fn restate_prompt_text(slug: Seq<char>, current: Seq<char>, msgs: Seq<Seq<char>>) -> Seq<char> {
    "State slug: "@ + slug + "\nCurrent answer: "@ + current + "\n\nRecent user messages (oldest → newest):\n"@
        + numbered(msgs) + "\nWrite the updated answer now."@
}

/// The user message of a restate request; none without recent messages.
pub fn restate_prompt(slug: &str, current_answer: &str, recent_user_messages: &[String]) -> (r: Option<String>)
    ensures
        match r {
            Some(p) => recent_user_messages@.len() > 0 && p@ == restate_prompt_text(
                slug@,
                current_answer@,
                recent_user_messages.deep_view(),
            ),
            None => recent_user_messages@.len() == 0,
        },
{
    if recent_user_messages.len() == 0 {
        return None;
    }
    let mut out = String::from_str("State slug: ");
    out.append(slug);
    out.append("\nCurrent answer: ");
    out.append(current_answer);
    out.append("\n\nRecent user messages (oldest → newest):\n");
    append_numbered(&mut out, recent_user_messages);
    out.append("\nWrite the updated answer now.");
    Some(out)
}

pub open spec fn observe_prompt_text(query: Seq<char>, msgs: Seq<Seq<char>>) -> Seq<char> {
    "Behavioral query: "@ + query + "\n\nRecent user messages:\n"@ + numbered(msgs)
        + "\nSummarize the pattern as a short clause, or output `none`."@
}

/// The user message of an observe request; none without recent messages.
pub fn observe_prompt(behavior_query: &str, recent_user_messages: &[String]) -> (r: Option<String>)
    ensures
        match r {
            Some(p) => recent_user_messages@.len() > 0 && p@ == observe_prompt_text(
                behavior_query@,
                recent_user_messages.deep_view(),
            ),
            None => recent_user_messages@.len() == 0,
        },
{
    if recent_user_messages.len() == 0 {
        return None;
    }
    let mut out = String::from_str("Behavioral query: ");
    out.append(behavior_query);
    out.append("\n\nRecent user messages:\n");
    append_numbered(&mut out, recent_user_messages);
    out.append("\nSummarize the pattern as a short clause, or output `none`.");
    Some(out)
}

/// A model reply cleaned for storage: trimmed, quotes stripped, trimmed again.
pub open spec fn cleaned_reply(raw: Seq<char>) -> Seq<char> {
    trim(trim_char(trim_char(trim(raw), '"'), '\''))
}

fn clean_reply(raw: &str) -> (r: Vec<char>)
    ensures
        r@ == cleaned_reply(raw@),
{
    let v = chars_of(raw);
    let t = trimmed(v.as_slice());
    let q1 = trim_char_vec(t.as_slice(), '"');
    let q2 = trim_char_vec(q1.as_slice(), '\'');
    trimmed(q2.as_slice())
}

/// The restated answer, if the reply has one.
pub fn restated_answer(raw: &str) -> (r: Option<String>)
    ensures
        match r {
            Some(a) => cleaned_reply(raw@).len() > 0 && a@ == cleaned_reply(raw@),
            None => cleaned_reply(raw@).len() == 0,
        },
{
    let c = clean_reply(raw);
    if c.len() == 0 {
        None
    } else {
        Some(string_of(c.as_slice()))
    }
}

/// The observed pattern, if the reply has one that is not `none` (any case).
pub fn observed_pattern(raw: &str) -> (r: Option<String>)
    ensures
        match r {
            Some(a) => cleaned_reply(raw@).len() > 0 && lowercase(cleaned_reply(raw@)) != "none"@ && a@ == cleaned_reply(
                raw@,
            ),
            None => cleaned_reply(raw@).len() == 0 || lowercase(cleaned_reply(raw@)) == "none"@,
        },
{
    let c = clean_reply(raw);
    if c.len() == 0 {
        return None;
    }
    let s = string_of(c.as_slice());
    let low = to_lowercase(s.as_str());
    if str_eq(low.as_str(), "none") {
        None
    } else {
        Some(s)
    }
}

pub open spec fn fact_bullet(f: FactView) -> Seq<char> {
    "- ["@ + kind_name(f.kind) + "] "@ + f.slug + " (scope="@ + match f.scope {
        Some(s) => s,
        None => "-"@,
    } + "): "@ + f.content + "\n"@
}

pub open spec fn fact_bullets(fs: Seq<FactView>) -> Seq<char>
    decreases fs.len(),
{
    if fs.len() == 0 {
        Seq::empty()
    } else {
        fact_bullets(fs.drop_last()) + fact_bullet(fs.last())
    }
}

pub open spec fn consolidate_prompt_text(fs: Seq<FactView>) -> Seq<char> {
    "Facts:\n"@ + fact_bullets(fs) + "\nWrite the ~200-word narrative profile now."@
}

/// The user message of a consolidate request; none without facts.
pub fn consolidate_prompt(facts: &[Fact]) -> (r: Option<String>)
    ensures
        match r {
            Some(p) => facts@.len() > 0 && p@ == consolidate_prompt_text(facts_view(facts@)),
            None => facts@.len() == 0,
        },
{
    if facts.len() == 0 {
        return None;
    }
    let ghost fv = facts_view(facts@);
    let mut out = String::from_str("Facts:\n");
    let ghost start = out@;
    let mut i: usize = 0;
    assert(fv.take(0) =~= Seq::<FactView>::empty());
    assert(start + fact_bullets(fv.take(0)) =~= start);
    while i < facts.len()
        invariant
            fv == facts_view(facts@),
            i <= facts@.len(),
            out@ == start + fact_bullets(fv.take(i as int)),
        decreases facts@.len() - i,
    {
        let f = &facts[i];
        assert(fv.take(i + 1).drop_last() =~= fv.take(i as int));
        assert(fv.take(i + 1).last() == f@);
        out.append("- [");
        out.append(f.kind.as_str());
        out.append("] ");
        out.append(f.slug.as_str());
        out.append(" (scope=");
        match &f.skill_scope {
            Some(s) => out.append(s.as_str()),
            None => out.append("-"),
        }
        out.append("): ");
        out.append(f.content.as_str());
        out.append("\n");
        assert(out@ =~= start + fact_bullets(fv.take(i + 1)));
        i = i + 1;
    }
    assert(fv.take(i as int) =~= fv);
    out.append("\nWrite the ~200-word narrative profile now.");
    Some(out)
}

/// The consolidated profile, if the reply is not blank.
pub fn consolidated_profile(raw: &str) -> (r: Option<String>)
    ensures
        match r {
            Some(a) => trim(raw@).len() > 0 && a@ == trim(raw@),
            None => trim(raw@).len() == 0,
        },
{
    let v = chars_of(raw);
    let t = trimmed(v.as_slice());
    if t.len() == 0 {
        None
    } else {
        Some(string_of(t.as_slice()))
    }
}


/// The second pass's verdict on one stored state fact after a `replace`.
#[derive(Debug, Clone, Copy, PartialEq, Eq, Structural)]
pub enum PropagateOutcome {
    /// Still valid: leave it.
    Keep,
    /// No longer true: archive it.
    Stale,
    /// May no longer be current: mark it unresolved.
    Unknown,
}

pub const PROPAGATE_SYSTEM: &'static str = "A user fact was just replaced because the user's situation changed. Given the new observation, the value it replaced, and ONE other stored fact about the user, decide whether that stored fact is still valid. Output EXACTLY ONE lowercase word: `keep`, `stale`, or `unknown`.\n\n- `keep`: the change does not affect the stored fact.\n- `stale`: the change makes the stored fact no longer true (e.g. the user moved city, so a commute through the old city no longer holds), even when the two share no words.\n- `unknown`: the stored fact may depend on the old value but you cannot tell whether it still holds.\n\nOutput one word.";

pub const PROPAGATE_MAX_TOKENS: u32 = 16;

/// Stored state facts the second pass checks after one `replace`.
pub const PROPAGATE_MAX_FACTS: usize = 5;

/// The verdict of a propagation reply: `stale` and `unknown` as named,
/// anything else keeps the fact.
pub open spec fn propagate_outcome(raw: Seq<char>) -> PropagateOutcome {
    let w = verdict_word(raw);
    if w == "stale"@ {
        PropagateOutcome::Stale
    } else if w == "unknown"@ {
        PropagateOutcome::Unknown
    } else {
        PropagateOutcome::Keep
    }
}

pub fn parse_propagate_response(raw: &str) -> (r: PropagateOutcome)
    ensures
        r == propagate_outcome(raw@),
{
    let w = reply_verdict(raw);
    if str_eq(w.as_str(), "stale") {
        PropagateOutcome::Stale
    } else if str_eq(w.as_str(), "unknown") {
        PropagateOutcome::Unknown
    } else {
        PropagateOutcome::Keep
    }
}

/// The status a stored fact takes after a propagation verdict; `None`
/// leaves it as it is.
pub open spec fn propagated_status(o: PropagateOutcome) -> Option<FactStatus> {
    match o {
        PropagateOutcome::Keep => None,
        PropagateOutcome::Stale => Some(FactStatus::Stale),
        PropagateOutcome::Unknown => Some(FactStatus::Unknown),
    }
}

pub fn status_after_propagation(o: PropagateOutcome) -> (r: Option<FactStatus>)
    ensures
        r == propagated_status(o),
{
    match o {
        PropagateOutcome::Keep => None,
        PropagateOutcome::Stale => Some(FactStatus::Stale),
        PropagateOutcome::Unknown => Some(FactStatus::Unknown),
    }
}

pub open spec fn propagate_prompt_text(new_content: Seq<char>, old_content: Seq<char>, f: FactView) -> Seq<char> {
    "New observation: "@ + new_content + "\nPrevious value (now archived): "@ + old_content
        + "\n\nStored fact:\n  kind: "@ + kind_name(f.kind) + "\n  slug: "@ + f.slug + "\n  content: "@ + f.content
        + "\n\nOutput one word: keep, stale, or unknown."@
}

/// The user message of a propagation request: the new value, the value it
/// replaced, and the stored fact to check.
pub fn propagate_prompt(new_content: &str, old_content: &str, fact: &Fact) -> (r: String)
    ensures
        r@ == propagate_prompt_text(new_content@, old_content@, fact@),
{
    let mut out = String::from_str("New observation: ");
    out.append(new_content);
    out.append("\nPrevious value (now archived): ");
    out.append(old_content);
    out.append("\n\nStored fact:\n  kind: ");
    out.append(fact.kind.as_str());
    out.append("\n  slug: ");
    out.append(fact.slug.as_str());
    out.append("\n  content: ");
    out.append(fact.content.as_str());
    out.append("\n\nOutput one word: keep, stale, or unknown.");
    out
}

/// Whether the second pass checks `f`: a state fact that is not archived
/// and is not the fact just written.
pub open spec fn propagation_candidate(f: FactView, written_id: i64) -> bool {
    f.kind == FactKind::State && f.status != FactStatus::Stale && f.id != written_id
}

/// Indices of the candidates among `fs`, in order.
pub open spec fn propagation_indices(fs: Seq<FactView>, written_id: i64) -> Seq<int>
    decreases fs.len(),
{
    if fs.len() == 0 {
        Seq::empty()
    } else {
        let prev = propagation_indices(fs.drop_last(), written_id);
        if propagation_candidate(fs.last(), written_id) {
            prev.push(fs.len() - 1)
        } else {
            prev
        }
    }
}

/// At most the first `PROPAGATE_MAX_FACTS` of `s`.
pub open spec fn first_few(s: Seq<int>) -> Seq<int> {
    if s.len() > PROPAGATE_MAX_FACTS {
        s.take(PROPAGATE_MAX_FACTS as int)
    } else {
        s
    }
}

/// Which stored facts the second pass checks after a `replace` wrote
/// `written_id`: the first five candidates (see `propagation_candidate`),
/// as indices into `facts`, in order.
pub fn propagation_targets(facts: &[Fact], written_id: i64) -> (r: Vec<usize>)
    ensures
        r@.map_values(|i: usize| i as int) == first_few(propagation_indices(facts_view(facts@), written_id)),
{
    let ghost fv = facts_view(facts@);
    let mut out: Vec<usize> = Vec::new();
    let mut i: usize = 0;
    assert(fv.take(0) =~= Seq::<FactView>::empty());
    assert(out@.map_values(|i: usize| i as int) =~= Seq::<int>::empty());
    while i < facts.len()
        invariant
            fv == facts_view(facts@),
            i <= facts@.len(),
            out@.map_values(|i: usize| i as int) == first_few(propagation_indices(fv.take(i as int), written_id)),
        decreases facts@.len() - i,
    {
        let ghost prev = propagation_indices(fv.take(i as int), written_id);
        let ghost before = out@.map_values(|i: usize| i as int);
        assert(fv.take(i + 1).drop_last() =~= fv.take(i as int));
        assert(fv.take(i + 1).last() == facts@[i as int]@);
        let f = &facts[i];
        if f.kind == FactKind::State && f.status != FactStatus::Stale && f.id != written_id {
            if out.len() < PROPAGATE_MAX_FACTS {
                out.push(i);
                assert(out@.map_values(|i: usize| i as int) =~= before.push(i as int));
                assert(first_few(prev.push(i as int)) =~= prev.push(i as int));
            } else {
                assert(first_few(prev.push(i as int)) =~= first_few(prev));
            }
        }
        i = i + 1;
    }
    assert(fv.take(i as int) =~= fv);
    out
}

} // verus!
