//! Memory lookup before a reply: the planner model proposes up to three
//! typed queries (`TAG|QUERY` lines), and each query is matched against the
//! stored facts by token overlap on slug and content.
use crate::memory::{
    facts_view, in_section, is_listing, kind_of_word, listing, scope_or_default, Fact, FactKind, FactStatus, FactView, MemoryStore,
};
use crate::text::{
    chars_of, find_char_from, first_char_from, lemma_first_char_from, lines, lines_of, lowercase, string_of, subvec, trim,
    trim_quotes, trim_quotes_vec, trimmed, ws_word_count, ws_word_count_of,
};
use crate::tokens::{overlap_count, overlap_of, tokens, tokens_with, Stoplist};
use vstd::string::StringExecFns;
use vstd::prelude::*;

verus! {

/// A lookup the planner asked for: a bucket and a few words.
#[derive(Debug, Clone, PartialEq, Eq)]
pub struct MemoryQuery {
    pub tag: FactKind,
    pub query: String,
}

pub struct MemoryQueryView {
    pub tag: FactKind,
    pub query: Seq<char>,
}

impl View for MemoryQuery {
    type V = MemoryQueryView;

    open spec fn view(&self) -> MemoryQueryView {
        MemoryQueryView { tag: self.tag, query: self.query@ }
    }
}

pub open spec fn queries_view(qs: Seq<MemoryQuery>) -> Seq<MemoryQueryView> {
    qs.map_values(|q: MemoryQuery| q@)
}

/// Instructions of the query planner.
pub const PROPOSE_SYSTEM: &'static str = "You are a memory query planner. Given a chat scene, propose up to 3 short search queries the assistant should run against its long-term memory BEFORE replying. Each query must specify which memory bucket to search.\n\nBuckets:\n- profile: user identity (name, role)\n- concept: named entities the user has mentioned (city, language, project)\n- state: the user's current task or focus\n- behavioral: user preferences or communication patterns\n\nOutput ONE query per line in the exact format `TAG|QUERY`. Keep queries short and lexical (3-8 words, no quotes). Do NOT speculate; only propose lookups that are clearly needed to ground the reply. If nothing is needed, output NOTHING.\n\nGOOD examples:\nprofile|user name\nconcept|user location city\nbehavioral|reply length preference\n\nBAD (do NOT output):\n- prose, JSON, markdown\n- queries longer than 8 words\n- speculative or repeated queries";

/// Token budget of one planner request.
pub const PROPOSE_MAX_TOKENS: u32 = 200;

/// Most queries taken from one planner reply.
pub const MAX_QUERIES: usize = 3;

/// Most facts one query contributes.
pub const MATCH_LIMIT_PER_QUERY: usize = 3;

/// Longest query kept, in words.
pub const MAX_QUERY_WORDS: usize = 12;

/// Whether a scene is worth a planner request: blank ones are not.
pub fn propose_wanted(scene: &str) -> (r: bool)
    ensures
        r == (trim(scene@).len() > 0),
{
    let v = chars_of(scene);
    trimmed(v.as_slice()).len() > 0
}

/// The query a planner line states, if it is a `TAG|QUERY` line with a known
/// tag and a query (quotes stripped) of one to twelve words.
pub open spec fn query_line(raw: Seq<char>) -> Option<MemoryQueryView> {
    let t = trim(raw);
    let i = first_char_from(t, '|', 0);
    if t.len() == 0 || t[0] == '#' || i < 0 {
        None
    } else {
        match kind_of_word(lowercase(trim(t.subrange(0, i)))) {
            None => None,
            Some(tag) => {
                let q = trim_quotes(trim(t.subrange(i + 1, t.len() as int)));
                if q.len() == 0 || ws_word_count(q) > MAX_QUERY_WORDS {
                    None
                } else {
                    Some(MemoryQueryView { tag, query: q })
                }
            },
        }
    }
}

/// The queries of the lines, in order, at most `MAX_QUERIES`.
pub open spec fn proposed_from(ls: Seq<Seq<char>>) -> Seq<MemoryQueryView>
    decreases ls.len(),
{
    if ls.len() == 0 {
        Seq::empty()
    } else {
        let prev = proposed_from(ls.drop_last());
        if prev.len() >= MAX_QUERIES {
            prev
        } else {
            match query_line(ls.last()) {
                Some(q) => prev.push(q),
                None => prev,
            }
        }
    }
}

proof fn lemma_proposed_capped(ls: Seq<Seq<char>>)
    ensures
        proposed_from(ls).len() <= MAX_QUERIES,
    decreases ls.len(),
{
    if ls.len() > 0 {
        lemma_proposed_capped(ls.drop_last());
    }
}

/// A planner reply gives at most `MAX_QUERIES` queries, each of one to
/// `MAX_QUERY_WORDS` words, and a reply of blank lines gives none.
pub proof fn law_proposed_queries_bounded(ls: Seq<Seq<char>>)
    ensures
        proposed_from(ls).len() <= MAX_QUERIES,
        forall|i: int|
            0 <= i < proposed_from(ls).len() ==> (#[trigger] proposed_from(ls)[i]).query.len() > 0 && ws_word_count(
                proposed_from(ls)[i].query,
            ) <= MAX_QUERY_WORDS,
        (forall|i: int| 0 <= i < ls.len() ==> trim(#[trigger] ls[i]).len() == 0) ==> proposed_from(ls).len() == 0,
    decreases ls.len(),
{
    lemma_proposed_capped(ls);
    if ls.len() > 0 {
        law_proposed_queries_bounded(ls.drop_last());
        let prev = proposed_from(ls.drop_last());
        if (forall|i: int| 0 <= i < ls.len() ==> trim(#[trigger] ls[i]).len() == 0) {
            assert(forall|i: int| 0 <= i < ls.drop_last().len() ==> trim(#[trigger] ls.drop_last()[i]).len() == 0) by {
                assert forall|i: int| 0 <= i < ls.drop_last().len() implies trim(#[trigger] ls.drop_last()[i]).len() == 0 by {
                    assert(ls.drop_last()[i] == ls[i]);
                }
            }
            assert(trim(ls[ls.len() - 1]).len() == 0);
        }
        match query_line(ls.last()) {
            Some(q) => {
                if prev.len() < MAX_QUERIES {
                    assert forall|i: int| 0 <= i < prev.push(q).len() implies (#[trigger] prev.push(q)[i]).query.len() > 0
                        && ws_word_count(prev.push(q)[i].query) <= MAX_QUERY_WORDS by {
                        if i < prev.len() {
                            assert(prev.push(q)[i] == prev[i]);
                        }
                    }
                }
            },
            None => {},
        }
    }
}

proof fn lemma_proposed_full(ls: Seq<Seq<char>>, k: int)
    requires
        0 <= k <= ls.len(),
        proposed_from(ls.take(k)).len() >= MAX_QUERIES,
    ensures
        proposed_from(ls) == proposed_from(ls.take(k)),
    decreases ls.len() - k,
{
    if k < ls.len() {
        assert(ls.drop_last().take(k) =~= ls.take(k));
        lemma_proposed_full(ls.drop_last(), k);
    } else {
        assert(ls.take(k) =~= ls);
    }
}

fn query_line_exec(raw: &[char]) -> (r: Option<MemoryQuery>)
    ensures
        match r {
            Some(q) => query_line(raw@) == Some(q@),
            None => query_line(raw@) is None,
        },
{
    let t = trimmed(raw);
    if t.len() == 0 || t[0] == '#' {
        return None;
    }
    let i = match find_char_from(t.as_slice(), '|', 0) {
        Some(i) => i,
        None => return None,
    };
    proof { lemma_first_char_from(t@, '|', 0); }
    let head = trimmed(subvec(t.as_slice(), 0, i).as_slice());
    let tag = match FactKind::parse(string_of(head.as_slice()).as_str()) {
        Some(k) => k,
        None => return None,
    };
    let rest = trimmed(subvec(t.as_slice(), i + 1, t.len()).as_slice());
    let q = trim_quotes_vec(rest.as_slice());
    if q.len() == 0 || ws_word_count_of(q.as_slice()) > MAX_QUERY_WORDS {
        return None;
    }
    Some(MemoryQuery { tag, query: string_of(q.as_slice()) })
}

/// The queries of a planner reply: one per well-formed line, at most three.
pub fn parse_propose_response(text: &str) -> (r: Vec<MemoryQuery>)
    ensures
        queries_view(r@) == proposed_from(lines(text@)),
        r@.len() <= MAX_QUERIES,
{
    let v = chars_of(text);
    let ls = lines_of(v.as_slice());
    let ghost lv = lines(text@);
    let mut out: Vec<MemoryQuery> = Vec::new();
    let mut k: usize = 0;
    while k < ls.len()
        invariant
            ls.deep_view() == lv,
            lv == lines(text@),
            k <= ls@.len(),
            queries_view(out@) == proposed_from(lv.take(k as int)),
            out@.len() < MAX_QUERIES,
        decreases ls@.len() - k,
    {
        assert(ls@[k as int]@ == lv[k as int]);
        assert(lv.take(k + 1).drop_last() =~= lv.take(k as int));
        assert(lv.take(k + 1).last() == lv[k as int]);
        match query_line_exec(ls[k].as_slice()) {
            Some(q) => {
                let ghost before = out@;
                out.push(q);
                assert(queries_view(out@) =~= queries_view(before).push(q@));
                if out.len() >= MAX_QUERIES {
                    proof { lemma_proposed_full(lv, k + 1); }
                    return out;
                }
            },
            None => {},
        }
        k = k + 1;
    }
    assert(lv.take(k as int) =~= lv);
    out
}

/// A candidate fact with its overlap score.
pub struct ScoredFact {
    pub score: usize,
    pub fact: Fact,
}

pub struct ScoredView {
    pub score: nat,
    pub fact: FactView,
}

impl View for ScoredFact {
    type V = ScoredView;

    open spec fn view(&self) -> ScoredView {
        ScoredView { score: self.score as nat, fact: self.fact@ }
    }
}

pub open spec fn scored_view(s: Seq<ScoredFact>) -> Seq<ScoredView> {
    s.map_values(|x: ScoredFact| x@)
}

/// Behavioral facts only answer for the active scope; other kinds always do.
pub open spec fn in_scope(f: FactView, scope: Seq<char>) -> bool {
    f.kind != FactKind::Behavioral || scope_or_default(f.scope) == scope
}

/// The text a fact is matched on.
pub open spec fn fact_text(f: FactView) -> Seq<char> {
    f.slug + " "@ + f.content
}

/// Candidates in scope with a positive score, in candidate order.
pub open spec fn scored(cands: Seq<FactView>, q_tokens: Seq<Seq<char>>, scope: Seq<char>) -> Seq<ScoredView>
    decreases cands.len(),
{
    if cands.len() == 0 {
        Seq::empty()
    } else {
        let prev = scored(cands.drop_last(), q_tokens, scope);
        let f = cands.last();
        let s = overlap_count(q_tokens, tokens(fact_text(f), Stoplist::Query));
        if in_scope(f, scope) && s > 0 {
            prev.push(ScoredView { score: s, fact: f })
        } else {
            prev
        }
    }
}

/// The entries of `s` with score `v`, in order.
pub open spec fn with_score(s: Seq<ScoredView>, v: nat) -> Seq<ScoredView>
    decreases s.len(),
{
    if s.len() == 0 {
        Seq::empty()
    } else {
        with_score(s.drop_last(), v) + if s.last().score == v {
            seq![s.last()]
        } else {
            Seq::empty()
        }
    }
}

/// Score levels `hi` down to `lo`, highest first.
pub open spec fn levels(s: Seq<ScoredView>, hi: int, lo: int) -> Seq<ScoredView>
    decreases hi - lo + 1,
{
    if lo > hi || lo < 0 {
        Seq::empty()
    } else {
        levels(s, hi, lo + 1) + with_score(s, lo as nat)
    }
}

pub open spec fn max_score(s: Seq<ScoredView>) -> nat
    decreases s.len(),
{
    if s.len() == 0 {
        0
    } else {
        let m = max_score(s.drop_last());
        if s.last().score > m {
            s.last().score
        } else {
            m
        }
    }
}

/// A stable sort by score, highest first: the entries of the top score in
/// their order, then those of the next score, and so on.
pub open spec fn by_score_desc(s: Seq<ScoredView>) -> Seq<ScoredView> {
    levels(s, max_score(s) as int, 0)
}

/// The first `MATCH_LIMIT_PER_QUERY` entries.
pub open spec fn top_hits(s: Seq<ScoredView>) -> Seq<ScoredView> {
    if s.len() <= MATCH_LIMIT_PER_QUERY {
        s
    } else {
        s.take(MATCH_LIMIT_PER_QUERY as int)
    }
}

pub open spec fn has_id(hits: Seq<ScoredView>, id: i64) -> bool {
    exists|j: int| 0 <= j < hits.len() && (#[trigger] hits[j]).fact.id == id
}

/// `hits` followed by the entries of `new` whose fact id is not there yet.
pub open spec fn add_unseen(hits: Seq<ScoredView>, new: Seq<ScoredView>) -> Seq<ScoredView>
    decreases new.len(),
{
    if new.len() == 0 {
        hits
    } else {
        let prev = add_unseen(hits, new.drop_last());
        if has_id(prev, new.last().fact.id) {
            prev
        } else {
            prev.push(new.last())
        }
    }
}

/// The hits of one query against a table.
pub open spec fn query_hits(rows: Seq<FactView>, q: MemoryQueryView, scope: Seq<char>) -> Seq<ScoredView> {
    top_hits(by_score_desc(scored(listing(rows, Some(q.tag), false), tokens(q.query, Stoplist::Query), scope)))
}

/// The hits of all queries, each fact once, in query order.
pub open spec fn collect_hits(qs: Seq<MemoryQueryView>, rows: Seq<FactView>, scope: Seq<char>) -> Seq<ScoredView>
    decreases qs.len(),
{
    if qs.len() == 0 {
        Seq::empty()
    } else {
        add_unseen(collect_hits(qs.drop_last(), rows, scope), query_hits(rows, qs.last(), scope))
    }
}

/// The facts matched by the queries, best score first.
pub open spec fn matched_facts(qs: Seq<MemoryQueryView>, rows: Seq<FactView>, scope: Seq<char>) -> Seq<FactView> {
    hit_facts(by_score_desc(collect_hits(qs, rows, scope)))
}

pub open spec fn hit_facts(s: Seq<ScoredView>) -> Seq<FactView> {
    s.map_values(|x: ScoredView| x.fact)
}

fn copy_scored(x: &ScoredFact) -> (r: ScoredFact)
    ensures
        r@ == x@,
{
    ScoredFact { score: x.score, fact: x.fact.duplicate() }
}

fn with_score_exec(s: &Vec<ScoredFact>, v: usize) -> (r: Vec<ScoredFact>)
    ensures
        scored_view(r@) == with_score(scored_view(s@), v as nat),
{
    let ghost sv = scored_view(s@);
    let mut out: Vec<ScoredFact> = Vec::new();
    let mut i: usize = 0;
    while i < s.len()
        invariant
            sv == scored_view(s@),
            i <= s@.len(),
            scored_view(out@) == with_score(sv.take(i as int), v as nat),
        decreases s@.len() - i,
    {
        assert(sv.take(i + 1).drop_last() =~= sv.take(i as int));
        assert(sv.take(i + 1).last() == s@[i as int]@);
        let ghost before = out@;
        if s[i].score == v {
            out.push(copy_scored(&s[i]));
            assert(scored_view(out@) =~= scored_view(before) + seq![s@[i as int]@]);
        } else {
            assert(scored_view(out@) =~= scored_view(before) + Seq::<ScoredView>::empty());
        }
        i = i + 1;
    }
    assert(sv.take(i as int) =~= sv);
    out
}

fn sort_by_score_desc(s: Vec<ScoredFact>) -> (r: Vec<ScoredFact>)
    ensures
        scored_view(r@) == by_score_desc(scored_view(s@)),
{
    let ghost sv = scored_view(s@);
    let mut m: usize = 0;
    let mut i: usize = 0;
    while i < s.len()
        invariant
            sv == scored_view(s@),
            i <= s@.len(),
            m == max_score(sv.take(i as int)),
        decreases s@.len() - i,
    {
        assert(sv.take(i + 1).drop_last() =~= sv.take(i as int));
        assert(sv.take(i + 1).last() == s@[i as int]@);
        if s[i].score > m {
            m = s[i].score;
        }
        i = i + 1;
    }
    assert(sv.take(i as int) =~= sv);
    let mut out: Vec<ScoredFact> = Vec::new();
    let mut v: usize = m;
    loop
        invariant_except_break
            sv == scored_view(s@),
            m == max_score(sv),
            v <= m,
            scored_view(out@) == levels(sv, m as int, v + 1),
        ensures
            scored_view(out@) == levels(sv, m as int, 0),
        decreases v,
    {
        let mut bucket = with_score_exec(&s, v);
        let ghost before = scored_view(out@);
        out.append(&mut bucket);
        assert(scored_view(out@) =~= before + with_score(sv, v as nat));
        if v == 0 {
            break;
        }
        v = v - 1;
    }
    out
}

fn in_scope_exec(f: &Fact, scope: &str) -> (r: bool)
    ensures
        r == in_scope(f@, scope@),
{
    if f.kind != FactKind::Behavioral {
        return true;
    }
    match &f.skill_scope {
        Some(sc) => crate::text::str_eq(sc.as_str(), scope),
        None => crate::text::str_eq("default", scope),
    }
}

fn fact_text_exec(f: &Fact) -> (r: String)
    ensures
        r@ == fact_text(f@),
{
    let mut t = f.slug.clone();
    t.append(" ");
    t.append(f.content.as_str());
    t
}

fn score_candidates(cands: &Vec<Fact>, q_tokens: &Vec<String>, scope: &str) -> (r: Vec<ScoredFact>)
    ensures
        scored_view(r@) == scored(facts_view(cands@), q_tokens.deep_view(), scope@),
{
    let ghost cv = facts_view(cands@);
    let mut out: Vec<ScoredFact> = Vec::new();
    let mut i: usize = 0;
    while i < cands.len()
        invariant
            cv == facts_view(cands@),
            i <= cands@.len(),
            scored_view(out@) == scored(cv.take(i as int), q_tokens.deep_view(), scope@),
        decreases cands@.len() - i,
    {
        assert(cv.take(i + 1).drop_last() =~= cv.take(i as int));
        assert(cv.take(i + 1).last() == cands@[i as int]@);
        let f = &cands[i];
        if in_scope_exec(f, scope) {
            let text = fact_text_exec(f);
            let ft = tokens_with(text.as_str(), Stoplist::Query);
            let s = overlap_of(q_tokens.as_slice(), ft.as_slice());
            if s > 0 {
                let ghost before = out@;
                out.push(ScoredFact { score: s, fact: f.duplicate() });
                assert(scored_view(out@) =~= scored_view(before).push(out@[out@.len() - 1]@));
            }
        }
        i = i + 1;
    }
    assert(cv.take(i as int) =~= cv);
    out
}

fn has_id_exec(hits: &Vec<ScoredFact>, id: i64) -> (r: bool)
    ensures
        r == has_id(scored_view(hits@), id),
{
    let mut j: usize = 0;
    while j < hits.len()
        invariant
            j <= hits@.len(),
            forall|k: int| 0 <= k < j ==> hits@[k].fact.id != id,
        decreases hits@.len() - j,
    {
        if hits[j].fact.id == id {
            assert(scored_view(hits@)[j as int].fact.id == id);
            return true;
        }
        j = j + 1;
    }
    proof {
        if has_id(scored_view(hits@), id) {
            let k = choose|k: int| 0 <= k < scored_view(hits@).len() && (#[trigger] scored_view(hits@)[k]).fact.id == id;
            assert(hits@[k].fact.id == id);
        }
    }
    false
}

fn add_unseen_exec(hits: &mut Vec<ScoredFact>, new: &Vec<ScoredFact>, upto: usize)
    requires
        upto <= new@.len(),
    ensures
        scored_view(final(hits)@) == add_unseen(scored_view(old(hits)@), scored_view(new@).take(upto as int)),
{
    let ghost h0 = scored_view(hits@);
    let ghost nv = scored_view(new@);
    let mut i: usize = 0;
    assert(nv.take(0) =~= Seq::<ScoredView>::empty());
    while i < upto
        invariant
            nv == scored_view(new@),
            upto <= new@.len(),
            i <= upto,
            scored_view(hits@) == add_unseen(h0, nv.take(i as int)),
        decreases upto - i,
    {
        assert(nv.take(i + 1).drop_last() =~= nv.take(i as int));
        assert(nv.take(i + 1).last() == new@[i as int]@);
        if !has_id_exec(hits, new[i].fact.id) {
            let ghost before = hits@;
            hits.push(copy_scored(&new[i]));
            assert(scored_view(hits@) =~= scored_view(before).push(new@[i as int]@));
        }
        i = i + 1;
    }
}

/// The stored facts that match the queries: per query, its bucket's listed
/// facts in scope (behavioral ones of the active skill, `default` when
/// none) with a positive token overlap, best three by score; each fact once;
/// all hits ordered by score, highest first, ties in the order found.
pub fn match_facts(queries: &[MemoryQuery], store: &MemoryStore, active_skill: Option<&str>) -> (r: Vec<Fact>)
    requires
        store.wf(),
    ensures
        facts_view(r@) == matched_facts(queries_view(queries@), store@, scope_or_default(active_skill.deep_view())),
{
    let scope: &str = match active_skill {
        Some(s) => s,
        None => "default",
    };
    let ghost qv = queries_view(queries@);
    let ghost sc = scope_or_default(active_skill.deep_view());
    assert(scope@ == sc);
    let mut hits: Vec<ScoredFact> = Vec::new();
    let mut k: usize = 0;
    while k < queries.len()
        invariant
            store.wf(),
            qv == queries_view(queries@),
            scope@ == sc,
            k <= queries@.len(),
            scored_view(hits@) == collect_hits(qv.take(k as int), store@, sc),
        decreases queries@.len() - k,
    {
        let q = &queries[k];
        assert(qv[k as int] == q@);
        let cands = match store.list(Some(q.tag)) {
            Ok(v) => v,
            Err(_) => Vec::new(),
        };
        let q_tokens = tokens_with(q.query.as_str(), Stoplist::Query);
        let scored_v = score_candidates(&cands, &q_tokens, scope);
        let sorted = sort_by_score_desc(scored_v);
        let upto: usize = if sorted.len() <= MATCH_LIMIT_PER_QUERY {
            sorted.len()
        } else {
            MATCH_LIMIT_PER_QUERY
        };
        proof {
            let sv = scored_view(sorted@);
            if sv.len() <= MATCH_LIMIT_PER_QUERY {
                assert(sv.take(upto as int) =~= sv);
            }
            assert(qv.take(k + 1).drop_last() =~= qv.take(k as int));
            assert(qv.take(k + 1).last() == q@);
        }
        add_unseen_exec(&mut hits, &sorted, upto);
        k = k + 1;
    }
    assert(qv.take(k as int) =~= qv);
    let sorted_hits = sort_by_score_desc(hits);
    let mut out: Vec<Fact> = Vec::new();
    let ghost shv = scored_view(sorted_hits@);
    let mut i: usize = 0;
    while i < sorted_hits.len()
        invariant
            shv == scored_view(sorted_hits@),
            i <= sorted_hits@.len(),
            facts_view(out@) == hit_facts(shv.take(i as int)),
        decreases sorted_hits@.len() - i,
    {
        let ghost before = out@;
        let d = sorted_hits[i].fact.duplicate();
        out.push(d);
        assert(out@ =~= before.push(d));
        assert(shv[i as int].fact == d@);
        assert(shv.take(i + 1) =~= shv.take(i as int).push(shv[i as int]));
        assert(facts_view(out@) =~= facts_view(before).push(d@));
        assert(facts_view(out@) =~= hit_facts(shv.take(i + 1)));
        i = i + 1;
    }
    assert(shv.take(i as int) =~= shv);
    out
}


pub open spec fn ids_distinct(s: Seq<ScoredView>) -> bool {
    forall|i: int, j: int| 0 <= i < s.len() && 0 <= j < s.len() && i != j ==> s[i].fact.id != s[j].fact.id
}

proof fn lemma_add_unseen_distinct(hits: Seq<ScoredView>, new: Seq<ScoredView>)
    requires
        ids_distinct(hits),
    ensures
        ids_distinct(add_unseen(hits, new)),
    decreases new.len(),
{
    if new.len() > 0 {
        lemma_add_unseen_distinct(hits, new.drop_last());
        let prev = add_unseen(hits, new.drop_last());
        if !has_id(prev, new.last().fact.id) {
            let r = prev.push(new.last());
            assert forall|i: int, j: int| 0 <= i < r.len() && 0 <= j < r.len() && i != j implies r[i].fact.id
                != r[j].fact.id by {
                if i == prev.len() as int {
                    assert(r[j] == prev[j]);
                } else if j == prev.len() as int {
                    assert(r[i] == prev[i]);
                }
            }
        }
    }
}

proof fn lemma_collect_hits_distinct(qs: Seq<MemoryQueryView>, rows: Seq<FactView>, scope: Seq<char>)
    ensures
        ids_distinct(collect_hits(qs, rows, scope)),
    decreases qs.len(),
{
    if qs.len() > 0 {
        lemma_collect_hits_distinct(qs.drop_last(), rows, scope);
        lemma_add_unseen_distinct(collect_hits(qs.drop_last(), rows, scope), query_hits(rows, qs.last(), scope));
    }
}

proof fn lemma_with_score(s: Seq<ScoredView>, v: nat)
    ensures
        forall|i: int| 0 <= i < with_score(s, v).len() ==> (#[trigger] with_score(s, v)[i]).score == v && s.contains(
            with_score(s, v)[i],
        ),
        ids_distinct(s) ==> ids_distinct(with_score(s, v)),
    decreases s.len(),
{
    if s.len() > 0 {
        lemma_with_score(s.drop_last(), v);
        let p = with_score(s.drop_last(), v);
        let w = with_score(s, v);
        assert forall|i: int| 0 <= i < w.len() implies (#[trigger] w[i]).score == v && s.contains(w[i]) by {
            if i < p.len() {
                assert(w[i] == p[i]);
                let k = choose|k: int| 0 <= k < s.drop_last().len() && s.drop_last()[k] == p[i];
                assert(s[k] == p[i]);
            } else {
                assert(w[i] == s.last());
                assert(s[s.len() - 1] == s.last());
            }
        }
        if ids_distinct(s) {
            assert(ids_distinct(s.drop_last())) by {
                assert forall|i: int, j: int|
                    0 <= i < s.drop_last().len() && 0 <= j < s.drop_last().len() && i != j implies s.drop_last()[i].fact.id
                    != s.drop_last()[j].fact.id by {
                    assert(s.drop_last()[i] == s[i] && s.drop_last()[j] == s[j]);
                }
            }
            assert forall|i: int, j: int| 0 <= i < w.len() && 0 <= j < w.len() && i != j implies w[i].fact.id
                != w[j].fact.id by {
                if i < p.len() && j < p.len() {
                    assert(w[i] == p[i] && w[j] == p[j]);
                } else {
                    let (a, b) = if i < p.len() { (i, j) } else { (j, i) };
                    // `a` indexes an entry taken from `s.drop_last()`, `b` is the last entry of `s`
                    assert(w[a] == p[a]);
                    assert(w[b] == s.last());
                    let k = choose|k: int| 0 <= k < s.drop_last().len() && s.drop_last()[k] == p[a];
                    assert(s[k] == p[a]);
                    assert(s[s.len() - 1] == s.last());
                }
            }
        }
    }
}

proof fn lemma_levels(s: Seq<ScoredView>, hi: int, lo: int)
    requires
        0 <= lo,
    ensures
        forall|i: int| 0 <= i < levels(s, hi, lo).len() ==> lo <= (#[trigger] levels(s, hi, lo)[i]).score <= hi
            && s.contains(levels(s, hi, lo)[i]),
        forall|i: int, j: int|
            0 <= i < j < levels(s, hi, lo).len() ==> (#[trigger] levels(s, hi, lo)[i]).score >= (
            #[trigger] levels(s, hi, lo)[j]).score,
        ids_distinct(s) ==> ids_distinct(levels(s, hi, lo)),
    decreases hi - lo + 1,
{
    if lo <= hi {
        lemma_levels(s, hi, lo + 1);
        lemma_with_score(s, lo as nat);
        let a = levels(s, hi, lo + 1);
        let b = with_score(s, lo as nat);
        let l = levels(s, hi, lo);
        assert(l == a + b);
        assert forall|i: int| 0 <= i < l.len() implies lo <= (#[trigger] l[i]).score <= hi && s.contains(l[i]) by {
            if i < a.len() {
                assert(l[i] == a[i]);
            } else {
                assert(l[i] == b[i - a.len()]);
            }
        }
        assert forall|i: int, j: int| 0 <= i < j < l.len() implies (#[trigger] l[i]).score >= (#[trigger] l[j]).score by {
            if j < a.len() {
                assert(l[i] == a[i] && l[j] == a[j]);
            } else if i >= a.len() {
                assert(l[i] == b[i - a.len()] && l[j] == b[j - a.len()]);
            } else {
                assert(l[i] == a[i] && l[j] == b[j - a.len()]);
            }
        }
        if ids_distinct(s) {
            assert forall|i: int, j: int| 0 <= i < l.len() && 0 <= j < l.len() && i != j implies l[i].fact.id
                != l[j].fact.id by {
                if i < a.len() && j < a.len() {
                    assert(l[i] == a[i] && l[j] == a[j]);
                } else if i >= a.len() && j >= a.len() {
                    assert(l[i] == b[i - a.len()] && l[j] == b[j - a.len()]);
                } else {
                    let (x, y) = if i < a.len() { (i, j) } else { (j, i) };
                    assert(l[x] == a[x] && l[y] == b[y - a.len()]);
                    assert(s.contains(l[x]) && s.contains(l[y]));
                    let kx = choose|k: int| 0 <= k < s.len() && s[k] == l[x];
                    let ky = choose|k: int| 0 <= k < s.len() && s[k] == l[y];
                    if l[x].fact.id == l[y].fact.id {
                        assert(kx == ky);
                        assert(l[x].score != l[y].score);
                    }
                }
            }
        }
    }
}

/// Matched facts come each at most once, and the hits behind them are in
/// order of score, highest first.
pub proof fn law_matches_deduped_best_first(qs: Seq<MemoryQueryView>, rows: Seq<FactView>, scope: Seq<char>)
    ensures
        ({
            let m = matched_facts(qs, rows, scope);
            let h = by_score_desc(collect_hits(qs, rows, scope));
            &&& forall|i: int, j: int| 0 <= i < m.len() && 0 <= j < m.len() && i != j ==> m[i].id != m[j].id
            &&& forall|i: int, j: int| 0 <= i < j < h.len() ==> (#[trigger] h[i]).score >= (#[trigger] h[j]).score
            &&& m == hit_facts(h)
        }),
{
    let c = collect_hits(qs, rows, scope);
    lemma_collect_hits_distinct(qs, rows, scope);
    lemma_levels(c, max_score(c) as int, 0);
    let h = by_score_desc(c);
    let m = matched_facts(qs, rows, scope);
    assert forall|i: int, j: int| 0 <= i < m.len() && 0 <= j < m.len() && i != j implies m[i].id != m[j].id by {
        assert(m[i] == h[i].fact && m[j] == h[j].fact);
    }
}


/// Whether a hit answers query `q`: its fact is an unarchived row of `rows`
/// of the query's kind, in scope, and shares a token with the query.
pub open spec fn answers(h: ScoredView, q: MemoryQueryView, rows: Seq<FactView>, scope: Seq<char>) -> bool {
    &&& rows.contains(h.fact)
    &&& h.fact.status != FactStatus::Stale
    &&& h.fact.kind == q.tag
    &&& in_scope(h.fact, scope)
    &&& h.score == overlap_count(tokens(q.query, Stoplist::Query), tokens(fact_text(h.fact), Stoplist::Query))
    &&& h.score > 0
}

proof fn lemma_scored_members(cands: Seq<FactView>, q_tokens: Seq<Seq<char>>, scope: Seq<char>)
    ensures
        forall|i: int| 0 <= i < scored(cands, q_tokens, scope).len() ==> {
            let h = #[trigger] scored(cands, q_tokens, scope)[i];
            &&& cands.contains(h.fact)
            &&& in_scope(h.fact, scope)
            &&& h.score == overlap_count(q_tokens, tokens(fact_text(h.fact), Stoplist::Query))
            &&& h.score > 0
        },
    decreases cands.len(),
{
    if cands.len() > 0 {
        lemma_scored_members(cands.drop_last(), q_tokens, scope);
        let p = scored(cands.drop_last(), q_tokens, scope);
        let s = scored(cands, q_tokens, scope);
        assert forall|i: int| 0 <= i < s.len() implies ({
            let h = #[trigger] s[i];
            &&& cands.contains(h.fact)
            &&& in_scope(h.fact, scope)
            &&& h.score == overlap_count(q_tokens, tokens(fact_text(h.fact), Stoplist::Query))
            &&& h.score > 0
        }) by {
            if i < p.len() {
                assert(s[i] == p[i]);
                let k = choose|k: int| 0 <= k < cands.drop_last().len() && cands.drop_last()[k] == p[i].fact;
                assert(cands[k] == p[i].fact);
            } else {
                assert(cands[cands.len() - 1] == cands.last());
            }
        }
    }
}

proof fn lemma_query_hits_answer(rows: Seq<FactView>, q: MemoryQueryView, scope: Seq<char>)
    requires
        exists|out: Seq<FactView>| is_listing(out, rows, Some(q.tag), false),
    ensures
        forall|i: int| 0 <= i < query_hits(rows, q, scope).len() ==> answers(#[trigger] query_hits(rows, q, scope)[i], q, rows, scope),
{
    let cands = listing(rows, Some(q.tag), false);
    assert(is_listing(cands, rows, Some(q.tag), false));
    let qt = tokens(q.query, Stoplist::Query);
    let sc = scored(cands, qt, scope);
    lemma_scored_members(cands, qt, scope);
    lemma_levels(sc, max_score(sc) as int, 0);
    let b = by_score_desc(sc);
    let t = query_hits(rows, q, scope);
    assert forall|i: int| 0 <= i < t.len() implies answers(#[trigger] t[i], q, rows, scope) by {
        assert(t[i] == b[i]);
        assert(sc.contains(b[i]));
        let k = choose|k: int| 0 <= k < sc.len() && sc[k] == b[i];
        assert(sc[k] == b[i]);
        assert(cands.contains(b[i].fact));
    }
}

proof fn lemma_add_unseen_members(hits: Seq<ScoredView>, new: Seq<ScoredView>)
    ensures
        forall|i: int| 0 <= i < add_unseen(hits, new).len() ==> hits.contains(#[trigger] add_unseen(hits, new)[i]) || new.contains(
            add_unseen(hits, new)[i],
        ),
    decreases new.len(),
{
    if new.len() > 0 {
        lemma_add_unseen_members(hits, new.drop_last());
        let p = add_unseen(hits, new.drop_last());
        let a = add_unseen(hits, new);
        assert forall|i: int| 0 <= i < a.len() implies hits.contains(#[trigger] a[i]) || new.contains(a[i]) by {
            if i < p.len() {
                assert(a[i] == p[i]);
                if !hits.contains(p[i]) {
                    let k = choose|k: int| 0 <= k < new.drop_last().len() && new.drop_last()[k] == p[i];
                    assert(new[k] == p[i]);
                }
            } else {
                assert(new[new.len() - 1] == new.last());
            }
        }
    }
}

proof fn lemma_collect_hits_answer(qs: Seq<MemoryQueryView>, rows: Seq<FactView>, scope: Seq<char>)
    requires
        forall|k: int| 0 <= k < qs.len() ==> exists|out: Seq<FactView>| is_listing(out, rows, Some(#[trigger] qs[k].tag), false),
    ensures
        forall|i: int| 0 <= i < collect_hits(qs, rows, scope).len() ==> exists|k: int|
            0 <= k < qs.len() && answers(#[trigger] collect_hits(qs, rows, scope)[i], #[trigger] qs[k], rows, scope),
    decreases qs.len(),
{
    if qs.len() > 0 {
        let d = qs.drop_last();
        assert forall|k: int| 0 <= k < d.len() implies exists|out: Seq<FactView>| is_listing(out, rows, Some(#[trigger] d[k].tag), false) by {
            assert(d[k] == qs[k]);
        }
        lemma_collect_hits_answer(d, rows, scope);
        let last = qs[qs.len() - 1];
        assert(last == qs.last());
        lemma_query_hits_answer(rows, last, scope);
        let p = collect_hits(d, rows, scope);
        let n = query_hits(rows, last, scope);
        lemma_add_unseen_members(p, n);
        let c = collect_hits(qs, rows, scope);
        assert forall|i: int| 0 <= i < c.len() implies exists|k: int|
            0 <= k < qs.len() && answers(#[trigger] c[i], #[trigger] qs[k], rows, scope) by {
            if p.contains(c[i]) {
                let j = choose|j: int| 0 <= j < p.len() && p[j] == c[i];
                let k = choose|k: int| 0 <= k < d.len() && answers(p[j], d[k], rows, scope);
                assert(qs[k] == d[k]);
            } else {
                let j = choose|j: int| 0 <= j < n.len() && n[j] == c[i];
                assert(answers(n[j], last, rows, scope));
                assert(answers(c[i], qs[qs.len() - 1], rows, scope));
            }
        }
    }
}

/// Every matched fact answers one of the queries: it is an unarchived row
/// of the table, of that query's kind, in the active scope (a behavioral
/// fact only in its own scope), and it shares a token with the query.
pub proof fn law_matched_facts_answer_queries(qs: Seq<MemoryQueryView>, rows: Seq<FactView>, scope: Seq<char>)
    requires
        forall|k: int| 0 <= k < qs.len() ==> exists|out: Seq<FactView>| is_listing(out, rows, Some(#[trigger] qs[k].tag), false),
    ensures
        forall|i: int| 0 <= i < matched_facts(qs, rows, scope).len() ==> exists|k: int|
            0 <= k < qs.len() && #[trigger] rows.contains(matched_facts(qs, rows, scope)[i]) && matched_facts(qs, rows, scope)[i].status
                != FactStatus::Stale && matched_facts(qs, rows, scope)[i].kind == (#[trigger] qs[k]).tag && in_scope(
                matched_facts(qs, rows, scope)[i],
                scope,
            ) && overlap_count(
                tokens(qs[k].query, Stoplist::Query),
                tokens(fact_text(matched_facts(qs, rows, scope)[i]), Stoplist::Query),
            ) > 0,
{
    let c = collect_hits(qs, rows, scope);
    lemma_collect_hits_answer(qs, rows, scope);
    lemma_levels(c, max_score(c) as int, 0);
    let h = by_score_desc(c);
    let m = matched_facts(qs, rows, scope);
    assert forall|i: int| 0 <= i < m.len() implies exists|k: int|
        0 <= k < qs.len() && #[trigger] rows.contains(m[i]) && m[i].status != FactStatus::Stale && m[i].kind == (
        #[trigger] qs[k]).tag && in_scope(m[i], scope) && overlap_count(
            tokens(qs[k].query, Stoplist::Query),
            tokens(fact_text(m[i]), Stoplist::Query),
        ) > 0 by {
        assert(m[i] == h[i].fact);
        assert(c.contains(h[i]));
        let j = choose|j: int| 0 <= j < c.len() && c[j] == h[i];
        let k = choose|k: int| 0 <= k < qs.len() && answers(c[j], qs[k], rows, scope);
        assert(answers(c[j], qs[k], rows, scope));
    }
}

proof fn lemma_add_unseen_len(hits: Seq<ScoredView>, new: Seq<ScoredView>)
    ensures
        add_unseen(hits, new).len() <= hits.len() + new.len(),
    decreases new.len(),
{
    if new.len() > 0 {
        lemma_add_unseen_len(hits, new.drop_last());
    }
}

proof fn lemma_collect_hits_len(qs: Seq<MemoryQueryView>, rows: Seq<FactView>, scope: Seq<char>)
    ensures
        collect_hits(qs, rows, scope).len() <= MATCH_LIMIT_PER_QUERY * qs.len(),
    decreases qs.len(),
{
    if qs.len() > 0 {
        lemma_collect_hits_len(qs.drop_last(), rows, scope);
        lemma_add_unseen_len(collect_hits(qs.drop_last(), rows, scope), query_hits(rows, qs.last(), scope));
        assert(query_hits(rows, qs.last(), scope).len() <= MATCH_LIMIT_PER_QUERY);
        assert(MATCH_LIMIT_PER_QUERY * (qs.len() - 1) + MATCH_LIMIT_PER_QUERY == MATCH_LIMIT_PER_QUERY * qs.len()) by (nonlinear_arith);
    }
}

/// The queries together match at most `MATCH_LIMIT_PER_QUERY` facts each.
pub proof fn law_matches_bounded_per_query(qs: Seq<MemoryQueryView>, rows: Seq<FactView>, scope: Seq<char>)
    ensures
        matched_facts(qs, rows, scope).len() <= MATCH_LIMIT_PER_QUERY * qs.len(),
{
    broadcast use vstd::seq_lib::seq_to_set_is_finite;
    let c = collect_hits(qs, rows, scope);
    lemma_collect_hits_len(qs, rows, scope);
    lemma_collect_hits_distinct(qs, rows, scope);
    lemma_levels(c, max_score(c) as int, 0);
    let h = by_score_desc(c);
    assert(h.no_duplicates()) by {
        assert forall|i: int, j: int| 0 <= i < h.len() && 0 <= j < h.len() && i != j implies h[i] != h[j] by {
            assert(h[i].fact.id != h[j].fact.id);
        }
    }
    assert(h.to_set().subset_of(c.to_set())) by {
        assert forall|x: ScoredView| h.to_set().contains(x) implies c.to_set().contains(x) by {
            let i = choose|i: int| 0 <= i < h.len() && h[i] == x;
            assert(c.contains(h[i]));
        }
    }
    h.unique_seq_to_set();
    c.lemma_cardinality_of_set();
    vstd::set_lib::lemma_len_subset(h.to_set(), c.to_set());
}

proof fn lemma_scored_ignores_scope(cands: Seq<FactView>, q_tokens: Seq<Seq<char>>, s1: Seq<char>, s2: Seq<char>)
    requires
        forall|i: int| 0 <= i < cands.len() ==> (#[trigger] cands[i]).kind != FactKind::Behavioral,
    ensures
        scored(cands, q_tokens, s1) == scored(cands, q_tokens, s2),
    decreases cands.len(),
{
    if cands.len() > 0 {
        assert(cands.last() == cands[cands.len() - 1]);
        lemma_scored_ignores_scope(cands.drop_last(), q_tokens, s1, s2);
    }
}

proof fn lemma_query_hits_ignore_scope(rows: Seq<FactView>, q: MemoryQueryView, s1: Seq<char>, s2: Seq<char>)
    requires
        q.tag != FactKind::Behavioral,
        exists|out: Seq<FactView>| is_listing(out, rows, Some(q.tag), false),
    ensures
        query_hits(rows, q, s1) == query_hits(rows, q, s2),
{
    let cands = listing(rows, Some(q.tag), false);
    assert(is_listing(cands, rows, Some(q.tag), false));
    assert forall|i: int| 0 <= i < cands.len() implies (#[trigger] cands[i]).kind != FactKind::Behavioral by {
        assert(cands.contains(cands[i]));
    }
    lemma_scored_ignores_scope(cands, tokens(q.query, Stoplist::Query), s1, s2);
}

proof fn lemma_collect_hits_ignore_scope(qs: Seq<MemoryQueryView>, rows: Seq<FactView>, s1: Seq<char>, s2: Seq<char>)
    requires
        forall|k: int| 0 <= k < qs.len() ==> (#[trigger] qs[k]).tag != FactKind::Behavioral,
        forall|k: int| 0 <= k < qs.len() ==> exists|out: Seq<FactView>| is_listing(out, rows, Some(#[trigger] qs[k].tag), false),
    ensures
        collect_hits(qs, rows, s1) == collect_hits(qs, rows, s2),
    decreases qs.len(),
{
    if qs.len() > 0 {
        let d = qs.drop_last();
        assert forall|k: int| 0 <= k < d.len() implies (#[trigger] d[k]).tag != FactKind::Behavioral by {
            assert(d[k] == qs[k]);
        }
        assert forall|k: int| 0 <= k < d.len() implies exists|out: Seq<FactView>| is_listing(out, rows, Some(#[trigger] d[k].tag), false) by {
            assert(d[k] == qs[k]);
        }
        lemma_collect_hits_ignore_scope(d, rows, s1, s2);
        assert(qs.last() == qs[qs.len() - 1]);
        lemma_query_hits_ignore_scope(rows, qs.last(), s1, s2);
    }
}

/// The active skill only filters behavioral facts: queries for profile,
/// concept or state facts match the same facts whatever the scope.
pub proof fn law_skill_scope_filters_only_behavioral(
    qs: Seq<MemoryQueryView>,
    rows: Seq<FactView>,
    s1: Seq<char>,
    s2: Seq<char>,
)
    requires
        forall|k: int| 0 <= k < qs.len() ==> (#[trigger] qs[k]).tag != FactKind::Behavioral,
        forall|k: int| 0 <= k < qs.len() ==> exists|out: Seq<FactView>| is_listing(out, rows, Some(#[trigger] qs[k].tag), false),
    ensures
        matched_facts(qs, rows, s1) == matched_facts(qs, rows, s2),
{
    lemma_collect_hits_ignore_scope(qs, rows, s1, s2);
}

/// A non-behavioral fact is in scope for every skill.
pub proof fn law_non_behavioral_always_in_scope(f: FactView, scope: Seq<char>)
    requires
        f.kind != FactKind::Behavioral,
    ensures
        in_scope(f, scope),
{
}
} // verus!
