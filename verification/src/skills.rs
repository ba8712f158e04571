//! Skills: `SKILL.md` files made of a `---` frontmatter block of
//! `key: value` lines and a prompt body.
use crate::text::{
    chars_of, find_from, find_seq_from, is_ws, is_whitespace, lemma_find_from, lines, lines_of, string_of, subvec,
    first_char_from, find_char_from, lemma_first_char_from, trim, trim_char, trim_char_vec, trim_end, trimmed,
};
use vstd::prelude::*;

verus! {


/// The `key: value` pairs of a frontmatter block; a later line for a key
/// replaces an earlier one.
#[derive(Debug, Clone)]
pub struct Frontmatter {
    pairs: Vec<(String, String)>,
}

/// The map a list of pairs builds when each pair is inserted in turn.
pub open spec fn map_of_pairs(ps: Seq<(Seq<char>, Seq<char>)>) -> Map<Seq<char>, Seq<char>>
    decreases ps.len(),
{
    if ps.len() == 0 {
        Map::empty()
    } else {
        map_of_pairs(ps.drop_last()).insert(ps.last().0, ps.last().1)
    }
}

pub open spec fn pairs_view(ps: Seq<(String, String)>) -> Seq<(Seq<char>, Seq<char>)> {
    ps.map_values(|p: (String, String)| (p.0@, p.1@))
}

impl View for Frontmatter {
    type V = Map<Seq<char>, Seq<char>>;

    closed spec fn view(&self) -> Map<Seq<char>, Seq<char>> {
        map_of_pairs(pairs_view(self.pairs@))
    }
}

proof fn lemma_map_of_pairs_last(ps: Seq<(Seq<char>, Seq<char>)>, key: Seq<char>, n: int)
    requires
        0 <= n <= ps.len(),
        forall|j: int| n <= j < ps.len() ==> (#[trigger] ps[j]).0 != key,
    ensures
        map_of_pairs(ps).contains_key(key) == map_of_pairs(ps.take(n)).contains_key(key),
        map_of_pairs(ps).contains_key(key) ==> map_of_pairs(ps)[key] == map_of_pairs(ps.take(n))[key],
    decreases ps.len() - n,
{
    if n < ps.len() {
        assert(ps.drop_last().take(n) =~= ps.take(n));
        lemma_map_of_pairs_last(ps.drop_last(), key, n);
    } else {
        assert(ps.take(n) =~= ps);
    }
}

impl Frontmatter {
    pub fn new() -> (r: Frontmatter)
        ensures
            r@ == Map::<Seq<char>, Seq<char>>::empty(),
    {
        let r = Frontmatter { pairs: Vec::new() };
        assert(pairs_view(r.pairs@) =~= Seq::<(Seq<char>, Seq<char>)>::empty());
        r
    }

    /// Set `key` to `value`, replacing an earlier value.
    pub fn insert(&mut self, key: String, value: String)
        ensures
            final(self)@ == old(self)@.insert(key@, value@),
    {
        let ghost before = pairs_view(self.pairs@);
        self.pairs.push((key, value));
        assert(pairs_view(self.pairs@).drop_last() =~= before);
    }

    /// The value of `key`, if set.
    pub fn get(&self, key: &str) -> (r: Option<&String>)
        ensures
            match r {
                Some(v) => self@.contains_key(key@) && v@ == self@[key@],
                None => !self@.contains_key(key@),
            },
    {
        let ghost pv = pairs_view(self.pairs@);
        let mut i: usize = self.pairs.len();
        while i > 0
            invariant
                pv == pairs_view(self.pairs@),
                i <= self.pairs@.len(),
                forall|j: int| i <= j < pv.len() ==> (#[trigger] pv[j]).0 != key@,
            decreases i,
        {
            let p = &self.pairs[i - 1];
            assert(pv[i - 1] == (p.0@, p.1@));
            if crate::text::str_eq(p.0.as_str(), key) {
                proof {
                    lemma_map_of_pairs_last(pv, key@, i as int);
                    assert(pv.take(i as int).drop_last() =~= pv.take(i - 1));
                    assert(pv.take(i as int).last() == pv[i - 1]);
                }
                return Some(&p.1);
            }
            i = i - 1;
        }
        proof {
            lemma_map_of_pairs_last(pv, key@, 0);
            assert(pv.take(0) =~= Seq::<(Seq<char>, Seq<char>)>::empty());
        }
        None
    }
}

/// A skill loaded from a `SKILL.md`.
#[derive(Debug)]
pub struct Skill {
    pub name: String,
    pub description: String,
    pub frontmatter: Frontmatter,
    pub body: String,
    /// The path of the `SKILL.md` it was read from.
    pub source: String,
}

/// Why a `SKILL.md` was refused.
#[derive(Debug, Clone, Copy, PartialEq, Eq, Structural)]
pub enum SkillError {
    MissingOpening,
    MissingClosing,
    MissingName,
}

impl SkillError {
    /// What the error says.
    pub fn message(self) -> (r: &'static str)
        ensures
            r@ == match self {
                SkillError::MissingOpening => "file does not start with `---` frontmatter delimiter"@,
                SkillError::MissingClosing => "missing closing `---` frontmatter delimiter"@,
                SkillError::MissingName => "missing `name` in frontmatter"@,
            },
    {
        match self {
            SkillError::MissingOpening => "file does not start with `---` frontmatter delimiter",
            SkillError::MissingClosing => "missing closing `---` frontmatter delimiter",
            SkillError::MissingName => "missing `name` in frontmatter",
        }
    }
}

/// `s` with every `\r\n` turned into `\n`.
pub open spec fn crlf_to_lf(s: Seq<char>) -> Seq<char>
    decreases s.len(),
{
    if s.len() == 0 {
        Seq::empty()
    } else if s.len() >= 2 && s[0] == '\r' && s[1] == '\n' {
        seq!['\n'] + crlf_to_lf(s.subrange(2, s.len() as int))
    } else {
        seq![s[0]] + crlf_to_lf(s.drop_first())
    }
}

/// `s` without leading byte-order marks and whitespace.
pub open spec fn trim_bom_ws(s: Seq<char>) -> Seq<char>
    decreases s.len(),
{
    if s.len() > 0 && (s[0] == '\u{feff}' || is_ws(s[0])) {
        trim_bom_ws(s.drop_first())
    } else {
        s
    }
}

/// The text after the opening `---` (and the newline after it), if the file
/// starts with one.
pub open spec fn after_opening(raw: Seq<char>) -> Option<Seq<char>> {
    let t = trim_bom_ws(crlf_to_lf(raw));
    if t.len() >= 3 && t.take(3) == "---"@ {
        let rest = t.subrange(3, t.len() as int);
        Some(if rest.len() > 0 && rest[0] == '\n' { rest.drop_first() } else { rest })
    } else {
        None
    }
}

/// The pair a frontmatter line sets, if it sets one.
pub open spec fn fm_line(raw: Seq<char>) -> Option<(Seq<char>, Seq<char>)> {
    let line = trim_end(raw);
    let i = first_char_from(line, ':', 0);
    if line.len() == 0 || line[0] == '#' || i < 0 {
        None
    } else {
        let key = trim(line.take(i));
        let val = trim_char(trim_char(trim(line.subrange(i + 1, line.len() as int)), '"'), '\'');
        if key.len() == 0 {
            None
        } else {
            Some((key, val))
        }
    }
}

pub open spec fn fm_from(ls: Seq<Seq<char>>) -> Map<Seq<char>, Seq<char>>
    decreases ls.len(),
{
    if ls.len() == 0 {
        Map::empty()
    } else {
        let m = fm_from(ls.drop_last());
        match fm_line(ls.last()) {
            Some(p) => m.insert(p.0, p.1),
            None => m,
        }
    }
}

/// Frontmatter map and body of a `SKILL.md`, or why there are none.
pub open spec fn split_spec(raw: Seq<char>) -> Result<(Map<Seq<char>, Seq<char>>, Seq<char>), SkillError> {
    match after_opening(raw) {
        None => Err(SkillError::MissingOpening),
        Some(rest) => {
            let end = find_from(rest, "\n---"@, 0);
            if end < 0 {
                Err(SkillError::MissingClosing)
            } else {
                let body = if end + 4 >= rest.len() {
                    Seq::empty()
                } else {
                    let after = rest.subrange(end + 4, rest.len() as int);
                    if after[0] == '\n' { after.drop_first() } else { after }
                };
                Ok((fm_from(lines(rest.take(end))), body))
            }
        },
    }
}

fn crlf_to_lf_vec(v: &[char]) -> (r: Vec<char>)
    ensures
        r@ == crlf_to_lf(v@),
{
    let mut out: Vec<char> = Vec::new();
    let mut i: usize = 0;
    assert(v@.subrange(0, v@.len() as int) =~= v@);
    while i < v.len()
        invariant
            i <= v@.len(),
            out@ + crlf_to_lf(v@.subrange(i as int, v@.len() as int)) == crlf_to_lf(v@),
        decreases v@.len() - i,
    {
        let ghost rest = v@.subrange(i as int, v@.len() as int);
        if i + 1 < v.len() && v[i] == '\r' && v[i + 1] == '\n' {
            out.push('\n');
            assert(rest.subrange(2, rest.len() as int) =~= v@.subrange(i + 2, v@.len() as int));
            assert(out@ + crlf_to_lf(v@.subrange(i + 2, v@.len() as int)) =~= crlf_to_lf(v@));
            i = i + 2;
        } else {
            out.push(v[i]);
            assert(rest.drop_first() =~= v@.subrange(i + 1, v@.len() as int));
            assert(out@ + crlf_to_lf(v@.subrange(i + 1, v@.len() as int)) =~= crlf_to_lf(v@));
            i = i + 1;
        }
    }
    assert(v@.subrange(i as int, v@.len() as int) =~= Seq::<char>::empty());
    assert(out@ + Seq::<char>::empty() =~= out@);
    out
}

fn fm_line_exec(raw: &[char]) -> (r: Option<(String, String)>)
    ensures
        match r {
            Some(p) => fm_line(raw@) == Some((p.0@, p.1@)),
            None => fm_line(raw@) is None,
        },
{
    let line = trim_end_vec(raw);
    if line.len() == 0 || line[0] == '#' {
        return None;
    }
    let i = match find_char_from(line.as_slice(), ':', 0) {
        Some(i) => i,
        None => return None,
    };
    proof { lemma_first_char_from(line@, ':', 0); }
    let key = trimmed(subvec(line.as_slice(), 0, i).as_slice());
    assert(line@.take(i as int) =~= line@.subrange(0, i as int));
    let v0 = trimmed(subvec(line.as_slice(), i + 1, line.len()).as_slice());
    let v1 = trim_char_vec(v0.as_slice(), '"');
    let v2 = trim_char_vec(v1.as_slice(), '\'');
    if key.len() == 0 {
        return None;
    }
    Some((string_of(key.as_slice()), string_of(v2.as_slice())))
}

/// `str::trim_end` on characters.
fn trim_end_vec(v: &[char]) -> (r: Vec<char>)
    ensures
        r@ == trim_end(v@),
{
    let mut b: usize = v.len();
    assert(v@.subrange(0, v@.len() as int) =~= v@);
    while b > 0 && is_whitespace(v[b - 1])
        invariant
            b <= v@.len(),
            trim_end(v@) == trim_end(v@.subrange(0, b as int)),
        decreases b,
    {
        assert(v@.subrange(0, b as int).drop_last() =~= v@.subrange(0, b - 1));
        b = b - 1;
    }
    subvec(v, 0, b)
}

/// Split a `SKILL.md` into its frontmatter and its body.
pub fn split_frontmatter(raw: &str) -> (r: Result<(Frontmatter, String), SkillError>)
    ensures
        match (r, split_spec(raw@)) {
            (Ok((fm, body)), Ok((m, b))) => fm@ == m && body@ == b,
            (Err(e), Err(e2)) => e == e2,
            _ => false,
        },
{
    let v0 = chars_of(raw);
    let v = crlf_to_lf_vec(v0.as_slice());
    let mut a: usize = 0;
    assert(v@.subrange(0, v@.len() as int) =~= v@);
    while a < v.len() && (v[a] == '\u{feff}' || is_whitespace(v[a]))
        invariant
            a <= v@.len(),
            trim_bom_ws(v@) == trim_bom_ws(v@.subrange(a as int, v@.len() as int)),
        decreases v@.len() - a,
    {
        assert(v@.subrange(a as int, v@.len() as int).drop_first() =~= v@.subrange(a + 1, v@.len() as int));
        a = a + 1;
    }
    let ghost t = v@.subrange(a as int, v@.len() as int);
    assert(trim_bom_ws(t) == t);
    proof {
        reveal_strlit("---");
        reveal_strlit("\n---");
    }
    if !(v.len() - a >= 3 && v[a] == '-' && v[a + 1] == '-' && v[a + 2] == '-') {
        proof {
            if t.len() >= 3 && t.take(3) == "---"@ {
                assert(t.take(3)[0] == '-' && t.take(3)[1] == '-' && t.take(3)[2] == '-');
            }
        }
        return Err(SkillError::MissingOpening);
    }
    assert(t.take(3) =~= "---"@);
    let mut s0 = a + 3;
    if s0 < v.len() && v[s0] == '\n' {
        s0 = s0 + 1;
    }
    let rest = subvec(v.as_slice(), s0, v.len());
    assert(after_opening(raw@) == Some(rest@)) by {
        let r3 = t.subrange(3, t.len() as int);
        assert(r3 =~= v@.subrange(a + 3, v@.len() as int));
        if r3.len() > 0 && r3[0] == '\n' {
            assert(r3.drop_first() =~= rest@);
        } else {
            assert(r3 =~= rest@);
        }
    }
    let delim: Vec<char> = vec!['\n', '-', '-', '-'];
    assert(delim@ =~= "\n---"@);
    let end = match find_seq_from(rest.as_slice(), delim.as_slice(), 0) {
        Some(e) => e,
        None => return Err(SkillError::MissingClosing),
    };
    proof { lemma_find_from(rest@, delim@, 0); }
    let block = subvec(rest.as_slice(), 0, end);
    assert(block@ =~= rest@.take(end as int));
    let body: String = if end + 4 >= rest.len() {
        String::new()
    } else {
        let mut b0 = end + 4;
        if rest[b0] == '\n' {
            b0 = b0 + 1;
        }
        let after = subvec(rest.as_slice(), b0, rest.len());
        proof {
            let af = rest@.subrange(end + 4, rest@.len() as int);
            if af[0] == '\n' {
                assert(af.drop_first() =~= after@);
            } else {
                assert(af =~= after@);
            }
        }
        string_of(after.as_slice())
    };
    let ls = lines_of(block.as_slice());
    let ghost lv = lines(block@);
    let mut fm = Frontmatter::new();
    let mut k: usize = 0;
    while k < ls.len()
        invariant
            ls.deep_view() == lv,
            k <= ls@.len(),
            fm@ == fm_from(lv.take(k as int)),
        decreases ls@.len() - k,
    {
        assert(ls@[k as int]@ == lv[k as int]);
        assert(lv.take(k + 1).drop_last() =~= lv.take(k as int));
        assert(lv.take(k + 1).last() == lv[k as int]);
        match fm_line_exec(ls[k].as_slice()) {
            Some((key, val)) => fm.insert(key, val),
            None => {},
        }
        k = k + 1;
    }
    assert(lv.take(k as int) =~= lv);
    Ok((fm, body))
}

/// The skill a `SKILL.md` defines: its frontmatter must set `name`;
/// `description` defaults to empty; the body is trimmed.
pub fn parse_skill(raw: &str, source: &str) -> (r: Result<Skill, SkillError>)
    ensures
        match split_spec(raw@) {
            Err(e) => r == Err::<Skill, SkillError>(e),
            Ok((m, b)) => if m.contains_key("name"@) {
                &&& r is Ok
                &&& r->Ok_0.name@ == m["name"@]
                &&& r->Ok_0.description@ == (if m.contains_key("description"@) {
                    m["description"@]
                } else {
                    Seq::<char>::empty()
                })
                &&& r->Ok_0.frontmatter@ == m
                &&& r->Ok_0.body@ == trim(b)
                &&& r->Ok_0.source@ == source@
            } else {
                r == Err::<Skill, SkillError>(SkillError::MissingName)
            },
        },
{
    let (fm, body) = match split_frontmatter(raw) {
        Ok(p) => p,
        Err(e) => return Err(e),
    };
    let name = match fm.get("name") {
        Some(n) => n.clone(),
        None => return Err(SkillError::MissingName),
    };
    let description = match fm.get("description") {
        Some(d) => d.clone(),
        None => String::new(),
    };
    let bv = chars_of(body.as_str());
    let tb = trimmed(bv.as_slice());
    Ok(Skill { name, description, frontmatter: fm, body: string_of(tb.as_slice()), source: String::from_str(source) })
}

} // verus!
