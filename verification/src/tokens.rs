//! Word tokens for the lexical similarity used by memory lookups: words are
//! maximal runs of alphanumeric characters, ASCII-lowercased; short words and
//! stopwords are dropped.
use crate::text::{ascii_lower, ascii_lower_char, is_ascii_alnum, str_eq, string_of};
use vstd::prelude::*;

verus! {

/// Whether `char::is_alphanumeric` accepts `c` (Unicode Alphabetic or Numeric).
pub uninterp spec fn unicode_alnum(c: char) -> bool;

/// `char::is_alphanumeric`; on ASCII it accepts exactly letters and digits.
#[verifier::external_body]
pub(crate) fn char_is_alphanumeric(c: char) -> (r: bool)
    ensures
        r == unicode_alnum(c),
        (c as u32) < 128 ==> r == is_ascii_alnum(c),
{
    c.is_alphanumeric()
}

/// ASCII lowercase of one character.
pub fn ascii_lower_of(c: char) -> (r: char)
    ensures
        r == ascii_lower_char(c),
{
    if 'A' <= c && c <= 'Z' {
        let u: u32 = (c as u32) + 32;
        let l = (u as u8) as char;
        assert(l == ascii_lower_char(c)) by {
            assert((u as u8) as u32 == u);
        }
        l
    } else {
        c
    }
}

/// ASCII lowercase of every character (`str::to_ascii_lowercase`).
pub fn ascii_lower_vec(v: &[char]) -> (r: Vec<char>)
    ensures
        r@ == ascii_lower(v@),
{
    let mut out: Vec<char> = Vec::new();
    let mut i: usize = 0;
    while i < v.len()
        invariant
            i <= v@.len(),
            out@ == ascii_lower(v@.take(i as int)),
        decreases v@.len() - i,
    {
        out.push(ascii_lower_of(v[i]));
        assert(ascii_lower(v@.take(i + 1)) =~= ascii_lower(v@.take(i as int)).push(ascii_lower_char(v@[i as int])));
        i = i + 1;
    }
    assert(v@.take(i as int) =~= v@);
    out
}

/// Splitting at every non-alphanumeric character: the finished words and the
/// word in progress.
pub open spec fn word_fold(s: Seq<char>) -> (Seq<Seq<char>>, Seq<char>)
    decreases s.len(),
{
    if s.len() == 0 {
        (Seq::empty(), Seq::empty())
    } else {
        let (done, cur) = word_fold(s.drop_last());
        if unicode_alnum(s.last()) {
            (done, cur.push(s.last()))
        } else if cur.len() > 0 {
            (done.push(cur), Seq::empty())
        } else {
            (done, Seq::empty())
        }
    }
}

/// The non-empty pieces of `s` split at non-alphanumeric characters.
pub open spec fn words(s: Seq<char>) -> Seq<Seq<char>> {
    let (done, cur) = word_fold(s);
    if cur.len() > 0 {
        done.push(cur)
    } else {
        done
    }
}

/// Bytes of `c` in UTF-8.
pub open spec fn utf8_len_char(c: char) -> nat {
    let u = c as u32;
    if u < 0x80 {
        1
    } else if u < 0x800 {
        2
    } else if u < 0x10000 {
        3
    } else {
        4
    }
}

/// Bytes of `s` in UTF-8 (`str::len`).
pub open spec fn utf8_len(s: Seq<char>) -> nat
    decreases s.len(),
{
    if s.len() == 0 {
        0
    } else {
        utf8_len(s.drop_last()) + utf8_len_char(s.last())
    }
}

/// The stopword list of the two lookups.
#[derive(Debug, Clone, Copy, PartialEq, Eq, Structural)]
pub enum Stoplist {
    /// Memory lookup queries.
    Query,
    /// Capture-time similarity.
    Judge,
}

pub open spec fn is_stopword(list: Stoplist, w: Seq<char>) -> bool {
    ||| w == "the"@ || w == "a"@ || w == "an"@ || w == "is"@ || w == "of"@ || w == "in"@ || w == "on"@
    ||| w == "at"@ || w == "to"@ || w == "for"@ || w == "and"@ || w == "or"@ || w == "user"@
    ||| w == "with"@ || w == "by"@ || w == "from"@ || w == "as"@
    ||| list == Stoplist::Query && (w == "what"@ || w == "who"@ || w == "where"@ || w == "when"@ || w == "how"@
        || w == "do"@ || w == "does"@)
    ||| list == Stoplist::Judge && (w == "user's"@ || w == "users"@)
}

pub fn stopword(list: Stoplist, w: &str) -> (r: bool)
    ensures
        r == is_stopword(list, w@),
{
    let common = str_eq(w, "the") || str_eq(w, "a") || str_eq(w, "an") || str_eq(w, "is") || str_eq(w, "of")
        || str_eq(w, "in") || str_eq(w, "on") || str_eq(w, "at") || str_eq(w, "to") || str_eq(w, "for")
        || str_eq(w, "and") || str_eq(w, "or") || str_eq(w, "user") || str_eq(w, "with") || str_eq(w, "by")
        || str_eq(w, "from") || str_eq(w, "as");
    if common {
        return true;
    }
    match list {
        Stoplist::Query => str_eq(w, "what") || str_eq(w, "who") || str_eq(w, "where") || str_eq(w, "when")
            || str_eq(w, "how") || str_eq(w, "do") || str_eq(w, "does"),
        Stoplist::Judge => str_eq(w, "user's") || str_eq(w, "users"),
    }
}

/// The tokens of the words: each ASCII-lowercased, kept when it is at least
/// two bytes long and not a stopword.
pub open spec fn tokens_of_words(ws: Seq<Seq<char>>, list: Stoplist) -> Seq<Seq<char>>
    decreases ws.len(),
{
    if ws.len() == 0 {
        Seq::empty()
    } else {
        let prev = tokens_of_words(ws.drop_last(), list);
        let w = ascii_lower(ws.last());
        if utf8_len(w) >= 2 && !is_stopword(list, w) {
            prev.push(w)
        } else {
            prev
        }
    }
}

pub open spec fn tokens(s: Seq<char>, list: Stoplist) -> Seq<Seq<char>> {
    tokens_of_words(words(s), list)
}

/// How many tokens of `b` occur in `a`.
pub open spec fn overlap_count(a: Seq<Seq<char>>, b: Seq<Seq<char>>) -> nat
    decreases b.len(),
{
    if b.len() == 0 {
        0
    } else {
        overlap_count(a, b.drop_last()) + if a.contains(b.last()) {
            1nat
        } else {
            0nat
        }
    }
}

fn keep_token(w: &[char], list: Stoplist) -> (r: bool)
    ensures
        r == (utf8_len(w@) >= 2 && !is_stopword(list, w@)),
{
    let long = if w.len() >= 2 {
        proof { lemma_utf8_len_at_least(w@); }
        true
    } else if w.len() == 0 {
        false
    } else {
        proof { reveal_with_fuel(utf8_len, 2); }
        (w[0] as u32) >= 0x80
    };
    long && !stopword(list, string_of(w).as_str())
}

proof fn lemma_utf8_len_at_least(s: Seq<char>)
    ensures
        utf8_len(s) >= s.len(),
    decreases s.len(),
{
    if s.len() > 0 {
        lemma_utf8_len_at_least(s.drop_last());
    }
}

/// Tokens of `text` under a stoplist.
pub fn tokens_with(text: &str, list: Stoplist) -> (r: Vec<String>)
    ensures
        r.deep_view() == tokens(text@, list),
{
    let v = crate::text::chars_of(text);
    let mut done: Vec<String> = Vec::new();
    let mut cur: Vec<char> = Vec::new();
    let mut i: usize = 0;
    while i < v.len()
        invariant
            v@ == text@,
            i <= v@.len(),
            cur@ == word_fold(v@.take(i as int)).1,
            done.deep_view() == tokens_of_words(word_fold(v@.take(i as int)).0, list),
        decreases v@.len() - i,
    {
        let c = v[i];
        assert(v@.take(i + 1).drop_last() =~= v@.take(i as int));
        assert(v@.take(i + 1).last() == c);
        if char_is_alphanumeric(c) {
            cur.push(c);
        } else if cur.len() > 0 {
            let ghost fin = word_fold(v@.take(i as int)).0;
            let ghost before = done.deep_view();
            let low = ascii_lower_vec(cur.as_slice());
            if keep_token(low.as_slice(), list) {
                done.push(string_of(low.as_slice()));
                assert(done.deep_view() =~= before.push(low@));
            }
            assert(fin.push(cur@).drop_last() =~= fin);
            cur = Vec::new();
        }
        i = i + 1;
    }
    assert(v@.take(i as int) =~= v@);
    if cur.len() > 0 {
        let ghost fin = word_fold(v@).0;
        let ghost before = done.deep_view();
        let low = ascii_lower_vec(cur.as_slice());
        if keep_token(low.as_slice(), list) {
            done.push(string_of(low.as_slice()));
            assert(done.deep_view() =~= before.push(low@));
        }
        assert(fin.push(cur@).drop_last() =~= fin);
    }
    done
}

/// Whether some token of `a` equals `t`.
fn contains_token(a: &[String], t: &str) -> (r: bool)
    ensures
        r == a.deep_view().contains(t@),
{
    let mut i: usize = 0;
    while i < a.len()
        invariant
            i <= a@.len(),
            forall|j: int| 0 <= j < i ==> a@[j]@ != t@,
        decreases a@.len() - i,
    {
        if str_eq(a[i].as_str(), t) {
            assert(a.deep_view()[i as int] == t@);
            return true;
        }
        i = i + 1;
    }
    proof {
        if a.deep_view().contains(t@) {
            let k = choose|k: int| 0 <= k < a.deep_view().len() && a.deep_view()[k] == t@;
            assert(a@[k]@ == t@);
        }
    }
    false
}

/// How many tokens of `b` occur in `a`.
pub fn overlap_of(a: &[String], b: &[String]) -> (r: usize)
    ensures
        r == overlap_count(a.deep_view(), b.deep_view()),
{
    let ghost ad = a.deep_view();
    let ghost bd = b.deep_view();
    let mut n: usize = 0;
    let mut i: usize = 0;
    while i < b.len()
        invariant
            ad == a.deep_view(),
            bd == b.deep_view(),
            i <= b@.len(),
            n == overlap_count(ad, bd.take(i as int)),
            n <= i,
        decreases b@.len() - i,
    {
        assert(bd.take(i + 1).drop_last() =~= bd.take(i as int));
        assert(bd.take(i + 1).last() == b@[i as int]@);
        if contains_token(a, b[i].as_str()) {
            n = n + 1;
        }
        i = i + 1;
    }
    assert(bd.take(i as int) =~= bd);
    n
}


/// Whether `char::is_alphabetic` accepts `c` (Unicode Alphabetic).
pub uninterp spec fn unicode_alpha(c: char) -> bool;

/// `char::is_alphabetic`; on ASCII it accepts exactly the letters.
#[verifier::external_body]
pub(crate) fn char_is_alphabetic(c: char) -> (r: bool)
    ensures
        r == unicode_alpha(c),
        (c as u32) < 128 ==> r == (('a' <= c && c <= 'z') || ('A' <= c && c <= 'Z')),
{
    c.is_alphabetic()
}

} // verus!
