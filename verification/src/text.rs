//! Character-level text primitives shared by the parsers of this crate.
//!
//! Every function works on the `Seq<char>` view of a string; the spec
//! functions here state the behaviour of the matching `str` methods of std
//! (`trim`, `lines`, `find`, ...) directly over that view.
use vstd::prelude::*;

verus! {

/// Unicode `White_Space` property (the set `char::is_whitespace` accepts).
pub open spec fn is_ws(c: char) -> bool {
    let u = c as u32;
    ||| (0x9 <= u && u <= 0xD)
    ||| u == 0x20
    ||| u == 0x85
    ||| u == 0xA0
    ||| u == 0x1680
    ||| (0x2000 <= u && u <= 0x200A)
    ||| u == 0x2028
    ||| u == 0x2029
    ||| u == 0x202F
    ||| u == 0x205F
    ||| u == 0x3000
}

/// `s` with leading whitespace removed.
pub open spec fn trim_start(s: Seq<char>) -> Seq<char>
    decreases s.len(),
{
    if s.len() > 0 && is_ws(s[0]) {
        trim_start(s.drop_first())
    } else {
        s
    }
}

/// `s` with trailing whitespace removed.
pub open spec fn trim_end(s: Seq<char>) -> Seq<char>
    decreases s.len(),
{
    if s.len() > 0 && is_ws(s.last()) {
        trim_end(s.drop_last())
    } else {
        s
    }
}

/// `str::trim`: both ends.
pub open spec fn trim(s: Seq<char>) -> Seq<char> {
    trim_end(trim_start(s))
}

/// `str::trim_matches(c)` for a single character `c`.
pub open spec fn trim_char(s: Seq<char>, c: char) -> Seq<char> {
    trim_end_char(trim_start_char(s, c), c)
}

pub open spec fn trim_start_char(s: Seq<char>, c: char) -> Seq<char>
    decreases s.len(),
{
    if s.len() > 0 && s[0] == c {
        trim_start_char(s.drop_first(), c)
    } else {
        s
    }
}

pub open spec fn trim_end_char(s: Seq<char>, c: char) -> Seq<char>
    decreases s.len(),
{
    if s.len() > 0 && s.last() == c {
        trim_end_char(s.drop_last(), c)
    } else {
        s
    }
}

/// First index `>= k` at which `c` occurs in `s`, or `-1`.
pub open spec fn first_char_from(s: Seq<char>, c: char, k: int) -> int
    decreases s.len() - k,
{
    if k < 0 || k >= s.len() {
        -1
    } else if s[k] == c {
        k
    } else {
        first_char_from(s, c, k + 1)
    }
}

pub proof fn lemma_first_char_from(s: Seq<char>, c: char, k: int)
    ensures
        first_char_from(s, c, k) == -1 || (k <= first_char_from(s, c, k) < s.len() && s[first_char_from(s, c, k)] == c),
        first_char_from(s, c, k) != -1 ==> forall|j: int| k <= j < first_char_from(s, c, k) ==> s[j] != c,
        (0 <= k && first_char_from(s, c, k) == -1) ==> forall|j: int| k <= j < s.len() ==> s[j] != c,
    decreases s.len() - k,
{
    if k >= 0 && k < s.len() && s[k] != c {
        lemma_first_char_from(s, c, k + 1);
    }
}

/// Membership after a push.
pub proof fn lemma_push_contains<A>(s: Seq<A>, x: A, f: A)
    ensures
        s.push(x).contains(f) <==> (s.contains(f) || f == x),
{
    if s.push(x).contains(f) {
        let m = choose|m: int| 0 <= m < s.push(x).len() && s.push(x)[m] == f;
        if m < s.len() {
            assert(s[m] == f);
        }
    }
    if s.contains(f) {
        let m = choose|m: int| 0 <= m < s.len() && s[m] == f;
        assert(s.push(x)[m] == f);
    }
    if f == x {
        assert(s.push(x)[s.len() as int] == f);
    }
}

/// The deep view of a vector of characters is its view.
pub proof fn lemma_char_vec_deep(v: Vec<char>)
    ensures
        v.deep_view() == v@,
{
    assert(v.deep_view() =~= v@);
}

/// A line of `str::lines` loses one trailing `'\r'` before its `'\n'`.
pub open spec fn strip_cr(t: Seq<char>) -> Seq<char> {
    if t.len() > 0 && t.last() == '\r' {
        t.drop_last()
    } else {
        t
    }
}

/// `str::lines` of `s[k..]`.
pub open spec fn lines_from(s: Seq<char>, k: int) -> Seq<Seq<char>>
    decreases s.len() - k,
{
    if k < 0 || k >= s.len() {
        seq![]
    } else {
        let i = first_char_from(s, '\n', k);
        if i < k {
            seq![s.subrange(k, s.len() as int)]
        } else {
            proof {
                lemma_first_char_from(s, '\n', k);
            }
            seq![strip_cr(s.subrange(k, i))] + lines_from(s, i + 1)
        }
    }
}

/// `str::lines`.
pub open spec fn lines(s: Seq<char>) -> Seq<Seq<char>> {
    lines_from(s, 0)
}

/// ASCII lowercase of one character.
pub open spec fn ascii_lower_char(c: char) -> char {
    if 'A' <= c && c <= 'Z' {
        ((c as u32) + 32) as char
    } else {
        c
    }
}

/// ASCII lowercase of every character (`str::to_ascii_lowercase`).
pub open spec fn ascii_lower(s: Seq<char>) -> Seq<char> {
    s.map_values(|c: char| ascii_lower_char(c))
}

/// ASCII uppercase of one character.
pub open spec fn ascii_upper_char(c: char) -> char {
    if 'a' <= c && c <= 'z' {
        ((c as u32) - 32) as char
    } else {
        c
    }
}

/// ASCII uppercase of every character (`str::to_ascii_uppercase`).
pub open spec fn ascii_upper(s: Seq<char>) -> Seq<char> {
    s.map_values(|c: char| ascii_upper_char(c))
}

pub open spec fn is_ascii_seq(s: Seq<char>) -> bool {
    forall|i: int| 0 <= i < s.len() ==> (s[i] as u32) < 128
}

/// What `str::to_lowercase` returns (Unicode lowercase mapping).
pub uninterp spec fn lowercase(s: Seq<char>) -> Seq<char>;

/// `str::to_lowercase`: the Unicode lowercase of `s`. On ASCII text it is the
/// ASCII lowercase; beyond ASCII the result is only named, not stated.
#[verifier::external_body]
pub(crate) fn to_lowercase(s: &str) -> (r: String)
    ensures
        r@ == lowercase(s@),
        is_ascii_seq(s@) ==> r@ == ascii_lower(s@),
{
    s.to_lowercase()
}

/// The characters of `s`.
pub fn chars_of(s: &str) -> (v: Vec<char>)
    ensures
        v@ == s@,
{
    let mut v: Vec<char> = Vec::new();
    for c in it: s.chars()
        invariant
            v@ == it.seq().take(it.index() as int),
            it.seq() == s@,
    {
        v.push(c);
    }
    v
}

/// A `String` holding exactly the characters `v`.
pub fn string_of(v: &[char]) -> (s: String)
    ensures
        s@ == v@,
{
    let mut s = String::new();
    let mut i: usize = 0;
    while i < v.len()
        invariant
            i <= v@.len(),
            s@ == v@.take(i as int),
        decreases v@.len() - i,
    {
        push_char(&mut s, v[i]);
        assert(v@.take(i + 1) =~= v@.take(i as int).push(v@[i as int]));
        i = i + 1;
    }
    assert(v@.take(i as int) =~= v@);
    s
}

/// Appends one character to a `String`.
#[verifier::external_body]
pub(crate) fn push_char(s: &mut String, c: char)
    ensures
        final(s)@ == old(s)@.push(c),
{
    s.push(c)
}

/// Whether two character sequences are equal.
pub fn seq_eq(a: &[char], b: &[char]) -> (r: bool)
    ensures
        r == (a@ == b@),
{
    if a.len() != b.len() {
        return false;
    }
    let mut i: usize = 0;
    while i < a.len()
        invariant
            a@.len() == b@.len(),
            i <= a@.len(),
            forall|j: int| 0 <= j < i ==> a@[j] == b@[j],
        decreases a@.len() - i,
    {
        if a[i] != b[i] {
            return false;
        }
        i = i + 1;
    }
    assert(a@ =~= b@);
    true
}

/// Whether two strings are equal.
pub fn str_eq(a: &str, b: &str) -> (r: bool)
    ensures
        r == (a@ == b@),
{
    let av = chars_of(a);
    let bv = chars_of(b);
    seq_eq(av.as_slice(), bv.as_slice())
}

/// `char::is_whitespace`.
pub fn is_whitespace(c: char) -> (r: bool)
    ensures
        r == is_ws(c),
{
    let u = c as u32;
    (0x9 <= u && u <= 0xD) || u == 0x20 || u == 0x85 || u == 0xA0 || u == 0x1680 || (0x2000 <= u
        && u <= 0x200A) || u == 0x2028 || u == 0x2029 || u == 0x202F || u == 0x205F || u == 0x3000
}

/// The characters `v[a..b]`.
pub fn subvec(v: &[char], a: usize, b: usize) -> (r: Vec<char>)
    requires
        a <= b <= v@.len(),
    ensures
        r@ == v@.subrange(a as int, b as int),
{
    let mut r: Vec<char> = Vec::new();
    let mut i = a;
    while i < b
        invariant
            a <= i <= b <= v@.len(),
            r@ == v@.subrange(a as int, i as int),
        decreases b - i,
    {
        r.push(v[i]);
        i = i + 1;
        assert(r@ =~= v@.subrange(a as int, i as int));
    }
    r
}

proof fn lemma_trim_start_skip(s: Seq<char>, i: int)
    requires
        0 <= i <= s.len(),
        forall|j: int| 0 <= j < i ==> is_ws(s[j]),
    ensures
        trim_start(s) == trim_start(s.subrange(i, s.len() as int)),
    decreases i,
{
    if i > 0 {
        lemma_trim_start_skip(s.drop_first(), i - 1);
        assert(s.drop_first().subrange(i - 1, s.drop_first().len() as int) =~= s.subrange(
            i,
            s.len() as int,
        ));
    } else {
        assert(s.subrange(0, s.len() as int) =~= s);
    }
}

proof fn lemma_trim_end_take(s: Seq<char>, e: int)
    requires
        0 <= e <= s.len(),
        forall|j: int| e <= j < s.len() ==> is_ws(s[j]),
    ensures
        trim_end(s) == trim_end(s.subrange(0, e)),
    decreases s.len() - e,
{
    if e < s.len() {
        lemma_trim_end_take(s.drop_last(), e);
        assert(s.drop_last().subrange(0, e) =~= s.subrange(0, e));
    } else {
        assert(s.subrange(0, e) =~= s);
    }
}

/// Bounds `(a, b)` with `v[a..b] == trim(v)`.
pub fn trim_bounds(v: &[char]) -> (r: (usize, usize))
    ensures
        r.0 <= r.1 <= v@.len(),
        v@.subrange(r.0 as int, r.1 as int) == trim(v@),
{
    let mut a: usize = 0;
    while a < v.len() && is_whitespace(v[a])
        invariant
            a <= v@.len(),
            forall|j: int| 0 <= j < a ==> is_ws(v@[j]),
        decreases v@.len() - a,
    {
        a = a + 1;
    }
    proof {
        lemma_trim_start_skip(v@, a as int);
    }
    let ghost t = v@.subrange(a as int, v@.len() as int);
    assert(trim_start(t) == t);
    let mut b: usize = v.len();
    while b > a && is_whitespace(v[b - 1])
        invariant
            a <= b <= v@.len(),
            forall|j: int| b <= j < v@.len() ==> is_ws(v@[j]),
        decreases b,
    {
        b = b - 1;
    }
    proof {
        lemma_trim_end_take(t, b - a);
        assert(t.subrange(0, b - a) =~= v@.subrange(a as int, b as int));
        if b > a {
            assert(!is_ws(v@.subrange(a as int, b as int).last()));
        }
    }
    (a, b)
}

/// `str::trim` on characters.
pub fn trimmed(v: &[char]) -> (r: Vec<char>)
    ensures
        r@ == trim(v@),
{
    let (a, b) = trim_bounds(v);
    subvec(v, a, b)
}

/// First index `>= k` of `c` in `v`.
pub fn find_char_from(v: &[char], c: char, k: usize) -> (r: Option<usize>)
    ensures
        match r {
            Some(i) => i as int == first_char_from(v@, c, k as int),
            None => first_char_from(v@, c, k as int) == -1,
        },
{
    let mut i = k;
    while i < v.len()
        invariant
            k <= i,
            first_char_from(v@, c, k as int) == first_char_from(v@, c, i as int),
        decreases v@.len() - i,
    {
        if v[i] == c {
            return Some(i);
        }
        i = i + 1;
    }
    None
}

/// `strip_cr` on characters.
fn strip_cr_vec(v: Vec<char>) -> (r: Vec<char>)
    ensures
        r@ == strip_cr(v@),
{
    let mut v = v;
    if v.len() > 0 && v[v.len() - 1] == '\r' {
        v.pop();
    }
    v
}

/// `str::lines`.
pub fn lines_of(v: &[char]) -> (r: Vec<Vec<char>>)
    ensures
        r.deep_view() == lines(v@),
{
    let mut out: Vec<Vec<char>> = Vec::new();
    let mut pos: usize = 0;
    while pos < v.len()
        invariant
            pos <= v@.len(),
            out.deep_view() + lines_from(v@, pos as int) == lines(v@),
        decreases v@.len() - pos,
    {
        match find_char_from(v, '\n', pos) {
            None => {
                let piece = subvec(v, pos, v.len());
                let ghost before = out.deep_view();
                proof {
                    lemma_char_vec_deep(piece);
                    lemma_first_char_from(v@, '\n', pos as int);
                }
                out.push(piece);
                assert(out.deep_view() =~= before.push(piece@));
                assert(lines_from(v@, v@.len() as int) == Seq::<Seq<char>>::empty());
                assert(out.deep_view() + lines_from(v@, v@.len() as int) =~= before
                    + lines_from(v@, pos as int));
                pos = v.len();
            },
            Some(i) => {
                proof {
                    lemma_first_char_from(v@, '\n', pos as int);
                }
                let piece = strip_cr_vec(subvec(v, pos, i));
                let ghost before = out.deep_view();
                proof {
                    lemma_char_vec_deep(piece);
                }
                out.push(piece);
                assert(out.deep_view() =~= before.push(piece@));
                assert(out.deep_view() + lines_from(v@, i + 1) =~= before + lines_from(
                    v@,
                    pos as int,
                ));
                pos = i + 1;
            },
        }
    }
    assert(out.deep_view() + lines_from(v@, pos as int) =~= out.deep_view());
    out
}


/// `str::trim_matches(c)` on characters.
pub fn trim_char_vec(v: &[char], c: char) -> (r: Vec<char>)
    ensures
        r@ == trim_char(v@, c),
{
    let mut a: usize = 0;
    assert(v@.subrange(0, v@.len() as int) =~= v@);
    while a < v.len() && v[a] == c
        invariant
            a <= v@.len(),
            trim_start_char(v@, c) == trim_start_char(v@.subrange(a as int, v@.len() as int), c),
        decreases v@.len() - a,
    {
        assert(v@.subrange(a as int, v@.len() as int).drop_first() =~= v@.subrange(a + 1, v@.len() as int));
        a = a + 1;
    }
    let ghost t = v@.subrange(a as int, v@.len() as int);
    assert(trim_start_char(t, c) == t);
    let mut b: usize = v.len();
    while b > a && v[b - 1] == c
        invariant
            a <= b <= v@.len(),
            trim_end_char(t, c) == trim_end_char(v@.subrange(a as int, b as int), c),
        decreases b,
    {
        assert(v@.subrange(a as int, b as int).drop_last() =~= v@.subrange(a as int, b - 1));
        b = b - 1;
    }
    assert(v@.subrange(a as int, v@.len() as int) == t);
    subvec(v, a, b)
}

/// `char::is_ascii_alphanumeric`.
pub open spec fn is_ascii_alnum(c: char) -> bool {
    ('0' <= c && c <= '9') || ('a' <= c && c <= 'z') || ('A' <= c && c <= 'Z')
}

pub fn ascii_alnum(c: char) -> (r: bool)
    ensures
        r == is_ascii_alnum(c),
{
    ('0' <= c && c <= '9') || ('a' <= c && c <= 'z') || ('A' <= c && c <= 'Z')
}

/// What `char::to_lowercase` yields for `c` (one or more characters).
pub uninterp spec fn char_lowercase(c: char) -> Seq<char>;

/// `char::to_lowercase`, collected: the Unicode lowercase mapping of `c`;
/// an ASCII character maps to its ASCII lowercase.
#[verifier::external_body]
pub(crate) fn char_to_lowercase(c: char) -> (r: Vec<char>)
    ensures
        r@ == char_lowercase(c),
        (c as u32) < 128 ==> r@ == seq![ascii_lower_char(c)],
{
    c.to_lowercase().collect()
}

/// Every character of `s` through `char::to_lowercase`, concatenated.
pub open spec fn lower_each(s: Seq<char>) -> Seq<char>
    decreases s.len(),
{
    if s.len() == 0 {
        Seq::empty()
    } else {
        lower_each(s.drop_last()) + char_lowercase(s.last())
    }
}

pub fn lower_each_of(s: &[char]) -> (r: Vec<char>)
    ensures
        r@ == lower_each(s@),
{
    let mut out: Vec<char> = Vec::new();
    let mut i: usize = 0;
    while i < s.len()
        invariant
            i <= s@.len(),
            out@ == lower_each(s@.take(i as int)),
        decreases s@.len() - i,
    {
        let mut l = char_to_lowercase(s[i]);
        let ghost before = out@;
        out.append(&mut l);
        assert(s@.take(i + 1).drop_last() =~= s@.take(i as int));
        assert(s@.take(i + 1).last() == s@[i as int]);
        assert(out@ =~= before + char_lowercase(s@[i as int]));
        i = i + 1;
    }
    assert(s@.take(i as int) =~= s@);
    out
}


pub open spec fn is_quote(c: char) -> bool {
    c == '"' || c == '\''
}

pub open spec fn trim_quotes_start(s: Seq<char>) -> Seq<char>
    decreases s.len(),
{
    if s.len() > 0 && is_quote(s[0]) {
        trim_quotes_start(s.drop_first())
    } else {
        s
    }
}

pub open spec fn trim_quotes_end(s: Seq<char>) -> Seq<char>
    decreases s.len(),
{
    if s.len() > 0 && is_quote(s.last()) {
        trim_quotes_end(s.drop_last())
    } else {
        s
    }
}

/// `trim_matches(|c| c == '"' || c == '\'')`: any mix of quote characters
/// removed from both ends.
pub open spec fn trim_quotes(s: Seq<char>) -> Seq<char> {
    trim_quotes_end(trim_quotes_start(s))
}

pub fn trim_quotes_vec(v: &[char]) -> (r: Vec<char>)
    ensures
        r@ == trim_quotes(v@),
{
    let mut a: usize = 0;
    assert(v@.subrange(0, v@.len() as int) =~= v@);
    while a < v.len() && (v[a] == '"' || v[a] == '\'')
        invariant
            a <= v@.len(),
            trim_quotes_start(v@) == trim_quotes_start(v@.subrange(a as int, v@.len() as int)),
        decreases v@.len() - a,
    {
        assert(v@.subrange(a as int, v@.len() as int).drop_first() =~= v@.subrange(a + 1, v@.len() as int));
        a = a + 1;
    }
    let ghost t = v@.subrange(a as int, v@.len() as int);
    assert(trim_quotes_start(t) == t);
    let mut b: usize = v.len();
    while b > a && (v[b - 1] == '"' || v[b - 1] == '\'')
        invariant
            a <= b <= v@.len(),
            trim_quotes_end(t) == trim_quotes_end(v@.subrange(a as int, b as int)),
        decreases b,
    {
        assert(v@.subrange(a as int, b as int).drop_last() =~= v@.subrange(a as int, b - 1));
        b = b - 1;
    }
    assert(v@.subrange(a as int, v@.len() as int) == t);
    subvec(v, a, b)
}

/// How many whitespace-separated words `s` has (`split_whitespace().count()`).
pub open spec fn ws_word_count(s: Seq<char>) -> nat
    decreases s.len(),
{
    if s.len() == 0 {
        0
    } else {
        ws_word_count(s.drop_last()) + if !is_ws(s.last()) && (s.len() == 1 || is_ws(s[s.len() - 2])) {
            1nat
        } else {
            0nat
        }
    }
}

pub fn ws_word_count_of(v: &[char]) -> (r: usize)
    ensures
        r == ws_word_count(v@),
{
    let mut n: usize = 0;
    let mut i: usize = 0;
    while i < v.len()
        invariant
            i <= v@.len(),
            n == ws_word_count(v@.take(i as int)),
            n <= i,
        decreases v@.len() - i,
    {
        assert(v@.take(i + 1).drop_last() =~= v@.take(i as int));
        if !is_whitespace(v[i]) && (i == 0 || is_whitespace(v[i - 1])) {
            n = n + 1;
        }
        i = i + 1;
    }
    assert(v@.take(i as int) =~= v@);
    n
}


pub open spec fn digit_char(d: nat) -> char {
    if d == 0 { '0' } else if d == 1 { '1' } else if d == 2 { '2' } else if d == 3 { '3' } else if d == 4 { '4' }
    else if d == 5 { '5' } else if d == 6 { '6' } else if d == 7 { '7' } else if d == 8 { '8' } else { '9' }
}

/// Decimal digits of `n` (no sign, no leading zeros).
pub open spec fn decimal(n: nat) -> Seq<char>
    decreases n,
{
    if n < 10 {
        seq![digit_char(n)]
    } else {
        decimal(n / 10).push(digit_char(n % 10))
    }
}

/// Decimal form of a signed integer, as `{}` formats it.
pub open spec fn decimal_int(n: int) -> Seq<char> {
    if n < 0 {
        seq!['-'] + decimal((-n) as nat)
    } else {
        decimal(n as nat)
    }
}

fn digit_of(d: u64) -> (c: char)
    requires
        d < 10,
    ensures
        c == digit_char(d as nat),
{
    if d == 0 { '0' } else if d == 1 { '1' } else if d == 2 { '2' } else if d == 3 { '3' } else if d == 4 { '4' }
    else if d == 5 { '5' } else if d == 6 { '6' } else if d == 7 { '7' } else if d == 8 { '8' } else { '9' }
}

pub fn u64_decimal(n: u64) -> (r: Vec<char>)
    ensures
        r@ == decimal(n as nat),
    decreases n,
{
    if n < 10 {
        let mut v: Vec<char> = Vec::new();
        v.push(digit_of(n));
        v
    } else {
        let mut v = u64_decimal(n / 10);
        v.push(digit_of(n % 10));
        v
    }
}

/// `format!("{}", n)` for a signed integer.
pub fn i64_decimal(n: i64) -> (r: Vec<char>)
    ensures
        r@ == decimal_int(n as int),
{
    if n < 0 {
        let m: u64 = ((-(n + 1)) as u64) + 1;
        let d = u64_decimal(m);
        let mut v: Vec<char> = Vec::new();
        v.push('-');
        let ghost before = v@;
        let mut d2 = d;
        v.append(&mut d2);
        assert(v@ =~= seq!['-'] + decimal((-(n as int)) as nat));
        v
    } else {
        u64_decimal(n as u64)
    }
}

/// `format!("{}", n)` for an unsigned size.
pub fn usize_decimal(n: usize) -> (r: Vec<char>)
    ensures
        r@ == decimal(n as nat),
{
    u64_decimal(n as u64)
}


/// Whether `pat` occurs in `s` at index `i`.
pub open spec fn occurs_at(s: Seq<char>, pat: Seq<char>, i: int) -> bool {
    0 <= i && i + pat.len() <= s.len() && s.subrange(i, i + pat.len()) == pat
}

/// First index `>= k` at which `pat` occurs in `s`, or `-1` (`str::find`).
pub open spec fn find_from(s: Seq<char>, pat: Seq<char>, k: int) -> int
    decreases s.len() + 1 - k,
{
    if k < 0 || k + pat.len() > s.len() {
        -1
    } else if occurs_at(s, pat, k) {
        k
    } else {
        find_from(s, pat, k + 1)
    }
}

pub proof fn lemma_find_from(s: Seq<char>, pat: Seq<char>, k: int)
    requires
        0 <= k,
    ensures
        find_from(s, pat, k) == -1 || (k <= find_from(s, pat, k) && occurs_at(s, pat, find_from(s, pat, k))),
        forall|j: int| k <= j && (find_from(s, pat, k) == -1 || j < find_from(s, pat, k)) ==> !occurs_at(s, pat, j),
    decreases s.len() + 1 - k,
{
    if k + pat.len() <= s.len() && !occurs_at(s, pat, k) {
        lemma_find_from(s, pat, k + 1);
    }
}

fn occurs_at_exec(v: &[char], pat: &[char], i: usize) -> (r: bool)
    ensures
        r == occurs_at(v@, pat@, i as int),
{
    if pat.len() > v.len() || i > v.len() - pat.len() {
        return false;
    }
    let n = v.len();
    let mut j: usize = 0;
    while j < pat.len()
        invariant
            n == v@.len(),
            i + pat@.len() <= v@.len(),
            j <= pat@.len(),
            forall|t: int| 0 <= t < j ==> v@[i + t] == pat@[t],
        decreases pat@.len() - j,
    {
        if v[i + j] != pat[j] {
            assert(v@.subrange(i as int, i + pat@.len())[j as int] != pat@[j as int]);
            return false;
        }
        j = j + 1;
    }
    assert(v@.subrange(i as int, i + pat@.len()) =~= pat@);
    true
}

/// First index `>= k` of `pat` in `v`.
pub fn find_seq_from(v: &[char], pat: &[char], k: usize) -> (r: Option<usize>)
    ensures
        match r {
            Some(i) => i as int == find_from(v@, pat@, k as int),
            None => find_from(v@, pat@, k as int) == -1,
        },
{
    if pat.len() == 0 {
        if k <= v.len() {
            assert(occurs_at(v@, pat@, k as int)) by {
                assert(v@.subrange(k as int, k as int) =~= pat@);
            }
            return Some(k);
        }
        return None;
    }
    if pat.len() > v.len() {
        return None;
    }
    let mut i = k;
    while i <= v.len() - pat.len()
        invariant
            k <= i,
            1 <= pat@.len() <= v@.len(),
            find_from(v@, pat@, k as int) == find_from(v@, pat@, i as int),
        decreases v@.len() - i,
    {
        if occurs_at_exec(v, pat, i) {
            return Some(i);
        }
        i = i + 1;
    }
    None
}


/// `str::replace(pat, rep)`: every occurrence of `pat`, scanning left to
/// right without overlaps, replaced by `rep`.
pub open spec fn replace_all(s: Seq<char>, pat: Seq<char>, rep: Seq<char>) -> Seq<char>
    decreases s.len(),
{
    let i = find_from(s, pat, 0);
    if pat.len() == 0 || i < 0 {
        s
    } else {
        proof {
            lemma_find_from(s, pat, 0);
        }
        s.take(i) + rep + replace_all(s.subrange(i + pat.len(), s.len() as int), pat, rep)
    }
}

pub fn replace_all_vec(v: &[char], pat: &[char], rep: &[char]) -> (r: Vec<char>)
    ensures
        r@ == replace_all(v@, pat@, rep@),
{
    let mut out: Vec<char> = Vec::new();
    if pat.len() == 0 {
        let mut i: usize = 0;
        while i < v.len()
            invariant
                i <= v@.len(),
                out@ == v@.take(i as int),
            decreases v@.len() - i,
        {
            out.push(v[i]);
            assert(v@.take(i + 1) =~= v@.take(i as int).push(v@[i as int]));
            i = i + 1;
        }
        assert(v@.take(i as int) =~= v@);
        return out;
    }
    let mut pos: usize = 0;
    assert(v@.subrange(0, v@.len() as int) =~= v@);
    loop
        invariant_except_break
            pos <= v@.len(),
            pat@.len() > 0,
            out@ + replace_all(v@.subrange(pos as int, v@.len() as int), pat@, rep@) == replace_all(v@, pat@, rep@),
        ensures
            out@ == replace_all(v@, pat@, rep@),
        decreases v@.len() - pos,
    {
        let ghost rest = v@.subrange(pos as int, v@.len() as int);
        let tail = subvec(v, pos, v.len());
        match find_seq_from(tail.as_slice(), pat, 0) {
            None => {
                let ghost before = out@;
                let mut t = tail;
                out.append(&mut t);
                assert(replace_all(rest, pat@, rep@) == rest);
                assert(out@ =~= before + rest);
                break;
            },
            Some(i) => {
                proof { lemma_find_from(rest, pat@, 0); }
                let ghost before = out@;
                let mut head = subvec(tail.as_slice(), 0, i);
                out.append(&mut head);
                let mut j: usize = 0;
                while j < rep.len()
                    invariant
                        j <= rep@.len(),
                        out@ == before + rest.take(i as int) + rep@.take(j as int),
                    decreases rep@.len() - j,
                {
                    out.push(rep[j]);
                    assert(rep@.take(j + 1) =~= rep@.take(j as int).push(rep@[j as int]));
                    j = j + 1;
                }
                assert(rep@.take(j as int) =~= rep@);
                assert(rest.subrange(i + pat@.len(), rest.len() as int) =~= v@.subrange(pos + i + pat@.len(), v@.len() as int));
                assert(before + replace_all(rest, pat@, rep@) =~= out@ + replace_all(v@.subrange(pos + i + pat@.len(), v@.len() as int), pat@, rep@));
                pos = pos + i + pat.len();
            },
        }
    }
    out
}

/// UTF-8 bytes of one character.
pub open spec fn utf8_char(c: char) -> Seq<u8> {
    let u = c as u32;
    if u < 0x80 {
        seq![u as u8]
    } else if u < 0x800 {
        seq![(0xC0 + u / 64) as u8, (0x80 + u % 64) as u8]
    } else if u < 0x10000 {
        seq![(0xE0 + u / 4096) as u8, (0x80 + (u / 64) % 64) as u8, (0x80 + u % 64) as u8]
    } else {
        seq![
            (0xF0 + u / 262144) as u8,
            (0x80 + (u / 4096) % 64) as u8,
            (0x80 + (u / 64) % 64) as u8,
            (0x80 + u % 64) as u8,
        ]
    }
}

/// UTF-8 encoding of a string (`str::as_bytes`).
pub open spec fn utf8_encode(s: Seq<char>) -> Seq<u8>
    decreases s.len(),
{
    if s.len() == 0 {
        Seq::empty()
    } else {
        utf8_encode(s.drop_last()) + utf8_char(s.last())
    }
}

fn utf8_char_exec(c: char, out: &mut Vec<u8>)
    ensures
        final(out)@ == old(out)@ + utf8_char(c),
{
    let u = c as u32;
    assert(u <= 0x10FFFF);
    if u < 0x80 {
        out.push(u as u8);
    } else if u < 0x800 {
        out.push((0xC0 + u / 64) as u8);
        out.push((0x80 + u % 64) as u8);
    } else if u < 0x10000 {
        out.push((0xE0 + u / 4096) as u8);
        out.push((0x80 + (u / 64) % 64) as u8);
        out.push((0x80 + u % 64) as u8);
    } else {
        out.push((0xF0 + u / 262144) as u8);
        out.push((0x80 + (u / 4096) % 64) as u8);
        out.push((0x80 + (u / 64) % 64) as u8);
        out.push((0x80 + u % 64) as u8);
    }
    assert(final(out)@ =~= old(out)@ + utf8_char(c));
}

/// The UTF-8 bytes of `s`.
pub fn utf8_bytes(s: &str) -> (r: Vec<u8>)
    ensures
        r@ == utf8_encode(s@),
{
    let v = chars_of(s);
    let mut out: Vec<u8> = Vec::new();
    let mut i: usize = 0;
    while i < v.len()
        invariant
            v@ == s@,
            i <= v@.len(),
            out@ == utf8_encode(v@.take(i as int)),
        decreases v@.len() - i,
    {
        utf8_char_exec(v[i], &mut out);
        assert(v@.take(i + 1).drop_last() =~= v@.take(i as int));
        i = i + 1;
    }
    assert(v@.take(i as int) =~= v@);
    out
}

/// What `String::from_utf8_lossy` returns for `b`.
pub uninterp spec fn utf8_lossy(b: Seq<u8>) -> Seq<char>;

/// `String::from_utf8_lossy(b).into_owned()`: the text `b` encodes, with
/// each invalid sequence replaced by U+FFFD. Valid UTF-8 comes back
/// unchanged.
#[verifier::external_body]
pub(crate) fn from_utf8_lossy(b: &[u8]) -> (r: String)
    ensures
        r@ == utf8_lossy(b@),
        forall|s: Seq<char>| utf8_encode(s) == b@ ==> r@ == s,
{
    String::from_utf8_lossy(b).into_owned()
}

} // verus!
