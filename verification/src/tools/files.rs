//! `Read` and `Glob`: windowed file reads and glob searches. The disk and
//! the directory walk stay outside; this module decides what is read, what
//! matches and what the model is told.
use crate::text::{
    chars_of, decimal, find_char_from, first_char_from, from_utf8_lossy, lines, lines_of, string_of, subvec, u64_decimal,
    usize_decimal, utf8_lossy,
};
use vstd::string::StringExecFns;
use vstd::prelude::*;

verus! {

pub const READ_DESCRIPTION: &'static str = "Read a file from disk and return its contents. Use when the user asks about a specific file's content, configuration, or code. If the path is uncertain, call Glob first to locate it. Returns at most 200KB.";

pub const READ_PARAMETERS: &'static str = "{\"type\":\"object\",\"properties\":{\"file_path\":{\"type\":\"string\",\"description\":\"Absolute or relative path to the file. Tilde (~) expands to the user home directory.\"},\"offset\":{\"type\":\"integer\",\"description\":\"Optional 1-indexed line number to start reading from.\"},\"limit\":{\"type\":\"integer\",\"description\":\"Optional maximum number of lines to return.\"}},\"required\":[\"file_path\"],\"additionalProperties\":false}";

pub const GLOB_DESCRIPTION: &'static str = "Find files by glob pattern, recursively from a base directory. Use BEFORE Read when the user mentions a filename but the path is uncertain. Patterns: `**/Cargo.toml`, `src/**/*.rs`, `*.md`. Bare filenames like `Cargo.toml` are auto-expanded to `**/Cargo.toml`. Respects .gitignore. Returns up to 50 matches.";

pub const GLOB_PARAMETERS: &'static str = "{\"type\":\"object\",\"properties\":{\"pattern\":{\"type\":\"string\",\"description\":\"Glob pattern (e.g. `**/*.rs`, `Cargo.toml`, `docs/*.md`).\"},\"path\":{\"type\":\"string\",\"description\":\"Optional base directory to search. Defaults to the current working directory. Supports `~`.\"}},\"required\":[\"pattern\"],\"additionalProperties\":false}";

/// Bytes of a file read at most.
pub const READ_MAX_BYTES: usize = 204800;
/// Matches listed at most.
pub const GLOB_MAX_HITS: usize = 50;
/// Directory depth searched at most.
pub const GLOB_MAX_DEPTH: usize = 10;

/// Lines joined with `\n` between them.
pub open spec fn join_lines(ls: Seq<Seq<char>>) -> Seq<char>
    decreases ls.len(),
{
    if ls.len() == 0 {
        Seq::empty()
    } else if ls.len() == 1 {
        ls[0]
    } else {
        join_lines(ls.drop_last()) + "\n"@ + ls.last()
    }
}

/// The lines `[start, start + take)` of a list (as many as exist).
pub open spec fn line_window(ls: Seq<Seq<char>>, start: nat, take: nat) -> Seq<Seq<char>> {
    let a = if start > ls.len() { ls.len() as int } else { start as int };
    let b = if a + take > ls.len() { ls.len() as int } else { a + take };
    ls.subrange(a, b)
}

/// The part of a file's text a read returns: all of it without `offset` and
/// `limit`; else the lines from `offset` (1-based, default 1) on, at most
/// `limit` of them, joined with `\n`.
pub open spec fn read_window_text(text: Seq<char>, offset: Option<usize>, limit: Option<usize>) -> Seq<char> {
    if offset is None && limit is None {
        text
    } else {
        let o = match offset {
            Some(n) => n as int,
            None => 1,
        };
        let start = if o >= 1 { (o - 1) as nat } else { 0nat };
        let take = match limit {
            Some(n) => n as nat,
            None => usize::MAX as nat,
        };
        join_lines(line_window(lines(text), start, take))
    }
}

/// The windowed part of a file's text (see `read_window_text`).
pub fn read_window(text: &str, offset: Option<usize>, limit: Option<usize>) -> (r: String)
    ensures
        r@ == read_window_text(text@, offset, limit),
{
    if offset.is_none() && limit.is_none() {
        return String::from_str(text);
    }
    let o: usize = match offset {
        Some(n) => n,
        None => 1,
    };
    let start: usize = if o >= 1 { o - 1 } else { 0 };
    let take: usize = match limit {
        Some(n) => n,
        None => usize::MAX,
    };
    let v = chars_of(text);
    let ls = lines_of(v.as_slice());
    let ghost lv = lines(text@);
    let a: usize = if start > ls.len() { ls.len() } else { start };
    let b: usize = if take > ls.len() - a { ls.len() } else { a + take };
    let ghost win = lv.subrange(a as int, b as int);
    assert(win == line_window(lv, start as nat, take as nat));
    let mut out: Vec<char> = Vec::new();
    let mut i: usize = a;
    while i < b
        invariant
            ls.deep_view() == lv,
            a <= i <= b <= ls@.len(),
            win == lv.subrange(a as int, b as int),
            out@ == join_lines(win.take(i - a)),
        decreases b - i,
    {
        let ghost before = out@;
        assert(win.take(i - a + 1).drop_last() =~= win.take(i - a));
        assert(win.take(i - a + 1).last() == ls@[i as int]@);
        if i > a {
            out.push('\n');
        }
        let mut piece = ls[i].clone();
        assert(piece@ == ls@[i as int]@);
        assert(win[i - a] == lv[i as int]);
        assert(lv[i as int] == ls@[i as int]@);
        out.append(&mut piece);
        proof {
            reveal_strlit("\n");
            let t1 = win.take(i - a + 1);
            if i == a {
                assert(before =~= Seq::<char>::empty());
                assert(join_lines(t1) == t1[0]);
            } else {
                assert(join_lines(t1) == join_lines(t1.drop_last()) + "\n"@ + t1.last());
            }
        }
        assert(out@ =~= join_lines(win.take(i - a + 1)));
        i = i + 1;
    }
    assert(win.take(b - a) =~= win);
    string_of(out.as_slice())
}

/// What a read reports: a header with the path and the file's size, the
/// windowed text of its first `READ_MAX_BYTES` bytes, and a note when the
/// file was longer.
pub open spec fn read_report_text(
    path: Seq<char>,
    file_len: u64,
    bytes: Seq<u8>,
    offset: Option<usize>,
    limit: Option<usize>,
) -> Seq<char> {
    let truncated = bytes.len() > READ_MAX_BYTES;
    let slice = if truncated { bytes.take(READ_MAX_BYTES as int) } else { bytes };
    "# "@ + path + " ("@ + decimal(file_len as nat) + " bytes)\n\n"@ + read_window_text(
        utf8_lossy(slice),
        offset,
        limit,
    ) + if truncated {
        "\n\n[truncated: file exceeds 200KB read limit]"@
    } else {
        Seq::empty()
    }
}

pub fn read_report(path: &str, file_len: u64, bytes: &[u8], offset: Option<usize>, limit: Option<usize>) -> (r: String)
    ensures
        r@ == read_report_text(path@, file_len, bytes@, offset, limit),
{
    let truncated = bytes.len() > READ_MAX_BYTES;
    let text = if truncated {
        let mut head: Vec<u8> = Vec::new();
        let mut i: usize = 0;
        while i < READ_MAX_BYTES
            invariant
                i <= READ_MAX_BYTES < bytes@.len(),
                head@ == bytes@.take(i as int),
            decreases READ_MAX_BYTES - i,
        {
            head.push(bytes[i]);
            assert(bytes@.take(i + 1) =~= bytes@.take(i as int).push(bytes@[i as int]));
            i = i + 1;
        }
        from_utf8_lossy(head.as_slice())
    } else {
        from_utf8_lossy(bytes)
    };
    let body = read_window(text.as_str(), offset, limit);
    let mut out = String::from_str("# ");
    out.append(path);
    out.append(" (");
    out.append(string_of(u64_decimal(file_len).as_slice()).as_str());
    out.append(" bytes)\n\n");
    out.append(body.as_str());
    if truncated {
        out.append("\n\n[truncated: file exceeds 200KB read limit]");
    }
    out
}

/// A pattern with a wildcard (`*`, `?` or `[`) is used as written; a bare
/// name is searched at any depth (`**/name`).
pub open spec fn canonical_glob(p: Seq<char>) -> Seq<char> {
    if p.contains('*') || p.contains('?') || p.contains('[') {
        p
    } else {
        "**/"@ + p
    }
}

fn contains_char(v: &[char], c: char) -> (r: bool)
    ensures
        r == v@.contains(c),
{
    let r = find_char_from(v, c, 0);
    proof {
        crate::text::lemma_first_char_from(v@, c, 0);
        if v@.contains(c) {
            let k = choose|k: int| 0 <= k < v@.len() && v@[k] == c;
            assert(v@[k] == c);
        }
    }
    r.is_some()
}

pub fn canonical_pattern(pattern: &str) -> (r: String)
    ensures
        r@ == canonical_glob(pattern@),
{
    let v = chars_of(pattern);
    if contains_char(v.as_slice(), '*') || contains_char(v.as_slice(), '?') || contains_char(v.as_slice(), '[') {
        String::from_str(pattern)
    } else {
        let mut s = String::from_str("**/");
        s.append(pattern);
        s
    }
}

#[verifier::external_type_specification]
#[verifier::external_body]
pub struct ExGlobSet(globset::GlobSet);

#[verifier::external_type_specification]
#[verifier::external_body]
pub struct ExGlobError(globset::Error);

/// Whether globset accepts a pattern: `Glob::new` parses it with default
/// options and `GlobSet::new` compiles that one glob within globset's
/// regex size limit.
pub uninterp spec fn glob_set_builds(pattern: Seq<char>) -> bool;

/// The patterns of the globs a `GlobSet` was built from, in order.
pub uninterp spec fn glob_set_patterns(set: globset::GlobSet) -> Seq<Seq<char>>;

/// Whether the glob `pattern`, as globset matches it, matches `path`.
pub uninterp spec fn glob_match(pattern: Seq<char>, path: Seq<char>) -> bool;

/// `globset::Glob::new(pattern)` followed by `globset::GlobSet::new` on that
/// one glob: the set, or the error of the step that refused (a pattern that
/// does not parse, or a regex over globset's size limit).
#[verifier::external_body]
fn glob_set_new(pattern: &str) -> (r: Result<globset::GlobSet, globset::Error>)
    ensures
        r is Ok <==> glob_set_builds(pattern@),
        r matches Ok(set) ==> glob_set_patterns(set) == seq![pattern@],
{
    match globset::Glob::new(pattern) {
        Ok(g) => globset::GlobSet::new([g]),
        Err(e) => Err(e),
    }
}

/// Whether any of the glob patterns matches `path`.
pub open spec fn set_has_match(patterns: Seq<Seq<char>>, path: Seq<char>) -> bool {
    exists|i: int| 0 <= i < patterns.len() && glob_match(#[trigger] patterns[i], path)
}

/// `globset::GlobSet::is_match`: whether any glob of the set matches the
/// path given as text.
#[verifier::external_body]
fn glob_set_is_match(set: &globset::GlobSet, path: &str) -> (r: bool)
    ensures
        r == set_has_match(glob_set_patterns(*set), path@),
        glob_set_patterns(*set).len() == 1 ==> r == glob_match(glob_set_patterns(*set)[0], path@),
{
    set.is_match(path)
}

/// `Display` of a glob error.
#[verifier::external_body]
fn glob_error_text(e: &globset::Error) -> String {
    format!("{}", e)
}

/// Why a glob search was refused.
#[derive(Debug, Clone, PartialEq, Eq)]
pub enum GlobError {
    /// The canonical pattern is not a glob; the parser's message.
    InvalidPattern(String),
}

/// A glob search pattern that globset accepts.
pub struct GlobSearch {
    canonical: String,
    set: globset::GlobSet,
}

impl GlobSearch {
    #[verifier::type_invariant]
    spec fn compiled(self) -> bool {
        glob_set_patterns(self.set) == seq![self.canonical@]
    }

    /// The pattern searched for.
    pub closed spec fn pattern(&self) -> Seq<char> {
        self.canonical@
    }

    pub fn canonical(&self) -> (r: &str)
        ensures
            r@ == self.pattern(),
    {
        self.canonical.as_str()
    }
}

/// The search for the canonical form of a pattern, when globset accepts it.
pub fn compile_search(pattern: &str) -> (r: Result<GlobSearch, GlobError>)
    ensures
        match r {
            Ok(g) => g.pattern() == canonical_glob(pattern@) && glob_set_builds(canonical_glob(pattern@)),
            Err(_) => !glob_set_builds(canonical_glob(pattern@)),
        },
{
    let canonical = canonical_pattern(pattern);
    match glob_set_new(canonical.as_str()) {
        Ok(set) => Ok(GlobSearch { canonical, set }),
        Err(e) => Err(GlobError::InvalidPattern(glob_error_text(&e))),
    }
}

/// A file met during the walk: its path relative to the base and in full.
#[derive(Debug, Clone)]
pub struct WalkEntry {
    pub relative: String,
    pub full: String,
}

/// Whether a walked file matches: by its relative path or its full path.
pub open spec fn entry_matches(pattern: Seq<char>, e: WalkEntry) -> bool {
    glob_match(pattern, e.relative@) || glob_match(pattern, e.full@)
}

/// The full paths of the walked files that match, in walk order.
pub open spec fn glob_hits_all(pattern: Seq<char>, es: Seq<WalkEntry>) -> Seq<Seq<char>>
    decreases es.len(),
{
    if es.len() == 0 {
        Seq::empty()
    } else {
        let prev = glob_hits_all(pattern, es.drop_last());
        if entry_matches(pattern, es.last()) {
            prev.push(es.last().full@)
        } else {
            prev
        }
    }
}

/// The hits a glob search keeps: the first `2 * GLOB_MAX_HITS` matches.
pub open spec fn glob_hits(pattern: Seq<char>, es: Seq<WalkEntry>) -> Seq<Seq<char>> {
    let all = glob_hits_all(pattern, es);
    if all.len() > 2 * GLOB_MAX_HITS {
        all.take(2 * GLOB_MAX_HITS as int)
    } else {
        all
    }
}

proof fn lemma_glob_prefix(pattern: Seq<char>, es: Seq<WalkEntry>, j: int)
    requires
        0 <= j <= es.len(),
    ensures
        glob_hits_all(pattern, es.take(j)).len() <= glob_hits_all(pattern, es).len(),
        glob_hits_all(pattern, es).take(glob_hits_all(pattern, es.take(j)).len() as int) == glob_hits_all(pattern, es.take(j)),
    decreases es.len(),
{
    if j == es.len() {
        assert(es.take(j) =~= es);
        assert(glob_hits_all(pattern, es).take(glob_hits_all(pattern, es).len() as int) =~= glob_hits_all(pattern, es));
    } else {
        let d = es.drop_last();
        assert(es.take(j) =~= d.take(j));
        lemma_glob_prefix(pattern, d, j);
        let a = glob_hits_all(pattern, d);
        let b = glob_hits_all(pattern, d.take(j));
        assert(glob_hits_all(pattern, es).take(b.len() as int) =~= a.take(b.len() as int));
    }
}

impl GlobSearch {
    /// The walked files that match (see `glob_hits`).
    pub fn select_hits(&self, entries: &[WalkEntry]) -> (r: Vec<String>)
        ensures
            r.deep_view() == glob_hits(self.pattern(), entries@),
    {
        proof {
            use_type_invariant(self);
        }
        let ghost p = self.pattern();
        let mut hits: Vec<String> = Vec::new();
        let mut i: usize = 0;
        assert(entries@.take(0) =~= Seq::<WalkEntry>::empty());
        while i < entries.len()
            invariant
                i <= entries@.len(),
                p == self.pattern(),
                glob_set_patterns(self.set) == seq![p],
                hits.deep_view() == glob_hits_all(p, entries@.take(i as int)),
                hits@.len() < 2 * GLOB_MAX_HITS,
            decreases entries@.len() - i,
        {
            let e = &entries[i];
            assert(entries@.take(i + 1).drop_last() =~= entries@.take(i as int));
            assert(entries@.take(i + 1).last() == entries@[i as int]);
            let hit_rel = glob_set_is_match(&self.set, e.relative.as_str());
            let hit_full = glob_set_is_match(&self.set, e.full.as_str());
            if hit_rel || hit_full {
                let ghost before = hits.deep_view();
                hits.push(e.full.clone());
                assert(hits.deep_view() =~= before.push(e.full@));
                if hits.len() >= 2 * GLOB_MAX_HITS {
                    proof {
                        lemma_glob_prefix(p, entries@, i + 1);
                        let all = glob_hits_all(p, entries@);
                        assert(all.take(2 * GLOB_MAX_HITS as int) =~= hits.deep_view());
                    }
                    return hits;
                }
            }
            i = i + 1;
        }
        assert(entries@.take(i as int) =~= entries@);
        hits
    }
}

pub open spec fn hit_lines(hs: Seq<Seq<char>>) -> Seq<char>
    decreases hs.len(),
{
    if hs.len() == 0 {
        Seq::empty()
    } else {
        hit_lines(hs.drop_last()) + "- "@ + hs.last() + "\n"@
    }
}

/// What a glob search reports for its hits under `base`.
pub open spec fn glob_report_text(canonical: Seq<char>, base: Seq<char>, hits: Seq<Seq<char>>) -> Seq<char> {
    if hits.len() == 0 {
        "no files matching `"@ + canonical + "` under "@ + base + " (.gitignore respected, depth ≤ "@ + decimal(
            GLOB_MAX_DEPTH as nat,
        ) + ")"@
    } else {
        let shown = if hits.len() < GLOB_MAX_HITS { hits.len() } else { GLOB_MAX_HITS as nat };
        decimal(hits.len()) + " match(es) for `"@ + canonical + "` (showing "@ + decimal(shown) + "):\n"@ + hit_lines(
            hits.take(shown as int),
        )
    }
}

pub fn glob_report(canonical: &str, base: &str, hits: &[String]) -> (r: String)
    ensures
        r@ == glob_report_text(canonical@, base@, hits.deep_view()),
{
    if hits.len() == 0 {
        let mut s = String::from_str("no files matching `");
        s.append(canonical);
        s.append("` under ");
        s.append(base);
        s.append(" (.gitignore respected, depth ≤ ");
        s.append(string_of(usize_decimal(GLOB_MAX_DEPTH).as_slice()).as_str());
        s.append(")");
        return s;
    }
    let ghost hv = hits.deep_view();
    let shown: usize = if hits.len() < GLOB_MAX_HITS { hits.len() } else { GLOB_MAX_HITS };
    let mut s = string_of(usize_decimal(hits.len()).as_slice());
    s.append(" match(es) for `");
    s.append(canonical);
    s.append("` (showing ");
    s.append(string_of(usize_decimal(shown).as_slice()).as_str());
    s.append("):\n");
    let ghost start = s@;
    let mut i: usize = 0;
    assert(hv.take(0) =~= Seq::<Seq<char>>::empty());
    assert(start + hit_lines(hv.take(0)) =~= start);
    while i < shown
        invariant
            hv == hits.deep_view(),
            i <= shown <= hits@.len(),
            s@ == start + hit_lines(hv.take(i as int)),
        decreases shown - i,
    {
        assert(hv.take(i + 1).drop_last() =~= hv.take(i as int));
        assert(hv.take(i + 1).last() == hits@[i as int]@);
        s.append("- ");
        s.append(hits[i].as_str());
        s.append("\n");
        assert(s@ =~= start + hit_lines(hv.take(i + 1)));
        i = i + 1;
    }
    s
}


/// Most files `find_file` lists.
pub const FIND_MAX_HITS: usize = 20;
/// Deepest directory level `find_file` walks.
pub const FIND_MAX_DEPTH: usize = 8;
/// Bytes of a `find_file` report before it is cut.
pub const FIND_MAX_REPORT_BYTES: usize = 4096;

/// A file met by the `find_file` walk: its name and its path.
#[derive(Debug, Clone)]
pub struct FoundEntry {
    pub file_name: String,
    pub path: String,
}

/// The paths of the walked files whose lowercased name contains `needle`,
/// in walk order.
pub open spec fn found_all(es: Seq<FoundEntry>, needle: Seq<char>) -> Seq<Seq<char>>
    decreases es.len(),
{
    if es.len() == 0 {
        Seq::empty()
    } else {
        let prev = found_all(es.drop_last(), needle);
        if crate::text::find_from(crate::text::lowercase(es.last().file_name@), needle, 0) >= 0 {
            prev.push(es.last().path@)
        } else {
            prev
        }
    }
}

/// What `find_file` lists for `name`: the first `FIND_MAX_HITS` walked files
/// whose name contains `name`, ignoring case.
pub open spec fn found_paths(name: Seq<char>, es: Seq<FoundEntry>) -> Seq<Seq<char>> {
    let all = found_all(es, crate::text::lowercase(name));
    if all.len() > FIND_MAX_HITS {
        all.take(FIND_MAX_HITS as int)
    } else {
        all
    }
}

proof fn lemma_found_prefix(es: Seq<FoundEntry>, needle: Seq<char>, j: int)
    requires
        0 <= j <= es.len(),
    ensures
        found_all(es.take(j), needle).len() <= found_all(es, needle).len(),
        found_all(es, needle).take(found_all(es.take(j), needle).len() as int) == found_all(es.take(j), needle),
    decreases es.len(),
{
    if j == es.len() {
        assert(es.take(j) =~= es);
        assert(found_all(es, needle).take(found_all(es, needle).len() as int) =~= found_all(es, needle));
    } else {
        let d = es.drop_last();
        assert(es.take(j) =~= d.take(j));
        lemma_found_prefix(d, needle, j);
        let a = found_all(d, needle);
        let b = found_all(d.take(j), needle);
        assert(found_all(es, needle).take(b.len() as int) =~= a.take(b.len() as int));
    }
}

/// The paths `find_file` lists (see `found_paths`).
pub fn select_found(name: &str, entries: &[FoundEntry]) -> (r: Vec<String>)
    ensures
        r.deep_view() == found_paths(name@, entries@),
{
    let low = crate::text::to_lowercase(name);
    let needle = chars_of(low.as_str());
    let ghost nd = needle@;
    let mut hits: Vec<String> = Vec::new();
    let mut i: usize = 0;
    assert(entries@.take(0) =~= Seq::<FoundEntry>::empty());
    while i < entries.len()
        invariant
            i <= entries@.len(),
            nd == needle@,
            nd == crate::text::lowercase(name@),
            hits.deep_view() == found_all(entries@.take(i as int), nd),
            hits@.len() < FIND_MAX_HITS,
        decreases entries@.len() - i,
    {
        let e = &entries[i];
        let fl = crate::text::to_lowercase(e.file_name.as_str());
        let fv = chars_of(fl.as_str());
        assert(entries@.take(i + 1).drop_last() =~= entries@.take(i as int));
        assert(entries@.take(i + 1).last() == entries@[i as int]);
        let found = match crate::text::find_seq_from(fv.as_slice(), needle.as_slice(), 0) {
            Some(_) => true,
            None => false,
        };
        if found {
            let ghost before = hits.deep_view();
            hits.push(e.path.clone());
            assert(hits.deep_view() =~= before.push(e.path@));
            if hits.len() >= FIND_MAX_HITS {
                proof {
                    lemma_found_prefix(entries@, nd, i + 1);
                    let all = found_all(entries@, nd);
                    assert(all.take(FIND_MAX_HITS as int) =~= hits.deep_view());
                }
                return hits;
            }
        }
        i = i + 1;
    }
    assert(entries@.take(i as int) =~= entries@);
    hits
}

/// The report of a `find_file` search before it is cut.
pub open spec fn find_report_full(name: Seq<char>, base: Seq<char>, hits: Seq<Seq<char>>) -> Seq<char> {
    if hits.len() == 0 {
        "no files matching `"@ + name + "` found under "@ + base + " (depth ≤ 8, .gitignore respected)"@
    } else {
        "found "@ + decimal(hits.len()) + " match(es) for `"@ + name + "`:\n"@ + hit_lines(hits)
    }
}

/// Whether a listing longer than `FIND_MAX_REPORT_BYTES` bytes can be cut there.
pub open spec fn find_cut_ok(name: Seq<char>, base: Seq<char>, hits: Seq<Seq<char>>) -> bool {
    let full = find_report_full(name, base, hits);
    hits.len() == 0 || crate::tokens::utf8_len(full) <= FIND_MAX_REPORT_BYTES
        || crate::tools::shell::is_byte_boundary(full, FIND_MAX_REPORT_BYTES as int)
}

/// What `find_file` reports; a listing longer than `FIND_MAX_REPORT_BYTES`
/// bytes is cut there and marked.
pub open spec fn find_report_text(name: Seq<char>, base: Seq<char>, hits: Seq<Seq<char>>) -> Seq<char> {
    let full = find_report_full(name, base, hits);
    if hits.len() > 0 && crate::tokens::utf8_len(full) > FIND_MAX_REPORT_BYTES {
        crate::tools::shell::byte_prefix(full, FIND_MAX_REPORT_BYTES as int) + "\n[truncated]"@
    } else {
        full
    }
}

/// The `find_file` report (see `find_report_text`); `None` when the cut
/// would fall inside a character.
pub fn find_report(name: &str, base: &str, hits: &[String]) -> (r: Option<String>)
    ensures
        match r {
            Some(s) => find_cut_ok(name@, base@, hits.deep_view()) && s@ == find_report_text(name@, base@, hits.deep_view()),
            None => !find_cut_ok(name@, base@, hits.deep_view()),
        },
{
    if hits.len() == 0 {
        let mut s = String::from_str("no files matching `");
        s.append(name);
        s.append("` found under ");
        s.append(base);
        s.append(" (depth ≤ 8, .gitignore respected)");
        return Some(s);
    }
    let ghost hv = hits.deep_view();
    let mut s = String::from_str("found ");
    s.append(string_of(usize_decimal(hits.len()).as_slice()).as_str());
    s.append(" match(es) for `");
    s.append(name);
    s.append("`:\n");
    let ghost start = s@;
    let mut i: usize = 0;
    assert(hv.take(0) =~= Seq::<Seq<char>>::empty());
    assert(start + hit_lines(hv.take(0)) =~= start);
    while i < hits.len()
        invariant
            hv == hits.deep_view(),
            i <= hits@.len(),
            s@ == start + hit_lines(hv.take(i as int)),
        decreases hits@.len() - i,
    {
        assert(hv.take(i + 1).drop_last() =~= hv.take(i as int));
        assert(hv.take(i + 1).last() == hits@[i as int]@);
        s.append("- ");
        s.append(hits[i].as_str());
        s.append("\n");
        assert(s@ =~= start + hit_lines(hv.take(i + 1)));
        i = i + 1;
    }
    assert(hv.take(i as int) =~= hv);
    let long = match crate::tools::shell::utf8_len_of_str(s.as_str()) {
        Some(n) => n > FIND_MAX_REPORT_BYTES,
        None => true,
    };
    if !long {
        return Some(s);
    }
    let v = chars_of(s.as_str());
    match crate::tools::shell::char_index_at_byte_of(v.as_slice(), FIND_MAX_REPORT_BYTES) {
        Some(k) => {
            let head = subvec(v.as_slice(), 0, k);
            assert(head@ =~= s@.take(k as int));
            let mut out = string_of(head.as_slice());
            out.append("\n[truncated]");
            Some(out)
        },
        None => None,
    }
}

/// What `Write` reports: a new file of `new_bytes` bytes, or an overwrite
/// of an `old_bytes`-byte file.
pub fn write_summary(path: &str, old_bytes: usize, new_bytes: usize) -> (r: String)
    ensures
        r@ == if old_bytes == 0 {
            "Wrote "@ + decimal(new_bytes as nat) + " bytes to new file "@ + path@
        } else {
            "Overwrote "@ + path@ + " ("@ + decimal(old_bytes as nat) + " bytes → "@ + decimal(new_bytes as nat)
                + " bytes)"@
        },
{
    if old_bytes == 0 {
        let mut s = String::from_str("Wrote ");
        s.append(string_of(usize_decimal(new_bytes).as_slice()).as_str());
        s.append(" bytes to new file ");
        s.append(path);
        s
    } else {
        let mut s = String::from_str("Overwrote ");
        s.append(path);
        s.append(" (");
        s.append(string_of(usize_decimal(old_bytes).as_slice()).as_str());
        s.append(" bytes → ");
        s.append(string_of(usize_decimal(new_bytes).as_slice()).as_str());
        s.append(" bytes)");
        s
    }
}

} // verus!
