//! `Edit` and `MultiEdit`: exact find-and-replace on a file's text. Without
//! `replace_all` the text to replace must occur exactly once; a batch of
//! edits applies in order, each to the text the previous ones produced, and
//! fails as a whole when one edit fails.
use crate::text::{chars_of, find_from, find_seq_from, lemma_find_from, occurs_at, replace_all, replace_all_vec, string_of, subvec};
use vstd::prelude::*;

verus! {

/// Why an edit was refused.
#[derive(Debug, Clone, Copy, PartialEq, Eq, Structural)]
pub enum EditError {
    /// The text to replace is empty.
    EmptyOld,
    /// The replacement equals the text it replaces.
    NoOp,
    /// The text to replace does not occur.
    NotFound,
    /// The text occurs this many times and `replace_all` is off.
    Ambiguous(usize),
}

/// Non-overlapping occurrences of `pat` in `s`, counted left to right
/// (`str::matches(pat).count()`).
pub open spec fn count_matches(s: Seq<char>, pat: Seq<char>) -> nat
    decreases s.len(),
{
    let i = find_from(s, pat, 0);
    if pat.len() == 0 || i < 0 {
        0
    } else {
        proof {
            lemma_find_from(s, pat, 0);
        }
        1 + count_matches(s.subrange(i + pat.len(), s.len() as int), pat)
    }
}

/// `str::replacen(pat, rep, 1)`.
pub open spec fn replace_first(s: Seq<char>, pat: Seq<char>, rep: Seq<char>) -> Seq<char> {
    let i = find_from(s, pat, 0);
    if i < 0 {
        s
    } else {
        s.take(i) + rep + s.subrange(i + pat.len(), s.len() as int)
    }
}

/// The outcome of one edit on `text`: the new text and the number of
/// occurrences found, or why it was refused.
pub open spec fn edit_outcome(text: Seq<char>, old: Seq<char>, new: Seq<char>, all: bool) -> Result<(Seq<char>, nat), EditError> {
    let n = count_matches(text, old);
    if old.len() == 0 {
        Err(EditError::EmptyOld)
    } else if old == new {
        Err(EditError::NoOp)
    } else if n == 0 {
        Err(EditError::NotFound)
    } else if !all && n > 1 {
        Err(EditError::Ambiguous(n as usize))
    } else if all {
        Ok((replace_all(text, old, new), n))
    } else {
        Ok((replace_first(text, old, new), n))
    }
}

fn count_matches_vec(v: &[char], pat: &[char]) -> (r: usize)
    requires
        pat@.len() > 0,
    ensures
        r == count_matches(v@, pat@),
{
    let mut n: usize = 0;
    let mut pos: usize = 0;
    assert(v@.subrange(0, v@.len() as int) =~= v@);
    loop
        invariant_except_break
            pos <= v@.len(),
            pat@.len() > 0,
            n + count_matches(v@.subrange(pos as int, v@.len() as int), pat@) == count_matches(v@, pat@),
            n <= pos,
        ensures
            n == count_matches(v@, pat@),
        decreases v@.len() - pos,
    {
        let tail = subvec(v, pos, v.len());
        match find_seq_from(tail.as_slice(), pat, 0) {
            None => break,
            Some(i) => {
                proof { lemma_find_from(tail@, pat@, 0); }
                assert(tail@.subrange(i + pat@.len(), tail@.len() as int) =~= v@.subrange(pos + i + pat@.len(), v@.len() as int));
                n = n + 1;
                pos = pos + i + pat.len();
            },
        }
    }
    n
}

/// One find-and-replace on `text` (see `edit_outcome`).
pub fn apply_edit(text: &str, old_string: &str, new_string: &str, replace_all: bool) -> (r: Result<(String, usize), EditError>)
    ensures
        match (r, edit_outcome(text@, old_string@, new_string@, replace_all)) {
            (Ok((t, n)), Ok((t2, n2))) => t@ == t2 && n as nat == n2,
            (Err(e), Err(e2)) => e == e2,
            _ => false,
        },
{
    let tv = chars_of(text);
    let ov = chars_of(old_string);
    let nv = chars_of(new_string);
    if ov.len() == 0 {
        return Err(EditError::EmptyOld);
    }
    if crate::text::seq_eq(ov.as_slice(), nv.as_slice()) {
        return Err(EditError::NoOp);
    }
    let n = count_matches_vec(tv.as_slice(), ov.as_slice());
    if n == 0 {
        return Err(EditError::NotFound);
    }
    if !replace_all && n > 1 {
        return Err(EditError::Ambiguous(n));
    }
    if replace_all {
        Ok((string_of(replace_all_vec(tv.as_slice(), ov.as_slice(), nv.as_slice()).as_slice()), n))
    } else {
        let i = match find_seq_from(tv.as_slice(), ov.as_slice(), 0) {
            Some(i) => i,
            None => {
                assert(false);
                0
            },
        };
        proof { lemma_find_from(tv@, ov@, 0); }
        assert(crate::text::occurs_at(tv@, ov@, i as int));
        let tlen = tv.len();
        assert(i + ov@.len() <= tlen);
        let end: usize = i + ov.len();
        let mut out = subvec(tv.as_slice(), 0, i);
        assert(out@ =~= tv@.take(i as int));
        let mut mid = nv.clone();
        out.append(&mut mid);
        let mut tail = subvec(tv.as_slice(), end, tv.len());
        out.append(&mut tail);
        Ok((string_of(out.as_slice()), n))
    }
}

/// One edit of a batch.
#[derive(Debug, Clone)]
pub struct EditSpec {
    pub old_string: String,
    pub new_string: String,
    pub replace_all: bool,
}

pub struct EditSpecView {
    pub old_string: Seq<char>,
    pub new_string: Seq<char>,
    pub replace_all: bool,
}

impl View for EditSpec {
    type V = EditSpecView;

    open spec fn view(&self) -> EditSpecView {
        EditSpecView { old_string: self.old_string@, new_string: self.new_string@, replace_all: self.replace_all }
    }
}

pub open spec fn edits_view(es: Seq<EditSpec>) -> Seq<EditSpecView> {
    es.map_values(|e: EditSpec| e@)
}

/// A batch of edits applied in order: the final text, or the index of the
/// first edit that fails (on the text the edits before it produced) and why.
pub open spec fn batch_outcome(text: Seq<char>, es: Seq<EditSpecView>) -> Result<Seq<char>, (nat, EditError)>
    decreases es.len(),
{
    if es.len() == 0 {
        Ok(text)
    } else {
        match batch_outcome(text, es.drop_last()) {
            Err(e) => Err(e),
            Ok(t) => match edit_outcome(t, es.last().old_string, es.last().new_string, es.last().replace_all) {
                Ok((t2, _)) => Ok(t2),
                Err(e) => Err(((es.len() - 1) as nat, e)),
            },
        }
    }
}

/// Apply a batch of edits to `text`, all or nothing (see `batch_outcome`).
pub fn apply_edits(text: &str, edits: &[EditSpec]) -> (r: Result<String, (usize, EditError)>)
    ensures
        match (r, batch_outcome(text@, edits_view(edits@))) {
            (Ok(t), Ok(t2)) => t@ == t2,
            (Err((i, e)), Err((i2, e2))) => i as nat == i2 && e == e2,
            _ => false,
        },
{
    let ghost ev = edits_view(edits@);
    let mut current = String::from_str(text);
    let mut k: usize = 0;
    while k < edits.len()
        invariant
            ev == edits_view(edits@),
            k <= edits@.len(),
            batch_outcome(text@, ev.take(k as int)) == Ok::<Seq<char>, (nat, EditError)>(current@),
        decreases edits@.len() - k,
    {
        let e = &edits[k];
        assert(ev.take(k + 1).drop_last() =~= ev.take(k as int));
        assert(ev.take(k + 1).last() == e@);
        match apply_edit(current.as_str(), e.old_string.as_str(), e.new_string.as_str(), e.replace_all) {
            Ok((t, _)) => {
                current = t;
            },
            Err(err) => {
                proof { lemma_batch_err_sticks(text@, ev, (k + 1) as int); }
                return Err((k, err));
            },
        }
        k = k + 1;
    }
    assert(ev.take(k as int) =~= ev);
    Ok(current)
}

/// Once a prefix of a batch fails, the whole batch fails the same way.
proof fn lemma_batch_err_sticks(text: Seq<char>, es: Seq<EditSpecView>, k: int)
    requires
        0 <= k <= es.len(),
        batch_outcome(text, es.take(k)) is Err,
    ensures
        batch_outcome(text, es) == batch_outcome(text, es.take(k)),
    decreases es.len() - k,
{
    if k < es.len() {
        assert(es.drop_last().take(k) =~= es.take(k));
        lemma_batch_err_sticks(text, es.drop_last(), k);
    } else {
        assert(es.take(k) =~= es);
    }
}


/// What `Edit` reports when an edit of the file at `path` is refused.
pub open spec fn edit_error_text(e: EditError, path: Seq<char>) -> Seq<char> {
    match e {
        EditError::EmptyOld => "Edit: `old_string` cannot be empty (use Write for new files)"@,
        EditError::NoOp => "Edit: `old_string` and `new_string` are identical — no-op"@,
        EditError::NotFound => "Edit: `old_string` not found in "@ + path
            + ". Read the file first and copy the exact text including indentation."@,
        EditError::Ambiguous(n) => "Edit: `old_string` found "@ + crate::text::decimal(n as nat) + " times in "@ + path
            + " but `replace_all` is false. Set replace_all: true or provide a more specific old_string."@,
    }
}

pub fn edit_error_message(e: EditError, path: &str) -> (r: String)
    ensures
        r@ == edit_error_text(e, path@),
{
    match e {
        EditError::EmptyOld => String::from_str("Edit: `old_string` cannot be empty (use Write for new files)"),
        EditError::NoOp => String::from_str("Edit: `old_string` and `new_string` are identical — no-op"),
        EditError::NotFound => {
            let mut s = String::from_str("Edit: `old_string` not found in ");
            s.append(path);
            s.append(". Read the file first and copy the exact text including indentation.");
            s
        },
        EditError::Ambiguous(n) => {
            let mut s = String::from_str("Edit: `old_string` found ");
            s.append(string_of(crate::text::usize_decimal(n).as_slice()).as_str());
            s.append(" times in ");
            s.append(path);
            s.append(" but `replace_all` is false. Set replace_all: true or provide a more specific old_string.");
            s
        },
    }
}

/// What `MultiEdit` reports when edit number `idx` of a batch on the file
/// at `path` is refused.
pub open spec fn multi_edit_error_text(idx: nat, e: EditError, path: Seq<char>) -> Seq<char> {
    "MultiEdit: edit #"@ + crate::text::decimal(idx) + match e {
        EditError::EmptyOld => " has empty old_string"@,
        EditError::NoOp => " is a no-op"@,
        EditError::NotFound => " old_string not found in current state of "@ + path,
        EditError::Ambiguous(n) => " matched "@ + crate::text::decimal(n as nat) + " times but `replace_all` is false"@,
    }
}

pub fn multi_edit_error_message(idx: usize, e: EditError, path: &str) -> (r: String)
    ensures
        r@ == multi_edit_error_text(idx as nat, e, path@),
{
    let mut s = String::from_str("MultiEdit: edit #");
    s.append(string_of(crate::text::usize_decimal(idx).as_slice()).as_str());
    match e {
        EditError::EmptyOld => s.append(" has empty old_string"),
        EditError::NoOp => s.append(" is a no-op"),
        EditError::NotFound => {
            s.append(" old_string not found in current state of ");
            s.append(path);
        },
        EditError::Ambiguous(n) => {
            s.append(" matched ");
            s.append(string_of(crate::text::usize_decimal(n).as_slice()).as_str());
            s.append(" times but `replace_all` is false");
        },
    }
    s
}

/// What `Edit` reports after replacing `n` occurrences (all of them, or the
/// first of them) in the file at `path`.
pub fn edit_summary(path: &str, n: usize, replace_all: bool) -> (r: String)
    ensures
        r@ == if replace_all {
            "Edited "@ + path@ + " (replaced "@ + crate::text::decimal(n as nat) + " occurrence(s))"@
        } else {
            "Edited "@ + path@ + " (1 of "@ + crate::text::decimal(n as nat) + " occurrence(s))"@
        },
{
    let mut s = String::from_str("Edited ");
    s.append(path);
    s.append(if replace_all { " (replaced " } else { " (1 of " });
    s.append(string_of(crate::text::usize_decimal(n).as_slice()).as_str());
    s.append(" occurrence(s))");
    s
}

/// What `MultiEdit` reports after applying `n` edits to the file at `path`.
pub fn multi_edit_summary(n: usize, path: &str) -> (r: String)
    ensures
        r@ == "Applied "@ + crate::text::decimal(n as nat) + " edits to "@ + path@,
{
    let mut s = String::from_str("Applied ");
    s.append(string_of(crate::text::usize_decimal(n).as_slice()).as_str());
    s.append(" edits to ");
    s.append(path);
    s
}


/// An occurrence of `pat` is counted.
proof fn lemma_occurrence_counted(s: Seq<char>, pat: Seq<char>, i: int)
    requires
        pat.len() > 0,
        occurs_at(s, pat, i),
    ensures
        count_matches(s, pat) >= 1,
{
    lemma_find_from(s, pat, 0);
}

/// Two non-overlapping occurrences of `pat` are both counted.
proof fn lemma_two_occurrences_counted(s: Seq<char>, pat: Seq<char>, i: int, j: int)
    requires
        pat.len() > 0,
        occurs_at(s, pat, i),
        occurs_at(s, pat, j),
        i + pat.len() <= j,
    ensures
        count_matches(s, pat) >= 2,
{
    lemma_find_from(s, pat, 0);
    let f = find_from(s, pat, 0);
    assert(0 <= f <= i);
    let rest = s.subrange(f + pat.len(), s.len() as int);
    let k = j - (f + pat.len());
    assert(rest.subrange(k, k + pat.len()) =~= s.subrange(j, j + pat.len()));
    lemma_occurrence_counted(rest, pat, k);
}

/// Without `replace_all` an edit needs a unique match: when the text to
/// replace occurs (at least) twice, the edit is refused as ambiguous with
/// the number of occurrences, and an edit that goes through replaced the
/// one and only occurrence.
pub proof fn law_edit_needs_unique_match(text: Seq<char>, old: Seq<char>, new: Seq<char>, i: int, j: int)
    requires
        old.len() > 0,
        old != new,
        occurs_at(text, old, i),
        occurs_at(text, old, j),
        i + old.len() <= j,
    ensures
        edit_outcome(text, old, new, false) == Err::<(Seq<char>, nat), EditError>(
            EditError::Ambiguous(count_matches(text, old) as usize),
        ),
        count_matches(text, old) >= 2,
{
    lemma_two_occurrences_counted(text, old, i, j);
}

/// An edit without `replace_all` that succeeds reports exactly one
/// occurrence, and the text to replace does occur.
pub proof fn law_edit_without_all_reports_one(text: Seq<char>, old: Seq<char>, new: Seq<char>)
    ensures
        edit_outcome(text, old, new, false) is Ok ==> edit_outcome(text, old, new, false)->Ok_0.1 == 1 && count_matches(
            text,
            old,
        ) == 1,
{
}
} // verus!
