//! Properties of the fact table that span several operations.
use crate::memory::{
    archive_rows, has_section, id_index, in_section, is_listing, lemma_id_index_from, lemma_id_unique, lemma_map_one_row,
    lemma_slot_index_from, lemma_slot_unique, lemma_update_keeps_wf, occupies, revive_conflicts, revive_from, rows_wf,
    memory_intro, memory_section, scope_key, section_header, scope_or_default, section, section_lines, set_status_rows, shown_in_list, slot_index, upsert_rows, FactKind, FactStatus, FactView,
};
use vstd::prelude::*;

verus! {

/// Read after write: after an upsert (that did not run out of ids) the slot
/// has an active row holding the new content and the upsert time.
pub proof fn law_upsert_then_slot_reads_back(
    rows: Seq<FactView>,
    last_id: i64,
    kind: FactKind,
    slug: Seq<char>,
    content: Seq<char>,
    scope: Option<Seq<char>>,
    now: i64,
)
    requires
        rows_wf(rows, last_id),
        slot_index(rows, kind, slug, scope_key(scope)) >= 0 || last_id < i64::MAX,
    ensures
        ({
            let after = upsert_rows(rows, last_id, kind, slug, content, scope, now);
            let i = slot_index(after, kind, slug, scope_key(scope));
            &&& 0 <= i < after.len()
            &&& after[i].content == content
            &&& after[i].last_used == now
            &&& after[i].status == FactStatus::Active
        }),
{
    let key = scope_key(scope);
    let after = upsert_rows(rows, last_id, kind, slug, content, scope, now);
    lemma_slot_index_from(rows, kind, slug, key, 0);
    lemma_slot_index_from(after, kind, slug, key, 0);
    let i = slot_index(rows, kind, slug, key);
    if i >= 0 {
        assert(occupies(after[i], kind, slug, key));
        let j = slot_index(after, kind, slug, key);
        if j != i {
            // j comes first and occupied the slot already before the upsert
            assert(j < i);
            assert(after[j] == rows[j]);
            assert(false);
        }
    } else {
        let n = rows.len() as int;
        assert(occupies(after[n], kind, slug, key));
        let j = slot_index(after, kind, slug, key);
        if j != n {
            assert(after[j] == rows[j]);
            assert(false);
        }
    }
}

/// Upserting one slot leaves the active row of every other slot as it was.
pub proof fn law_upsert_leaves_other_slots(
    rows: Seq<FactView>,
    last_id: i64,
    kind: FactKind,
    slug: Seq<char>,
    content: Seq<char>,
    scope: Option<Seq<char>>,
    now: i64,
    other_kind: FactKind,
    other_slug: Seq<char>,
    other_key: Seq<char>,
)
    requires
        rows_wf(rows, last_id),
        (kind, slug, scope_key(scope)) != (other_kind, other_slug, other_key),
        slot_index(rows, other_kind, other_slug, other_key) >= 0,
    ensures
        ({
            let after = upsert_rows(rows, last_id, kind, slug, content, scope, now);
            let j = slot_index(rows, other_kind, other_slug, other_key);
            &&& slot_index(after, other_kind, other_slug, other_key) == j
            &&& after[j] == rows[j]
        }),
{
    let key = scope_key(scope);
    let after = upsert_rows(rows, last_id, kind, slug, content, scope, now);
    lemma_slot_index_from(rows, kind, slug, key, 0);
    lemma_slot_index_from(rows, other_kind, other_slug, other_key, 0);
    lemma_slot_index_from(after, other_kind, other_slug, other_key, 0);
    let i = slot_index(rows, kind, slug, key);
    let j = slot_index(rows, other_kind, other_slug, other_key);
    assert(i != j);
    assert(after[j] == rows[j]);
    assert(occupies(after[j], other_kind, other_slug, other_key));
    let k = slot_index(after, other_kind, other_slug, other_key);
    if k != j {
        if k < j {
            if k == i && i >= 0 {
                assert(after[k].kind == kind && after[k].slug == slug && scope_key(after[k].scope) == key);
            } else if k < rows.len() {
                assert(after[k] == rows[k]);
            }
        } else if k > j {
            assert(false);
        }
        assert(false);
    }
}

/// Archiving hides a fact from `list`: no listing of the archived table shows
/// a row with that id.
pub proof fn law_stale_hidden_from_list(
    rows: Seq<FactView>,
    id: i64,
    now: i64,
    kind: Option<FactKind>,
    out: Seq<FactView>,
)
    requires
        is_listing(out, set_status_rows(rows, id, FactStatus::Stale, Some(now)), kind, false),
    ensures
        forall|i: int| 0 <= i < out.len() ==> #[trigger] out[i].id != id,
{
    let after = set_status_rows(rows, id, FactStatus::Stale, Some(now));
    assert forall|i: int| 0 <= i < out.len() implies #[trigger] out[i].id != id by {
        assert(out.contains(out[i]));
        assert(after.contains(out[i]));
        assert(shown_in_list(out[i], kind, false));
        let k = choose|k: int| 0 <= k < after.len() && after[k] == out[i];
        if rows[k].id == id {
            assert(after[k].status == FactStatus::Stale);
        }
    }
}

/// Archiving keeps a fact in `list_all`: the full listing of the archived
/// table shows the row, now stale and stamped with the archive time.
pub proof fn law_stale_kept_in_list_all(
    rows: Seq<FactView>,
    last_id: i64,
    id: i64,
    now: i64,
    out: Seq<FactView>,
)
    requires
        rows_wf(rows, last_id),
        id_index(rows, id) >= 0,
        is_listing(out, set_status_rows(rows, id, FactStatus::Stale, Some(now)), None, true),
    ensures
        exists|i: int|
            0 <= i < out.len() && (#[trigger] out[i]).id == id && out[i].status == FactStatus::Stale && out[i].stale_at
                == Some(now),
{
    let after = set_status_rows(rows, id, FactStatus::Stale, Some(now));
    lemma_id_index_from(rows, id, 0);
    let k = id_index(rows, id);
    assert(after[k].id == id);
    assert(after.contains(after[k]));
    assert(shown_in_list(after[k], None, true));
    assert(out.contains(after[k]));
    let i = choose|i: int| 0 <= i < out.len() && out[i] == after[k];
    assert(out[i].id == id);
}

/// Two tables whose rows carry the same ids find an id at the same place.
proof fn lemma_same_ids(a: Seq<FactView>, b: Seq<FactView>, id: i64, k: int)
    requires
        a.len() == b.len(),
        forall|j: int| 0 <= j < a.len() ==> (#[trigger] a[j]).id == b[j].id,
    ensures
        crate::memory::id_index_from(a, id, k) == crate::memory::id_index_from(b, id, k),
    decreases a.len() - k,
{
    if 0 <= k < a.len() && a[k].id != id {
        lemma_same_ids(a, b, id, k + 1);
    }
}

/// A fact archived out of its slot can be revived: marking it active is not
/// refused, and it comes back active with no archive time.
pub proof fn law_stale_then_active_revives(rows: Seq<FactView>, last_id: i64, id: i64, now: i64)
    requires
        rows_wf(rows, last_id),
        id_index(rows, id) >= 0,
        rows[id_index(rows, id)].status == FactStatus::Active,
    ensures
        ({
            let staled = set_status_rows(rows, id, FactStatus::Stale, Some(now));
            let revived = set_status_rows(staled, id, FactStatus::Active, None);
            let k = id_index(rows, id);
            &&& !revive_conflicts(staled, id)
            &&& id_index(revived, id) == k
            &&& revived[k].status == FactStatus::Active
            &&& revived[k].stale_at == None::<i64>
            &&& revived[k].content == rows[k].content
        }),
{
    let staled = set_status_rows(rows, id, FactStatus::Stale, Some(now));
    let revived = set_status_rows(staled, id, FactStatus::Active, None);
    lemma_id_index_from(rows, id, 0);
    let k = id_index(rows, id);
    let r = rows[k];
    let key = scope_key(r.scope);
    lemma_id_unique(rows, last_id, k);
    lemma_same_ids(rows, staled, id, 0);
    lemma_same_ids(staled, revived, id, 0);
    lemma_slot_index_from(staled, r.kind, r.slug, key, 0);
    let j = slot_index(staled, r.kind, r.slug, key);
    if j >= 0 {
        assert(occupies(staled[j], r.kind, r.slug, key));
        if j == k {
            assert(staled[k].status == FactStatus::Stale);
        } else {
            assert(staled[j].status == FactStatus::Active);
            assert(rows[j].id != id);
            assert(staled[j] == rows[j]);
            assert(!occupies(rows[j], r.kind, r.slug, key));
        }
        assert(false);
    }
}

/// Forgetting a slug leaves no row with that slug, and every other row stays.
pub proof fn law_forget_removes_slug(rows: Seq<FactView>, slug: Seq<char>)
    ensures
        ({
            let after = rows.filter(|f: FactView| f.slug != slug);
            &&& forall|i: int| 0 <= i < after.len() ==> (#[trigger] after[i]).slug != slug
            &&& forall|r: FactView| rows.contains(r) && r.slug != slug ==> after.contains(r)
        }),
{
    let pred = |f: FactView| f.slug != slug;
    let after = rows.filter(pred);
    assert forall|i: int| 0 <= i < after.len() implies (#[trigger] after[i]).slug != slug by {
        broadcast use vstd::seq_lib::group_filter_ensures;
        assert(pred(after[i]));
    }
    assert forall|r: FactView| rows.contains(r) && r.slug != slug implies after.contains(r) by {
        broadcast use vstd::seq_lib::group_filter_ensures;
        let k = choose|k: int| 0 <= k < rows.len() && rows[k] == r;
        assert(pred(rows[k]));
    }
}

/// Archived facts add no line to any section of the rendered memory.
pub proof fn law_stale_facts_render_no_line(facts: Seq<FactView>, kind: FactKind, scope: Seq<char>)
    ensures
        section_lines(facts, kind, scope) == section_lines(
            facts.filter(|f: FactView| f.status != FactStatus::Stale),
            kind,
            scope,
        ),
    decreases facts.len(),
{
    let pred = |f: FactView| f.status != FactStatus::Stale;
    if facts.len() > 0 {
        law_stale_facts_render_no_line(facts.drop_last(), kind, scope);
        reveal_with_fuel(Seq::<_>::filter, 1);
        assert(facts.filter(pred) == (if pred(facts.last()) {
            facts.drop_last().filter(pred).push(facts.last())
        } else {
            facts.drop_last().filter(pred)
        }));
        if pred(facts.last()) {
            let f2 = facts.drop_last().filter(pred).push(facts.last());
            assert(f2.drop_last() =~= facts.drop_last().filter(pred));
        } else {
            assert(section_lines(facts, kind, scope) =~= section_lines(facts.drop_last(), kind, scope));
        }
    } else {
        assert(facts.filter(pred) =~= Seq::<FactView>::empty()) by {
            reveal_with_fuel(Seq::<_>::filter, 1);
        }
    }
}


/// Archiving a slug keeps every row (same id, slug and content) for audit
/// and leaves no active row with that slug.
pub proof fn law_archive_keeps_rows_and_clears_slug(rows: Seq<FactView>, slug: Seq<char>, now: i64)
    ensures
        ({
            let out = archive_rows(rows, slug, now);
            &&& out.len() == rows.len()
            &&& forall|i: int|
                0 <= i < rows.len() ==> (#[trigger] out[i]).id == rows[i].id && out[i].slug == rows[i].slug && out[i].content
                    == rows[i].content
            &&& forall|i: int| 0 <= i < out.len() && (#[trigger] out[i]).slug == slug ==> out[i].status != FactStatus::Active
        }),
{
}

/// Every row named `slug` among the first `k` is active or has an active
/// row in its slot.
pub open spec fn slug_rows_served(rows: Seq<FactView>, slug: Seq<char>, k: int) -> bool {
    forall|i: int|
        0 <= i < k && i < rows.len() && (#[trigger] rows[i]).slug == slug ==> rows[i].status == FactStatus::Active
            || slot_index(rows, rows[i].kind, slug, scope_key(rows[i].scope)) >= 0
}

proof fn lemma_revive_serves(rows: Seq<FactView>, last_id: i64, slug: Seq<char>, k: int)
    requires
        rows_wf(rows, last_id),
        0 <= k,
        slug_rows_served(rows, slug, k),
    ensures
        revive_from(rows, slug, k).0.len() == rows.len(),
        rows_wf(revive_from(rows, slug, k).0, last_id),
        slug_rows_served(revive_from(rows, slug, k).0, slug, rows.len() as int),
    decreases rows.len() - k,
{
    if k < rows.len() {
        let r = rows[k];
        lemma_id_index_from(rows, r.id, 0);
        assert(id_index(rows, r.id) == k);
        if r.slug == slug && r.status != FactStatus::Active && !revive_conflicts(rows, r.id) {
            let next = set_status_rows(rows, r.id, FactStatus::Active, None);
            let nr = FactView { status: FactStatus::Active, stale_at: None, ..r };
            lemma_map_one_row(rows, last_id, k, nr, next);
            lemma_update_keeps_wf(rows, last_id, k, nr);
            assert forall|i: int|
                0 <= i < k + 1 && i < next.len() && (#[trigger] next[i]).slug == slug implies next[i].status
                == FactStatus::Active || slot_index(next, next[i].kind, slug, scope_key(next[i].scope)) >= 0 by {
                if i < k && rows[i].status != FactStatus::Active {
                    let key = scope_key(rows[i].scope);
                    assert(rows[i].slug == slug);
                    lemma_slot_index_from(rows, rows[i].kind, slug, key, 0);
                    let j = slot_index(rows, rows[i].kind, slug, key);
                    assert(occupies(rows[j], rows[i].kind, slug, key));
                    assert(j != k);
                    assert(next[j] == rows[j]);
                    lemma_slot_index_from(next, rows[i].kind, slug, key, 0);
                    assert(next[i] == rows[i]);
                }
            }
            lemma_revive_serves(next, last_id, slug, k + 1);
        } else {
            assert forall|i: int|
                0 <= i < k + 1 && i < rows.len() && (#[trigger] rows[i]).slug == slug implies rows[i].status
                == FactStatus::Active || slot_index(rows, rows[i].kind, slug, scope_key(rows[i].scope)) >= 0 by {
            }
            lemma_revive_serves(rows, last_id, slug, k + 1);
        }
    }
}

/// Reviving a slug keeps the table valid and leaves every row with that slug
/// active, or its slot served by another active row.
pub proof fn law_revive_serves_every_slot(rows: Seq<FactView>, last_id: i64, slug: Seq<char>)
    requires
        rows_wf(rows, last_id),
    ensures
        ({
            let out = revive_from(rows, slug, 0).0;
            &&& rows_wf(out, last_id)
            &&& forall|i: int|
                0 <= i < out.len() && (#[trigger] out[i]).slug == slug ==> out[i].status == FactStatus::Active || slot_index(
                    out,
                    out[i].kind,
                    slug,
                    scope_key(out[i].scope),
                ) >= 0
        }),
{
    lemma_revive_serves(rows, last_id, slug, 0);
}


/// The facts that are not archived, in order.
pub open spec fn unarchived(facts: Seq<FactView>) -> Seq<FactView> {
    facts.filter(|f: FactView| f.status != FactStatus::Stale)
}

/// Archived facts never reach the prompt: two fact lists with the same
/// unarchived facts in the same order, in which the same sections have
/// facts, render the same memory section. (A section whose facts are all
/// archived keeps its header, so the sections present are part of the
/// premise.)
pub proof fn law_stale_facts_never_reach_prompt(f1: Seq<FactView>, f2: Seq<FactView>, active_skill: Option<Seq<char>>)
    requires
        unarchived(f1) == unarchived(f2),
        forall|k: FactKind|
            has_section(f1, k, scope_or_default(active_skill)) == has_section(f2, k, scope_or_default(active_skill)),
    ensures
        memory_section(f1, active_skill) == memory_section(f2, active_skill),
{
    let sc = scope_or_default(active_skill);
    assert forall|k: FactKind| section_lines(f1, k, sc) == section_lines(f2, k, sc) by {
        law_stale_facts_render_no_line(f1, k, sc);
        law_stale_facts_render_no_line(f2, k, sc);
    }
    assert(section(f1, FactKind::Profile, sc) == section(f2, FactKind::Profile, sc));
    assert(section(f1, FactKind::Concept, sc) == section(f2, FactKind::Concept, sc));
    assert(section(f1, FactKind::Behavioral, sc) == section(f2, FactKind::Behavioral, sc));
    assert(section(f1, FactKind::State, sc) == section(f2, FactKind::State, sc));
}

/// Whether `h` occurs in `text` at position `p`.
pub open spec fn occurs_at(text: Seq<char>, h: Seq<char>, p: int) -> bool {
    0 <= p && p + h.len() <= text.len() && text.subrange(p, p + h.len()) == h
}

/// When every section has a fact, the rendered memory shows the Profile,
/// Known concepts, Behavioral preferences and Current state headers in that
/// order.
pub proof fn law_sections_in_order(facts: Seq<FactView>, active_skill: Option<Seq<char>>)
    requires
        has_section(facts, FactKind::Profile, scope_or_default(active_skill)),
        has_section(facts, FactKind::Concept, scope_or_default(active_skill)),
        has_section(facts, FactKind::Behavioral, scope_or_default(active_skill)),
        has_section(facts, FactKind::State, scope_or_default(active_skill)),
    ensures
        exists|p1: int, p2: int, p3: int, p4: int|
            p1 < p2 < p3 < p4 && occurs_at(
                memory_section(facts, active_skill),
                section_header(FactKind::Profile, scope_or_default(active_skill)),
                p1,
            ) && occurs_at(
                memory_section(facts, active_skill),
                section_header(FactKind::Concept, scope_or_default(active_skill)),
                p2,
            ) && occurs_at(
                memory_section(facts, active_skill),
                section_header(FactKind::Behavioral, scope_or_default(active_skill)),
                p3,
            ) && occurs_at(
                memory_section(facts, active_skill),
                section_header(FactKind::State, scope_or_default(active_skill)),
                p4,
            ),
{
    let sc = scope_or_default(active_skill);
    reveal_strlit("\n");
    let s1 = section(facts, FactKind::Profile, sc);
    let s2 = section(facts, FactKind::Concept, sc);
    let s3 = section(facts, FactKind::Behavioral, sc);
    let s4 = section(facts, FactKind::State, sc);
    let t = memory_section(facts, active_skill);
    assert(t == memory_intro() + s1 + s2 + s3 + s4);
    let p1 = memory_intro().len() as int;
    let p2 = p1 + s1.len();
    let p3 = p2 + s2.len();
    let p4 = p3 + s3.len();
    let h1 = section_header(FactKind::Profile, sc);
    let h2 = section_header(FactKind::Concept, sc);
    let h3 = section_header(FactKind::Behavioral, sc);
    let h4 = section_header(FactKind::State, sc);
    assert(s1 == h1 + section_lines(facts, FactKind::Profile, sc) + "\n"@);
    assert(s2 == h2 + section_lines(facts, FactKind::Concept, sc) + "\n"@);
    assert(s3 == h3 + section_lines(facts, FactKind::Behavioral, sc) + "\n"@);
    assert(s4 == h4 + section_lines(facts, FactKind::State, sc) + "\n"@);
    assert(t.subrange(p1, p1 + h1.len()) =~= h1);
    assert(t.subrange(p2, p2 + h2.len()) =~= h2);
    assert(t.subrange(p3, p3 + h3.len()) =~= h3);
    assert(t.subrange(p4, p4 + h4.len()) =~= h4);
    assert(p1 < p2 < p3 < p4);
    assert(occurs_at(t, h1, p1) && occurs_at(t, h2, p2) && occurs_at(t, h3, p3) && occurs_at(t, h4, p4));
}
} // verus!
