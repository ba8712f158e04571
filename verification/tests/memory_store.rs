use mochi::memory::{render_memory_section, Fact, FactKind, FactStatus, MemoryError, MemoryStore};

fn store() -> MemoryStore {
    MemoryStore::open_in_memory().unwrap()
}

#[test]
fn upsert_and_list_round_trip() {
    let mut s = store();
    s.upsert(FactKind::Concept, "saigon", "User lives in Saigon", None).unwrap();
    s.upsert(FactKind::Concept, "rust", "Daily driver language", None).unwrap();
    let facts = s.list(Some(FactKind::Concept)).unwrap();
    assert_eq!(facts.len(), 2);
    let slugs: Vec<&str> = facts.iter().map(|f| f.slug.as_str()).collect();
    assert!(slugs.contains(&"saigon"));
    assert!(slugs.contains(&"rust"));
}

#[test]
fn upsert_updates_existing_row() {
    let mut s = store();
    s.upsert(FactKind::State, "task", "first version", None).unwrap();
    s.upsert(FactKind::State, "task", "second version", None).unwrap();
    let facts = s.list(Some(FactKind::State)).unwrap();
    assert_eq!(facts.len(), 1);
    assert_eq!(facts[0].content, "second version");
}

#[test]
fn behavioral_scopes_are_distinct() {
    let mut s = store();
    s.upsert(FactKind::Behavioral, "tone", "terse", Some("default")).unwrap();
    s.upsert(FactKind::Behavioral, "tone", "grumpy", Some("grumpy-cat")).unwrap();
    let facts = s.list(Some(FactKind::Behavioral)).unwrap();
    assert_eq!(facts.len(), 2);
}

#[test]
fn forget_removes_by_slug() {
    let mut s = store();
    s.upsert(FactKind::Concept, "x", "y", None).unwrap();
    assert_eq!(s.forget("x").unwrap(), 1);
    assert!(s.list(None).unwrap().is_empty());
}

#[test]
fn profile_helper_returns_user_row() {
    let mut s = store();
    s.upsert(FactKind::Profile, "user", "Loves Rust, hates hype.", None).unwrap();
    assert_eq!(s.profile().unwrap().as_deref(), Some("Loves Rust, hates hype."));
}

#[test]
fn render_orders_profile_then_concept_then_behavioral_then_state() {
    let mut s = store();
    s.upsert(FactKind::State, "task", "writing memory module", None).unwrap();
    s.upsert(FactKind::Behavioral, "tone", "terse", Some("default")).unwrap();
    s.upsert(FactKind::Concept, "rust", "daily driver", None).unwrap();
    s.upsert(FactKind::Profile, "user", "AI engineer", None).unwrap();
    let facts = s.list(None).unwrap();
    let rendered = render_memory_section(&facts, None);

    let p_idx = rendered.find("### Profile").unwrap();
    let c_idx = rendered.find("### Known concepts").unwrap();
    let b_idx = rendered.find("### Behavioral preferences").unwrap();
    let st_idx = rendered.find("### Current state").unwrap();
    assert!(p_idx < c_idx && c_idx < b_idx && b_idx < st_idx, "wrong section order: {rendered}");
}

#[test]
fn render_filters_behavioral_by_active_skill() {
    let mut s = store();
    s.upsert(FactKind::Behavioral, "tone", "terse", Some("default")).unwrap();
    s.upsert(FactKind::Behavioral, "tone", "grumpy", Some("grumpy-cat")).unwrap();
    let facts = s.list(None).unwrap();

    let rendered_default = render_memory_section(&facts, None);
    assert!(rendered_default.contains("terse"));
    assert!(!rendered_default.contains("grumpy"));

    let rendered_grumpy = render_memory_section(&facts, Some("grumpy-cat"));
    assert!(rendered_grumpy.contains("grumpy"));
    assert!(!rendered_grumpy.contains("terse"));
}

#[test]
fn new_facts_default_to_active_status() {
    let mut s = store();
    let id = s.upsert(FactKind::Concept, "lang", "Rust", None).unwrap();
    let f = s.get(id).unwrap().unwrap();
    assert_eq!(f.status, FactStatus::Active);
    assert!(f.stale_at.is_none());
}

#[test]
fn mark_stale_excludes_fact_from_default_list() {
    let mut s = store();
    let id = s.upsert(FactKind::Concept, "city", "Hanoi", None).unwrap();
    s.mark_stale(id).unwrap();
    let active = s.list(None).unwrap();
    assert!(active.iter().all(|f| f.id != id), "stale fact leaked into default list");
    let all = s.list_all(None).unwrap();
    let archived = all.iter().find(|f| f.id == id).expect("stale fact must remain in list_all");
    assert_eq!(archived.status, FactStatus::Stale);
    assert!(archived.stale_at.is_some(), "stale_at should be populated");
}

#[test]
fn mark_unknown_keeps_fact_visible_with_warning() {
    let mut s = store();
    let id = s.upsert(FactKind::State, "task", "writing Mochi", None).unwrap();
    s.mark_unknown(id).unwrap();
    let facts = s.list(None).unwrap();
    let rendered = render_memory_section(&facts, None);
    assert!(rendered.contains("UNRESOLVED"), "unknown facts should render with warning marker: {rendered}");
    assert!(rendered.contains("writing Mochi"), "warning marker must still cite the prior value: {rendered}");
}

#[test]
fn render_omits_stale_facts_entirely() {
    let mut s = store();
    let stale_id = s.upsert(FactKind::Concept, "city", "Hanoi", None).unwrap();
    s.upsert(FactKind::Concept, "lang", "Rust", None).unwrap();
    s.mark_stale(stale_id).unwrap();
    let facts = s.list(None).unwrap();
    let rendered = render_memory_section(&facts, None);
    assert!(rendered.contains("Rust"));
    assert!(!rendered.contains("Hanoi"), "stale fact must not appear: {rendered}");
}

#[test]
fn mark_active_revives_stale_fact() {
    let mut s = store();
    let id = s.upsert(FactKind::Concept, "city", "Hanoi", None).unwrap();
    s.mark_stale(id).unwrap();
    s.mark_active(id).unwrap();
    let f = s.get(id).unwrap().unwrap();
    assert_eq!(f.status, FactStatus::Active);
    assert!(f.stale_at.is_none(), "revive should clear stale_at");
}

#[test]
fn mark_active_refused_when_slot_has_active_row() {
    let mut s = store();
    let old = s.upsert(FactKind::Profile, "city", "Hanoi", None).unwrap();
    s.mark_stale(old).unwrap();
    let new = s.upsert(FactKind::Profile, "city", "Saigon", None).unwrap();
    assert_ne!(old, new);
    assert_eq!(s.mark_active(old), Err(MemoryError::SlotTaken));
    assert_eq!(s.get(old).unwrap().unwrap().status, FactStatus::Stale);
}

#[test]
fn upsert_at_reads_back_content_and_time() {
    let mut s = store();
    let id = s.upsert_at(FactKind::State, "task", "one", None, 100).unwrap();
    let again = s.upsert_at(FactKind::State, "task", "two", None, 250).unwrap();
    assert_eq!(id, again);
    let f = s.get(id).unwrap().unwrap();
    assert_eq!(f.content, "two");
    assert_eq!(f.last_used, 250);
    assert_eq!(f.created_at, 100);
    assert_eq!(s.find_active_slug(FactKind::State, "task", None).unwrap(), Some(id));
}

#[test]
fn empty_scope_and_no_scope_share_a_slot() {
    let mut s = store();
    let a = s.upsert(FactKind::Behavioral, "tone", "terse", None).unwrap();
    let b = s.upsert(FactKind::Behavioral, "tone", "chatty", Some("")).unwrap();
    assert_eq!(a, b);
    assert_eq!(s.list_all(None).unwrap().len(), 1);
}

#[test]
fn list_orders_by_kind_then_recency_then_id() {
    let mut s = store();
    s.upsert_at(FactKind::State, "a", "x", None, 10).unwrap();
    s.upsert_at(FactKind::Concept, "b", "x", None, 10).unwrap();
    s.upsert_at(FactKind::Concept, "c", "x", None, 30).unwrap();
    s.upsert_at(FactKind::Behavioral, "d", "x", None, 5).unwrap();
    s.upsert_at(FactKind::Profile, "e", "x", None, 1).unwrap();
    let slugs: Vec<String> = s.list(None).unwrap().into_iter().map(|f| f.slug).collect();
    assert_eq!(slugs, vec!["d", "c", "b", "e", "a"]);
}

#[test]
fn forget_counts_rows_of_every_kind_and_status() {
    let mut s = store();
    let id = s.upsert(FactKind::Concept, "x", "one", None).unwrap();
    s.mark_stale(id).unwrap();
    s.upsert(FactKind::Concept, "x", "two", None).unwrap();
    s.upsert(FactKind::State, "x", "three", None).unwrap();
    s.upsert(FactKind::State, "y", "kept", None).unwrap();
    assert_eq!(s.forget("x").unwrap(), 3);
    assert_eq!(s.list_all(None).unwrap().len(), 1);
    assert_eq!(s.forget("x").unwrap(), 0);
}

#[test]
fn from_rows_round_trips_and_refuses_corrupt_tables() {
    let mut s = store();
    s.upsert(FactKind::Concept, "a", "1", None).unwrap();
    s.upsert(FactKind::Concept, "b", "2", None).unwrap();
    let rows = s.rows();
    let last = s.last_id_value();
    let back = MemoryStore::from_rows(rows, last).unwrap();
    assert_eq!(back.rows().len(), 2);
    let mut dup = s.rows();
    let mut second = dup[0].clone();
    second.id = 5;
    dup.push(second);
    assert_eq!(MemoryStore::from_rows(dup, 5).err(), Some(MemoryError::Corrupt));
}

#[test]
fn fact_kind_and_status_parse() {
    assert_eq!(FactKind::parse("Behavior"), Some(FactKind::Behavioral));
    assert_eq!(FactKind::parse("STATE"), Some(FactKind::State));
    assert_eq!(FactKind::parse("nope"), None);
    assert_eq!(FactStatus::parse("unknown_current"), FactStatus::Unknown);
    assert_eq!(FactStatus::parse("Stale"), FactStatus::Stale);
    assert_eq!(FactStatus::parse("whatever"), FactStatus::Active);
    assert_eq!(FactKind::Profile.as_str(), "profile");
    assert_eq!(FactStatus::Unknown.as_str(), "unknown");
}

#[test]
fn format_fact_line_by_status() {
    let mut s = store();
    let id = s.upsert(FactKind::State, "task", "x", None).unwrap();
    let f = s.get(id).unwrap().unwrap();
    assert_eq!(mochi::memory::format_fact_line(&f), "- task = x\n");
    s.mark_stale(id).unwrap();
    let f = s.get(id).unwrap().unwrap();
    assert_eq!(mochi::memory::format_fact_line(&f), "");
}

#[test]
fn render_keeps_header_of_section_with_only_archived_facts() {
    let mut s = store();
    let id = s.upsert(FactKind::Concept, "city", "Hanoi", None).unwrap();
    s.mark_stale(id).unwrap();
    let all = s.list_all(None).unwrap();
    let rendered = render_memory_section(&all, None);
    assert!(rendered.contains("### Known concepts"));
    assert!(!rendered.contains("Hanoi"));
    assert_eq!(render_memory_section(&[], None), "");
}

#[test]
fn stored_rows_read_back_as_facts() {
    let f = mochi::memory::Fact::from_row(7, "Behavior", "tone".to_owned(), "terse".to_owned(), Some("default".to_owned()), 1, 2, "STALE", Some(3)).unwrap();
    assert_eq!(f.id, 7);
    assert_eq!(f.kind, mochi::memory::FactKind::Behavioral);
    assert_eq!(f.status, mochi::memory::FactStatus::Stale);
    assert_eq!(f.stale_at, Some(3));
    assert!(mochi::memory::Fact::from_row(1, "bogus", String::new(), String::new(), None, 0, 0, "active", None).is_none());
}

#[test]
fn archive_and_revive_by_slug() {
    let mut s = store();
    s.upsert(FactKind::Profile, "city", "Hanoi", None).unwrap();
    s.upsert(FactKind::State, "focus", "mochi", None).unwrap();
    assert_eq!(s.archive_slug("city"), 1);
    assert!(s.list(None).unwrap().iter().all(|f| f.slug != "city"));
    assert_eq!(s.list_all(None).unwrap().len(), 2);
    assert_eq!(s.archive_slug("city"), 0);
    assert_eq!(s.revive_slug("city"), 1);
    assert!(s.list(None).unwrap().iter().any(|f| f.slug == "city" && f.status == FactStatus::Active));
}

#[test]
fn revive_leaves_a_taken_slot_alone() {
    let mut s = store();
    s.upsert(FactKind::Profile, "city", "Hanoi", None).unwrap();
    s.archive_slug("city");
    s.upsert(FactKind::Profile, "city", "Saigon", None).unwrap();
    assert_eq!(s.revive_slug("city"), 0);
    let active: Vec<String> = s.list(None).unwrap().into_iter().filter(|f| f.slug == "city").map(|f| f.content).collect();
    assert_eq!(active, vec!["Saigon".to_owned()]);
}

#[test]
fn archived_facts_do_not_change_the_prompt() {
    let mk = |id: i64, kind: FactKind, slug: &str, status: FactStatus| Fact {
        id,
        kind,
        slug: slug.to_owned(),
        content: format!("c{id}"),
        skill_scope: None,
        created_at: 0,
        last_used: 0,
        status,
        stale_at: None,
    };
    let base = vec![mk(1, FactKind::Profile, "name", FactStatus::Active), mk(2, FactKind::State, "city", FactStatus::Active)];
    let mut with_stale = base.clone();
    with_stale.insert(1, mk(3, FactKind::State, "old-city", FactStatus::Stale));
    with_stale.push(mk(4, FactKind::Profile, "old-name", FactStatus::Stale));
    assert_eq!(render_memory_section(&with_stale, None), render_memory_section(&base, None));
    let text = render_memory_section(&base, None);
    assert!(text.find("### Profile").unwrap() < text.find("### Current state").unwrap());
}
