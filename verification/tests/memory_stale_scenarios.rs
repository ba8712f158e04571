use mochi::memory::{render_memory_section, FactKind, FactStatus, MemoryStore};

fn fresh_store() -> MemoryStore {
    MemoryStore::open_in_memory().unwrap()
}


#[test]
fn type_i_co_referential_location_change_archives_old_and_installs_new() {
    let mut store = fresh_store();
    let old_id = store.upsert(FactKind::Profile, "city", "Hanoi", None).unwrap();
    store.mark_stale(old_id).unwrap();
    store.upsert(FactKind::Profile, "city", "Saigon", None).unwrap();

    let active = store.list(None).unwrap();
    let cities: Vec<&str> =
        active.iter().filter(|f| f.slug == "city").map(|f| f.content.as_str()).collect();
    assert_eq!(cities, vec!["Saigon"], "active readout must show only the new value");

    let all = store.list_all(None).unwrap();
    let stale_count =
        all.iter().filter(|f| f.slug == "city" && f.status == FactStatus::Stale).count();
    assert_eq!(stale_count, 1, "old value must remain archived for audit");
}

#[test]
fn type_i_state_focus_change_does_not_leak_old_into_prompt() {
    let mut store = fresh_store();
    let old_id = store.upsert(FactKind::State, "focus", "writing Mochi", None).unwrap();
    store.mark_stale(old_id).unwrap();
    store.upsert(FactKind::State, "focus", "working on crab-eval", None).unwrap();

    let rendered = render_memory_section(&store.list(None).unwrap(), None);
    assert!(rendered.contains("crab-eval"));
    assert!(
        !rendered.contains("Mochi"),
        "archived state must not appear in prompt: {rendered}"
    );
}

#[test]
fn type_i_profile_role_paraphrase_uses_reuse_not_replace() {
    let mut store = fresh_store();
    store.upsert(FactKind::Profile, "role", "AI engineer", None).unwrap();
    store.upsert(FactKind::Profile, "role", "AI Engineer", None).unwrap();
    let active: Vec<_> = store
        .list(Some(FactKind::Profile))
        .unwrap()
        .into_iter()
        .filter(|f| f.slug == "role")
        .collect();
    assert_eq!(active.len(), 1, "reuse must not create duplicate rows");
    assert_eq!(active[0].status, FactStatus::Active);
}


#[test]
fn type_ii_location_change_propagates_stale_to_commute_routine() {
    let mut store = fresh_store();
    let _city = store.upsert(FactKind::Profile, "city", "Hanoi", None).unwrap();
    let commute_id =
        store.upsert(FactKind::State, "commute", "bikes around West Lake daily", None).unwrap();

    let city_id =
        store.list(Some(FactKind::Profile)).unwrap().iter().find(|f| f.slug == "city").unwrap().id;
    store.mark_stale(city_id).unwrap();
    store.upsert(FactKind::Profile, "city", "Saigon", None).unwrap();
    store.mark_stale(commute_id).unwrap();

    let rendered = render_memory_section(&store.list(None).unwrap(), None);
    assert!(rendered.contains("Saigon"));
    assert!(
        !rendered.contains("West Lake"),
        "Type II propagation: commute fact must be archived after location change"
    );
    assert!(!rendered.contains("Hanoi"), "old location must not leak");
}

#[test]
fn type_ii_health_change_propagates_unknown_to_routine() {
    let mut store = fresh_store();
    let routine_id =
        store.upsert(FactKind::State, "morning-routine", "5km run at sunrise", None).unwrap();
    store.upsert(FactKind::Concept, "injury", "broken leg, recovering", None).unwrap();
    store.mark_unknown(routine_id).unwrap();

    let rendered = render_memory_section(&store.list(None).unwrap(), None);
    assert!(
        rendered.contains("UNRESOLVED"),
        "UNKNOWN-status state fact must surface warning marker: {rendered}"
    );
    assert!(
        rendered.contains("5km run"),
        "warning marker must cite the prior value so the assistant knows what was retired"
    );
}

#[test]
fn type_ii_orthogonal_observation_does_not_invalidate_unrelated_state() {
    let mut store = fresh_store();
    let focus_id = store.upsert(FactKind::State, "focus", "crab-eval research", None).unwrap();
    store.upsert(FactKind::Concept, "hardware", "bought a new keyboard", None).unwrap();
    let focus = store.get(focus_id).unwrap().unwrap();
    assert_eq!(focus.status, FactStatus::Active, "orthogonal observation must not cascade");
}


#[test]
fn sr_invariant_stale_fact_invisible_to_active_readout() {
    let mut store = fresh_store();
    let bike_id =
        store.upsert(FactKind::State, "commute", "cycles to work every day", None).unwrap();
    store.mark_stale(bike_id).unwrap();
    let rendered = render_memory_section(&store.list(None).unwrap(), None);
    assert!(!rendered.contains("cycles"));
    assert!(!rendered.contains("commute"));
}

#[test]
fn pr_invariant_archived_premise_does_not_render() {
    let mut store = fresh_store();
    let id = store.upsert(FactKind::Profile, "city", "Portland", None).unwrap();
    store.mark_stale(id).unwrap();
    store.upsert(FactKind::Profile, "city", "Phoenix", None).unwrap();
    let rendered = render_memory_section(&store.list(None).unwrap(), None);
    assert!(rendered.contains("Phoenix"));
    assert!(!rendered.contains("Portland"));
}

#[test]
fn ipa_invariant_current_state_remains_in_prompt() {
    let mut store = fresh_store();
    store.upsert(FactKind::State, "focus", "Sprint 11 memory adjudication", None).unwrap();
    store.upsert(FactKind::Profile, "city", "Hanoi", None).unwrap();
    let rendered = render_memory_section(&store.list(None).unwrap(), None);
    assert!(rendered.contains("Sprint 11"));
    assert!(rendered.contains("Hanoi"));
}


#[test]
fn revive_restores_visibility_after_false_archive() {
    let mut store = fresh_store();
    let id = store.upsert(FactKind::State, "task", "drafting paper", None).unwrap();
    store.mark_stale(id).unwrap();
    assert!(!render_memory_section(&store.list(None).unwrap(), None).contains("drafting"));

    store.mark_active(id).unwrap();
    let rendered = render_memory_section(&store.list(None).unwrap(), None);
    assert!(rendered.contains("drafting paper"));
}
