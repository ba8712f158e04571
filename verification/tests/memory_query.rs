use mochi::memory::{FactKind, MemoryStore};
use mochi::memory_query::{match_facts, parse_propose_response, propose_wanted, MemoryQuery};

#[test]
fn parser_extracts_typed_queries() {
    let raw = "profile|user name\nconcept|user city\nbehavioral|reply length";
    let qs = parse_propose_response(raw);
    assert_eq!(qs.len(), 3);
    assert_eq!(qs[0].tag, FactKind::Profile);
    assert_eq!(qs[0].query, "user name");
    assert_eq!(qs[1].tag, FactKind::Concept);
    assert_eq!(qs[2].tag, FactKind::Behavioral);
}

#[test]
fn parser_caps_at_three_queries() {
    let raw = "profile|a\nconcept|b\nstate|c\nbehavioral|d\nprofile|e";
    let qs = parse_propose_response(raw);
    assert_eq!(qs.len(), 3);
}

#[test]
fn parser_drops_unknown_tags_and_overlong_queries() {
    let raw = "rubbish|x\nprofile|short ok\nconcept|this query is way too long because it has more than twelve words at minimum okay";
    let qs = parse_propose_response(raw);
    assert_eq!(qs.len(), 1);
    assert_eq!(qs[0].query, "short ok");
}

#[test]
fn parser_ignores_prose_around_lines() {
    let raw = "Here are the queries:\nprofile|name\nthat's it.\n";
    assert_eq!(parse_propose_response(raw).len(), 1);
}

#[test]
fn parser_handles_empty_input() {
    assert!(parse_propose_response("").is_empty());
    assert!(parse_propose_response("\n\n\n").is_empty());
}

#[test]
fn parser_strips_mixed_quotes_and_keeps_pipes() {
    let qs = parse_propose_response("state|'\"current | task\"'");
    assert_eq!(qs.len(), 1);
    assert_eq!(qs[0].query, "current | task");
    let twelve = "concept|a b c d e f g h i j k l";
    assert_eq!(parse_propose_response(twelve).len(), 1);
}

#[test]
fn match_facts_returns_token_overlap_hits() {
    let mut store = MemoryStore::open_in_memory().unwrap();
    store.upsert(FactKind::Concept, "city", "User lives in Saigon, Vietnam.", None).unwrap();
    store.upsert(FactKind::Concept, "language", "Vietnamese, English.", None).unwrap();
    store.upsert(FactKind::Profile, "name", "Duc", None).unwrap();

    let queries = vec![MemoryQuery { tag: FactKind::Concept, query: "user saigon location".into() }];
    let hits = match_facts(&queries, &store, None);
    assert_eq!(hits.len(), 1);
    assert_eq!(hits[0].slug, "city");
}

#[test]
fn match_facts_filters_behavioral_by_active_skill() {
    let mut store = MemoryStore::open_in_memory().unwrap();
    store.upsert(FactKind::Behavioral, "tone", "prefers terse", Some("default")).unwrap();
    store.upsert(FactKind::Behavioral, "tone", "very dramatic, sighs", Some("grumpy-cat")).unwrap();

    let queries = vec![MemoryQuery { tag: FactKind::Behavioral, query: "tone preference".into() }];
    let hits_default = match_facts(&queries, &store, None);
    assert_eq!(hits_default.len(), 1);
    assert!(hits_default[0].content.contains("terse"));

    let hits_grumpy = match_facts(&queries, &store, Some("grumpy-cat"));
    assert_eq!(hits_grumpy.len(), 1);
    assert!(hits_grumpy[0].content.contains("dramatic"));
}

#[test]
fn match_facts_dedupes_across_queries() {
    let mut store = MemoryStore::open_in_memory().unwrap();
    store.upsert(FactKind::Concept, "rust", "Daily driver language", None).unwrap();
    let queries = vec![
        MemoryQuery { tag: FactKind::Concept, query: "rust language".into() },
        MemoryQuery { tag: FactKind::Concept, query: "driver rust".into() },
    ];
    let hits = match_facts(&queries, &store, None);
    assert_eq!(hits.len(), 1);
}

#[test]
fn match_facts_returns_empty_when_no_overlap() {
    let mut store = MemoryStore::open_in_memory().unwrap();
    store.upsert(FactKind::Concept, "rust", "language", None).unwrap();
    let queries = vec![MemoryQuery { tag: FactKind::Concept, query: "completely unrelated cabbage".into() }];
    let hits = match_facts(&queries, &store, None);
    assert!(hits.is_empty());
}

#[test]
fn match_facts_best_score_first_and_three_per_query() {
    let mut store = MemoryStore::open_in_memory().unwrap();
    store.upsert_at(FactKind::Concept, "one", "alpha", None, 50).unwrap();
    store.upsert_at(FactKind::Concept, "two", "alpha beta", None, 40).unwrap();
    store.upsert_at(FactKind::Concept, "three", "alpha beta gamma", None, 30).unwrap();
    store.upsert_at(FactKind::Concept, "four", "alpha", None, 20).unwrap();
    let queries = vec![MemoryQuery { tag: FactKind::Concept, query: "alpha beta gamma".into() }];
    let hits = match_facts(&queries, &store, None);
    let slugs: Vec<&str> = hits.iter().map(|f| f.slug.as_str()).collect();
    assert_eq!(slugs, vec!["three", "two", "one"]);
}

#[test]
fn propose_wanted_skips_blank_scenes() {
    assert!(!propose_wanted(" \n "));
    assert!(propose_wanted("hi"));
}
