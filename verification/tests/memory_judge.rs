use mochi::memory::{Fact, FactKind, FactStatus};
use mochi::memory_capture::CapturedFact;
use mochi::memory_judge::{
    consolidate_prompt, consolidated_profile, judge_prompt, observe_prompt, observed_pattern, overlap,
    parse_judge_response, pick_best_candidate, restate_prompt, restated_answer, tokenize, JudgeOutcome, parse_propagate_response, propagate_prompt, propagation_targets,
    status_after_propagation, PropagateOutcome, PROPAGATE_MAX_FACTS,
};

fn fact(id: i64, slug: &str, content: &str) -> Fact {
    Fact {
        id,
        kind: FactKind::Concept,
        slug: slug.to_owned(),
        content: content.to_owned(),
        skill_scope: None,
        created_at: 0,
        last_used: 0,
        status: FactStatus::Active,
        stale_at: None,
    }
}

#[test]
fn parser_accepts_single_word_lowercase() {
    assert!(matches!(parse_judge_response("reuse", 7), JudgeOutcome::Reuse { existing_id: 7 }));
    assert!(matches!(parse_judge_response("derive", 7), JudgeOutcome::Derive { existing_id: 7 }));
    assert!(matches!(parse_judge_response("new", 7), JudgeOutcome::New));
}

#[test]
fn parser_strips_punctuation_and_capitalization() {
    assert!(matches!(parse_judge_response("Reuse.", 1), JudgeOutcome::Reuse { existing_id: 1 }));
    assert!(matches!(parse_judge_response("**NEW**\n", 2), JudgeOutcome::New));
}

#[test]
fn parser_defaults_to_new_on_garbage() {
    assert!(matches!(parse_judge_response("hello world", 1), JudgeOutcome::New));
    assert!(matches!(parse_judge_response("", 1), JudgeOutcome::New));
}

#[test]
fn parser_takes_first_word_only() {
    assert!(matches!(parse_judge_response("reuse — same", 5), JudgeOutcome::Reuse { existing_id: 5 }));
}

#[test]
fn parser_skips_blank_leading_lines() {
    assert_eq!(parse_judge_response("\n   \n  `derive` because", 3), JudgeOutcome::Derive { existing_id: 3 });
}

#[test]
fn tokenize_drops_stopwords_and_short_tokens() {
    let toks = tokenize("The user lives in Saigon, Vietnam");
    assert!(toks.contains(&"lives".to_owned()));
    assert!(toks.contains(&"saigon".to_owned()));
    assert!(toks.contains(&"vietnam".to_owned()));
    assert!(!toks.contains(&"the".to_owned()));
    assert!(!toks.contains(&"in".to_owned()));
    assert!(!toks.contains(&"user".to_owned()));
}

#[test]
fn overlap_counts_shared_tokens() {
    let a = tokenize("user lives in Saigon");
    let b = tokenize("user works in Saigon office");
    assert_eq!(overlap(&a, &b), 1);
}

#[test]
fn tokenize_keeps_single_non_ascii_letter() {
    assert_eq!(tokenize("é x ab"), vec!["é".to_owned(), "ab".to_owned()]);
}

#[test]
fn pick_best_returns_highest_overlap() {
    let candidate = CapturedFact {
        kind: FactKind::Concept,
        slug: "location".into(),
        content: "User lives in Saigon Vietnam".into(),
    };
    let a = fact(1, "city", "Tokyo");
    let b = fact(2, "location", "Saigon, Vietnam");
    let c = fact(3, "language", "Rust");
    let existing = vec![&a, &b, &c];
    let best = pick_best_candidate(&candidate, &existing).unwrap();
    assert_eq!(best.id, 2);
}

#[test]
fn pick_best_returns_none_for_empty() {
    let candidate = CapturedFact { kind: FactKind::Concept, slug: "x".into(), content: "y".into() };
    let existing: Vec<&Fact> = vec![];
    assert!(pick_best_candidate(&candidate, &existing).is_none());
}

#[test]
fn pick_best_prefers_last_of_equal_scores() {
    let candidate = CapturedFact { kind: FactKind::Concept, slug: "zz".into(), content: "qq".into() };
    let a = fact(1, "aa", "bb");
    let b = fact(2, "cc", "dd");
    let existing = vec![&a, &b];
    assert_eq!(pick_best_candidate(&candidate, &existing).unwrap().id, 2);
    let blank = CapturedFact { kind: FactKind::Concept, slug: "a".into(), content: "b".into() };
    assert_eq!(pick_best_candidate(&blank, &existing).unwrap().id, 1);
}

#[test]
fn judge_prompt_names_both_facts() {
    let best = fact(-4, "city", "Tokyo");
    let cand = CapturedFact { kind: FactKind::Profile, slug: "loc".into(), content: "Saigon".into() };
    assert_eq!(
        judge_prompt(&best, &cand),
        "Existing fact (id=-4):\n  kind: concept\n  slug: city\n  content: Tokyo\n\nNew fact:\n  kind: profile\n  slug: loc\n  content: Saigon\n\nOutput one word: reuse, derive, replace, or new."
    );
}

#[test]
fn restate_and_observe_prompts_number_messages() {
    let msgs = vec!["first".to_owned(), "second".to_owned()];
    assert_eq!(
        restate_prompt("task", "old", &msgs).unwrap(),
        "State slug: task\nCurrent answer: old\n\nRecent user messages (oldest → newest):\n1. first\n2. second\n\nWrite the updated answer now."
    );
    assert!(restate_prompt("task", "old", &[]).is_none());
    assert_eq!(
        observe_prompt("tone", &msgs).unwrap(),
        "Behavioral query: tone\n\nRecent user messages:\n1. first\n2. second\n\nSummarize the pattern as a short clause, or output `none`."
    );
}

#[test]
fn replies_are_cleaned() {
    assert_eq!(restated_answer("  \"'moved to Saigon'\"  ").as_deref(), Some("moved to Saigon"));
    assert_eq!(restated_answer("  \"\" "), None);
    assert_eq!(observed_pattern(" None "), None);
    assert_eq!(observed_pattern("prefers terse replies").as_deref(), Some("prefers terse replies"));
    assert_eq!(consolidated_profile("  Duc is an engineer.  ").as_deref(), Some("Duc is an engineer."));
    assert_eq!(consolidated_profile(" \n "), None);
}

#[test]
fn consolidate_prompt_lists_facts() {
    let mut f = fact(1, "city", "Hanoi");
    f.skill_scope = Some("default".into());
    let g = fact(2, "rust", "daily");
    assert_eq!(
        consolidate_prompt(&[f, g]).unwrap(),
        "Facts:\n- [concept] city (scope=default): Hanoi\n- [concept] rust (scope=-): daily\n\nWrite the ~200-word narrative profile now."
    );
    assert!(consolidate_prompt(&[]).is_none());
}

#[test]
fn replace_verdict_names_the_existing_fact() {
    assert_eq!(parse_judge_response("replace", 3), JudgeOutcome::Replace { existing_id: 3 });
    assert_eq!(parse_judge_response("`Replace` — moved city", 9), JudgeOutcome::Replace { existing_id: 9 });
    assert!(judge_prompt(&fact(1, "city", "Hanoi"), &CapturedFact { kind: FactKind::Concept, slug: "city".to_owned(), content: "Saigon".to_owned() })
        .ends_with("Output one word: reuse, derive, replace, or new."));
}

#[test]
fn propagation_verdicts_and_statuses() {
    assert_eq!(parse_propagate_response("stale"), PropagateOutcome::Stale);
    assert_eq!(parse_propagate_response("Unknown."), PropagateOutcome::Unknown);
    assert_eq!(parse_propagate_response("keep"), PropagateOutcome::Keep);
    assert_eq!(parse_propagate_response("no idea"), PropagateOutcome::Keep);
    assert_eq!(status_after_propagation(PropagateOutcome::Stale), Some(FactStatus::Stale));
    assert_eq!(status_after_propagation(PropagateOutcome::Unknown), Some(FactStatus::Unknown));
    assert_eq!(status_after_propagation(PropagateOutcome::Keep), None);
}

#[test]
fn propagation_prompt_shows_change_and_fact() {
    let mut f = fact(4, "commute", "bikes past West Lake");
    f.kind = FactKind::State;
    assert_eq!(
        propagate_prompt("lives in Saigon", "lives in Hanoi", &f),
        "New observation: lives in Saigon\nPrevious value (now archived): lives in Hanoi\n\nStored fact:\n  kind: state\n  slug: commute\n  content: bikes past West Lake\n\nOutput one word: keep, stale, or unknown."
    );
}

#[test]
fn propagation_checks_first_five_other_state_facts() {
    let mut facts = Vec::new();
    for id in 1..=9 {
        let mut f = fact(id, &format!("s{id}"), "x");
        f.kind = if id == 2 { FactKind::Profile } else { FactKind::State };
        if id == 3 {
            f.status = FactStatus::Stale;
        }
        facts.push(f);
    }
    // id 2 is not a state fact, id 3 is archived, id 4 was just written.
    assert_eq!(propagation_targets(&facts, 4), vec![0, 4, 5, 6, 7]);
    assert_eq!(propagation_targets(&facts[..2], 4), vec![0]);
    assert!(propagation_targets(&[], 1).is_empty());
    assert_eq!(PROPAGATE_MAX_FACTS, 5);
}
