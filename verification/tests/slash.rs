use mochi::cli::Provider;
use mochi::memory::FactKind;
use mochi::session::MemoryMode;
use mochi::slash::{
    extract_port, markdown_table_cell, opus_model_id_for_version, opus_version_label_for_model_id, plan_memory, plan_skill,
    render_docs_table, restate_outcome, slugify_query, try_handle_submit, DocsRow, MemoryPlan, RestateOutcome, SkillPlan,
    SlashCommand, MEMORY_HELP,
};

fn words(raw: &str) -> Vec<String> {
    raw.split_whitespace().skip(1).map(|s| s.to_owned()).collect()
}

fn plan(raw: &str, p: Provider) -> MemoryPlan {
    plan_memory(raw, &words(raw), p)
}

#[test]
fn slash_names_dispatch() {
    assert_eq!(try_handle_submit("/memory"), SlashCommand::Memory);
    assert_eq!(try_handle_submit("/1m-context"), SlashCommand::OneMContext);
    assert_eq!(try_handle_submit("/nope"), SlashCommand::Unknown);
}

#[test]
fn memory_plans_cover_subcommands() {
    assert_eq!(plan("/memory", Provider::Llamacpp), MemoryPlan::List(None));
    assert_eq!(plan("/memory list State", Provider::Llamacpp), MemoryPlan::List(Some(FactKind::State)));
    assert_eq!(
        plan("/memory remember concept rust-lang  Rust is a language", Provider::Llamacpp),
        MemoryPlan::Remember { kind: FactKind::Concept, slug: "rust-lang".to_owned(), content: "Rust is a language".to_owned() }
    );
    assert_eq!(plan("/memory forget x", Provider::Llamacpp), MemoryPlan::Forget("x".to_owned()));
    assert_eq!(plan("/memory profile", Provider::Llamacpp), MemoryPlan::ShowProfile);
    assert_eq!(plan("/memory profile I code", Provider::Llamacpp), MemoryPlan::SetProfile("I code".to_owned()));
    assert_eq!(plan("/memory mode active", Provider::Llamacpp), MemoryPlan::SetMode(MemoryMode::Active));
    assert_eq!(plan("/memory mode", Provider::Llamacpp), MemoryPlan::SetMode(MemoryMode::All));
    assert_eq!(plan("/memory restate home", Provider::Llamacpp), MemoryPlan::Restate("home".to_owned()));
    assert_eq!(plan("/memory bogus", Provider::Llamacpp), MemoryPlan::Say(MEMORY_HELP.to_owned()));
    assert_eq!(plan("/memory list all", Provider::Llamacpp), MemoryPlan::ListAll(None));
    assert_eq!(plan("/memory list all state", Provider::Llamacpp), MemoryPlan::ListAll(Some(FactKind::State)));
    assert_eq!(plan("/memory archive city", Provider::Llamacpp), MemoryPlan::Archive("city".to_owned()));
    assert_eq!(plan("/memory revive city", Provider::Llamacpp), MemoryPlan::Revive("city".to_owned()));
    assert_eq!(plan("/memory revive", Provider::Llamacpp), MemoryPlan::Say("usage: /memory revive SLUG".to_owned()));
}

#[test]
fn model_backed_memory_commands_need_llama() {
    assert_eq!(
        plan("/memory consolidate", Provider::Anthropic),
        MemoryPlan::Warn("memory consolidate requires llamacpp provider".to_owned())
    );
    assert_eq!(plan("/memory query where", Provider::Llamacpp), MemoryPlan::Query("where".to_owned()));
    assert!(matches!(plan("/memory query where", Provider::Anthropic), MemoryPlan::Warn(_)));
    assert!(matches!(plan("/memory remember bogus x y", Provider::Llamacpp), MemoryPlan::Say(_)));
}

#[test]
fn skill_plans_check_installed_names() {
    let installed = vec!["grumpy".to_owned()];
    assert_eq!(plan_skill(&[], &installed), SkillPlan::List);
    assert_eq!(plan_skill(&["use".to_owned(), "grumpy".to_owned()], &installed), SkillPlan::Use("grumpy".to_owned()));
    assert_eq!(plan_skill(&["off".to_owned()], &installed), SkillPlan::Off);
    assert!(matches!(plan_skill(&["use".to_owned(), "nope".to_owned()], &installed), SkillPlan::Say(_)));
}

#[test]
fn ports_come_from_the_authority() {
    assert_eq!(extract_port("http://127.0.0.1:8765"), Some(8765));
    assert_eq!(extract_port("http://h:80/v1"), Some(80));
    assert_eq!(extract_port("http://h"), None);
    assert_eq!(extract_port("h:80"), None);
    assert_eq!(extract_port("http://h:99999"), None);
}

#[test]
fn query_slugs_are_kebab_and_short() {
    assert_eq!(slugify_query("Where do I live?"), "where-do-i-live");
    assert_eq!(slugify_query("???"), "observation");
    assert_eq!(slugify_query(&"a".repeat(50)).len(), 40);
}

#[test]
fn restate_reports_or_writes() {
    assert_eq!(restate_outcome("home", "Paris", Some("Paris")), RestateOutcome::Report("memory restate[home]: no change (Paris)".to_owned()));
    assert_eq!(restate_outcome("home", "Paris", Some("Lyon")), RestateOutcome::Write("Lyon".to_owned()));
    assert_eq!(restate_outcome("home", "Paris", None), RestateOutcome::Report("memory restate: llama returned empty answer".to_owned()));
}

#[test]
fn opus_versions_round_trip() {
    let m = opus_model_id_for_version("4.6").unwrap();
    assert_eq!(opus_version_label_for_model_id(m), Some("4.6"));
    assert_eq!(opus_model_id_for_version("5.0"), None);
    assert_eq!(opus_version_label_for_model_id("other"), None);
}

#[test]
fn table_cells_escape_pipes_and_newlines() {
    assert_eq!(markdown_table_cell("  a|b\r\nc  "), "a\\|b - c");
    let rows = vec![DocsRow { left: "x".to_owned(), right: "y|z".to_owned() }];
    assert_eq!(render_docs_table("T", "I", ("A", "B"), &rows), "# T\n\nI\n\n| A | B |\n| --- | --- |\n| x | y\\|z |\n");
}

#[test]
fn archive_and_revive_messages() {
    assert_eq!(mochi::slash::archived_message("city", 2), "archived 2 fact(s) `city`");
    assert_eq!(mochi::slash::archived_message("city", 0), "no active fact named `city`");
    assert_eq!(mochi::slash::revived_message("city", 1), "revived 1 fact(s) `city`");
}
