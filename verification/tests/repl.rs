use mochi::memory::FactKind;
use mochi::pet::{sprite, PetMood};
use mochi::repl::{
    pet_lines, plan_repl_memory, plan_repl_skill, repl_command, repl_skill_body, repl_skill_listing, repl_system, ReplCommand,
    ReplMemoryPlan, ReplSkillPlan,
};
use mochi::slash::SkillEntry;

fn words(raw: &str) -> Vec<String> {
    raw.split_whitespace().map(|s| s.to_owned()).collect()
}

#[test]
fn repl_lines_are_classified() {
    assert_eq!(repl_command("/quit"), ReplCommand::Quit);
    assert_eq!(repl_command("/exit"), ReplCommand::Quit);
    assert_eq!(repl_command("/memory"), ReplCommand::Memory);
    assert_eq!(repl_command("/zzz"), ReplCommand::Unknown);
    assert_eq!(repl_command("hello"), ReplCommand::Passthrough);
}

#[test]
fn pet_caption_follows_the_middle_line() {
    let lines = pet_lines(PetMood::Idle, "hi");
    let sprite_lines: Vec<&str> = sprite(PetMood::Idle).lines().collect();
    assert_eq!(lines.len(), sprite_lines.len());
    assert_eq!(lines[0], format!("  {}", sprite_lines[0]));
    assert_eq!(lines[1], format!("  {}   hi", sprite_lines[1]));
}

#[test]
fn repl_system_appends_skill() {
    assert_eq!(repl_system("M", "B", None, None), "MB");
    assert_eq!(repl_system("", "B", Some("s"), Some("body")), "B\n\n[Active skill: s]\nbody");
}

#[test]
fn repl_memory_plans() {
    let raw = "/memory remember behavioral terse-replies  keep it short";
    assert_eq!(
        plan_repl_memory(raw, &words(raw), Some("grumpy")),
        ReplMemoryPlan::Remember {
            kind: FactKind::Behavioral,
            slug: "terse-replies".to_owned(),
            content: "keep it short".to_owned(),
            scope: Some("grumpy".to_owned())
        }
    );
    let raw = "/memory remember state home Paris";
    assert!(matches!(plan_repl_memory(raw, &words(raw), None), ReplMemoryPlan::Remember { scope: None, .. }));
    let raw = "/memory";
    assert_eq!(plan_repl_memory(raw, &words(raw), None), ReplMemoryPlan::List(None));
    let raw = "/memory forget";
    assert_eq!(plan_repl_memory(raw, &words(raw), None), ReplMemoryPlan::Say("  usage: /memory forget SLUG\n".to_owned()));
    let raw = "/memory bogus";
    assert_eq!(
        plan_repl_memory(raw, &words(raw), None),
        ReplMemoryPlan::Say("  /memory: unknown subcommand `bogus`. Try: list, remember, forget, profile\n".to_owned())
    );
}

#[test]
fn repl_skill_plans() {
    let installed = vec!["grumpy".to_owned()];
    assert_eq!(plan_repl_skill(&words("/skill"), &installed), ReplSkillPlan::List);
    assert_eq!(
        plan_repl_skill(&words("/skill use grumpy"), &installed),
        ReplSkillPlan::Use { name: "grumpy".to_owned(), message: "  active skill: grumpy\n".to_owned() }
    );
    assert_eq!(plan_repl_skill(&words("/skill use"), &installed), ReplSkillPlan::Say("  usage: /skill use NAME\n".to_owned()));
    assert_eq!(plan_repl_skill(&words("/skill show x"), &installed), ReplSkillPlan::Say("  unknown skill: x\n".to_owned()));
    assert_eq!(plan_repl_skill(&words("/skill show grumpy"), &installed), ReplSkillPlan::Show("grumpy".to_owned()));
    assert_eq!(plan_repl_skill(&words("/skill off"), &installed), ReplSkillPlan::Off("  skill deactivated.\n".to_owned()));
    assert_eq!(
        plan_repl_skill(&words("/skill zap"), &installed),
        ReplSkillPlan::Say("  /skill: unknown subcommand `zap`. Try: list, use, off, show\n".to_owned())
    );
}

#[test]
fn repl_skill_listing_marks_active() {
    let entries = vec![
        SkillEntry { name: "a".to_owned(), description: String::new() },
        SkillEntry { name: "b".to_owned(), description: "does b".to_owned() },
    ];
    let out = repl_skill_listing(&entries, Some("b"));
    assert_eq!(out, format!("    {:<20} (no description)\n  * {:<20} does b\n\n", "a", "b"));
    assert!(repl_skill_listing(&[], None).starts_with("  no skills installed."));
    assert_eq!(repl_skill_body("n", "b"), "  --- n ---\nb\n  --- end ---\n\n");
}
