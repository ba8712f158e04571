use mochi::skills::{parse_skill, split_frontmatter, SkillError};

#[test]
fn parses_minimal_skill() {
    let raw = "---\nname: grumpy\ndescription: Be grumpy\n---\nYou are grumpy.\n";
    let skill = parse_skill(raw, "/tmp/SKILL.md").unwrap();
    assert_eq!(skill.name, "grumpy");
    assert_eq!(skill.description, "Be grumpy");
    assert_eq!(skill.body, "You are grumpy.");
}

#[test]
fn parses_quoted_values_and_preserves_inner_colons() {
    let raw = "---\nname: \"q-name\"\ndescription: 'with: colons'\n---\nbody\n";
    let skill = parse_skill(raw, "/tmp/SKILL.md").unwrap();
    assert_eq!(skill.name, "q-name");
    assert_eq!(skill.description, "with: colons");
}

#[test]
fn rejects_missing_opening_delimiter() {
    let raw = "name: grumpy\n";
    assert!(parse_skill(raw, "/tmp/SKILL.md").is_err());
}

#[test]
fn rejects_missing_closing_delimiter() {
    let raw = "---\nname: grumpy\n";
    assert!(parse_skill(raw, "/tmp/SKILL.md").is_err());
}

#[test]
fn rejects_missing_name() {
    let raw = "---\ndescription: only\n---\nbody\n";
    assert!(parse_skill(raw, "/tmp/SKILL.md").is_err());
}

#[test]
fn body_can_be_empty() {
    let raw = "---\nname: only\n---\n";
    let (fm, body) = split_frontmatter(raw).unwrap();
    assert_eq!(fm.get("name").unwrap(), "only");
    assert!(body.is_empty());
}

#[test]
fn frontmatter_handles_bom_crlf_comments_and_repeats() {
    let raw = "\u{feff}  ---\r\nname: first\r\n# note: ignored\r\nname: second\r\n: no key\r\n---\r\n\r\nBody line\r\n";
    let (fm, body) = split_frontmatter(raw).unwrap();
    assert_eq!(fm.get("name").unwrap(), "second");
    assert!(fm.get("# note").is_none());
    assert!(fm.get("").is_none());
    assert_eq!(body, "\nBody line\n");
}

#[test]
fn skill_errors_name_the_problem() {
    assert_eq!(parse_skill("x", "/s").err(), Some(SkillError::MissingOpening));
    assert_eq!(parse_skill("---\na: b", "/s").err(), Some(SkillError::MissingClosing));
    assert_eq!(parse_skill("---\na: b\n---", "/s").err(), Some(SkillError::MissingName));
    assert_eq!(SkillError::MissingName.message(), "missing `name` in frontmatter");
}

#[test]
fn parsed_skill_keeps_its_source_path() {
    let skill = parse_skill("---\nname: a\n---\nb", "/skills/a/SKILL.md").unwrap();
    assert_eq!(skill.source, "/skills/a/SKILL.md");
}
