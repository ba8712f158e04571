use mochi::memory::FactKind;
use mochi::memory_capture::{capture_wanted, normalize_slug, parse_capture_response, CapturedFact};

#[test]
fn parses_two_well_formed_lines() {
    let txt = "profile|name|User's name is Duc.\nconcept|location|User lives in Saigon, Vietnam.";
    let facts = parse_capture_response(txt);
    assert_eq!(
        facts,
        vec![
            CapturedFact { kind: FactKind::Profile, slug: "name".to_owned(), content: "User's name is Duc.".to_owned() },
            CapturedFact {
                kind: FactKind::Concept,
                slug: "location".to_owned(),
                content: "User lives in Saigon, Vietnam.".to_owned(),
            },
        ]
    );
}

#[test]
fn ignores_prose_around_facts() {
    let txt = "Here are the facts:\nprofile|name|Duc\nThat's all.\n";
    assert_eq!(parse_capture_response(txt).len(), 1);
}

#[test]
fn empty_input_yields_empty_output() {
    assert!(parse_capture_response("").is_empty());
    assert!(parse_capture_response("   \n\n   ").is_empty());
}

#[test]
fn rejects_unknown_kind() {
    assert!(parse_capture_response("rubbish|slug|content").is_empty());
}

#[test]
fn handles_pipes_inside_content() {
    let facts = parse_capture_response("concept|languages|knows Rust|Python|TypeScript");
    assert_eq!(facts.len(), 1);
    assert_eq!(facts[0].content, "knows Rust|Python|TypeScript");
}

#[test]
fn normalize_slug_kebab_lower() {
    assert_eq!(normalize_slug("My Cool Slug"), "my-cool-slug");
    assert_eq!(normalize_slug("UPPER_case"), "upper-case");
    assert_eq!(normalize_slug("--leading-and-trailing--"), "leading-and-trailing");
    assert_eq!(normalize_slug("with!!punct??"), "withpunct");
}

#[test]
fn capture_strips_quotes_comments_and_crlf() {
    let txt = "# comment|x|y\r\nstate|Current  Task|\"'writing tests'\"\r\nbehavior|tone|  terse  \r\nprofile|!!!|nothing\n";
    let facts = parse_capture_response(txt);
    assert_eq!(facts.len(), 2);
    assert_eq!(facts[0].kind, FactKind::State);
    assert_eq!(facts[0].slug, "current-task");
    assert_eq!(facts[0].content, "writing tests");
    assert_eq!(facts[1].kind, FactKind::Behavioral);
    assert_eq!(facts[1].content, "terse");
}

#[test]
fn capture_wanted_skips_blank_messages() {
    assert!(!capture_wanted("  \t\n"));
    assert!(capture_wanted(" hi "));
}
