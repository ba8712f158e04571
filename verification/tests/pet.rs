use mochi::pet::{banner_for, label, overlay_caption, overlay_rect, sprite, sprite_for, PetCharacter, PetMood};

#[test]
fn every_character_renders_every_mood() {
    for ch in PetCharacter::all().iter() {
        for m in [PetMood::Idle, PetMood::Thinking, PetMood::Happy, PetMood::Sad, PetMood::Sleeping] {
            let s = sprite_for(*ch, m);
            assert!(s.lines().count() >= 3, "{ch:?}/{m:?} sprite too short");
        }
    }
}

#[test]
fn default_sprite_matches_mochi() {
    assert_eq!(sprite(PetMood::Idle), sprite_for(PetCharacter::Mochi, PetMood::Idle));
}

#[test]
fn parse_accepts_aliases() {
    assert_eq!(PetCharacter::parse("cat"), Some(PetCharacter::Mochi));
    assert_eq!(PetCharacter::parse("rabbit"), Some(PetCharacter::Bunny));
    assert_eq!(PetCharacter::parse("bot"), Some(PetCharacter::Robot));
    assert_eq!(PetCharacter::parse("nope"), None);
}

#[test]
fn labels_are_non_empty() {
    for m in [PetMood::Idle, PetMood::Thinking, PetMood::Happy, PetMood::Sad, PetMood::Sleeping] {
        assert!(!label(m).is_empty());
    }
}

#[test]
fn banner_includes_character_name() {
    let lines = banner_for(PetCharacter::Bunny);
    assert!(lines.iter().any(|line| line.contains("bunny")));
}

#[test]
fn banner_is_sprite_blank_and_tagline() {
    let lines = banner_for(PetCharacter::Frog);
    assert_eq!(lines.len(), 5);
    assert_eq!(lines[0], " (^)(^) ♪");
    assert_eq!(lines[3], "");
    assert_eq!(lines[4], "  ~ Mochi: your local-first terminal pet (frog) ~");
}

#[test]
fn sprite_continuation_lines_lose_leading_spaces() {
    assert_eq!(sprite_for(PetCharacter::Robot, PetMood::Idle), " ┌[¯]┐ \n|o_o|\n|___| ");
    assert_eq!(PetCharacter::parse("DRAGON"), Some(PetCharacter::Dragon));
    assert_eq!(PetCharacter::Dragon.name(), "dragon");
}

#[test]
fn overlay_goes_top_right_or_nowhere() {
    assert_eq!(overlay_rect(2, 3, 80, 24), Some((63, 3, 18, 5)));
    assert_eq!(overlay_rect(0, 0, 49, 24), None);
    assert_eq!(overlay_rect(0, 0, 80, 7), None);
    assert_eq!(overlay_caption(PetCharacter::Mochi, PetMood::Thinking), " mochi • thinking...");
}

#[test]
fn names_parse_back_in_any_case() {
    for ch in PetCharacter::all() {
        assert_eq!(PetCharacter::parse(ch.name()), Some(ch));
        assert_eq!(PetCharacter::parse(&ch.name().to_uppercase()), Some(ch));
    }
}

#[test]
fn moods_have_distinct_sprites_with_markers() {
    let moods = [PetMood::Idle, PetMood::Thinking, PetMood::Happy, PetMood::Sad, PetMood::Sleeping];
    for ch in PetCharacter::all() {
        for (i, a) in moods.iter().enumerate() {
            for b in &moods[i + 1..] {
                assert_ne!(sprite_for(ch, *a), sprite_for(ch, *b));
            }
        }
        assert!(sprite_for(ch, PetMood::Thinking).contains('?'));
        assert!(sprite_for(ch, PetMood::Happy).contains('♪'));
        assert!(sprite_for(ch, PetMood::Sleeping).contains("zZ"));
        for m in [PetMood::Idle, PetMood::Sad] {
            let s = sprite_for(ch, m);
            assert!(!s.contains('?') && !s.contains('♪') && !s.contains("zZ"));
        }
    }
}
