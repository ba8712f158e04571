//! The terminal pet: characters, moods, their ASCII sprites and the banner.
use crate::text::{ascii_lower, ascii_upper, chars_of, is_ascii_seq, lines, lines_of, lowercase, str_eq, string_of, to_lowercase};
use vstd::string::StringExecFns;
use vstd::prelude::*;

verus! {

#[derive(Debug, Clone, Copy, PartialEq, Eq, Structural)]
pub enum PetMood {
    Idle,
    Thinking,
    Happy,
    Sad,
    Sleeping,
}

#[derive(Debug, Clone, Copy, PartialEq, Eq, Structural)]
pub enum PetCharacter {
    Mochi,
    Bunny,
    Frog,
    Robot,
    Dragon,
}

pub open spec fn character_name(c: PetCharacter) -> Seq<char> {
    match c {
        PetCharacter::Mochi => "mochi"@,
        PetCharacter::Bunny => "bunny"@,
        PetCharacter::Frog => "frog"@,
        PetCharacter::Robot => "robot"@,
        PetCharacter::Dragon => "dragon"@,
    }
}

/// The character an already-lowercased word names (names and aliases).
pub open spec fn character_of_word(w: Seq<char>) -> Option<PetCharacter> {
    if w == "mochi"@ || w == "cat"@ {
        Some(PetCharacter::Mochi)
    } else if w == "bunny"@ || w == "rabbit"@ {
        Some(PetCharacter::Bunny)
    } else if w == "frog"@ {
        Some(PetCharacter::Frog)
    } else if w == "robot"@ || w == "bot"@ {
        Some(PetCharacter::Robot)
    } else if w == "dragon"@ {
        Some(PetCharacter::Dragon)
    } else {
        None
    }
}

impl PetCharacter {
    /// Case-insensitive parse of a character name or alias.
    pub fn parse(s: &str) -> (r: Option<PetCharacter>)
        ensures
            r == character_of_word(lowercase(s@)),
            is_ascii_seq(s@) ==> r == character_of_word(ascii_lower(s@)),
    {
        let l = to_lowercase(s);
        let w = l.as_str();
        if str_eq(w, "mochi") || str_eq(w, "cat") {
            Some(PetCharacter::Mochi)
        } else if str_eq(w, "bunny") || str_eq(w, "rabbit") {
            Some(PetCharacter::Bunny)
        } else if str_eq(w, "frog") {
            Some(PetCharacter::Frog)
        } else if str_eq(w, "robot") || str_eq(w, "bot") {
            Some(PetCharacter::Robot)
        } else if str_eq(w, "dragon") {
            Some(PetCharacter::Dragon)
        } else {
            None
        }
    }

    pub fn name(self) -> (r: &'static str)
        ensures
            r@ == character_name(self),
    {
        match self {
            PetCharacter::Mochi => "mochi",
            PetCharacter::Bunny => "bunny",
            PetCharacter::Frog => "frog",
            PetCharacter::Robot => "robot",
            PetCharacter::Dragon => "dragon",
        }
    }

    /// Every character, in menu order.
    pub fn all() -> (r: Vec<PetCharacter>)
        ensures
            r@ == seq![
                PetCharacter::Mochi,
                PetCharacter::Bunny,
                PetCharacter::Frog,
                PetCharacter::Robot,
                PetCharacter::Dragon,
            ],
    {
        vec![PetCharacter::Mochi, PetCharacter::Bunny, PetCharacter::Frog, PetCharacter::Robot, PetCharacter::Dragon]
    }
}

/// Every character's name parses back to it, written in lower case or in
/// upper case (names are ASCII, where `parse` lowercases exactly).
pub proof fn law_character_name_parses_back(c: PetCharacter)
    ensures
        is_ascii_seq(character_name(c)),
        character_of_word(ascii_lower(character_name(c))) == Some(c),
        is_ascii_seq(ascii_upper(character_name(c))),
        character_of_word(ascii_lower(ascii_upper(character_name(c)))) == Some(c),
{
    reveal_strlit("mochi");
    reveal_strlit("bunny");
    reveal_strlit("frog");
    reveal_strlit("robot");
    reveal_strlit("dragon");
    reveal_strlit("cat");
    reveal_strlit("rabbit");
    reveal_strlit("bot");
    let n = character_name(c);
    assert(ascii_lower(n) =~= n);
    assert(ascii_lower(ascii_upper(n)) =~= n);
    assert("mochi"@[0] != "bunny"@[0] && "mochi"@[0] != "robot"@[0] && "bunny"@[0] != "robot"@[0]);
    assert("dragon"@[0] != "rabbit"@[0]);
    assert("mochi"@.len() != "cat"@.len() && "frog"@.len() != "cat"@.len() && "frog"@.len() != "bot"@.len());
    assert("mochi"@ != "bunny"@ && "robot"@ != "mochi"@ && "robot"@ != "bunny"@ && "dragon"@ != "rabbit"@);
}

/// The sprite of a character in a mood: three lines of text.
pub open spec fn sprite_text(c: PetCharacter, m: PetMood) -> Seq<char> {
    match (c, m) {
        (PetCharacter::Mochi, PetMood::Idle) => "  ／l、     \nﾞ（ﾟ､ ｡ ７\nl、ﾞ ~ヽ  "@,
        (PetCharacter::Mochi, PetMood::Thinking) => "  ／l、 ?   \nﾞ（- ､ -７\nl、ﾞ ~ヽ  "@,
        (PetCharacter::Mochi, PetMood::Happy) => "  ／l、 ♪  \nﾞ（=^･^=)\nl、ﾞ ~ヽ  "@,
        (PetCharacter::Mochi, PetMood::Sad) => "  ／l、     \nﾞ（T ､ T７\nl、ﾞ ~ヽ  "@,
        (PetCharacter::Mochi, PetMood::Sleeping) => "  ／l、 zZ \nﾞ（-  -７\nl、ﾞ ~ヽ  "@,
        (PetCharacter::Bunny, PetMood::Idle) => " (\\(\\   \n(•ᴥ•)  \nc(\")(\") "@,
        (PetCharacter::Bunny, PetMood::Thinking) => " (\\(\\   \n(-.-) ?\nc(\")(\") "@,
        (PetCharacter::Bunny, PetMood::Happy) => " (\\(\\   \n(^ᴥ^)  ♪\nc(\")(\") "@,
        (PetCharacter::Bunny, PetMood::Sad) => " (\\(\\   \n(T_T)  \nc(\")(\") "@,
        (PetCharacter::Bunny, PetMood::Sleeping) => " (\\(\\   zZ\n(-.-)  \nc(\")(\") "@,
        (PetCharacter::Frog, PetMood::Idle) => " (.)(.) \n(.|.)  \n`-´   "@,
        (PetCharacter::Frog, PetMood::Thinking) => " (-)(-) ?\n(.|.)  \n`-´   "@,
        (PetCharacter::Frog, PetMood::Happy) => " (^)(^) ♪\n(.|.)  \n\\_/   "@,
        (PetCharacter::Frog, PetMood::Sad) => " (T)(T) \n(.|.)  \n___   "@,
        (PetCharacter::Frog, PetMood::Sleeping) => " (-)(-) zZ\n(.|.)  \n`-´   "@,
        (PetCharacter::Robot, PetMood::Idle) => " ┌[¯]┐ \n|o_o|\n|___| "@,
        (PetCharacter::Robot, PetMood::Thinking) => " ┌[¯]┐ ?\n|⊙_⊙|\n|___| "@,
        (PetCharacter::Robot, PetMood::Happy) => " ┌[¯]┐ ♪\n|^_^|\n|___| "@,
        (PetCharacter::Robot, PetMood::Sad) => " ┌[¯]┐ \n|x_x|\n|___| "@,
        (PetCharacter::Robot, PetMood::Sleeping) => " ┌[¯]┐ zZ\n|-_-|\n|___| "@,
        (PetCharacter::Dragon, PetMood::Idle) => "  /\\___/\\  \n( o.o )\n> ^ <  "@,
        (PetCharacter::Dragon, PetMood::Thinking) => "  /\\___/\\  ?\n( -.- )\n> ^ <  "@,
        (PetCharacter::Dragon, PetMood::Happy) => "  /\\___/\\  ♪\n( ^.^ )~\n> w <  "@,
        (PetCharacter::Dragon, PetMood::Sad) => "  /\\___/\\  \n( T.T )\n> _ <  "@,
        (PetCharacter::Dragon, PetMood::Sleeping) => "  /\\___/\\  zZ\n( -.- )\n> z <  "@,
    }
}


/// `lines` of `s[k..]` has at least two lines when a newline at `a >= k` is
/// followed by more text.
proof fn lemma_lines_two(s: Seq<char>, k: int, a: int)
    requires
        0 <= k <= a,
        a + 1 < s.len(),
        s[a] == '\n',
    ensures
        crate::text::lines_from(s, k).len() >= 2,
    decreases s.len() - k,
{
    crate::text::lemma_first_char_from(s, '\n', k);
    let i = crate::text::first_char_from(s, '\n', k);
    if i < a {
        lemma_lines_two(s, i + 1, a);
    } else {
        crate::text::lemma_first_char_from(s, '\n', i + 1);
        assert(crate::text::lines_from(s, i + 1).len() >= 1);
    }
}

/// `lines` of `s[k..]` has at least three lines when newlines at
/// `k <= a < b` are followed by more text.
proof fn lemma_lines_three(s: Seq<char>, k: int, a: int, b: int)
    requires
        0 <= k <= a < b,
        b + 1 < s.len(),
        s[a] == '\n',
        s[b] == '\n',
    ensures
        crate::text::lines_from(s, k).len() >= 3,
    decreases s.len() - k,
{
    crate::text::lemma_first_char_from(s, '\n', k);
    let i = crate::text::first_char_from(s, '\n', k);
    if i < a {
        lemma_lines_three(s, i + 1, a, b);
    } else {
        lemma_lines_two(s, i + 1, b);
    }
}


proof fn lemma_sprites_of_mochi(m: PetMood, m2: PetMood)
    ensures
        lines(sprite_text(PetCharacter::Mochi, m)).len() >= 3,
        m != m2 ==> sprite_text(PetCharacter::Mochi, m) != sprite_text(PetCharacter::Mochi, m2),
        sprite_marks(sprite_text(PetCharacter::Mochi, m), m),
{
    reveal_strlit("  ／l、     \nﾞ（ﾟ､ ｡ ７\nl、ﾞ ~ヽ  ");
    reveal_strlit("  ／l、 ?   \nﾞ（- ､ -７\nl、ﾞ ~ヽ  ");
    reveal_strlit("  ／l、 ♪  \nﾞ（=^･^=)\nl、ﾞ ~ヽ  ");
    reveal_strlit("  ／l、     \nﾞ（T ､ T７\nl、ﾞ ~ヽ  ");
    reveal_strlit("  ／l、 zZ \nﾞ（-  -７\nl、ﾞ ~ヽ  ");
    match m {
        PetMood::Idle => {
            let s = sprite_text(PetCharacter::Mochi, PetMood::Idle);
            lemma_lines_three(s, 0, 10, 19);
            assert forall|i: int| 0 <= i < s.len() implies #[trigger] s[i] != '?' && s[i] != '♪' && !(s[i] == 'z' && i + 1 < s.len() && s[i + 1] == 'Z') by {}
        },
        PetMood::Thinking => {
            let s = sprite_text(PetCharacter::Mochi, PetMood::Thinking);
            lemma_lines_three(s, 0, 10, 19);
            assert forall|i: int| 0 <= i < s.len() implies #[trigger] s[i] != '♪' && !(s[i] == 'z' && i + 1 < s.len() && s[i + 1] == 'Z') by {}
            assert(s[6] == '?');
        },
        PetMood::Happy => {
            let s = sprite_text(PetCharacter::Mochi, PetMood::Happy);
            lemma_lines_three(s, 0, 9, 18);
            assert forall|i: int| 0 <= i < s.len() implies #[trigger] s[i] != '?' && !(s[i] == 'z' && i + 1 < s.len() && s[i + 1] == 'Z') by {}
            assert(s[6] == '♪');
        },
        PetMood::Sad => {
            let s = sprite_text(PetCharacter::Mochi, PetMood::Sad);
            lemma_lines_three(s, 0, 10, 19);
            assert forall|i: int| 0 <= i < s.len() implies #[trigger] s[i] != '?' && s[i] != '♪' && !(s[i] == 'z' && i + 1 < s.len() && s[i + 1] == 'Z') by {}
        },
        PetMood::Sleeping => {
            let s = sprite_text(PetCharacter::Mochi, PetMood::Sleeping);
            lemma_lines_three(s, 0, 9, 17);
            assert forall|i: int| 0 <= i < s.len() implies #[trigger] s[i] != '?' && s[i] != '♪' by {}
            assert(s[6] == 'z' && s[7] == 'Z');
        },
    }
    assert(sprite_text(PetCharacter::Mochi, PetMood::Idle)[6] != sprite_text(PetCharacter::Mochi, PetMood::Thinking)[6]);
    assert(sprite_text(PetCharacter::Mochi, PetMood::Idle).len() != sprite_text(PetCharacter::Mochi, PetMood::Happy).len());
    assert(sprite_text(PetCharacter::Mochi, PetMood::Idle)[13] != sprite_text(PetCharacter::Mochi, PetMood::Sad)[13]);
    assert(sprite_text(PetCharacter::Mochi, PetMood::Idle).len() != sprite_text(PetCharacter::Mochi, PetMood::Sleeping).len());
    assert(sprite_text(PetCharacter::Mochi, PetMood::Thinking).len() != sprite_text(PetCharacter::Mochi, PetMood::Happy).len());
    assert(sprite_text(PetCharacter::Mochi, PetMood::Thinking)[6] != sprite_text(PetCharacter::Mochi, PetMood::Sad)[6]);
    assert(sprite_text(PetCharacter::Mochi, PetMood::Thinking).len() != sprite_text(PetCharacter::Mochi, PetMood::Sleeping).len());
    assert(sprite_text(PetCharacter::Mochi, PetMood::Happy).len() != sprite_text(PetCharacter::Mochi, PetMood::Sad).len());
    assert(sprite_text(PetCharacter::Mochi, PetMood::Happy).len() != sprite_text(PetCharacter::Mochi, PetMood::Sleeping).len());
    assert(sprite_text(PetCharacter::Mochi, PetMood::Sad).len() != sprite_text(PetCharacter::Mochi, PetMood::Sleeping).len());
}

proof fn lemma_sprites_of_bunny(m: PetMood, m2: PetMood)
    ensures
        lines(sprite_text(PetCharacter::Bunny, m)).len() >= 3,
        m != m2 ==> sprite_text(PetCharacter::Bunny, m) != sprite_text(PetCharacter::Bunny, m2),
        sprite_marks(sprite_text(PetCharacter::Bunny, m), m),
{
    reveal_strlit(" (\\(\\   \n(•ᴥ•)  \nc(\")(\") ");
    reveal_strlit(" (\\(\\   \n(-.-) ?\nc(\")(\") ");
    reveal_strlit(" (\\(\\   \n(^ᴥ^)  ♪\nc(\")(\") ");
    reveal_strlit(" (\\(\\   \n(T_T)  \nc(\")(\") ");
    reveal_strlit(" (\\(\\   zZ\n(-.-)  \nc(\")(\") ");
    match m {
        PetMood::Idle => {
            let s = sprite_text(PetCharacter::Bunny, PetMood::Idle);
            lemma_lines_three(s, 0, 8, 16);
            assert forall|i: int| 0 <= i < s.len() implies #[trigger] s[i] != '?' && s[i] != '♪' && !(s[i] == 'z' && i + 1 < s.len() && s[i + 1] == 'Z') by {}
        },
        PetMood::Thinking => {
            let s = sprite_text(PetCharacter::Bunny, PetMood::Thinking);
            lemma_lines_three(s, 0, 8, 16);
            assert forall|i: int| 0 <= i < s.len() implies #[trigger] s[i] != '♪' && !(s[i] == 'z' && i + 1 < s.len() && s[i + 1] == 'Z') by {}
            assert(s[15] == '?');
        },
        PetMood::Happy => {
            let s = sprite_text(PetCharacter::Bunny, PetMood::Happy);
            lemma_lines_three(s, 0, 8, 17);
            assert forall|i: int| 0 <= i < s.len() implies #[trigger] s[i] != '?' && !(s[i] == 'z' && i + 1 < s.len() && s[i + 1] == 'Z') by {}
            assert(s[16] == '♪');
        },
        PetMood::Sad => {
            let s = sprite_text(PetCharacter::Bunny, PetMood::Sad);
            lemma_lines_three(s, 0, 8, 16);
            assert forall|i: int| 0 <= i < s.len() implies #[trigger] s[i] != '?' && s[i] != '♪' && !(s[i] == 'z' && i + 1 < s.len() && s[i + 1] == 'Z') by {}
        },
        PetMood::Sleeping => {
            let s = sprite_text(PetCharacter::Bunny, PetMood::Sleeping);
            lemma_lines_three(s, 0, 10, 18);
            assert forall|i: int| 0 <= i < s.len() implies #[trigger] s[i] != '?' && s[i] != '♪' by {}
            assert(s[8] == 'z' && s[9] == 'Z');
        },
    }
    assert(sprite_text(PetCharacter::Bunny, PetMood::Idle)[10] != sprite_text(PetCharacter::Bunny, PetMood::Thinking)[10]);
    assert(sprite_text(PetCharacter::Bunny, PetMood::Idle).len() != sprite_text(PetCharacter::Bunny, PetMood::Happy).len());
    assert(sprite_text(PetCharacter::Bunny, PetMood::Idle)[10] != sprite_text(PetCharacter::Bunny, PetMood::Sad)[10]);
    assert(sprite_text(PetCharacter::Bunny, PetMood::Idle).len() != sprite_text(PetCharacter::Bunny, PetMood::Sleeping).len());
    assert(sprite_text(PetCharacter::Bunny, PetMood::Thinking).len() != sprite_text(PetCharacter::Bunny, PetMood::Happy).len());
    assert(sprite_text(PetCharacter::Bunny, PetMood::Thinking)[10] != sprite_text(PetCharacter::Bunny, PetMood::Sad)[10]);
    assert(sprite_text(PetCharacter::Bunny, PetMood::Thinking).len() != sprite_text(PetCharacter::Bunny, PetMood::Sleeping).len());
    assert(sprite_text(PetCharacter::Bunny, PetMood::Happy).len() != sprite_text(PetCharacter::Bunny, PetMood::Sad).len());
    assert(sprite_text(PetCharacter::Bunny, PetMood::Happy).len() != sprite_text(PetCharacter::Bunny, PetMood::Sleeping).len());
    assert(sprite_text(PetCharacter::Bunny, PetMood::Sad).len() != sprite_text(PetCharacter::Bunny, PetMood::Sleeping).len());
}

proof fn lemma_sprites_of_frog(m: PetMood, m2: PetMood)
    ensures
        lines(sprite_text(PetCharacter::Frog, m)).len() >= 3,
        m != m2 ==> sprite_text(PetCharacter::Frog, m) != sprite_text(PetCharacter::Frog, m2),
        sprite_marks(sprite_text(PetCharacter::Frog, m), m),
{
    reveal_strlit(" (.)(.) \n(.|.)  \n`-´   ");
    reveal_strlit(" (-)(-) ?\n(.|.)  \n`-´   ");
    reveal_strlit(" (^)(^) ♪\n(.|.)  \n\\_/   ");
    reveal_strlit(" (T)(T) \n(.|.)  \n___   ");
    reveal_strlit(" (-)(-) zZ\n(.|.)  \n`-´   ");
    match m {
        PetMood::Idle => {
            let s = sprite_text(PetCharacter::Frog, PetMood::Idle);
            lemma_lines_three(s, 0, 8, 16);
            assert forall|i: int| 0 <= i < s.len() implies #[trigger] s[i] != '?' && s[i] != '♪' && !(s[i] == 'z' && i + 1 < s.len() && s[i + 1] == 'Z') by {}
        },
        PetMood::Thinking => {
            let s = sprite_text(PetCharacter::Frog, PetMood::Thinking);
            lemma_lines_three(s, 0, 9, 17);
            assert forall|i: int| 0 <= i < s.len() implies #[trigger] s[i] != '♪' && !(s[i] == 'z' && i + 1 < s.len() && s[i + 1] == 'Z') by {}
            assert(s[8] == '?');
        },
        PetMood::Happy => {
            let s = sprite_text(PetCharacter::Frog, PetMood::Happy);
            lemma_lines_three(s, 0, 9, 17);
            assert forall|i: int| 0 <= i < s.len() implies #[trigger] s[i] != '?' && !(s[i] == 'z' && i + 1 < s.len() && s[i + 1] == 'Z') by {}
            assert(s[8] == '♪');
        },
        PetMood::Sad => {
            let s = sprite_text(PetCharacter::Frog, PetMood::Sad);
            lemma_lines_three(s, 0, 8, 16);
            assert forall|i: int| 0 <= i < s.len() implies #[trigger] s[i] != '?' && s[i] != '♪' && !(s[i] == 'z' && i + 1 < s.len() && s[i + 1] == 'Z') by {}
        },
        PetMood::Sleeping => {
            let s = sprite_text(PetCharacter::Frog, PetMood::Sleeping);
            lemma_lines_three(s, 0, 10, 18);
            assert forall|i: int| 0 <= i < s.len() implies #[trigger] s[i] != '?' && s[i] != '♪' by {}
            assert(s[8] == 'z' && s[9] == 'Z');
        },
    }
    assert(sprite_text(PetCharacter::Frog, PetMood::Idle).len() != sprite_text(PetCharacter::Frog, PetMood::Thinking).len());
    assert(sprite_text(PetCharacter::Frog, PetMood::Idle).len() != sprite_text(PetCharacter::Frog, PetMood::Happy).len());
    assert(sprite_text(PetCharacter::Frog, PetMood::Idle)[2] != sprite_text(PetCharacter::Frog, PetMood::Sad)[2]);
    assert(sprite_text(PetCharacter::Frog, PetMood::Idle).len() != sprite_text(PetCharacter::Frog, PetMood::Sleeping).len());
    assert(sprite_text(PetCharacter::Frog, PetMood::Thinking)[2] != sprite_text(PetCharacter::Frog, PetMood::Happy)[2]);
    assert(sprite_text(PetCharacter::Frog, PetMood::Thinking).len() != sprite_text(PetCharacter::Frog, PetMood::Sad).len());
    assert(sprite_text(PetCharacter::Frog, PetMood::Thinking).len() != sprite_text(PetCharacter::Frog, PetMood::Sleeping).len());
    assert(sprite_text(PetCharacter::Frog, PetMood::Happy).len() != sprite_text(PetCharacter::Frog, PetMood::Sad).len());
    assert(sprite_text(PetCharacter::Frog, PetMood::Happy).len() != sprite_text(PetCharacter::Frog, PetMood::Sleeping).len());
    assert(sprite_text(PetCharacter::Frog, PetMood::Sad).len() != sprite_text(PetCharacter::Frog, PetMood::Sleeping).len());
}

proof fn lemma_sprites_of_robot(m: PetMood, m2: PetMood)
    ensures
        lines(sprite_text(PetCharacter::Robot, m)).len() >= 3,
        m != m2 ==> sprite_text(PetCharacter::Robot, m) != sprite_text(PetCharacter::Robot, m2),
        sprite_marks(sprite_text(PetCharacter::Robot, m), m),
{
    reveal_strlit(" ┌[¯]┐ \n|o_o|\n|___| ");
    reveal_strlit(" ┌[¯]┐ ?\n|⊙_⊙|\n|___| ");
    reveal_strlit(" ┌[¯]┐ ♪\n|^_^|\n|___| ");
    reveal_strlit(" ┌[¯]┐ \n|x_x|\n|___| ");
    reveal_strlit(" ┌[¯]┐ zZ\n|-_-|\n|___| ");
    match m {
        PetMood::Idle => {
            let s = sprite_text(PetCharacter::Robot, PetMood::Idle);
            lemma_lines_three(s, 0, 7, 13);
            assert forall|i: int| 0 <= i < s.len() implies #[trigger] s[i] != '?' && s[i] != '♪' && !(s[i] == 'z' && i + 1 < s.len() && s[i + 1] == 'Z') by {}
        },
        PetMood::Thinking => {
            let s = sprite_text(PetCharacter::Robot, PetMood::Thinking);
            lemma_lines_three(s, 0, 8, 14);
            assert forall|i: int| 0 <= i < s.len() implies #[trigger] s[i] != '♪' && !(s[i] == 'z' && i + 1 < s.len() && s[i + 1] == 'Z') by {}
            assert(s[7] == '?');
        },
        PetMood::Happy => {
            let s = sprite_text(PetCharacter::Robot, PetMood::Happy);
            lemma_lines_three(s, 0, 8, 14);
            assert forall|i: int| 0 <= i < s.len() implies #[trigger] s[i] != '?' && !(s[i] == 'z' && i + 1 < s.len() && s[i + 1] == 'Z') by {}
            assert(s[7] == '♪');
        },
        PetMood::Sad => {
            let s = sprite_text(PetCharacter::Robot, PetMood::Sad);
            lemma_lines_three(s, 0, 7, 13);
            assert forall|i: int| 0 <= i < s.len() implies #[trigger] s[i] != '?' && s[i] != '♪' && !(s[i] == 'z' && i + 1 < s.len() && s[i + 1] == 'Z') by {}
        },
        PetMood::Sleeping => {
            let s = sprite_text(PetCharacter::Robot, PetMood::Sleeping);
            lemma_lines_three(s, 0, 9, 15);
            assert forall|i: int| 0 <= i < s.len() implies #[trigger] s[i] != '?' && s[i] != '♪' by {}
            assert(s[7] == 'z' && s[8] == 'Z');
        },
    }
    assert(sprite_text(PetCharacter::Robot, PetMood::Idle).len() != sprite_text(PetCharacter::Robot, PetMood::Thinking).len());
    assert(sprite_text(PetCharacter::Robot, PetMood::Idle).len() != sprite_text(PetCharacter::Robot, PetMood::Happy).len());
    assert(sprite_text(PetCharacter::Robot, PetMood::Idle)[9] != sprite_text(PetCharacter::Robot, PetMood::Sad)[9]);
    assert(sprite_text(PetCharacter::Robot, PetMood::Idle).len() != sprite_text(PetCharacter::Robot, PetMood::Sleeping).len());
    assert(sprite_text(PetCharacter::Robot, PetMood::Thinking)[7] != sprite_text(PetCharacter::Robot, PetMood::Happy)[7]);
    assert(sprite_text(PetCharacter::Robot, PetMood::Thinking).len() != sprite_text(PetCharacter::Robot, PetMood::Sad).len());
    assert(sprite_text(PetCharacter::Robot, PetMood::Thinking).len() != sprite_text(PetCharacter::Robot, PetMood::Sleeping).len());
    assert(sprite_text(PetCharacter::Robot, PetMood::Happy).len() != sprite_text(PetCharacter::Robot, PetMood::Sad).len());
    assert(sprite_text(PetCharacter::Robot, PetMood::Happy).len() != sprite_text(PetCharacter::Robot, PetMood::Sleeping).len());
    assert(sprite_text(PetCharacter::Robot, PetMood::Sad).len() != sprite_text(PetCharacter::Robot, PetMood::Sleeping).len());
}

proof fn lemma_sprites_of_dragon(m: PetMood, m2: PetMood)
    ensures
        lines(sprite_text(PetCharacter::Dragon, m)).len() >= 3,
        m != m2 ==> sprite_text(PetCharacter::Dragon, m) != sprite_text(PetCharacter::Dragon, m2),
        sprite_marks(sprite_text(PetCharacter::Dragon, m), m),
{
    reveal_strlit("  /\\___/\\  \n( o.o )\n> ^ <  ");
    reveal_strlit("  /\\___/\\  ?\n( -.- )\n> ^ <  ");
    reveal_strlit("  /\\___/\\  ♪\n( ^.^ )~\n> w <  ");
    reveal_strlit("  /\\___/\\  \n( T.T )\n> _ <  ");
    reveal_strlit("  /\\___/\\  zZ\n( -.- )\n> z <  ");
    match m {
        PetMood::Idle => {
            let s = sprite_text(PetCharacter::Dragon, PetMood::Idle);
            lemma_lines_three(s, 0, 11, 19);
            assert forall|i: int| 0 <= i < s.len() implies #[trigger] s[i] != '?' && s[i] != '♪' && !(s[i] == 'z' && i + 1 < s.len() && s[i + 1] == 'Z') by {}
        },
        PetMood::Thinking => {
            let s = sprite_text(PetCharacter::Dragon, PetMood::Thinking);
            lemma_lines_three(s, 0, 12, 20);
            assert forall|i: int| 0 <= i < s.len() implies #[trigger] s[i] != '♪' && !(s[i] == 'z' && i + 1 < s.len() && s[i + 1] == 'Z') by {}
            assert(s[11] == '?');
        },
        PetMood::Happy => {
            let s = sprite_text(PetCharacter::Dragon, PetMood::Happy);
            lemma_lines_three(s, 0, 12, 21);
            assert forall|i: int| 0 <= i < s.len() implies #[trigger] s[i] != '?' && !(s[i] == 'z' && i + 1 < s.len() && s[i + 1] == 'Z') by {}
            assert(s[11] == '♪');
        },
        PetMood::Sad => {
            let s = sprite_text(PetCharacter::Dragon, PetMood::Sad);
            lemma_lines_three(s, 0, 11, 19);
            assert forall|i: int| 0 <= i < s.len() implies #[trigger] s[i] != '?' && s[i] != '♪' && !(s[i] == 'z' && i + 1 < s.len() && s[i + 1] == 'Z') by {}
        },
        PetMood::Sleeping => {
            let s = sprite_text(PetCharacter::Dragon, PetMood::Sleeping);
            lemma_lines_three(s, 0, 13, 21);
            assert forall|i: int| 0 <= i < s.len() implies #[trigger] s[i] != '?' && s[i] != '♪' by {}
            assert(s[11] == 'z' && s[12] == 'Z');
        },
    }
    assert(sprite_text(PetCharacter::Dragon, PetMood::Idle).len() != sprite_text(PetCharacter::Dragon, PetMood::Thinking).len());
    assert(sprite_text(PetCharacter::Dragon, PetMood::Idle).len() != sprite_text(PetCharacter::Dragon, PetMood::Happy).len());
    assert(sprite_text(PetCharacter::Dragon, PetMood::Idle)[14] != sprite_text(PetCharacter::Dragon, PetMood::Sad)[14]);
    assert(sprite_text(PetCharacter::Dragon, PetMood::Idle).len() != sprite_text(PetCharacter::Dragon, PetMood::Sleeping).len());
    assert(sprite_text(PetCharacter::Dragon, PetMood::Thinking).len() != sprite_text(PetCharacter::Dragon, PetMood::Happy).len());
    assert(sprite_text(PetCharacter::Dragon, PetMood::Thinking).len() != sprite_text(PetCharacter::Dragon, PetMood::Sad).len());
    assert(sprite_text(PetCharacter::Dragon, PetMood::Thinking).len() != sprite_text(PetCharacter::Dragon, PetMood::Sleeping).len());
    assert(sprite_text(PetCharacter::Dragon, PetMood::Happy).len() != sprite_text(PetCharacter::Dragon, PetMood::Sad).len());
    assert(sprite_text(PetCharacter::Dragon, PetMood::Happy)[11] != sprite_text(PetCharacter::Dragon, PetMood::Sleeping)[11]);
    assert(sprite_text(PetCharacter::Dragon, PetMood::Sad).len() != sprite_text(PetCharacter::Dragon, PetMood::Sleeping).len());
}

/// Whether `s` shows `zZ`.
pub open spec fn shows_zz(s: Seq<char>) -> bool {
    exists|i: int| 0 <= i && i + 1 < s.len() && #[trigger] s[i] == 'z' && s[i + 1] == 'Z'
}

/// The mood markers of a sprite: `?` exactly when thinking, `♪` exactly
/// when happy, `zZ` exactly when sleeping.
pub open spec fn sprite_marks(s: Seq<char>, m: PetMood) -> bool {
    &&& s.contains('?') <==> m == PetMood::Thinking
    &&& s.contains('♪') <==> m == PetMood::Happy
    &&& shows_zz(s) <==> m == PetMood::Sleeping
}

/// Every sprite has at least three lines, the moods of a character have
/// different sprites, and a sprite shows `?`, `♪` or `zZ` exactly when the
/// mood is thinking, happy or sleeping.
pub proof fn law_sprites_render_every_mood(c: PetCharacter, m: PetMood, m2: PetMood)
    ensures
        lines(sprite_text(c, m)).len() >= 3,
        m != m2 ==> sprite_text(c, m) != sprite_text(c, m2),
        sprite_marks(sprite_text(c, m), m),
{
    match c {
        PetCharacter::Mochi => lemma_sprites_of_mochi(m, m2),
        PetCharacter::Bunny => lemma_sprites_of_bunny(m, m2),
        PetCharacter::Frog => lemma_sprites_of_frog(m, m2),
        PetCharacter::Robot => lemma_sprites_of_robot(m, m2),
        PetCharacter::Dragon => lemma_sprites_of_dragon(m, m2),
    }
}


/// The sprite of a character in a mood.
pub fn sprite_for(character: PetCharacter, mood: PetMood) -> (r: &'static str)
    ensures
        r@ == sprite_text(character, mood),
{
    match (character, mood) {
        (PetCharacter::Mochi, PetMood::Idle) => "  ／l、     \nﾞ（ﾟ､ ｡ ７\nl、ﾞ ~ヽ  ",
        (PetCharacter::Mochi, PetMood::Thinking) => "  ／l、 ?   \nﾞ（- ､ -７\nl、ﾞ ~ヽ  ",
        (PetCharacter::Mochi, PetMood::Happy) => "  ／l、 ♪  \nﾞ（=^･^=)\nl、ﾞ ~ヽ  ",
        (PetCharacter::Mochi, PetMood::Sad) => "  ／l、     \nﾞ（T ､ T７\nl、ﾞ ~ヽ  ",
        (PetCharacter::Mochi, PetMood::Sleeping) => "  ／l、 zZ \nﾞ（-  -７\nl、ﾞ ~ヽ  ",
        (PetCharacter::Bunny, PetMood::Idle) => " (\\(\\   \n(•ᴥ•)  \nc(\")(\") ",
        (PetCharacter::Bunny, PetMood::Thinking) => " (\\(\\   \n(-.-) ?\nc(\")(\") ",
        (PetCharacter::Bunny, PetMood::Happy) => " (\\(\\   \n(^ᴥ^)  ♪\nc(\")(\") ",
        (PetCharacter::Bunny, PetMood::Sad) => " (\\(\\   \n(T_T)  \nc(\")(\") ",
        (PetCharacter::Bunny, PetMood::Sleeping) => " (\\(\\   zZ\n(-.-)  \nc(\")(\") ",
        (PetCharacter::Frog, PetMood::Idle) => " (.)(.) \n(.|.)  \n`-´   ",
        (PetCharacter::Frog, PetMood::Thinking) => " (-)(-) ?\n(.|.)  \n`-´   ",
        (PetCharacter::Frog, PetMood::Happy) => " (^)(^) ♪\n(.|.)  \n\\_/   ",
        (PetCharacter::Frog, PetMood::Sad) => " (T)(T) \n(.|.)  \n___   ",
        (PetCharacter::Frog, PetMood::Sleeping) => " (-)(-) zZ\n(.|.)  \n`-´   ",
        (PetCharacter::Robot, PetMood::Idle) => " ┌[¯]┐ \n|o_o|\n|___| ",
        (PetCharacter::Robot, PetMood::Thinking) => " ┌[¯]┐ ?\n|⊙_⊙|\n|___| ",
        (PetCharacter::Robot, PetMood::Happy) => " ┌[¯]┐ ♪\n|^_^|\n|___| ",
        (PetCharacter::Robot, PetMood::Sad) => " ┌[¯]┐ \n|x_x|\n|___| ",
        (PetCharacter::Robot, PetMood::Sleeping) => " ┌[¯]┐ zZ\n|-_-|\n|___| ",
        (PetCharacter::Dragon, PetMood::Idle) => "  /\\___/\\  \n( o.o )\n> ^ <  ",
        (PetCharacter::Dragon, PetMood::Thinking) => "  /\\___/\\  ?\n( -.- )\n> ^ <  ",
        (PetCharacter::Dragon, PetMood::Happy) => "  /\\___/\\  ♪\n( ^.^ )~\n> w <  ",
        (PetCharacter::Dragon, PetMood::Sad) => "  /\\___/\\  \n( T.T )\n> _ <  ",
        (PetCharacter::Dragon, PetMood::Sleeping) => "  /\\___/\\  zZ\n( -.- )\n> z <  ",
    }
}

/// The default pet's sprite.
pub fn sprite(mood: PetMood) -> (r: &'static str)
    ensures
        r@ == sprite_text(PetCharacter::Mochi, mood),
{
    sprite_for(PetCharacter::Mochi, mood)
}

pub open spec fn mood_label(m: PetMood) -> Seq<char> {
    match m {
        PetMood::Idle => "idle"@,
        PetMood::Thinking => "thinking..."@,
        PetMood::Happy => "happy"@,
        PetMood::Sad => "sad"@,
        PetMood::Sleeping => "zzz"@,
    }
}

pub fn label(mood: PetMood) -> (r: &'static str)
    ensures
        r@ == mood_label(mood),
{
    match mood {
        PetMood::Idle => "idle",
        PetMood::Thinking => "thinking...",
        PetMood::Happy => "happy",
        PetMood::Sad => "sad",
        PetMood::Sleeping => "zzz",
    }
}

pub open spec fn banner_tagline(c: PetCharacter) -> Seq<char> {
    "  ~ Mochi: your local-first terminal pet ("@ + character_name(c) + ") ~"@
}

/// The welcome banner: the happy sprite's lines, a blank line and a tagline
/// naming the character.
pub fn banner_for(character: PetCharacter) -> (r: Vec<String>)
    ensures
        r.deep_view() == lines(sprite_text(character, PetMood::Happy)).push(Seq::empty()).push(
            banner_tagline(character),
        ),
{
    let pet = sprite_for(character, PetMood::Happy);
    let v = chars_of(pet);
    let ls = lines_of(v.as_slice());
    let mut out: Vec<String> = Vec::new();
    let mut i: usize = 0;
    while i < ls.len()
        invariant
            i <= ls@.len(),
            out.deep_view() == ls.deep_view().take(i as int),
        decreases ls@.len() - i,
    {
        let ghost before = out.deep_view();
        let line = string_of(ls[i].as_slice());
        assert(line@ == ls.deep_view()[i as int]);
        out.push(line);
        assert(out.deep_view() =~= before.push(line@));
        assert(ls.deep_view().take(i + 1) =~= ls.deep_view().take(i as int).push(line@));
        i = i + 1;
    }
    assert(ls.deep_view().take(i as int) =~= ls.deep_view());
    let ghost body = out.deep_view();
    out.push(String::new());
    let mut tag = String::from_str("  ~ Mochi: your local-first terminal pet (");
    tag.append(character.name());
    tag.append(") ~");
    out.push(tag);
    assert(out.deep_view() =~= body.push(Seq::empty()).push(banner_tagline(character)));
    out
}

/// Smallest chat body (columns, rows) that shows the pet overlay.
pub const OVERLAY_MIN_BODY_WIDTH: u16 = 50;
pub const OVERLAY_MIN_BODY_HEIGHT: u16 = 8;
/// Size of the overlay box.
pub const OVERLAY_WIDTH: u16 = 18;
pub const OVERLAY_HEIGHT: u16 = 5;
/// Gap between the overlay and the body's right edge.
pub const OVERLAY_RIGHT_MARGIN: u16 = 1;

/// Where the pet overlay goes in a chat body at `(x, y)` of size `w`×`h`:
/// the top-right corner, or nowhere when the body is too small.
pub fn overlay_rect(x: u16, y: u16, w: u16, h: u16) -> (r: Option<(u16, u16, u16, u16)>)
    requires
        x + w <= u16::MAX,
    ensures
        match r {
            Some((rx, ry, rw, rh)) => {
                &&& w >= OVERLAY_MIN_BODY_WIDTH && h >= OVERLAY_MIN_BODY_HEIGHT
                &&& rx == x + w - (OVERLAY_WIDTH + OVERLAY_RIGHT_MARGIN)
                &&& ry == y
                &&& rw == OVERLAY_WIDTH
                &&& rh == OVERLAY_HEIGHT
            },
            None => w < OVERLAY_MIN_BODY_WIDTH || h < OVERLAY_MIN_BODY_HEIGHT,
        },
{
    if w < OVERLAY_MIN_BODY_WIDTH || h < OVERLAY_MIN_BODY_HEIGHT {
        return None;
    }
    Some((x + (w - (OVERLAY_WIDTH + OVERLAY_RIGHT_MARGIN)), y, OVERLAY_WIDTH, OVERLAY_HEIGHT))
}

pub open spec fn overlay_caption_text(c: PetCharacter, m: PetMood) -> Seq<char> {
    " "@ + character_name(c) + " • "@ + mood_label(m)
}

/// The caption under the sprite in the overlay.
pub fn overlay_caption(character: PetCharacter, mood: PetMood) -> (r: String)
    ensures
        r@ == overlay_caption_text(character, mood),
{
    let mut s = String::from_str(" ");
    s.append(character.name());
    s.append(" • ");
    s.append(label(mood));
    s
}

} // verus!
