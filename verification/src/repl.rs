//! The plain chat REPL: its commands, its system prompt and what it prints.
use crate::memory::{facts_view, kind_name, kind_of_word, Fact, FactKind, FactView};
use crate::pet::{sprite_text, PetMood};
use crate::slash::{arg_at, pad_right, rest_after, rest_after_exec, scope_label};
use crate::text::{chars_of, lines, lines_of, lowercase, str_eq, string_of, trim};
use vstd::string::StringExecFns;
use vstd::prelude::*;

verus! {

/// Lines printed for the pet: the sprite indented by two spaces, the caption
/// after the middle line.
pub open spec fn pet_print_lines(sprite: Seq<Seq<char>>, caption: Seq<char>) -> Seq<Seq<char>> {
    Seq::new(sprite.len(), |i: int| if i == 1 { "  "@ + sprite[i] + "   "@ + caption } else { "  "@ + sprite[i] })
}

pub fn pet_lines(mood: PetMood, caption: &str) -> (r: Vec<String>)
    ensures
        r.deep_view() == pet_print_lines(lines(sprite_text(crate::pet::PetCharacter::Mochi, mood)), caption@),
{
    let pet = crate::pet::sprite(mood);
    let ls = lines_of(chars_of(pet).as_slice());
    let ghost lv = ls.deep_view();
    let mut out: Vec<String> = Vec::new();
    let mut i: usize = 0;
    while i < ls.len()
        invariant
            lv == ls.deep_view(),
            lv == lines(sprite_text(crate::pet::PetCharacter::Mochi, mood)),
            i <= ls@.len(),
            out.deep_view() == pet_print_lines(lv, caption@).take(i as int),
        decreases ls@.len() - i,
    {
        let mut s = String::from_str("  ");
        let line = string_of(ls[i].as_slice());
        s.append(line.as_str());
        if i == 1 {
            s.append("   ");
            s.append(caption);
        }
        let ghost before = out.deep_view();
        assert(ls@[i as int]@ == lv[i as int]);
        assert(s@ == pet_print_lines(lv, caption@)[i as int]);
        out.push(s);
        assert(out.deep_view() =~= before.push(pet_print_lines(lv, caption@)[i as int]));
        assert(out.deep_view() =~= pet_print_lines(lv, caption@).take(i + 1));
        i = i + 1;
    }
    assert(pet_print_lines(lv, caption@).take(i as int) =~= pet_print_lines(lv, caption@));
    out
}

/// The REPL's system prompt: the memory section, the base prompt, and the
/// active skill's name and body.
pub open spec fn repl_system_text(memory: Seq<char>, base: Seq<char>, skill: Option<(Seq<char>, Seq<char>)>) -> Seq<char> {
    memory + base + match skill {
        Some((n, b)) => "\n\n[Active skill: "@ + n + "]\n"@ + b,
        None => Seq::empty(),
    }
}

pub fn repl_system(memory: &str, base: &str, skill_name: Option<&str>, skill_body: Option<&str>) -> (r: String)
    ensures
        r@ == repl_system_text(
            memory@,
            base@,
            match (skill_name, skill_body) {
                (Some(n), Some(b)) => Some((n@, b@)),
                _ => None,
            },
        ),
{
    let mut out = String::from_str(memory);
    out.append(base);
    match (skill_name, skill_body) {
        (Some(n), Some(b)) => {
            out.append("\n\n[Active skill: ");
            out.append(n);
            out.append("]\n");
            out.append(b);
        },
        _ => {},
    }
    out
}

/// A line typed into the REPL.
#[derive(Debug, Clone, Copy, PartialEq, Eq, Structural)]
pub enum ReplCommand {
    Quit,
    Help,
    Reset,
    Skill,
    Memory,
    /// Any other word starting with `/`.
    Unknown,
    /// Not a command: sent to the model.
    Passthrough,
}

pub open spec fn repl_command_for(first_word: Seq<char>) -> ReplCommand {
    if first_word == "/quit"@ || first_word == "/exit"@ {
        ReplCommand::Quit
    } else if first_word == "/help"@ {
        ReplCommand::Help
    } else if first_word == "/reset"@ {
        ReplCommand::Reset
    } else if first_word == "/skill"@ {
        ReplCommand::Skill
    } else if first_word == "/memory"@ {
        ReplCommand::Memory
    } else if first_word.len() > 0 && first_word[0] == '/' {
        ReplCommand::Unknown
    } else {
        ReplCommand::Passthrough
    }
}

/// What a REPL line is, from its first whitespace-separated word.
pub fn repl_command(first_word: &str) -> (r: ReplCommand)
    ensures
        r == repl_command_for(first_word@),
{
    if str_eq(first_word, "/quit") || str_eq(first_word, "/exit") {
        ReplCommand::Quit
    } else if str_eq(first_word, "/help") {
        ReplCommand::Help
    } else if str_eq(first_word, "/reset") {
        ReplCommand::Reset
    } else if str_eq(first_word, "/skill") {
        ReplCommand::Skill
    } else if str_eq(first_word, "/memory") {
        ReplCommand::Memory
    } else {
        let v = chars_of(first_word);
        if v.len() > 0 && v[0] == '/' {
            ReplCommand::Unknown
        } else {
            ReplCommand::Passthrough
        }
    }
}

pub const REPL_HELP: &'static str = "  /quit                                  exit\n  /reset                                 clear conversation (keep system+memory)\n  /skill list|use NAME|off|show NAME     skill management\n  /memory list [KIND]                    list facts (profile|concept|state|behavioral)\n  /memory remember KIND SLUG CONTENT     store a fact\n  /memory forget SLUG                    delete a fact\n  /memory profile CONTENT                set the user profile blurb\n";

pub open spec fn repl_fact_line(f: FactView) -> Seq<char> {
    "  ["@ + pad_right(kind_name(f.kind), 10) + "] "@ + pad_right(f.slug, 16) + " scope="@ + pad_right(
        scope_label(f.scope),
        10,
    ) + "  "@ + f.content
}

/// How the REPL lists one fact.
pub fn repl_fact_line_of(f: &Fact) -> (r: String)
    ensures
        r@ == repl_fact_line(f@),
{
    let mut s = String::from_str("  [");
    crate::slash::append_padded_pub(&mut s, f.kind.as_str(), 10);
    s.append("] ");
    crate::slash::append_padded_pub(&mut s, f.slug.as_str(), 16);
    s.append(" scope=");
    let scope: &str = match &f.skill_scope {
        Some(x) => x.as_str(),
        None => "-",
    };
    crate::slash::append_padded_pub(&mut s, scope, 10);
    s.append("  ");
    s.append(f.content.as_str());
    s
}

/// What a REPL `/memory` line asks for.
#[derive(Debug, Clone, PartialEq, Eq)]
pub enum ReplMemoryPlan {
    List(Option<FactKind>),
    /// Store a fact; behavioral facts go in the active skill's scope.
    Remember { kind: FactKind, slug: String, content: String, scope: Option<String> },
    Forget(String),
    ShowProfile,
    SetProfile(String),
    Say(String),
}

/// The plan of a REPL `/memory` line; `parts` are its whitespace-separated
/// words, the command included.
pub fn plan_repl_memory(raw: &str, parts: &[String], active_skill: Option<&str>) -> (r: ReplMemoryPlan)
    ensures
        ({
            let sub = match arg_at(parts@, 1) {
                Some(s) => s,
                None => Seq::empty(),
            };
            if sub == "list"@ || sub.len() == 0 {
                r == ReplMemoryPlan::List(match arg_at(parts@, 2) {
                    Some(k) => kind_of_word(lowercase(k)),
                    None => None,
                })
            } else if sub == "forget"@ {
                match arg_at(parts@, 2) {
                    Some(s) => r matches ReplMemoryPlan::Forget(x) && x@ == s,
                    None => r matches ReplMemoryPlan::Say(m) && m@ == "  usage: /memory forget SLUG\n"@,
                }
            } else if sub == "profile"@ {
                if rest_after(raw@, 2).len() == 0 {
                    r == ReplMemoryPlan::ShowProfile
                } else {
                    r matches ReplMemoryPlan::SetProfile(c) && c@ == rest_after(raw@, 2)
                }
            } else if sub == "remember"@ {
                match kind_of_word(lowercase(match arg_at(parts@, 2) { Some(k) => k, None => Seq::empty() })) {
                    None => r matches ReplMemoryPlan::Say(m) && m@ == "  usage: /memory remember KIND SLUG CONTENT  (KIND: profile|concept|state|behavioral)\n"@,
                    Some(kind) => match arg_at(parts@, 3) {
                        None => r matches ReplMemoryPlan::Say(m) && m@ == "  usage: /memory remember KIND SLUG CONTENT\n"@,
                        Some(slug) => if rest_after(raw@, 4).len() == 0 {
                            r matches ReplMemoryPlan::Say(m) && m@ == "  usage: /memory remember KIND SLUG CONTENT\n"@
                        } else {
                            r matches ReplMemoryPlan::Remember { kind: k2, slug: s2, content: c2, scope: sc } && k2 == kind
                                && s2@ == slug && c2@ == rest_after(raw@, 4) && sc.deep_view() == (if kind == FactKind::Behavioral {
                                Some(match active_skill {
                                    Some(a) => a@,
                                    None => "default"@,
                                })
                            } else {
                                None
                            })
                        },
                    },
                }
            } else {
                r matches ReplMemoryPlan::Say(m) && m@ == "  /memory: unknown subcommand `"@ + sub
                    + "`. Try: list, remember, forget, profile\n"@
            }
        }),
{
    proof { reveal_strlit(""); }
    let sub: &str = if parts.len() > 1 { parts[1].as_str() } else { "" };
    if str_eq(sub, "list") || sub.is_empty() {
        let kind = if parts.len() > 2 { FactKind::parse(parts[2].as_str()) } else { None };
        return ReplMemoryPlan::List(kind);
    }
    if str_eq(sub, "forget") {
        if parts.len() > 2 {
            return ReplMemoryPlan::Forget(parts[2].clone());
        }
        return ReplMemoryPlan::Say(String::from_str("  usage: /memory forget SLUG\n"));
    }
    if str_eq(sub, "profile") {
        let c = rest_after_exec(raw, 2);
        if c.as_str().is_empty() {
            return ReplMemoryPlan::ShowProfile;
        }
        return ReplMemoryPlan::SetProfile(c);
    }
    if str_eq(sub, "remember") {
        let kind_word: &str = if parts.len() > 2 { parts[2].as_str() } else { "" };
        let kind = match FactKind::parse(kind_word) {
            Some(k) => k,
            None => {
                let m = String::from_str("  usage: /memory remember KIND SLUG CONTENT  (KIND: profile|concept|state|behavioral)\n");
                assert((match arg_at(parts@, 2) { Some(k) => k, None => Seq::<char>::empty() }) == kind_word@);
                assert(kind_of_word(lowercase(kind_word@)) is None);
                assert(m@ == "  usage: /memory remember KIND SLUG CONTENT  (KIND: profile|concept|state|behavioral)\n"@);
                return ReplMemoryPlan::Say(m);
            },
        };
        assert((match arg_at(parts@, 2) { Some(k) => k, None => Seq::<char>::empty() }) == kind_word@);
        assert(kind_of_word(lowercase(kind_word@)) == Some(kind));
        if parts.len() <= 3 {
            return ReplMemoryPlan::Say(String::from_str("  usage: /memory remember KIND SLUG CONTENT\n"));
        }
        let content = rest_after_exec(raw, 4);
        if content.as_str().is_empty() {
            return ReplMemoryPlan::Say(String::from_str("  usage: /memory remember KIND SLUG CONTENT\n"));
        }
        let scope = if kind == FactKind::Behavioral {
            Some(String::from_str(match active_skill {
                Some(a) => a,
                None => "default",
            }))
        } else {
            None
        };
        return ReplMemoryPlan::Remember { kind, slug: parts[3].clone(), content, scope };
    }
    let mut m = String::from_str("  /memory: unknown subcommand `");
    m.append(sub);
    m.append("`. Try: list, remember, forget, profile\n");
    ReplMemoryPlan::Say(m)
}


/// What a REPL `/skill` line asks for; each message is printed as a line.
#[derive(Debug, Clone, PartialEq, Eq)]
pub enum ReplSkillPlan {
    /// List the installed skills (see `repl_skill_listing`).
    List,
    /// Activate this installed skill, then print the message.
    Use { name: String, message: String },
    /// Deactivate the skill, then print the message.
    Off(String),
    /// Show this installed skill (see `repl_skill_body`).
    Show(String),
    /// Print this; nothing else.
    Say(String),
}

pub open spec fn installed_contains(installed: Seq<String>, n: Seq<char>) -> bool {
    exists|i: int| 0 <= i < installed.len() && (#[trigger] installed[i])@ == n
}

fn installed_has(installed: &[String], n: &str) -> (r: bool)
    ensures
        r == installed_contains(installed@, n@),
{
    let mut i: usize = 0;
    while i < installed.len()
        invariant
            i <= installed@.len(),
            forall|j: int| 0 <= j < i ==> (#[trigger] installed@[j])@ != n@,
        decreases installed@.len() - i,
    {
        if str_eq(installed[i].as_str(), n) {
            return true;
        }
        i = i + 1;
    }
    false
}

/// The plan of a REPL `/skill` line; `parts` are its words, the command
/// included, and `installed` the names of the loaded skills.
pub fn plan_repl_skill(parts: &[String], installed: &[String]) -> (r: ReplSkillPlan)
    ensures
        ({
            let sub = match arg_at(parts@, 1) {
                Some(s) => s,
                None => Seq::empty(),
            };
            let name = match arg_at(parts@, 2) {
                Some(s) => s,
                None => Seq::empty(),
            };
            if sub == "list"@ || sub.len() == 0 {
                r == ReplSkillPlan::List
            } else if sub == "use"@ {
                if name.len() == 0 {
                    r matches ReplSkillPlan::Say(m) && m@ == "  usage: /skill use NAME\n"@
                } else if installed_contains(installed@, name) {
                    r matches ReplSkillPlan::Use { name: n, message: m } && n@ == name && m@ == "  active skill: "@ + name + "\n"@
                } else {
                    r matches ReplSkillPlan::Say(m) && m@ == "  unknown skill: "@ + name + "\n"@
                }
            } else if sub == "off"@ {
                r matches ReplSkillPlan::Off(m) && m@ == "  skill deactivated.\n"@
            } else if sub == "show"@ {
                if installed_contains(installed@, name) {
                    r matches ReplSkillPlan::Show(n) && n@ == name
                } else {
                    r matches ReplSkillPlan::Say(m) && m@ == "  unknown skill: "@ + name + "\n"@
                }
            } else {
                r matches ReplSkillPlan::Say(m) && m@ == "  /skill: unknown subcommand `"@ + sub
                    + "`. Try: list, use, off, show\n"@
            }
        }),
{
    proof {
        reveal_strlit("");
        reveal_strlit("list");
        reveal_strlit("use");
        reveal_strlit("off");
        reveal_strlit("show");
    }
    let sub: &str = if parts.len() > 1 { parts[1].as_str() } else { "" };
    let name: &str = if parts.len() > 2 { parts[2].as_str() } else { "" };
    if str_eq(sub, "list") || sub.is_empty() {
        return ReplSkillPlan::List;
    }
    if str_eq(sub, "use") {
        if name.is_empty() {
            return ReplSkillPlan::Say(String::from_str("  usage: /skill use NAME\n"));
        }
        if installed_has(installed, name) {
            let mut m = String::from_str("  active skill: ");
            m.append(name);
            m.append("\n");
            return ReplSkillPlan::Use { name: String::from_str(name), message: m };
        }
        let mut m = String::from_str("  unknown skill: ");
        m.append(name);
        m.append("\n");
        return ReplSkillPlan::Say(m);
    }
    if str_eq(sub, "off") {
        return ReplSkillPlan::Off(String::from_str("  skill deactivated.\n"));
    }
    if str_eq(sub, "show") {
        assert(sub@ == "show"@);
        assert(sub@ != "list"@ && sub@ != "use"@ && sub@ != "off"@ && sub@.len() != 0);
        assert(name@ == match arg_at(parts@, 2) { Some(s) => s, None => Seq::<char>::empty() });
        if installed_has(installed, name) {
            return ReplSkillPlan::Show(String::from_str(name));
        }
        let mut m = String::from_str("  unknown skill: ");
        m.append(name);
        m.append("\n");
        return ReplSkillPlan::Say(m);
    }
    let mut m = String::from_str("  /skill: unknown subcommand `");
    m.append(sub);
    m.append("`. Try: list, use, off, show\n");
    ReplSkillPlan::Say(m)
}

/// One listed skill: active mark, name padded to 20, description or
/// `(no description)`.
pub open spec fn repl_skill_line(e: crate::slash::SkillEntry, active: Option<Seq<char>>) -> Seq<char> {
    "  "@ + (if active == Some(e.name@) {
        "*"@
    } else {
        " "@
    }) + " "@ + pad_right(e.name@, 20) + " "@ + (if e.description@.len() == 0 {
        "(no description)"@
    } else {
        e.description@
    }) + "\n"@
}

pub open spec fn repl_skill_lines(es: Seq<crate::slash::SkillEntry>, active: Option<Seq<char>>) -> Seq<char>
    decreases es.len(),
{
    if es.len() == 0 {
        Seq::empty()
    } else {
        repl_skill_lines(es.drop_last(), active) + repl_skill_line(es.last(), active)
    }
}

/// What the REPL prints for `/skill list` (entries in name order), blank
/// line included.
pub open spec fn repl_skill_listing_text(es: Seq<crate::slash::SkillEntry>, active: Option<Seq<char>>) -> Seq<char> {
    if es.len() == 0 {
        "  no skills installed.\n  put SKILL.md files under ~/.mochi/skills/<name>/SKILL.md\n\n"@
    } else {
        repl_skill_lines(es, active) + "\n"@
    }
}

pub fn repl_skill_listing(entries: &[crate::slash::SkillEntry], active: Option<&str>) -> (r: String)
    ensures
        r@ == repl_skill_listing_text(entries@, active.deep_view()),
{
    if entries.len() == 0 {
        return String::from_str("  no skills installed.\n  put SKILL.md files under ~/.mochi/skills/<name>/SKILL.md\n\n");
    }
    let mut out = String::new();
    let mut i: usize = 0;
    while i < entries.len()
        invariant
            i <= entries@.len(),
            out@ == repl_skill_lines(entries@.take(i as int), active.deep_view()),
        decreases entries@.len() - i,
    {
        let e = &entries[i];
        let ghost before = out@;
        assert(entries@.take(i + 1).drop_last() =~= entries@.take(i as int));
        out.append("  ");
        let is_active = match active {
            Some(a) => str_eq(a, e.name.as_str()),
            None => false,
        };
        out.append(if is_active { "*" } else { " " });
        out.append(" ");
        crate::slash::append_padded_pub(&mut out, e.name.as_str(), 20);
        out.append(" ");
        out.append(if e.description.as_str().is_empty() { "(no description)" } else { e.description.as_str() });
        out.append("\n");
        proof {
            if e.description@.len() == 0 {
                assert(e.description@ =~= Seq::<char>::empty());
            }
        }
        assert(out@ =~= before + repl_skill_line(entries@[i as int], active.deep_view()));
        i = i + 1;
    }
    assert(entries@.take(i as int) =~= entries@);
    out.append("\n");
    out
}

/// What the REPL prints for `/skill show NAME`, blank line included.
pub fn repl_skill_body(name: &str, body: &str) -> (r: String)
    ensures
        r@ == "  --- "@ + name@ + " ---\n"@ + body@ + "\n  --- end ---\n\n"@,
{
    let mut s = String::from_str("  --- ");
    s.append(name);
    s.append(" ---\n");
    s.append(body);
    s.append("\n  --- end ---\n\n");
    s
}

} // verus!
