//! Slash commands: which handler a command goes to, and the decisions and
//! messages of the handlers. The handlers' side effects (the store on disk,
//! the model server, the settings file) stay with the caller.
use crate::cli::Provider;
use crate::memory::{facts_view, kind_name, kind_of_word, Fact, FactKind, FactView};
use crate::memory_capture::normalized_slug;
use crate::session::MemoryMode;
use crate::text::{chars_of, decimal, is_ws, lowercase, str_eq, string_of, subvec, to_lowercase, trim, trimmed, usize_decimal};
use vstd::string::StringExecFns;
use vstd::prelude::*;

verus! {

/// The handler a slash command goes to.
#[derive(Debug, Clone, Copy, PartialEq, Eq, Structural)]
pub enum SlashCommand {
    OneMContext,
    Cancel,
    Compact,
    Config,
    Docs,
    Mcp,
    Plugins,
    OpusVersion,
    Status,
    Usage,
    Login,
    Logout,
    Mode,
    Model,
    NewSession,
    Resume,
    Memory,
    Skill,
    Pet,
    Clear,
    Provider,
    Unknown,
}

pub open spec fn command_for(name: Seq<char>) -> SlashCommand {
    if name == "/1m-context"@ { SlashCommand::OneMContext }
    else if name == "/cancel"@ { SlashCommand::Cancel }
    else if name == "/compact"@ { SlashCommand::Compact }
    else if name == "/config"@ { SlashCommand::Config }
    else if name == "/docs"@ { SlashCommand::Docs }
    else if name == "/mcp"@ { SlashCommand::Mcp }
    else if name == "/plugins"@ { SlashCommand::Plugins }
    else if name == "/opus-version"@ { SlashCommand::OpusVersion }
    else if name == "/status"@ { SlashCommand::Status }
    else if name == "/usage"@ { SlashCommand::Usage }
    else if name == "/login"@ { SlashCommand::Login }
    else if name == "/logout"@ { SlashCommand::Logout }
    else if name == "/mode"@ { SlashCommand::Mode }
    else if name == "/model"@ { SlashCommand::Model }
    else if name == "/new-session"@ { SlashCommand::NewSession }
    else if name == "/resume"@ { SlashCommand::Resume }
    else if name == "/memory"@ { SlashCommand::Memory }
    else if name == "/skill"@ { SlashCommand::Skill }
    else if name == "/pet"@ { SlashCommand::Pet }
    else if name == "/clear"@ { SlashCommand::Clear }
    else if name == "/provider"@ { SlashCommand::Provider }
    else { SlashCommand::Unknown }
}

/// The handler of a parsed slash command's name.
pub fn try_handle_submit(command_name: &str) -> (r: SlashCommand)
    ensures
        r == command_for(command_name@),
{
    let n = command_name;
    if str_eq(n, "/1m-context") { SlashCommand::OneMContext }
    else if str_eq(n, "/cancel") { SlashCommand::Cancel }
    else if str_eq(n, "/compact") { SlashCommand::Compact }
    else if str_eq(n, "/config") { SlashCommand::Config }
    else if str_eq(n, "/docs") { SlashCommand::Docs }
    else if str_eq(n, "/mcp") { SlashCommand::Mcp }
    else if str_eq(n, "/plugins") { SlashCommand::Plugins }
    else if str_eq(n, "/opus-version") { SlashCommand::OpusVersion }
    else if str_eq(n, "/status") { SlashCommand::Status }
    else if str_eq(n, "/usage") { SlashCommand::Usage }
    else if str_eq(n, "/login") { SlashCommand::Login }
    else if str_eq(n, "/logout") { SlashCommand::Logout }
    else if str_eq(n, "/mode") { SlashCommand::Mode }
    else if str_eq(n, "/model") { SlashCommand::Model }
    else if str_eq(n, "/new-session") { SlashCommand::NewSession }
    else if str_eq(n, "/resume") { SlashCommand::Resume }
    else if str_eq(n, "/memory") { SlashCommand::Memory }
    else if str_eq(n, "/skill") { SlashCommand::Skill }
    else if str_eq(n, "/pet") { SlashCommand::Pet }
    else if str_eq(n, "/clear") { SlashCommand::Clear }
    else if str_eq(n, "/provider") { SlashCommand::Provider }
    else { SlashCommand::Unknown }
}

/// What is left of `s` after its first `n` whitespace characters
/// (`splitn(n + 1, char::is_whitespace).nth(n)`), if it has that many.
pub open spec fn after_nth_ws(s: Seq<char>, n: nat) -> Option<Seq<char>>
    decreases s.len(),
{
    if n == 0 {
        Some(s)
    } else if s.len() == 0 {
        None
    } else if is_ws(s[0]) {
        after_nth_ws(s.drop_first(), (n - 1) as nat)
    } else {
        after_nth_ws(s.drop_first(), n)
    }
}

/// The trimmed text after the first `n` whitespace characters of a command
/// line, or nothing.
pub open spec fn rest_after(s: Seq<char>, n: nat) -> Seq<char> {
    match after_nth_ws(s, n) {
        Some(r) => trim(r),
        None => Seq::empty(),
    }
}

pub fn rest_after_exec(s: &str, n: usize) -> (r: String)
    ensures
        r@ == rest_after(s@, n as nat),
{
    let v = chars_of(s);
    let mut i: usize = 0;
    let mut left: usize = n;
    assert(v@.subrange(0, v@.len() as int) =~= v@);
    while left > 0 && i < v.len()
        invariant
            i <= v@.len(),
            left <= n,
            after_nth_ws(v@, n as nat) == after_nth_ws(v@.subrange(i as int, v@.len() as int), left as nat),
        decreases v@.len() - i,
    {
        assert(v@.subrange(i as int, v@.len() as int).drop_first() =~= v@.subrange(i + 1, v@.len() as int));
        if crate::text::is_whitespace(v[i]) {
            left = left - 1;
        }
        i = i + 1;
    }
    if left > 0 {
        assert(v@.subrange(i as int, v@.len() as int) =~= Seq::<char>::empty());
        return String::new();
    }
    let tail = subvec(v.as_slice(), i, v.len());
    string_of(trimmed(tail.as_slice()).as_slice())
}

/// The argument at `i`, if given.
pub open spec fn arg_at(args: Seq<String>, i: int) -> Option<Seq<char>> {
    if 0 <= i < args.len() {
        Some(args[i]@)
    } else {
        None
    }
}

/// What a `/memory` command asks for.
#[derive(Debug, Clone, PartialEq, Eq)]
pub enum MemoryPlan {
    /// Show the facts (of a kind).
    List(Option<FactKind>),
    /// Show the facts (of a kind), archived ones included.
    ListAll(Option<FactKind>),
    /// Archive the active facts with a slug.
    Archive(String),
    /// Bring back the archived or unknown facts with a slug.
    Revive(String),
    /// Store a fact under a slug.
    Remember { kind: FactKind, slug: String, content: String },
    /// Delete every fact with a slug.
    Forget(String),
    /// Show the profile.
    ShowProfile,
    /// Replace the profile.
    SetProfile(String),
    /// Rewrite the facts into a narrative profile.
    Consolidate,
    /// Run the query planner on a scene.
    Query(String),
    /// Switch the injection strategy.
    SetMode(MemoryMode),
    /// Rewrite a state fact from recent messages.
    Restate(String),
    /// Store an observed behavioral pattern.
    Observe(String),
    /// Tell the user something (usage, refusal) and do nothing else.
    Say(String),
    /// Warn the user and do nothing else.
    Warn(String),
}

pub const MEMORY_HELP: &'static str = "memory: subcommands are list [all] [KIND] | archive SLUG | revive SLUG | remember KIND SLUG CONTENT | forget SLUG | profile [TEXT] | consolidate | query <text> | mode active|all | restate <slug> | observe <behavioral query>";

/// The plan of a `/memory` command from its raw line and its arguments
/// (after the command name). Commands that call the model need the local
/// provider.
pub open spec fn memory_plan_spec(raw: Seq<char>, args: Seq<String>, provider: Provider) -> MemoryPlanView {
    let sub = match arg_at(args, 0) {
        Some(s) => s,
        None => "list"@,
    };
    let llama = provider == Provider::Llamacpp;
    if sub == "list"@ {
        if arg_at(args, 1) == Some("all"@) {
            MemoryPlanView::ListAll(match arg_at(args, 2) {
                Some(k) => kind_of_word(lowercase(k)),
                None => None,
            })
        } else {
            MemoryPlanView::List(match arg_at(args, 1) {
                Some(k) => kind_of_word(lowercase(k)),
                None => None,
            })
        }
    } else if sub == "archive"@ {
        match arg_at(args, 1) {
            None => MemoryPlanView::Say("usage: /memory archive SLUG"@),
            Some(slug) => MemoryPlanView::Archive(slug),
        }
    } else if sub == "revive"@ {
        match arg_at(args, 1) {
            None => MemoryPlanView::Say("usage: /memory revive SLUG"@),
            Some(slug) => MemoryPlanView::Revive(slug),
        }
    } else if sub == "remember"@ {
        match arg_at(args, 1) {
            None => MemoryPlanView::Say("usage: /memory remember KIND SLUG CONTENT  (KIND: profile|concept|state|behavioral)"@),
            Some(k) => match kind_of_word(lowercase(k)) {
                None => MemoryPlanView::Say("usage: /memory remember KIND SLUG CONTENT  (KIND: profile|concept|state|behavioral)"@),
                Some(kind) => match arg_at(args, 2) {
                    None => MemoryPlanView::Say("usage: /memory remember KIND SLUG CONTENT"@),
                    Some(slug) => if rest_after(raw, 4).len() == 0 {
                        MemoryPlanView::Say("usage: /memory remember KIND SLUG CONTENT"@)
                    } else {
                        MemoryPlanView::Remember(kind, slug, rest_after(raw, 4))
                    },
                },
            },
        }
    } else if sub == "forget"@ {
        match arg_at(args, 1) {
            None => MemoryPlanView::Say("usage: /memory forget SLUG"@),
            Some(slug) => MemoryPlanView::Forget(slug),
        }
    } else if sub == "profile"@ {
        if rest_after(raw, 2).len() == 0 {
            MemoryPlanView::ShowProfile
        } else {
            MemoryPlanView::SetProfile(rest_after(raw, 2))
        }
    } else if sub == "consolidate"@ {
        if llama { MemoryPlanView::Consolidate } else { MemoryPlanView::Warn("memory consolidate requires llamacpp provider"@) }
    } else if sub == "query"@ {
        if rest_after(raw, 2).len() == 0 {
            MemoryPlanView::Say("usage: /memory query <text>\n(LLM proposes search queries against memory and returns matched facts)"@)
        } else if !llama {
            MemoryPlanView::Warn("memory query requires llamacpp provider"@)
        } else {
            MemoryPlanView::Query(rest_after(raw, 2))
        }
    } else if sub == "mode"@ {
        let m = match arg_at(args, 1) {
            Some(a) => lowercase(a),
            None => Seq::empty(),
        };
        if m == "active"@ {
            MemoryPlanView::SetMode(MemoryMode::Active)
        } else if m == "all"@ || m.len() == 0 {
            MemoryPlanView::SetMode(MemoryMode::All)
        } else {
            MemoryPlanView::Say("usage: /memory mode active|all"@)
        }
    } else if sub == "restate"@ {
        let slug = match arg_at(args, 1) {
            Some(a) => trim(a),
            None => Seq::empty(),
        };
        if slug.len() == 0 {
            MemoryPlanView::Say("usage: /memory restate <slug>\n(LLM rescans recent chat history and rewrites the state fact's answer)"@)
        } else if !llama {
            MemoryPlanView::Warn("memory restate requires llamacpp provider"@)
        } else {
            MemoryPlanView::Restate(slug)
        }
    } else if sub == "observe"@ {
        if rest_after(raw, 2).len() == 0 {
            MemoryPlanView::Say("usage: /memory observe <behavioral query>\n(LLM scans past user messages, summarizes the user's pattern matching the query)"@)
        } else if !llama {
            MemoryPlanView::Warn("memory observe requires llamacpp provider"@)
        } else {
            MemoryPlanView::Observe(rest_after(raw, 2))
        }
    } else {
        MemoryPlanView::Say(MEMORY_HELP@)
    }
}

/// The model-backed `/memory` subcommands (consolidate, query, restate,
/// observe) are planned exactly under the llamacpp provider: with their
/// argument given, llamacpp plans the command on that argument and any other
/// provider gets the llamacpp warning.
pub proof fn law_model_backed_memory_commands_need_llamacpp(raw: Seq<char>, args: Seq<String>)
    requires
        args.len() > 0,
    ensures
        args[0]@ == "observe"@ && rest_after(raw, 2).len() > 0 ==> {
            &&& memory_plan_spec(raw, args, Provider::Llamacpp) == MemoryPlanView::Observe(rest_after(raw, 2))
            &&& memory_plan_spec(raw, args, Provider::Anthropic) == MemoryPlanView::Warn("memory observe requires llamacpp provider"@)
        },
        args[0]@ == "query"@ && rest_after(raw, 2).len() > 0 ==> {
            &&& memory_plan_spec(raw, args, Provider::Llamacpp) == MemoryPlanView::Query(rest_after(raw, 2))
            &&& memory_plan_spec(raw, args, Provider::Anthropic) == MemoryPlanView::Warn("memory query requires llamacpp provider"@)
        },
        args[0]@ == "restate"@ && args.len() > 1 && trim(args[1]@).len() > 0 ==> {
            &&& memory_plan_spec(raw, args, Provider::Llamacpp) == MemoryPlanView::Restate(trim(args[1]@))
            &&& memory_plan_spec(raw, args, Provider::Anthropic) == MemoryPlanView::Warn("memory restate requires llamacpp provider"@)
        },
        args[0]@ == "consolidate"@ ==> {
            &&& memory_plan_spec(raw, args, Provider::Llamacpp) == MemoryPlanView::Consolidate
            &&& memory_plan_spec(raw, args, Provider::Anthropic) == MemoryPlanView::Warn("memory consolidate requires llamacpp provider"@)
        },
{
    reveal_strlit("list");
    reveal_strlit("archive");
    reveal_strlit("revive");
    reveal_strlit("remember");
    reveal_strlit("forget");
    reveal_strlit("profile");
    reveal_strlit("consolidate");
    reveal_strlit("query");
    reveal_strlit("mode");
    reveal_strlit("restate");
    reveal_strlit("observe");
    let w = args[0]@;
    assert(arg_at(args, 0) == Some(w));
    if w == "observe"@ || w == "restate"@ {
        assert(w[0] != 'l' && w[0] != 'a' && w[0] != 'p' && w[0] != 'f' && w[0] != 'c' && w[0] != 'q' && w[0] != 'm');
        assert(w.len() != "revive"@.len() && w.len() != "remember"@.len());
        assert(w != "list"@ && w != "archive"@ && w != "revive"@ && w != "remember"@ && w != "forget"@);
        assert(w != "profile"@ && w != "consolidate"@ && w != "query"@ && w != "mode"@);
        if w == "observe"@ {
            assert(w != "restate"@);
        }
    }
    if w == "query"@ || w == "consolidate"@ {
        assert(w.len() != "list"@.len() && w.len() != "archive"@.len() && w.len() != "revive"@.len());
        assert(w.len() != "remember"@.len() && w.len() != "forget"@.len() && w.len() != "profile"@.len());
        assert(w != "list"@ && w != "archive"@ && w != "revive"@ && w != "remember"@ && w != "forget"@ && w != "profile"@);
        if w == "query"@ {
            assert(w.len() != "consolidate"@.len());
        }
    }
}

/// A memory plan as plain values.
pub enum MemoryPlanView {
    List(Option<FactKind>),
    ListAll(Option<FactKind>),
    Archive(Seq<char>),
    Revive(Seq<char>),
    Remember(FactKind, Seq<char>, Seq<char>),
    Forget(Seq<char>),
    ShowProfile,
    SetProfile(Seq<char>),
    Consolidate,
    Query(Seq<char>),
    SetMode(MemoryMode),
    Restate(Seq<char>),
    Observe(Seq<char>),
    Say(Seq<char>),
    Warn(Seq<char>),
}

impl View for MemoryPlan {
    type V = MemoryPlanView;

    open spec fn view(&self) -> MemoryPlanView {
        match self {
            MemoryPlan::List(k) => MemoryPlanView::List(*k),
            MemoryPlan::ListAll(k) => MemoryPlanView::ListAll(*k),
            MemoryPlan::Archive(s) => MemoryPlanView::Archive(s@),
            MemoryPlan::Revive(s) => MemoryPlanView::Revive(s@),
            MemoryPlan::Remember { kind, slug, content } => MemoryPlanView::Remember(*kind, slug@, content@),
            MemoryPlan::Forget(s) => MemoryPlanView::Forget(s@),
            MemoryPlan::ShowProfile => MemoryPlanView::ShowProfile,
            MemoryPlan::SetProfile(s) => MemoryPlanView::SetProfile(s@),
            MemoryPlan::Consolidate => MemoryPlanView::Consolidate,
            MemoryPlan::Query(s) => MemoryPlanView::Query(s@),
            MemoryPlan::SetMode(m) => MemoryPlanView::SetMode(*m),
            MemoryPlan::Restate(s) => MemoryPlanView::Restate(s@),
            MemoryPlan::Observe(s) => MemoryPlanView::Observe(s@),
            MemoryPlan::Say(s) => MemoryPlanView::Say(s@),
            MemoryPlan::Warn(s) => MemoryPlanView::Warn(s@),
        }
    }
}

pub(crate) fn arg_str(args: &[String], i: usize) -> (r: Option<&str>)
    ensures
        match r {
            Some(s) => arg_at(args@, i as int) == Some(s@),
            None => arg_at(args@, i as int) is None,
        },
{
    if i < args.len() {
        Some(args[i].as_str())
    } else {
        None
    }
}

/// The plan of a `/memory` command (see `memory_plan_spec`).
pub fn plan_memory(raw: &str, args: &[String], provider: Provider) -> (r: MemoryPlan)
    ensures
        r@ == memory_plan_spec(raw@, args@, provider),
{
    let sub: &str = match arg_str(args, 0) {
        Some(s) => s,
        None => "list",
    };
    let llama = provider == Provider::Llamacpp;
    if str_eq(sub, "list") {
        let all = match arg_str(args, 1) {
            Some(a) => str_eq(a, "all"),
            None => false,
        };
        let kind_at: usize = if all { 2 } else { 1 };
        let kind = match arg_str(args, kind_at) {
            Some(k) => FactKind::parse(k),
            None => None,
        };
        if all {
            MemoryPlan::ListAll(kind)
        } else {
            MemoryPlan::List(kind)
        }
    } else if str_eq(sub, "archive") {
        match arg_str(args, 1) {
            None => MemoryPlan::Say(String::from_str("usage: /memory archive SLUG")),
            Some(slug) => MemoryPlan::Archive(String::from_str(slug)),
        }
    } else if str_eq(sub, "revive") {
        match arg_str(args, 1) {
            None => MemoryPlan::Say(String::from_str("usage: /memory revive SLUG")),
            Some(slug) => MemoryPlan::Revive(String::from_str(slug)),
        }
    } else if str_eq(sub, "remember") {
        let kind = match arg_str(args, 1) {
            Some(k) => FactKind::parse(k),
            None => None,
        };
        match kind {
            None => MemoryPlan::Say(String::from_str("usage: /memory remember KIND SLUG CONTENT  (KIND: profile|concept|state|behavioral)")),
            Some(kind) => match arg_str(args, 2) {
                None => MemoryPlan::Say(String::from_str("usage: /memory remember KIND SLUG CONTENT")),
                Some(slug) => {
                    let content = rest_after_exec(raw, 4);
                    if content.as_str().is_empty() {
                        MemoryPlan::Say(String::from_str("usage: /memory remember KIND SLUG CONTENT"))
                    } else {
                        MemoryPlan::Remember { kind, slug: String::from_str(slug), content }
                    }
                },
            },
        }
    } else if str_eq(sub, "forget") {
        match arg_str(args, 1) {
            None => MemoryPlan::Say(String::from_str("usage: /memory forget SLUG")),
            Some(slug) => MemoryPlan::Forget(String::from_str(slug)),
        }
    } else if str_eq(sub, "profile") {
        let content = rest_after_exec(raw, 2);
        if content.as_str().is_empty() {
            MemoryPlan::ShowProfile
        } else {
            MemoryPlan::SetProfile(content)
        }
    } else if str_eq(sub, "consolidate") {
        if llama {
            MemoryPlan::Consolidate
        } else {
            MemoryPlan::Warn(String::from_str("memory consolidate requires llamacpp provider"))
        }
    } else if str_eq(sub, "query") {
        let scene = rest_after_exec(raw, 2);
        if scene.as_str().is_empty() {
            MemoryPlan::Say(String::from_str("usage: /memory query <text>\n(LLM proposes search queries against memory and returns matched facts)"))
        } else if !llama {
            MemoryPlan::Warn(String::from_str("memory query requires llamacpp provider"))
        } else {
            MemoryPlan::Query(scene)
        }
    } else if str_eq(sub, "mode") {
        let m = match arg_str(args, 1) {
            Some(a) => to_lowercase(a),
            None => String::new(),
        };
        if str_eq(m.as_str(), "active") {
            MemoryPlan::SetMode(MemoryMode::Active)
        } else if str_eq(m.as_str(), "all") || m.as_str().is_empty() {
            MemoryPlan::SetMode(MemoryMode::All)
        } else {
            MemoryPlan::Say(String::from_str("usage: /memory mode active|all"))
        }
    } else if str_eq(sub, "restate") {
        let slug: Vec<char> = match arg_str(args, 1) {
            Some(a) => trimmed(chars_of(a).as_slice()),
            None => Vec::new(),
        };
        if slug.len() == 0 {
            MemoryPlan::Say(String::from_str("usage: /memory restate <slug>\n(LLM rescans recent chat history and rewrites the state fact's answer)"))
        } else if !llama {
            MemoryPlan::Warn(String::from_str("memory restate requires llamacpp provider"))
        } else {
            MemoryPlan::Restate(string_of(slug.as_slice()))
        }
    } else if str_eq(sub, "observe") {
        let q = rest_after_exec(raw, 2);
        if q.as_str().is_empty() {
            MemoryPlan::Say(String::from_str("usage: /memory observe <behavioral query>\n(LLM scans past user messages, summarizes the user's pattern matching the query)"))
        } else if !llama {
            MemoryPlan::Warn(String::from_str("memory observe requires llamacpp provider"))
        } else {
            MemoryPlan::Observe(q)
        }
    } else {
        MemoryPlan::Say(String::from_str(MEMORY_HELP))
    }
}


pub open spec fn scope_label(s: Option<Seq<char>>) -> Seq<char> {
    match s {
        Some(x) => x,
        None => "-"@,
    }
}

pub open spec fn fact_listing_line(f: FactView) -> Seq<char> {
    "  ["@ + kind_name(f.kind) + "] "@ + f.slug + " (scope="@ + scope_label(f.scope) + ")  "@ + f.content + "\n"@
}

pub open spec fn fact_listing_lines(fs: Seq<FactView>) -> Seq<char>
    decreases fs.len(),
{
    if fs.len() == 0 {
        Seq::empty()
    } else {
        fact_listing_lines(fs.drop_last()) + fact_listing_line(fs.last())
    }
}

/// What `/memory list` shows for the listed facts.
pub open spec fn fact_listing(fs: Seq<FactView>) -> Seq<char> {
    if fs.len() == 0 {
        "memory: no facts stored."@
    } else {
        "memory:\n"@ + fact_listing_lines(fs)
    }
}

fn append_scope(s: &mut String, scope: &Option<String>)
    ensures
        final(s)@ == old(s)@ + scope_label(scope.deep_view()),
{
    match scope {
        Some(x) => s.append(x.as_str()),
        None => s.append("-"),
    }
}

pub fn format_fact_listing(facts: &[Fact]) -> (r: String)
    ensures
        r@ == fact_listing(facts_view(facts@)),
{
    if facts.len() == 0 {
        return String::from_str("memory: no facts stored.");
    }
    let ghost fv = facts_view(facts@);
    let mut out = String::from_str("memory:\n");
    let ghost start = out@;
    let mut i: usize = 0;
    assert(fv.take(0) =~= Seq::<FactView>::empty());
    assert(start + fact_listing_lines(fv.take(0)) =~= start);
    while i < facts.len()
        invariant
            fv == facts_view(facts@),
            i <= facts@.len(),
            out@ == start + fact_listing_lines(fv.take(i as int)),
        decreases facts@.len() - i,
    {
        let f = &facts[i];
        assert(fv.take(i + 1).drop_last() =~= fv.take(i as int));
        assert(fv.take(i + 1).last() == f@);
        out.append("  [");
        out.append(f.kind.as_str());
        out.append("] ");
        out.append(f.slug.as_str());
        out.append(" (scope=");
        append_scope(&mut out, &f.skill_scope);
        out.append(")  ");
        out.append(f.content.as_str());
        out.append("\n");
        assert(out@ =~= start + fact_listing_lines(fv.take(i + 1)));
        i = i + 1;
    }
    assert(fv.take(i as int) =~= fv);
    out
}

/// What `/memory remember` reports once stored.
pub fn remembered_message(kind: FactKind, slug: &str) -> (r: String)
    ensures
        r@ == "remembered ["@ + kind_name(kind) + "] "@ + slug@,
{
    let mut s = String::from_str("remembered [");
    s.append(kind.as_str());
    s.append("] ");
    s.append(slug);
    s
}

/// What `/memory forget` reports for the number of deleted facts.
pub fn forgot_message(slug: &str, n: usize) -> (r: String)
    ensures
        n == 0 ==> r@ == "no fact named `"@ + slug@ + "`"@,
        n > 0 ==> r@ == "forgot "@ + decimal(n as nat) + " fact(s) `"@ + slug@ + "`"@,
{
    if n == 0 {
        let mut s = String::from_str("no fact named `");
        s.append(slug);
        s.append("`");
        s
    } else {
        let mut s = String::from_str("forgot ");
        s.append(string_of(usize_decimal(n).as_slice()).as_str());
        s.append(" fact(s) `");
        s.append(slug);
        s.append("`");
        s
    }
}

/// What `/memory archive` reports after archiving `n` facts.
pub fn archived_message(slug: &str, n: usize) -> (r: String)
    ensures
        n == 0 ==> r@ == "no active fact named `"@ + slug@ + "`"@,
        n > 0 ==> r@ == "archived "@ + decimal(n as nat) + " fact(s) `"@ + slug@ + "`"@,
{
    if n == 0 {
        let mut s = String::from_str("no active fact named `");
        s.append(slug);
        s.append("`");
        s
    } else {
        let mut s = String::from_str("archived ");
        s.append(string_of(crate::text::usize_decimal(n).as_slice()).as_str());
        s.append(" fact(s) `");
        s.append(slug);
        s.append("`");
        s
    }
}

/// What `/memory revive` reports after reviving `n` facts.
pub fn revived_message(slug: &str, n: usize) -> (r: String)
    ensures
        n == 0 ==> r@ == "no archived fact named `"@ + slug@ + "` could be revived"@,
        n > 0 ==> r@ == "revived "@ + decimal(n as nat) + " fact(s) `"@ + slug@ + "`"@,
{
    if n == 0 {
        let mut s = String::from_str("no archived fact named `");
        s.append(slug);
        s.append("` could be revived");
        s
    } else {
        let mut s = String::from_str("revived ");
        s.append(string_of(crate::text::usize_decimal(n).as_slice()).as_str());
        s.append(" fact(s) `");
        s.append(slug);
        s.append("`");
        s
    }
}

/// What `/memory profile` shows.
pub fn profile_message(profile: Option<&str>) -> (r: String)
    ensures
        r@ == match profile {
            Some(p) => "profile:\n"@ + p@,
            None => "no profile set. usage: /memory profile <text>"@,
        },
{
    match profile {
        Some(p) => {
            let mut s = String::from_str("profile:\n");
            s.append(p);
            s
        },
        None => String::from_str("no profile set. usage: /memory profile <text>"),
    }
}

pub open spec fn mode_label(m: MemoryMode) -> Seq<char> {
    match m {
        MemoryMode::All => "all (inject every fact)"@,
        MemoryMode::Active => "active (LLM-driven per-turn query proposal)"@,
    }
}

/// What `/memory mode` reports.
pub fn mode_message(m: MemoryMode) -> (r: String)
    ensures
        r@ == "memory mode: "@ + mode_label(m),
{
    let mut s = String::from_str("memory mode: ");
    match m {
        MemoryMode::All => s.append("all (inject every fact)"),
        MemoryMode::Active => s.append("active (LLM-driven per-turn query proposal)"),
    }
    s
}

/// Characters of `s` kept at most by `take(n)`.
pub open spec fn take_chars(s: Seq<char>, n: nat) -> Seq<char> {
    if s.len() <= n {
        s
    } else {
        s.take(n as int)
    }
}

/// The slug of an observed pattern: the query in kebab case, at most 40
/// characters, `observation` when nothing is left.
pub open spec fn query_slug(q: Seq<char>) -> Seq<char> {
    let n = normalized_slug(q);
    if n.len() == 0 {
        "observation"@
    } else {
        take_chars(n, 40)
    }
}

pub fn slugify_query(s: &str) -> (r: String)
    ensures
        r@ == query_slug(s@),
{
    let n = crate::memory_capture::normalize_slug(s);
    let v = chars_of(n.as_str());
    if v.len() == 0 {
        return String::from_str("observation");
    }
    if v.len() <= 40 {
        n
    } else {
        let head = subvec(v.as_slice(), 0, 40);
        assert(head@ =~= v@.take(40));
        string_of(head.as_slice())
    }
}

/// One message of the chat transcript: who wrote it and its text blocks.
#[derive(Debug, Clone)]
pub struct ChatEntry {
    pub from_user: bool,
    pub texts: Vec<String>,
}

pub open spec fn join_with_newlines(ts: Seq<Seq<char>>) -> Seq<char>
    decreases ts.len(),
{
    if ts.len() == 0 {
        Seq::empty()
    } else if ts.len() == 1 {
        ts[0]
    } else {
        join_with_newlines(ts.drop_last()) + "\n"@ + ts.last()
    }
}

/// The user messages of a transcript with some text, each as its blocks
/// joined with newlines.
pub open spec fn user_texts(es: Seq<ChatEntry>) -> Seq<Seq<char>>
    decreases es.len(),
{
    if es.len() == 0 {
        Seq::empty()
    } else {
        let prev = user_texts(es.drop_last());
        let e = es.last();
        if e.from_user && e.texts@.len() > 0 {
            prev.push(join_with_newlines(e.texts.deep_view()))
        } else {
            prev
        }
    }
}

/// The last `max` of them, oldest first.
pub open spec fn recent_user_texts(es: Seq<ChatEntry>, max: nat) -> Seq<Seq<char>> {
    let all = user_texts(es);
    if all.len() <= max {
        all
    } else {
        all.subrange(all.len() - max, all.len() as int)
    }
}

fn join_texts(ts: &Vec<String>) -> (r: String)
    ensures
        r@ == join_with_newlines(ts.deep_view()),
{
    let ghost tv = ts.deep_view();
    let mut out = String::new();
    let mut i: usize = 0;
    while i < ts.len()
        invariant
            tv == ts.deep_view(),
            i <= ts@.len(),
            out@ == join_with_newlines(tv.take(i as int)),
        decreases ts@.len() - i,
    {
        let ghost before = out@;
        if i > 0 {
            out.append("\n");
        }
        out.append(ts[i].as_str());
        proof {
            let t1 = tv.take(i + 1);
            assert(t1.drop_last() =~= tv.take(i as int));
            assert(t1.last() == ts@[i as int]@);
            if i == 0 {
                assert(before =~= Seq::<char>::empty());
                assert(join_with_newlines(t1) == t1[0]);
            }
        }
        assert(out@ =~= join_with_newlines(tv.take(i + 1)));
        i = i + 1;
    }
    assert(tv.take(i as int) =~= tv);
    out
}

/// The recent user messages a restate or observe pass reads.
pub fn collect_recent_user_messages(entries: &[ChatEntry], max: usize) -> (r: Vec<String>)
    ensures
        r.deep_view() == recent_user_texts(entries@, max as nat),
{
    let mut all: Vec<String> = Vec::new();
    let mut i: usize = 0;
    while i < entries.len()
        invariant
            i <= entries@.len(),
            all.deep_view() == user_texts(entries@.take(i as int)),
        decreases entries@.len() - i,
    {
        let e = &entries[i];
        assert(entries@.take(i + 1).drop_last() =~= entries@.take(i as int));
        assert(entries@.take(i + 1).last() == *e);
        if e.from_user && e.texts.len() > 0 {
            let ghost before = all.deep_view();
            let j = join_texts(&e.texts);
            all.push(j);
            assert(all.deep_view() =~= before.push(j@));
        }
        i = i + 1;
    }
    assert(entries@.take(i as int) =~= entries@);
    if all.len() <= max {
        return all;
    }
    let ghost av = all.deep_view();
    let start = all.len() - max;
    let mut out: Vec<String> = Vec::new();
    let mut k: usize = start;
    while k < all.len()
        invariant
            av == all.deep_view(),
            start <= k <= all@.len(),
            out.deep_view() == av.subrange(start as int, k as int),
        decreases all@.len() - k,
    {
        let ghost before = out.deep_view();
        let c = all[k].clone();
        assert(c@ == av[k as int]);
        out.push(c);
        assert(out.deep_view() =~= before.push(c@));
        assert(out.deep_view() =~= av.subrange(start as int, k + 1));
        k = k + 1;
    }
    out
}

/// What a restate pass does with the model's answer for a state fact.
#[derive(Debug, Clone, PartialEq, Eq)]
pub enum RestateOutcome {
    /// Tell the user; nothing is written.
    Report(String),
    /// Store this answer, then report it.
    Write(String),
}

pub fn restate_outcome(slug: &str, current: &str, answer: Option<&str>) -> (r: RestateOutcome)
    ensures
        match answer {
            None => r matches RestateOutcome::Report(m) && m@ == "memory restate: llama returned empty answer"@,
            Some(a) => if a@ == current@ {
                r matches RestateOutcome::Report(m) && m@ == "memory restate["@ + slug@ + "]: no change ("@ + a@ + ")"@
            } else {
                r matches RestateOutcome::Write(w) && w@ == a@
            },
        },
{
    match answer {
        None => RestateOutcome::Report(String::from_str("memory restate: llama returned empty answer")),
        Some(a) => if str_eq(a, current) {
            let mut m = String::from_str("memory restate[");
            m.append(slug);
            m.append("]: no change (");
            m.append(a);
            m.append(")");
            RestateOutcome::Report(m)
        } else {
            RestateOutcome::Write(String::from_str(a))
        },
    }
}

/// Value of a run of decimal digits.
pub open spec fn digits_value(s: Seq<char>) -> int
    decreases s.len(),
{
    if s.len() == 0 {
        0
    } else {
        digits_value(s.drop_last()) * 10 + (s.last() as int - '0' as int)
    }
}

pub open spec fn all_digits(s: Seq<char>) -> bool {
    forall|i: int| 0 <= i < s.len() ==> '0' <= #[trigger] s[i] && s[i] <= '9'
}

/// `str::parse::<u16>`: an optional `+` and one or more digits, at most 65535.
pub open spec fn parse_u16(s: Seq<char>) -> Option<u16> {
    let d = if s.len() > 0 && s[0] == '+' { s.drop_first() } else { s };
    if d.len() > 0 && all_digits(d) && digits_value(d) <= 65535 {
        Some(digits_value(d) as u16)
    } else {
        None
    }
}

/// The piece of `s` after the first `://`, up to the next one.
pub open spec fn second_piece(s: Seq<char>) -> Option<Seq<char>> {
    let i = crate::text::find_from(s, "://"@, 0);
    if i < 0 {
        None
    } else {
        let rest = s.subrange(i + 3, s.len() as int);
        let j = crate::text::find_from(rest, "://"@, 0);
        Some(if j < 0 { rest } else { rest.take(j) })
    }
}

/// Index of the last `c` in `s`, or `-1`.
pub open spec fn last_char(s: Seq<char>, c: char) -> int
    decreases s.len(),
{
    if s.len() == 0 {
        -1
    } else if s.last() == c {
        s.len() - 1
    } else {
        last_char(s.drop_last(), c)
    }
}

/// The port a server URL names: after the scheme, before the first `/`,
/// after the last `:`.
pub open spec fn port_of(url: Seq<char>) -> Option<u16> {
    match second_piece(url) {
        None => None,
        Some(after) => {
            let slash = crate::text::first_char_from(after, '/', 0);
            let host_port = if slash < 0 { after } else { after.take(slash) };
            let colon = last_char(host_port, ':');
            parse_u16(host_port.subrange(colon + 1, host_port.len() as int))
        },
    }
}

fn parse_u16_exec(v: &[char]) -> (r: Option<u16>)
    ensures
        r == parse_u16(v@),
{
    let start: usize = if v.len() > 0 && v[0] == '+' { 1 } else { 0 };
    let d = subvec(v, start, v.len());
    proof {
        if v@.len() > 0 && v@[0] == '+' {
            assert(d@ =~= v@.drop_first());
        } else {
            assert(d@ =~= v@);
        }
    }
    if d.len() == 0 {
        return None;
    }
    let mut n: u32 = 0;
    let mut i: usize = 0;
    while i < d.len()
        invariant
            d@ == (if v@.len() > 0 && v@[0] == '+' { v@.drop_first() } else { v@ }),
            d@.len() > 0,
            i <= d@.len(),
            all_digits(d@.take(i as int)),
            n as int == digits_value(d@.take(i as int)),
            n <= 65535,
        decreases d@.len() - i,
    {
        let c = d[i];
        assert(d@.take(i + 1).drop_last() =~= d@.take(i as int));
        if !('0' <= c && c <= '9') {
            assert(d@[i as int] == c);
            assert(!('0' <= d@[i as int] && d@[i as int] <= '9'));
            assert(!all_digits(d@));
            assert(parse_u16(v@) is None);
            return None;
        }
        let digit = (c as u32) - ('0' as u32);
        let next = n * 10 + digit;
        assert(next as int == digits_value(d@.take(i + 1)));
        if next > 65535 {
            proof {
                if all_digits(d@) {
                    lemma_digits_prefix(d@, i + 1);
                }
            }
            assert(parse_u16(v@) is None);
            return None;
        }
        n = next;
        i = i + 1;
    }
    assert(d@.take(i as int) =~= d@);
    Some(n as u16)
}

proof fn lemma_digits_nonneg(s: Seq<char>)
    requires
        all_digits(s),
    ensures
        digits_value(s) >= 0,
    decreases s.len(),
{
    if s.len() > 0 {
        assert(all_digits(s.drop_last())) by {
            assert forall|i: int| 0 <= i < s.drop_last().len() implies '0' <= #[trigger] s.drop_last()[i] && s.drop_last()[i] <= '9' by {
                assert(s.drop_last()[i] == s[i]);
            }
        }
        lemma_digits_nonneg(s.drop_last());
    }
}

proof fn lemma_digits_prefix(s: Seq<char>, k: int)
    requires
        0 <= k <= s.len(),
        all_digits(s),
    ensures
        digits_value(s.take(k)) <= digits_value(s),
    decreases s.len() - k,
{
    if k < s.len() {
        assert(all_digits(s.drop_last())) by {
            assert forall|i: int| 0 <= i < s.drop_last().len() implies '0' <= #[trigger] s.drop_last()[i] && s.drop_last()[i] <= '9' by {
                assert(s.drop_last()[i] == s[i]);
            }
        }
        lemma_digits_prefix(s.drop_last(), k);
        assert(s.drop_last().take(k) =~= s.take(k));
        lemma_digits_nonneg(s.drop_last());
    } else {
        assert(s.take(k) =~= s);
    }
}

/// The port of a managed server's URL (see `port_of`).
pub fn extract_port(url: &str) -> (r: Option<u16>)
    ensures
        r == port_of(url@),
{
    let v = chars_of(url);
    let sep = chars_of("://");
    let i = match crate::text::find_seq_from(v.as_slice(), sep.as_slice(), 0) {
        Some(i) => i,
        None => return None,
    };
    proof {
        crate::text::lemma_find_from(v@, sep@, 0);
        reveal_strlit("://");
    }
    let vl = v.len();
    assert(i + 3 <= vl);
    let rest = subvec(v.as_slice(), i + 3, v.len());
    let after = match crate::text::find_seq_from(rest.as_slice(), sep.as_slice(), 0) {
        Some(j) => {
            proof { crate::text::lemma_find_from(rest@, sep@, 0); }
            let a = subvec(rest.as_slice(), 0, j);
            assert(a@ =~= rest@.take(j as int));
            a
        },
        None => rest,
    };
    let host_port = match crate::text::find_char_from(after.as_slice(), '/', 0) {
        Some(k) => {
            proof { crate::text::lemma_first_char_from(after@, '/', 0); }
            let h = subvec(after.as_slice(), 0, k);
            assert(h@ =~= after@.take(k as int));
            h
        },
        None => after,
    };
    let mut c: usize = host_port.len();
    assert(host_port@.take(c as int) =~= host_port@);
    while c > 0 && host_port[c - 1] != ':'
        invariant
            c <= host_port@.len(),
            last_char(host_port@, ':') == last_char(host_port@.take(c as int), ':'),
        decreases c,
    {
        assert(host_port@.take(c as int).drop_last() =~= host_port@.take(c - 1));
        c = c - 1;
    }
    proof {
        if c > 0 {
            assert(host_port@.take(c as int).last() == ':');
        } else {
            assert(host_port@.take(0) =~= Seq::<char>::empty());
        }
    }
    let tail = subvec(host_port.as_slice(), c, host_port.len());
    parse_u16_exec(tail.as_slice())
}


/// `s` padded with spaces to `w` characters (`{:<w}`).
pub open spec fn pad_right(s: Seq<char>, w: nat) -> Seq<char> {
    if s.len() >= w {
        s
    } else {
        s + Seq::new((w - s.len()) as nat, |i: int| ' ')
    }
}

fn append_padded(out: &mut String, s: &str, w: usize)
    ensures
        final(out)@ == old(out)@ + pad_right(s@, w as nat),
{
    out.append(s);
    let n = chars_of(s).len();
    if n < w {
        let ghost base = out@;
        let mut k: usize = n;
        while k < w
            invariant
                n <= k <= w,
                out@ == base + Seq::new((k - n) as nat, |i: int| ' '),
            decreases w - k,
        {
            crate::text::push_char(out, ' ');
            assert(out@ =~= base + Seq::new((k + 1 - n) as nat, |i: int| ' '));
            k = k + 1;
        }
    }
    proof {
        if n >= w {
        }
    }
    assert(final(out)@ =~= old(out)@ + pad_right(s@, w as nat));
}

pub fn append_padded_pub(out: &mut String, s: &str, w: usize)
    ensures
        final(out)@ == old(out)@ + pad_right(s@, w as nat),
{
    append_padded(out, s, w)
}

pub open spec fn query_lines(qs: Seq<crate::memory_query::MemoryQueryView>) -> Seq<char>
    decreases qs.len(),
{
    if qs.len() == 0 {
        Seq::empty()
    } else {
        query_lines(qs.drop_last()) + "  "@ + kind_name(qs.last().tag) + " | "@ + qs.last().query + "\n"@
    }
}

pub open spec fn matched_lines(fs: Seq<FactView>) -> Seq<char>
    decreases fs.len(),
{
    if fs.len() == 0 {
        Seq::empty()
    } else {
        let f = fs.last();
        matched_lines(fs.drop_last()) + "  ["@ + pad_right(kind_name(f.kind), 10) + "] "@ + f.slug + " (scope="@
            + scope_label(f.scope) + ")  "@ + f.content + "\n"@
    }
}

/// What `/memory query` reports: the proposed queries and the matched facts.
pub open spec fn query_report_text(qs: Seq<crate::memory_query::MemoryQueryView>, fs: Seq<FactView>) -> Seq<char> {
    "memory query proposal:\n"@ + (if qs.len() == 0 {
        "  (LLM proposed no queries — scene may need no memory context)\n"@
    } else {
        query_lines(qs)
    }) + "\nmatched facts:\n"@ + if fs.len() == 0 {
        "  (no facts matched)\n"@
    } else {
        matched_lines(fs)
    }
}

pub fn query_report(queries: &[crate::memory_query::MemoryQuery], facts: &[Fact]) -> (r: String)
    ensures
        r@ == query_report_text(crate::memory_query::queries_view(queries@), facts_view(facts@)),
{
    let ghost qv = crate::memory_query::queries_view(queries@);
    let ghost fv = facts_view(facts@);
    let mut out = String::from_str("memory query proposal:\n");
    let ghost s0 = out@;
    if queries.len() == 0 {
        out.append("  (LLM proposed no queries — scene may need no memory context)\n");
    } else {
        let mut i: usize = 0;
        assert(qv.take(0) =~= Seq::<crate::memory_query::MemoryQueryView>::empty());
        assert(s0 + query_lines(qv.take(0)) =~= s0);
        while i < queries.len()
            invariant
                qv == crate::memory_query::queries_view(queries@),
                i <= queries@.len(),
                out@ == s0 + query_lines(qv.take(i as int)),
            decreases queries@.len() - i,
        {
            let q = &queries[i];
            assert(qv.take(i + 1).drop_last() =~= qv.take(i as int));
            assert(qv.take(i + 1).last() == q@);
            out.append("  ");
            out.append(q.tag.as_str());
            out.append(" | ");
            out.append(q.query.as_str());
            out.append("\n");
            assert(out@ =~= s0 + query_lines(qv.take(i + 1)));
            i = i + 1;
        }
        assert(qv.take(i as int) =~= qv);
    }
    out.append("\nmatched facts:\n");
    let ghost s1 = out@;
    if facts.len() == 0 {
        out.append("  (no facts matched)\n");
    } else {
        let mut i: usize = 0;
        assert(fv.take(0) =~= Seq::<FactView>::empty());
        assert(s1 + matched_lines(fv.take(0)) =~= s1);
        while i < facts.len()
            invariant
                fv == facts_view(facts@),
                i <= facts@.len(),
                out@ == s1 + matched_lines(fv.take(i as int)),
            decreases facts@.len() - i,
        {
            let f = &facts[i];
            assert(fv.take(i + 1).drop_last() =~= fv.take(i as int));
            assert(fv.take(i + 1).last() == f@);
            out.append("  [");
            append_padded(&mut out, f.kind.as_str(), 10);
            out.append("] ");
            out.append(f.slug.as_str());
            out.append(" (scope=");
            append_scope(&mut out, &f.skill_scope);
            out.append(")  ");
            out.append(f.content.as_str());
            out.append("\n");
            assert(out@ =~= s1 + matched_lines(fv.take(i + 1)));
            i = i + 1;
        }
        assert(fv.take(i as int) =~= fv);
    }
    assert(out@ =~= query_report_text(qv, fv));
    out
}

/// An installed skill as listed: its name and description.
#[derive(Debug, Clone)]
pub struct SkillEntry {
    pub name: String,
    pub description: String,
}

pub open spec fn skill_lines(es: Seq<SkillEntry>) -> Seq<char>
    decreases es.len(),
{
    if es.len() == 0 {
        Seq::empty()
    } else {
        let e = es.last();
        skill_lines(es.drop_last()) + "  - "@ + pad_right(e.name@, 20) + " "@ + (if e.description@.len() == 0 {
            "(no description)"@
        } else {
            e.description@
        }) + "\n"@
    }
}

pub open spec fn skills_listing_text(es: Seq<SkillEntry>) -> Seq<char> {
    if es.len() == 0 {
        "no skills installed. Put SKILL.md under ~/.mochi/skills/<name>/SKILL.md"@
    } else {
        "skills:\n"@ + skill_lines(es)
    }
}

/// What `/skill list` shows for the installed skills (in name order).
pub fn skills_listing(entries: &[SkillEntry]) -> (r: String)
    ensures
        r@ == skills_listing_text(entries@),
{
    if entries.len() == 0 {
        return String::from_str("no skills installed. Put SKILL.md under ~/.mochi/skills/<name>/SKILL.md");
    }
    let mut out = String::from_str("skills:\n");
    let ghost s0 = out@;
    let mut i: usize = 0;
    assert(entries@.take(0) =~= Seq::<SkillEntry>::empty());
    assert(s0 + skill_lines(entries@.take(0)) =~= s0);
    while i < entries.len()
        invariant
            i <= entries@.len(),
            out@ == s0 + skill_lines(entries@.take(i as int)),
        decreases entries@.len() - i,
    {
        let e = &entries[i];
        assert(entries@.take(i + 1).drop_last() =~= entries@.take(i as int));
        assert(entries@.take(i + 1).last() == *e);
        out.append("  - ");
        append_padded(&mut out, e.name.as_str(), 20);
        out.append(" ");
        if e.description.as_str().is_empty() {
            out.append("(no description)");
        } else {
            out.append(e.description.as_str());
        }
        out.append("\n");
        assert(out@ =~= s0 + skill_lines(entries@.take(i + 1)));
        i = i + 1;
    }
    assert(entries@.take(i as int) =~= entries@);
    out
}

/// What a `/skill` command asks for.
#[derive(Debug, Clone, PartialEq, Eq)]
pub enum SkillPlan {
    /// List the installed skills.
    List,
    /// Show an installed skill's body.
    Show(String),
    /// Activate an installed skill.
    Use(String),
    /// Deactivate the skill.
    Off,
    /// Tell the user something and do nothing else.
    Say(String),
}

pub open spec fn names_view(v: Seq<String>) -> Seq<Seq<char>> {
    v.map_values(|s: String| s@)
}

/// The plan of a `/skill` command given the installed skills' names.
pub fn plan_skill(args: &[String], installed: &[String]) -> (r: SkillPlan)
    ensures
        ({
            let sub = match arg_at(args@, 0) {
                Some(s) => s,
                None => "list"@,
            };
            if sub == "list"@ || sub.len() == 0 {
                r == SkillPlan::List
            } else if sub == "show"@ || sub == "use"@ {
                match arg_at(args@, 1) {
                    None => r matches SkillPlan::Say(m) && m@ == (if sub == "show"@ {
                        "usage: /skill show NAME"@
                    } else {
                        "usage: /skill use NAME"@
                    }),
                    Some(n) => if names_view(installed@).contains(n) {
                        if sub == "show"@ {
                            r matches SkillPlan::Show(x) && x@ == n
                        } else {
                            r matches SkillPlan::Use(x) && x@ == n
                        }
                    } else {
                        r matches SkillPlan::Say(m) && m@ == "unknown skill: "@ + n
                    },
                }
            } else if sub == "off"@ {
                r == SkillPlan::Off
            } else {
                r matches SkillPlan::Say(m) && m@ == "skill: subcommands are list | show NAME | use NAME | off"@
            }
        }),
{
    let sub: &str = match arg_str(args, 0) {
        Some(s) => s,
        None => "list",
    };
    if str_eq(sub, "list") || sub.is_empty() {
        proof {
            if sub@.len() == 0 {
            }
        }
        return SkillPlan::List;
    }
    let show = str_eq(sub, "show");
    if show || str_eq(sub, "use") {
        let name = match arg_str(args, 1) {
            Some(n) => n,
            None => {
                return SkillPlan::Say(String::from_str(if show { "usage: /skill show NAME" } else { "usage: /skill use NAME" }));
            },
        };
        let mut known = false;
        let mut i: usize = 0;
        while i < installed.len()
            invariant
                i <= installed@.len(),
                known == exists|k: int| 0 <= k < i && (#[trigger] installed@[k])@ == name@,
            decreases installed@.len() - i,
        {
            if str_eq(installed[i].as_str(), name) {
                known = true;
            }
            i = i + 1;
        }
        proof {
            if known {
                let k = choose|k: int| 0 <= k < installed@.len() && (#[trigger] installed@[k])@ == name@;
                assert(names_view(installed@)[k] == name@);
            }
            if names_view(installed@).contains(name@) {
                let k = choose|k: int| 0 <= k < names_view(installed@).len() && names_view(installed@)[k] == name@;
                assert(installed@[k]@ == name@);
            }
        }
        if !known {
            let mut m = String::from_str("unknown skill: ");
            m.append(name);
            return SkillPlan::Say(m);
        }
        if show {
            SkillPlan::Show(String::from_str(name))
        } else {
            SkillPlan::Use(String::from_str(name))
        }
    } else if str_eq(sub, "off") {
        SkillPlan::Off
    } else {
        SkillPlan::Say(String::from_str("skill: subcommands are list | show NAME | use NAME | off"))
    }
}


pub fn skill_body_message(name: &str, body: &str) -> (r: String)
    ensures
        r@ == "--- "@ + name@ + " ---\n"@ + body@,
{
    let mut m = String::from_str("--- ");
    m.append(name);
    m.append(" ---\n");
    m.append(body);
    m
}

pub open spec fn pet_lines(cs: Seq<crate::pet::PetCharacter>) -> Seq<char>
    decreases cs.len(),
{
    if cs.len() == 0 {
        Seq::empty()
    } else {
        pet_lines(cs.drop_last()) + "  - "@ + crate::pet::character_name(cs.last()) + "\n"@
    }
}

/// What a `/pet` command shows.
pub fn pet_message(args: &[String]) -> (r: String)
    ensures
        ({
            let sub = match arg_at(args@, 0) {
                Some(s) => s,
                None => "list"@,
            };
            if sub == "list"@ {
                r@ == "pets:\n"@ + pet_lines(seq![
                    crate::pet::PetCharacter::Mochi,
                    crate::pet::PetCharacter::Bunny,
                    crate::pet::PetCharacter::Frog,
                    crate::pet::PetCharacter::Robot,
                    crate::pet::PetCharacter::Dragon,
                ])
            } else if sub == "show"@ {
                let name = match arg_at(args@, 1) {
                    Some(n) => n,
                    None => "mochi"@,
                };
                match crate::pet::character_of_word(lowercase(name)) {
                    None => r@ == "unknown pet: "@ + name,
                    Some(c) => r@ == crate::pet::character_name(c) + " (happy):\n"@ + crate::pet::sprite_text(
                        c,
                        crate::pet::PetMood::Happy,
                    ),
                }
            } else {
                r@ == "pet: subcommands are list | show NAME"@
            }
        }),
{
    let sub: &str = match arg_str(args, 0) {
        Some(s) => s,
        None => "list",
    };
    if str_eq(sub, "list") {
        let all = crate::pet::PetCharacter::all();
        let mut out = String::from_str("pets:\n");
        let ghost s0 = out@;
        let mut i: usize = 0;
        assert(all@.take(0) =~= Seq::<crate::pet::PetCharacter>::empty());
        assert(s0 + pet_lines(all@.take(0)) =~= s0);
        while i < all.len()
            invariant
                i <= all@.len(),
                out@ == s0 + pet_lines(all@.take(i as int)),
            decreases all@.len() - i,
        {
            assert(all@.take(i + 1).drop_last() =~= all@.take(i as int));
            assert(all@.take(i + 1).last() == all@[i as int]);
            out.append("  - ");
            out.append(all[i].name());
            out.append("\n");
            assert(out@ =~= s0 + pet_lines(all@.take(i + 1)));
            i = i + 1;
        }
        assert(all@.take(i as int) =~= all@);
        out
    } else if str_eq(sub, "show") {
        let name: &str = match arg_str(args, 1) {
            Some(n) => n,
            None => "mochi",
        };
        match crate::pet::PetCharacter::parse(name) {
            None => {
                let mut m = String::from_str("unknown pet: ");
                m.append(name);
                m
            },
            Some(c) => {
                let mut m = String::from_str(c.name());
                m.append(" (happy):\n");
                m.append(crate::pet::sprite_for(c, crate::pet::PetMood::Happy));
                m
            },
        }
    } else {
        String::from_str("pet: subcommands are list | show NAME")
    }
}

pub const OPUS_4_5_MODEL_ID: &'static str = "opus-4-5-20251101";
pub const OPUS_4_6_MODEL_ID: &'static str = "opus-4-6";
pub const OPUS_4_7_MODEL_ID: &'static str = "opus-4-7";
pub const ONE_M_CONTEXT_USAGE: &'static str = "Usage: /1m-context <enable|disable|status>";
pub const OPUS_VERSION_USAGE: &'static str = "Usage: /opus-version <4.5|4.6|4.7|default|status>";

pub open spec fn opus_model_for(version: Seq<char>) -> Option<Seq<char>> {
    if version == "4.5"@ {
        Some(OPUS_4_5_MODEL_ID@)
    } else if version == "4.6"@ {
        Some(OPUS_4_6_MODEL_ID@)
    } else if version == "4.7"@ {
        Some(OPUS_4_7_MODEL_ID@)
    } else {
        None
    }
}

pub fn opus_model_id_for_version(version: &str) -> (r: Option<&'static str>)
    ensures
        match r {
            Some(m) => opus_model_for(version@) == Some(m@),
            None => opus_model_for(version@) is None,
        },
{
    if str_eq(version, "4.5") {
        Some(OPUS_4_5_MODEL_ID)
    } else if str_eq(version, "4.6") {
        Some(OPUS_4_6_MODEL_ID)
    } else if str_eq(version, "4.7") {
        Some(OPUS_4_7_MODEL_ID)
    } else {
        None
    }
}

pub open spec fn opus_label_for(model_id: Seq<char>) -> Option<Seq<char>> {
    if model_id == OPUS_4_5_MODEL_ID@ {
        Some("4.5"@)
    } else if model_id == OPUS_4_6_MODEL_ID@ {
        Some("4.6"@)
    } else if model_id == OPUS_4_7_MODEL_ID@ {
        Some("4.7"@)
    } else {
        None
    }
}

pub fn opus_version_label_for_model_id(model_id: &str) -> (r: Option<&'static str>)
    ensures
        match r {
            Some(l) => opus_label_for(model_id@) == Some(l@),
            None => opus_label_for(model_id@) is None,
        },
{
    if str_eq(model_id, OPUS_4_5_MODEL_ID) {
        Some("4.5")
    } else if str_eq(model_id, OPUS_4_6_MODEL_ID) {
        Some("4.6")
    } else if str_eq(model_id, OPUS_4_7_MODEL_ID) {
        Some("4.7")
    } else {
        None
    }
}

/// The label of a version: the model id maps back to its version, any
/// other id stands for itself.
pub proof fn law_opus_version_round_trip(version: Seq<char>)
    ensures
        opus_model_for(version) matches Some(m) ==> opus_label_for(m) == Some(version),
{
    reveal_strlit("opus-4-5-20251101");
    reveal_strlit("opus-4-6");
    reveal_strlit("opus-4-7");
    if opus_model_for(version) is Some {
        if version == "4.6"@ {
            assert(OPUS_4_6_MODEL_ID@ != OPUS_4_5_MODEL_ID@) by {
                assert(OPUS_4_6_MODEL_ID@.len() != OPUS_4_5_MODEL_ID@.len());
            }
        } else if version == "4.7"@ {
            assert(OPUS_4_7_MODEL_ID@ != OPUS_4_5_MODEL_ID@) by {
                assert(OPUS_4_7_MODEL_ID@.len() != OPUS_4_5_MODEL_ID@.len());
            }
            assert(OPUS_4_7_MODEL_ID@ != OPUS_4_6_MODEL_ID@) by {
                assert(OPUS_4_7_MODEL_ID@[7] != OPUS_4_6_MODEL_ID@[7]);
            }
        }
    }
}

/// The one argument of a command that takes exactly one, trimmed, when it
/// is not empty.
pub open spec fn single_arg_spec(args: Seq<String>) -> Option<Seq<char>> {
    if args.len() == 1 && trim(args[0]@).len() > 0 {
        Some(trim(args[0]@))
    } else {
        None
    }
}

/// The one argument of a command that takes exactly one (see
/// `single_arg_spec`).
pub fn single_arg(args: &[String]) -> (r: Option<String>)
    ensures
        r.deep_view() == single_arg_spec(args@),
{
    if args.len() != 1 {
        return None;
    }
    let t = trimmed(chars_of(args[0].as_str()).as_slice());
    if t.len() == 0 {
        None
    } else {
        Some(string_of(t.as_slice()))
    }
}

/// What `/1m-context enable|disable` reports, given the previous setting.
pub fn one_m_context_message(disabled: bool, was_disabled: bool) -> (r: &'static str)
    ensures
        r@ == if disabled {
            if was_disabled {
                "1M context is already disabled for future sessions in this folder. Run /new-session to apply it."@
            } else {
                "Disabled 1M context for future sessions in this folder. Run /new-session to apply it."@
            }
        } else {
            if was_disabled {
                "Enabled 1M context for future sessions in this folder. Run /new-session to apply it."@
            } else {
                "1M context is already enabled for future sessions in this folder. Run /new-session to apply it."@
            }
        },
{
    match (disabled, was_disabled == disabled) {
        (true, true) => "1M context is already disabled for future sessions in this folder. Run /new-session to apply it.",
        (true, false) => "Disabled 1M context for future sessions in this folder. Run /new-session to apply it.",
        (false, true) => "1M context is already enabled for future sessions in this folder. Run /new-session to apply it.",
        (false, false) => "Enabled 1M context for future sessions in this folder. Run /new-session to apply it.",
    }
}

/// What `/opus-version` reports after pinning `model` (or clearing the pin)
/// given the previous pin.
pub fn opus_pin_message(model: Option<&str>, current: Option<&str>) -> (r: String)
    ensures
        r@ == match (model, current) {
            (Some(m), c) => {
                let label = match opus_label_for(m@) {
                    Some(l) => l,
                    None => m@,
                };
                if c matches Some(x) && x@ == m@ {
                    "Opus is already pinned to "@ + label + " for future sessions in this folder. Run /new-session to apply it."@
                } else {
                    "Pinned Opus to "@ + label + " for future sessions in this folder. Run /new-session to apply it."@
                }
            },
            (None, None) => "Opus is already using the default alias in this folder."@,
            (None, Some(_)) => "Cleared the project-local Opus version pin for future sessions in this folder. Run /new-session to apply it."@,
        },
{
    match model {
        Some(m) => {
            let label: &str = match opus_version_label_for_model_id(m) {
                Some(l) => l,
                None => m,
            };
            let same = match current {
                Some(c) => str_eq(c, m),
                None => false,
            };
            let mut s = if same {
                String::from_str("Opus is already pinned to ")
            } else {
                String::from_str("Pinned Opus to ")
            };
            s.append(label);
            s.append(" for future sessions in this folder. Run /new-session to apply it.");
            s
        },
        None => match current {
            None => String::from_str("Opus is already using the default alias in this folder."),
            Some(_) => String::from_str("Cleared the project-local Opus version pin for future sessions in this folder. Run /new-session to apply it."),
        },
    }
}

/// What `/opus-version status` reports for the current pin.
pub fn opus_status_message(pin: Option<&str>) -> (r: String)
    ensures
        r@ == match pin {
            Some(m) => "Opus is pinned to "@ + (match opus_label_for(m@) {
                Some(l) => l,
                None => m@,
            }) + " in this folder via `settings.local.json`."@,
            None => "Opus is using the default alias resolution in this folder."@,
        },
{
    match pin {
        Some(m) => {
            let label: &str = match opus_version_label_for_model_id(m) {
                Some(l) => l,
                None => m,
            };
            let mut s = String::from_str("Opus is pinned to ");
            s.append(label);
            s.append(" in this folder via `settings.local.json`.");
            s
        },
        None => String::from_str("Opus is using the default alias resolution in this folder."),
    }
}

pub fn docs_usage() -> (r: &'static str)
    ensures
        r@ == "Usage: /docs <mode|models|shortcuts|commands|agents>"@,
{
    "Usage: /docs <mode|models|shortcuts|commands|agents>"
}

/// A markdown table cell: trimmed, `|` escaped, carriage returns dropped,
/// newlines shown as ` - `.
pub open spec fn table_cell(v: Seq<char>) -> Seq<char>
    decreases v.len(),
{
    cell_chars(trim(v))
}

pub open spec fn cell_chars(v: Seq<char>) -> Seq<char>
    decreases v.len(),
{
    if v.len() == 0 {
        Seq::empty()
    } else {
        cell_chars(v.drop_last()) + if v.last() == '|' {
            "\\|"@
        } else if v.last() == '\r' {
            Seq::empty()
        } else if v.last() == '\n' {
            " - "@
        } else {
            seq![v.last()]
        }
    }
}

pub fn markdown_table_cell(value: &str) -> (r: String)
    ensures
        r@ == table_cell(value@),
{
    let t = trimmed(chars_of(value).as_slice());
    let mut out = String::new();
    let mut i: usize = 0;
    while i < t.len()
        invariant
            i <= t@.len(),
            out@ == cell_chars(t@.take(i as int)),
        decreases t@.len() - i,
    {
        let c = t[i];
        assert(t@.take(i + 1).drop_last() =~= t@.take(i as int));
        assert(t@.take(i + 1).last() == c);
        let ghost before = out@;
        if c == '|' {
            out.append("\\|");
        } else if c == '\r' {
        } else if c == '\n' {
            out.append(" - ");
        } else {
            crate::text::push_char(&mut out, c);
        }
        assert(out@ =~= cell_chars(t@.take(i + 1)));
        i = i + 1;
    }
    assert(t@.take(i as int) =~= t@);
    out
}

/// One row of a docs table.
#[derive(Debug, Clone)]
pub struct DocsRow {
    pub left: String,
    pub right: String,
}

pub open spec fn docs_rows_text(rows: Seq<DocsRow>) -> Seq<char>
    decreases rows.len(),
{
    if rows.len() == 0 {
        Seq::empty()
    } else {
        docs_rows_text(rows.drop_last()) + "| "@ + table_cell(rows.last().left@) + " | "@ + table_cell(
            rows.last().right@,
        ) + " |\n"@
    }
}

pub open spec fn docs_table_text(
    title: Seq<char>,
    intro: Seq<char>,
    h0: Seq<char>,
    h1: Seq<char>,
    rows: Seq<DocsRow>,
) -> Seq<char> {
    "# "@ + title + "\n\n"@ + intro + "\n\n| "@ + h0 + " | "@ + h1 + " |\n| --- | --- |\n"@ + docs_rows_text(rows)
}

/// A docs page: a title, an intro and a two-column table.
pub fn render_docs_table(title: &str, intro: &str, headers: (&str, &str), rows: &[DocsRow]) -> (r: String)
    ensures
        r@ == docs_table_text(title@, intro@, headers.0@, headers.1@, rows@),
{
    let mut out = String::from_str("# ");
    out.append(title);
    out.append("\n\n");
    out.append(intro);
    out.append("\n\n| ");
    out.append(headers.0);
    out.append(" | ");
    out.append(headers.1);
    out.append(" |\n| --- | --- |\n");
    let ghost s0 = out@;
    let mut i: usize = 0;
    assert(rows@.take(0) =~= Seq::<DocsRow>::empty());
    assert(s0 + docs_rows_text(rows@.take(0)) =~= s0);
    while i < rows.len()
        invariant
            i <= rows@.len(),
            out@ == s0 + docs_rows_text(rows@.take(i as int)),
        decreases rows@.len() - i,
    {
        let row = &rows[i];
        assert(rows@.take(i + 1).drop_last() =~= rows@.take(i as int));
        assert(rows@.take(i + 1).last() == *row);
        out.append("| ");
        out.append(markdown_table_cell(row.left.as_str()).as_str());
        out.append(" | ");
        out.append(markdown_table_cell(row.right.as_str()).as_str());
        out.append(" |\n");
        assert(out@ =~= s0 + docs_rows_text(rows@.take(i + 1)));
        i = i + 1;
    }
    assert(rows@.take(i as int) =~= rows@);
    out
}

} // verus!
