//! The local-model chat session: the runtime settings that slash commands
//! change mid-session, the system prompt, the capture target of a judged
//! fact, and the tool loop of one prompt turn.
use crate::agent::{Message, Role, RoleToolCall, RoleToolCallFunction};
use crate::memory::{facts_view, memory_section, FactKind, Fact, FactView};
use crate::memory_capture::{CapturedFact, CapturedFactView};
use crate::memory_judge::JudgeOutcome;
use crate::text::{chars_of, string_of, str_eq};
use crate::tools::{needs_permission, permission_gated};
use vstd::string::StringExecFns;
use vstd::prelude::*;

verus! {

/// How stored facts reach the system prompt.
#[derive(Debug, Clone, Copy, PartialEq, Eq, Structural)]
pub enum MemoryMode {
    /// Every fact, at session start and on each rebuild.
    All,
    /// Per turn, only the facts the query planner finds (plus the profile).
    Active,
}

/// Out-of-band control messages from slash handlers to the running session.
#[derive(Debug, Clone, PartialEq, Eq)]
pub enum LlamaRuntimeCommand {
    /// Rebuild the system prompt (memory or skills changed).
    RebuildSystem,
    /// Activate a skill (or none) and rebuild the system prompt.
    SetActiveSkill(Option<String>),
    /// Send future requests to another server.
    SetLlamaUrl(String),
    /// Switch the memory injection strategy.
    SetMemoryMode(MemoryMode),
}

/// The settings a running session reads on every turn.
#[derive(Debug, Clone)]
pub struct RuntimeState {
    pub url: String,
    pub active_skill: Option<String>,
    pub memory_mode: MemoryMode,
}

impl RuntimeState {
    /// A session against `url`: no skill, every fact injected.
    pub fn new(url: &str) -> (r: RuntimeState)
        ensures
            r.url@ == url@,
            r.active_skill is None,
            r.memory_mode == MemoryMode::All,
    {
        RuntimeState { url: String::from_str(url), active_skill: None, memory_mode: MemoryMode::All }
    }

    /// Apply a runtime command; says whether the system prompt must be
    /// rebuilt (skills reloaded).
    pub fn apply(&mut self, cmd: LlamaRuntimeCommand) -> (rebuild: bool)
        ensures
            match cmd {
                LlamaRuntimeCommand::RebuildSystem => {
                    &&& rebuild
                    &&& final(self).url@ == old(self).url@
                    &&& final(self).active_skill.deep_view() == old(self).active_skill.deep_view()
                    &&& final(self).memory_mode == old(self).memory_mode
                },
                LlamaRuntimeCommand::SetActiveSkill(s) => {
                    &&& rebuild
                    &&& final(self).url@ == old(self).url@
                    &&& final(self).active_skill.deep_view() == s.deep_view()
                    &&& final(self).memory_mode == old(self).memory_mode
                },
                LlamaRuntimeCommand::SetLlamaUrl(u) => {
                    &&& !rebuild
                    &&& final(self).url@ == u@
                    &&& final(self).active_skill.deep_view() == old(self).active_skill.deep_view()
                    &&& final(self).memory_mode == old(self).memory_mode
                },
                LlamaRuntimeCommand::SetMemoryMode(m) => {
                    &&& !rebuild
                    &&& final(self).url@ == old(self).url@
                    &&& final(self).active_skill.deep_view() == old(self).active_skill.deep_view()
                    &&& final(self).memory_mode == m
                },
            },
    {
        match cmd {
            LlamaRuntimeCommand::RebuildSystem => true,
            LlamaRuntimeCommand::SetActiveSkill(s) => {
                self.active_skill = s;
                true
            },
            LlamaRuntimeCommand::SetLlamaUrl(u) => {
                self.url = u;
                false
            },
            LlamaRuntimeCommand::SetMemoryMode(m) => {
                self.memory_mode = m;
                false
            },
        }
    }
}

/// The persona every system prompt ends with.
pub const BASE_SYSTEM: &'static str = "You are Mochi, a cute terminal pet companion. Reply concisely (1-3 sentences) and stay in character.";

/// Token budget of a chat reply.
pub const CHAT_MAX_TOKENS: u32 = 1024;

/// Agent name the session reports.
pub const AGENT_NAME: &'static str = "mochi-llama";

pub open spec fn skill_block(name: Seq<char>, body: Seq<char>) -> Seq<char> {
    "\n\n[Active skill: "@ + name + "]\n"@ + body + "\n"@
}

/// The system prompt: the memory section, the base persona, then the active
/// skill's body when that skill is installed.
pub open spec fn system_prompt_text(
    memory: Seq<char>,
    base: Seq<char>,
    active_skill: Option<Seq<char>>,
    skill_body: Option<Seq<char>>,
) -> Seq<char> {
    memory + base + match (active_skill, skill_body) {
        (Some(n), Some(b)) => skill_block(n, b),
        _ => Seq::empty(),
    }
}

pub fn compose_system_prompt(
    memory: &str,
    base: &str,
    active_skill: Option<&str>,
    skill_body: Option<&str>,
) -> (r: String)
    ensures
        r@ == system_prompt_text(memory@, base@, active_skill.deep_view(), skill_body.deep_view()),
{
    let mut out = String::new();
    if !memory.is_empty() {
        out.append(memory);
    }
    proof {
        if memory@.len() == 0 {
            assert(memory@ =~= Seq::<char>::empty());
        }
    }
    out.append(base);
    match (active_skill, skill_body) {
        (Some(n), Some(b)) => {
            out.append("\n\n[Active skill: ");
            out.append(n);
            out.append("]\n");
            out.append(b);
            out.append("\n");
        },
        _ => {},
    }
    assert(out@ =~= system_prompt_text(memory@, base@, active_skill.deep_view(), skill_body.deep_view()));
    out
}

/// The facts of an active-memory turn: the matched facts, then each profile
/// fact not among them.
pub open spec fn with_profile(facts: Seq<FactView>, profile: Seq<FactView>) -> Seq<FactView>
    decreases profile.len(),
{
    if profile.len() == 0 {
        facts
    } else {
        let prev = with_profile(facts, profile.drop_last());
        if exists|j: int| 0 <= j < prev.len() && (#[trigger] prev[j]).id == profile.last().id {
            prev
        } else {
            prev.push(profile.last())
        }
    }
}

pub fn merge_profile_facts(facts: Vec<Fact>, profile: &[Fact]) -> (r: Vec<Fact>)
    ensures
        facts_view(r@) == with_profile(facts_view(facts@), facts_view(profile@)),
{
    let ghost f0 = facts_view(facts@);
    let ghost pv = facts_view(profile@);
    let mut out = facts;
    let mut i: usize = 0;
    while i < profile.len()
        invariant
            pv == facts_view(profile@),
            i <= profile@.len(),
            facts_view(out@) == with_profile(f0, pv.take(i as int)),
        decreases profile@.len() - i,
    {
        let p = &profile[i];
        assert(pv.take(i + 1).drop_last() =~= pv.take(i as int));
        assert(pv.take(i + 1).last() == p@);
        let ghost prev = facts_view(out@);
        let mut found = false;
        let mut j: usize = 0;
        while j < out.len()
            invariant
                prev == facts_view(out@),
                j <= out@.len(),
                found == exists|k: int| 0 <= k < j && (#[trigger] prev[k]).id == p.id,
            decreases out@.len() - j,
        {
            if out[j].id == p.id {
                found = true;
            }
            assert(prev[j as int] == out@[j as int]@);
            j = j + 1;
        }
        if !found {
            let d = p.duplicate();
            out.push(d);
            assert(facts_view(out@) =~= prev.push(d@));
        }
        i = i + 1;
    }
    assert(pv.take(i as int) =~= pv);
    out
}

/// The memory section of an active-memory turn: nothing without facts.
pub fn active_memory_section(facts: &[Fact], active_skill: Option<&str>) -> (r: String)
    ensures
        r@ == if facts@.len() == 0 {
            Seq::<char>::empty()
        } else {
            memory_section(facts_view(facts@), active_skill.deep_view())
        },
{
    if facts.len() == 0 {
        String::new()
    } else {
        crate::memory::render_memory_section(facts, active_skill)
    }
}

pub open spec fn trim_prefix_repeat(s: Seq<char>, p: Seq<char>) -> Seq<char>
    decreases s.len(),
{
    if p.len() > 0 && s.len() >= p.len() && s.take(p.len() as int) == p {
        trim_prefix_repeat(s.subrange(p.len() as int, s.len() as int), p)
    } else {
        s
    }
}

fn trim_prefix_repeat_vec(v: Vec<char>, p: &str) -> (r: Vec<char>)
    ensures
        r@ == trim_prefix_repeat(v@, p@),
{
    let pv = chars_of(p);
    let mut cur = v;
    loop
        invariant_except_break
            pv@ == p@,
            trim_prefix_repeat(cur@, p@) == trim_prefix_repeat(v@, p@),
        ensures
            cur@ == trim_prefix_repeat(v@, p@),
        decreases cur@.len(),
    {
        if pv.len() == 0 || pv.len() > cur.len() {
            break;
        }
        let head = crate::text::subvec(cur.as_slice(), 0, pv.len());
        assert(head@ =~= cur@.take(pv@.len() as int));
        if !crate::text::seq_eq(head.as_slice(), pv.as_slice()) {
            break;
        }
        cur = crate::text::subvec(cur.as_slice(), pv.len(), cur.len());
    }
    cur
}

/// The model id a local server is shown as: `llama@` and the URL without
/// its leading `http://` and `https://` prefixes.
pub open spec fn llama_model_id_text(url: Seq<char>) -> Seq<char> {
    "llama@"@ + trim_prefix_repeat(trim_prefix_repeat(url, "http://"@), "https://"@)
}

pub fn llama_model_id(url: &str) -> (r: String)
    ensures
        r@ == llama_model_id_text(url@),
{
    let v = chars_of(url);
    let a = trim_prefix_repeat_vec(v, "http://");
    let b = trim_prefix_repeat_vec(a, "https://");
    let mut s = String::from_str("llama@");
    s.append(string_of(b.as_slice()).as_str());
    s
}

/// Where a captured fact goes when the judge found no slot to reuse: its own
/// slug; behavioral facts in the active scope.
pub open spec fn fallback_target(f: CapturedFactView, scope: Seq<char>) -> (Seq<char>, Option<Seq<char>>) {
    (f.slug, if f.kind == FactKind::Behavioral { Some(scope) } else { None })
}

pub fn fallback_slug_scope(fact: &CapturedFact, behavioral_scope: &str) -> (r: (String, Option<String>))
    ensures
        (r.0@, r.1.deep_view()) == fallback_target(fact@, behavioral_scope@),
{
    let scope = if fact.kind == FactKind::Behavioral {
        Some(String::from_str(behavioral_scope))
    } else {
        None
    };
    (fact.slug.clone(), scope)
}

/// Index of the first fact with id `id`, or `-1`.
pub open spec fn first_with_id(fs: Seq<FactView>, id: i64, k: int) -> int
    decreases fs.len() - k,
{
    if k < 0 || k >= fs.len() {
        -1
    } else if fs[k].id == id {
        k
    } else {
        first_with_id(fs, id, k + 1)
    }
}

/// The stored fact a verdict names in the slot it takes over: the one of
/// `reuse`, and of `replace` on a profile or state fact. (`replace` on
/// another kind is taken as `reuse`.)
pub open spec fn slot_owner(outcome: JudgeOutcome) -> Option<i64> {
    match outcome {
        JudgeOutcome::Reuse { existing_id } => Some(existing_id),
        JudgeOutcome::Replace { existing_id } => Some(existing_id),
        _ => None,
    }
}

/// Whether a verdict on a capture of kind `kind` replaces a changed value:
/// `replace` on a profile or state fact.
pub open spec fn replaces(kind: FactKind, outcome: JudgeOutcome) -> bool {
    outcome is Replace && (kind == FactKind::Profile || kind == FactKind::State)
}

/// Where a judged capture is stored: on `reuse` and `replace`, the slot of
/// the fact it names (when that is among the existing ones); otherwise the
/// fallback.
pub open spec fn capture_target_spec(
    f: CapturedFactView,
    outcome: JudgeOutcome,
    existing: Seq<FactView>,
    scope: Seq<char>,
) -> (Seq<char>, Option<Seq<char>>) {
    match slot_owner(outcome) {
        Some(existing_id) => {
            let i = first_with_id(existing, existing_id, 0);
            if i >= 0 {
                (existing[i].slug, existing[i].scope)
            } else {
                fallback_target(f, scope)
            }
        },
        None => fallback_target(f, scope),
    }
}

pub fn capture_target(
    fact: &CapturedFact,
    outcome: JudgeOutcome,
    existing: &[Fact],
    behavioral_scope: &str,
) -> (r: (String, Option<String>))
    ensures
        (r.0@, r.1.deep_view()) == capture_target_spec(fact@, outcome, facts_view(existing@), behavioral_scope@),
{
    let ghost ev = facts_view(existing@);
    let owner = match outcome {
        JudgeOutcome::Reuse { existing_id } => Some(existing_id),
        JudgeOutcome::Replace { existing_id } => Some(existing_id),
        _ => None,
    };
    match owner {
        Some(existing_id) => {
            let mut i: usize = 0;
            while i < existing.len()
                invariant
                    ev == facts_view(existing@),
                    i <= existing@.len(),
                    first_with_id(ev, existing_id, 0) == first_with_id(ev, existing_id, i as int),
                    slot_owner(outcome) == Some(existing_id),
                decreases existing@.len() - i,
            {
                assert(ev[i as int] == existing@[i as int]@);
                if existing[i].id == existing_id {
                    let scope = match &existing[i].skill_scope {
                        Some(s) => Some(s.clone()),
                        None => None,
                    };
                    assert(first_with_id(ev, existing_id, i as int) == i as int);
                    assert(scope.deep_view() == ev[i as int].scope);
                    let slug = existing[i].slug.clone();
                    assert(slug@ == ev[i as int].slug);
                    return (slug, scope);
                }
                i = i + 1;
            }
            fallback_slug_scope(fact, behavioral_scope)
        },
        None => fallback_slug_scope(fact, behavioral_scope),
    }
}

/// The stored fact to archive before a judged capture is written: the one a
/// `replace` names, when the capture is a profile or state fact.
pub fn archived_by_capture(kind: FactKind, outcome: JudgeOutcome) -> (r: Option<i64>)
    ensures
        r == (if replaces(kind, outcome) { slot_owner(outcome) } else { None }),
{
    match outcome {
        JudgeOutcome::Replace { existing_id } => if kind == FactKind::Profile || kind == FactKind::State {
            Some(existing_id)
        } else {
            None
        },
        _ => None,
    }
}

/// One chunk of a user prompt.
#[derive(Debug, Clone)]
pub struct PromptChunk {
    /// `text` for typed text; other kinds carry no text for the model.
    pub kind: String,
    pub text: Option<String>,
}

pub open spec fn chunk_text(c: PromptChunk) -> Option<Seq<char>> {
    if c.kind@ == "text"@ {
        match c.text {
            Some(t) => Some(t@),
            None => None,
        }
    } else {
        None
    }
}

/// The texts of the text chunks, joined with newlines.
pub open spec fn user_text_of(cs: Seq<PromptChunk>) -> Seq<char>
    decreases cs.len(),
{
    if cs.len() == 0 {
        Seq::empty()
    } else {
        let prev = user_text_of(cs.drop_last());
        match chunk_text(cs.last()) {
            Some(t) => if texts_before(cs.drop_last()) { prev + "\n"@ + t } else { t },
            None => prev,
        }
    }
}

/// Whether some chunk carries text.
pub open spec fn texts_before(cs: Seq<PromptChunk>) -> bool {
    exists|i: int| 0 <= i < cs.len() && (#[trigger] chunk_text(cs[i])) is Some
}

pub fn extract_user_text(chunks: &[PromptChunk]) -> (r: String)
    ensures
        r@ == user_text_of(chunks@),
{
    let mut out = String::new();
    let mut any = false;
    let mut i: usize = 0;
    while i < chunks.len()
        invariant
            i <= chunks@.len(),
            out@ == user_text_of(chunks@.take(i as int)),
            any == texts_before(chunks@.take(i as int)),
            !any ==> out@ == Seq::<char>::empty(),
        decreases chunks@.len() - i,
    {
        let c = &chunks[i];
        let ghost t0 = chunks@.take(i as int);
        assert(chunks@.take(i + 1).drop_last() =~= t0);
        assert(chunks@.take(i + 1).last() == *c);
        if str_eq(c.kind.as_str(), "text") {
            match &c.text {
                Some(t) => {
                    if any {
                        out.append("\n");
                    }
                    out.append(t.as_str());
                    any = true;
                    assert(chunk_text(chunks@.take(i + 1)[i as int]) is Some);
                },
                None => {
                    proof {
                        assert forall|k: int| 0 <= k < i + 1 implies !(#[trigger] chunk_text(chunks@.take(i + 1)[k]) is Some) || texts_before(t0) by {
                            if k < i {
                                assert(chunks@.take(i + 1)[k] == t0[k]);
                            }
                        }
                    }
                },
            }
        } else {
            proof {
                assert forall|k: int| 0 <= k < i + 1 implies !(#[trigger] chunk_text(chunks@.take(i + 1)[k]) is Some) || texts_before(t0) by {
                    if k < i {
                        assert(chunks@.take(i + 1)[k] == t0[k]);
                    }
                }
            }
        }
        proof {
            let t1 = chunks@.take(i + 1);
            if texts_before(t0) {
                let k = choose|k: int| 0 <= k < t0.len() && (#[trigger] chunk_text(t0[k])) is Some;
                assert(t1[k] == t0[k]);
            }
        }
        i = i + 1;
    }
    assert(chunks@.take(i as int) =~= chunks@);
    out
}


/// Model calls allowed in one prompt turn.
pub const MAX_TOOL_ITERATIONS: usize = 6;

/// What the model is told when the user refuses a tool call.
pub const DENIAL_TEXT: &'static str = "User denied permission for this tool call.";

/// A tool call the model asked for.
#[derive(Debug, Clone, PartialEq, Eq)]
pub struct LlmToolCall {
    pub id: String,
    pub name: String,
    pub arguments: String,
}

pub open spec fn role_call(c: LlmToolCall) -> (Seq<char>, Seq<char>, Seq<char>) {
    (c.id@, c.name@, c.arguments@)
}

/// The assistant message recording a reply and the tool calls it made.
pub fn assistant_message(text: &str, tool_calls: &[LlmToolCall]) -> (r: Message)
    ensures
        r.role == Role::Assistant,
        r.content@ == text@,
        r.tool_call_id is None,
        tool_calls@.len() == 0 ==> r.tool_calls is None,
        tool_calls@.len() > 0 ==> (r.tool_calls matches Some(v) && v@.len() == tool_calls@.len() && forall|i: int|
            0 <= i < v@.len() ==> (#[trigger] v@[i]).id@ == tool_calls@[i].id@ && v@[i].kind@ == "function"@
                && v@[i].function.name@ == tool_calls@[i].name@ && v@[i].function.arguments@ == tool_calls@[i].arguments@),
{
    let mut msg = Message::assistant(text);
    if tool_calls.len() > 0 {
        let mut v: Vec<RoleToolCall> = Vec::new();
        let mut i: usize = 0;
        while i < tool_calls.len()
            invariant
                i <= tool_calls@.len(),
                v@.len() == i,
                forall|k: int|
                    0 <= k < i ==> (#[trigger] v@[k]).id@ == tool_calls@[k].id@ && v@[k].kind@ == "function"@
                        && v@[k].function.name@ == tool_calls@[k].name@ && v@[k].function.arguments@
                        == tool_calls@[k].arguments@,
            decreases tool_calls@.len() - i,
        {
            let tc = &tool_calls[i];
            v.push(
                RoleToolCall {
                    id: tc.id.clone(),
                    kind: String::from_str("function"),
                    function: RoleToolCallFunction { name: tc.name.clone(), arguments: tc.arguments.clone() },
                },
            );
            i = i + 1;
        }
        msg.tool_calls = Some(v);
    }
    msg
}

/// The user's answer to a permission prompt.
#[derive(Debug, Clone, Copy, PartialEq, Eq, Structural)]
pub enum PermissionDecision {
    AllowOnce,
    AllowSession,
    Reject,
}

/// An option picked in the permission prompt: `allow_once` and
/// `allow_session` allow, anything else rejects.
pub fn decision_for_option(option_id: &str) -> (r: PermissionDecision)
    ensures
        r == if option_id@ == "allow_once"@ {
            PermissionDecision::AllowOnce
        } else if option_id@ == "allow_session"@ {
            PermissionDecision::AllowSession
        } else {
            PermissionDecision::Reject
        },
{
    if str_eq(option_id, "allow_once") {
        PermissionDecision::AllowOnce
    } else if str_eq(option_id, "allow_session") {
        PermissionDecision::AllowSession
    } else {
        PermissionDecision::Reject
    }
}

/// Where a prompt turn stands.
#[derive(Debug, Clone, Copy, PartialEq, Eq, Structural)]
pub enum TurnPhase {
    /// No turn in progress.
    Idle,
    /// Waiting for the model's streamed reply.
    Streaming,
    /// Waiting for the user's permission for the current call.
    AwaitingPermission,
    /// Waiting for the current call's output.
    RunningTool,
    /// The current call was refused; waiting to go on.
    Denied,
}

/// What happened, as reported to the turn.
#[derive(Debug, Clone)]
pub enum TurnEvent {
    /// The user sent a prompt with this text.
    Prompt(String),
    /// The model request could not be made.
    StreamFailed(String),
    /// The reply stream broke after this much text.
    StreamBroken { text: String, error: String },
    /// The reply ended normally with this text and these tool calls.
    StreamFinished { text: String, calls: Vec<LlmToolCall> },
    /// The user answered the permission prompt.
    Permission(PermissionDecision),
    /// The current tool call ran and produced this text for the model.
    ToolDone(String),
    /// Go on after a refused call.
    Continue,
}

/// What the session does next.
#[derive(Debug, Clone, PartialEq, Eq)]
pub enum TurnAction {
    /// Stream the model's reply to the history.
    CallModel,
    /// Ask the user whether this call may run.
    AskPermission(LlmToolCall),
    /// Run this call and report its output.
    RunTool(LlmToolCall),
    /// This call was refused; report it and continue.
    ToolDenied(LlmToolCall),
    /// The turn is over.
    Complete,
    /// The turn ended with this error.
    Fail(String),
    /// The event does not fit the turn's phase; nothing changes.
    Ignored,
}

/// The tool loop of prompt turns; the allow list lasts the session.
pub struct ToolLoop {
    /// Tools the user allowed for the whole session.
    pub allow_set: Vec<String>,
    /// Model calls made in the current turn.
    pub iteration: usize,
    /// Tool calls of the last reply.
    pub calls: Vec<LlmToolCall>,
    /// Index of the call being handled.
    pub next: usize,
    pub phase: TurnPhase,
}

pub open spec fn allowed_names(v: Seq<String>) -> Seq<Seq<char>> {
    v.map_values(|s: String| s@)
}

impl ToolLoop {
    pub open spec fn wf(&self) -> bool {
        &&& self.iteration <= MAX_TOOL_ITERATIONS
        &&& self.next <= self.calls@.len()
        &&& (self.phase == TurnPhase::AwaitingPermission || self.phase == TurnPhase::RunningTool || self.phase
            == TurnPhase::Denied) ==> self.next < self.calls@.len()
    }

    /// Whether the current session already allows `name`.
    pub open spec fn allows(&self, name: Seq<char>) -> bool {
        allowed_names(self.allow_set@).contains(name)
    }

    pub fn new() -> (r: ToolLoop)
        ensures
            r.wf(),
            r.phase == TurnPhase::Idle,
            r.allow_set@.len() == 0,
    {
        ToolLoop { allow_set: Vec::new(), iteration: 0, calls: Vec::new(), next: 0, phase: TurnPhase::Idle }
    }

    fn allow_contains(&self, name: &str) -> (r: bool)
        ensures
            r == self.allows(name@),
    {
        let mut i: usize = 0;
        while i < self.allow_set.len()
            invariant
                i <= self.allow_set@.len(),
                forall|k: int| 0 <= k < i ==> self.allow_set@[k]@ != name@,
            decreases self.allow_set@.len() - i,
        {
            if str_eq(self.allow_set[i].as_str(), name) {
                assert(allowed_names(self.allow_set@)[i as int] == name@);
                return true;
            }
            i = i + 1;
        }
        proof {
            if self.allows(name@) {
                let k = choose|k: int| 0 <= k < allowed_names(self.allow_set@).len() && allowed_names(self.allow_set@)[k] == name@;
                assert(self.allow_set@[k]@ == name@);
            }
        }
        false
    }

    /// Handle the call at `next`, or go back to the model when the reply's
    /// calls are all handled (up to the iteration cap).
    fn advance(&mut self) -> (r: TurnAction)
        requires
            old(self).wf(),
        ensures
            final(self).wf(),
            final(self).allow_set@ == old(self).allow_set@,
            final(self).calls@ == old(self).calls@,
            final(self).next == old(self).next,
            goes_on(*old(self), old(self).next as int, old(self).calls@, r, *final(self)),
    {
        if self.next < self.calls.len() {
            let c = copy_call(&self.calls[self.next]);
            if needs_permission(c.name.as_str()) && !self.allow_contains(c.name.as_str()) {
                self.phase = TurnPhase::AwaitingPermission;
                TurnAction::AskPermission(c)
            } else {
                self.phase = TurnPhase::RunningTool;
                TurnAction::RunTool(c)
            }
        } else if self.iteration < MAX_TOOL_ITERATIONS {
            self.iteration = self.iteration + 1;
            self.phase = TurnPhase::Streaming;
            TurnAction::CallModel
        } else {
            self.phase = TurnPhase::Idle;
            TurnAction::Fail(String::from_str("max tool iterations (6) reached"))
        }
    }
}

/// What handling call `c` gives from state `s`: a permission prompt when
/// the tool is gated and not allowed for the session, else running it.
pub open spec fn handles_call(s: ToolLoop, c: LlmToolCall, r: TurnAction, f: ToolLoop) -> bool {
    if permission_gated(c.name@) && !s.allows(c.name@) {
        (r matches TurnAction::AskPermission(x) && role_call(x) == role_call(c)) && f.phase == TurnPhase::AwaitingPermission
    } else {
        (r matches TurnAction::RunTool(x) && role_call(x) == role_call(c)) && f.phase == TurnPhase::RunningTool
    }
}

/// How the turn goes on from state `s` when the call at index `k` of
/// `calls` is the next to handle: that call, or once all are handled a new
/// model call below the cap, or the end of the turn at the cap.
pub open spec fn goes_on(s: ToolLoop, k: int, calls: Seq<LlmToolCall>, r: TurnAction, f: ToolLoop) -> bool {
    if k < calls.len() {
        f.iteration == s.iteration && handles_call(s, calls[k], r, f)
    } else if s.iteration < MAX_TOOL_ITERATIONS {
        r == TurnAction::CallModel && f.iteration == s.iteration + 1 && f.phase == TurnPhase::Streaming
    } else {
        (r matches TurnAction::Fail(m) && m@ == max_iterations_message()) && f.phase == TurnPhase::Idle
            && f.iteration == s.iteration
    }
}

pub open spec fn max_iterations_message() -> Seq<char> {
    "max tool iterations (6) reached"@
}

fn copy_call(c: &LlmToolCall) -> (r: LlmToolCall)
    ensures
        role_call(r) == role_call(*c),
{
    LlmToolCall { id: c.id.clone(), name: c.name.clone(), arguments: c.arguments.clone() }
}


pub open spec fn is_allow(d: PermissionDecision) -> bool {
    d == PermissionDecision::AllowOnce || d == PermissionDecision::AllowSession
}

impl ToolLoop {
    /// Advance a prompt turn by one event. A tool that needs permission runs
    /// only when the session already allows it or the user has just allowed
    /// this call; the model is called at most `MAX_TOOL_ITERATIONS` times per
    /// turn; only an `allow_session` answer adds to the allow list.
    pub fn step(&mut self, history: &mut Vec<Message>, ev: TurnEvent) -> (r: TurnAction)
        requires
            old(self).wf(),
        ensures
            final(self).wf(),
            r matches TurnAction::RunTool(c) ==> (!permission_gated(c.name@) || old(self).allows(c.name@) || (
            ev matches TurnEvent::Permission(d) && is_allow(d))),
            r == TurnAction::CallModel ==> 1 <= final(self).iteration <= MAX_TOOL_ITERATIONS,
            (ev matches TurnEvent::Permission(d) && d == PermissionDecision::AllowSession && old(self).phase
                == TurnPhase::AwaitingPermission) ==> allowed_names(final(self).allow_set@) == allowed_names(
                old(self).allow_set@,
            ).push(old(self).calls@[old(self).next as int].name@),
            !(ev matches TurnEvent::Permission(d) && d == PermissionDecision::AllowSession && old(self).phase
                == TurnPhase::AwaitingPermission) ==> final(self).allow_set@ == old(self).allow_set@,
            r == TurnAction::Ignored ==> final(self).phase == old(self).phase && final(history)@ == old(history)@,
            match ev {
                TurnEvent::Prompt(t) => old(self).phase == TurnPhase::Idle ==> if t@.len() == 0 {
                    r == TurnAction::Complete && final(history)@ == old(history)@
                } else {
                    &&& r == TurnAction::CallModel
                    &&& final(self).iteration == 1
                    &&& final(history)@.len() == old(history)@.len() + 1
                    &&& final(history)@.drop_last() == old(history)@
                    &&& final(history)@.last().role == Role::User
                    &&& final(history)@.last().content@ == t@
                },
                TurnEvent::StreamFailed(e) => old(self).phase == TurnPhase::Streaming ==> {
                    &&& (r matches TurnAction::Fail(m) && m@ == e@)
                    &&& final(self).phase == TurnPhase::Idle
                    &&& final(history)@ == if old(self).iteration <= 1 && old(history)@.len() > 0 {
                        old(history)@.drop_last()
                    } else {
                        old(history)@
                    }
                },
                TurnEvent::StreamBroken { text, error } => old(self).phase == TurnPhase::Streaming ==> {
                    &&& (r matches TurnAction::Fail(m) && m@ == error@)
                    &&& final(self).phase == TurnPhase::Idle
                    &&& final(history)@.len() == old(history)@.len() + 1
                    &&& final(history)@.drop_last() == old(history)@
                    &&& final(history)@.last().role == Role::Assistant
                    &&& final(history)@.last().content@ == text@
                },
                TurnEvent::StreamFinished { text, calls } => old(self).phase == TurnPhase::Streaming ==> {
                    &&& final(history)@.len() == old(history)@.len() + 1
                    &&& final(history)@.drop_last() == old(history)@
                    &&& final(history)@.last().role == Role::Assistant
                    &&& final(history)@.last().content@ == text@
                    &&& calls@.len() == 0 ==> r == TurnAction::Complete && final(self).phase == TurnPhase::Idle
                    &&& calls@.len() > 0 ==> {
                        &&& final(self).calls@ == calls@
                        &&& final(self).next == 0
                        &&& goes_on(*old(self), 0, calls@, r, *final(self))
                    }
                },
                TurnEvent::ToolDone(out) => old(self).phase == TurnPhase::RunningTool ==> {
                    &&& final(history)@.len() == old(history)@.len() + 1
                    &&& final(history)@.drop_last() == old(history)@
                    &&& final(history)@.last().role == Role::Tool
                    &&& final(history)@.last().content@ == out@
                    &&& (final(history)@.last().tool_call_id matches Some(i) && i@ == old(self).calls@[old(self).next as int].id@)
                    &&& final(self).calls@ == old(self).calls@
                    &&& final(self).next == old(self).next + 1
                    &&& goes_on(*old(self), old(self).next + 1, old(self).calls@, r, *final(self))
                },
                TurnEvent::Permission(d) => old(self).phase == TurnPhase::AwaitingPermission ==> if is_allow(d) {
                    &&& (r matches TurnAction::RunTool(c) && role_call(c) == role_call(old(self).calls@[old(self).next as int]))
                    &&& final(history)@ == old(history)@
                } else {
                    &&& (r matches TurnAction::ToolDenied(c) && role_call(c) == role_call(old(self).calls@[old(self).next as int]))
                    &&& final(history)@.len() == old(history)@.len() + 1
                    &&& final(history)@.drop_last() == old(history)@
                    &&& final(history)@.last().role == Role::Tool
                    &&& final(history)@.last().content@ == DENIAL_TEXT@
                },
                TurnEvent::Continue => old(self).phase == TurnPhase::Denied ==> {
                    &&& final(history)@ == old(history)@
                    &&& final(self).calls@ == old(self).calls@
                    &&& final(self).next == old(self).next + 1
                    &&& goes_on(*old(self), old(self).next + 1, old(self).calls@, r, *final(self))
                },
            },
    {
        match ev {
            TurnEvent::Prompt(t) => {
                if self.phase != TurnPhase::Idle {
                    return TurnAction::Ignored;
                }
                if t.as_str().is_empty() {
                    return TurnAction::Complete;
                }
                let ghost h0 = history@;
                history.push(Message::user(t.as_str()));
                assert(history@.drop_last() =~= h0);
                self.iteration = 1;
                self.calls = Vec::new();
                self.next = 0;
                self.phase = TurnPhase::Streaming;
                TurnAction::CallModel
            },
            TurnEvent::StreamFailed(e) => {
                if self.phase != TurnPhase::Streaming {
                    return TurnAction::Ignored;
                }
                if self.iteration <= 1 && history.len() > 0 {
                    history.pop();
                }
                self.phase = TurnPhase::Idle;
                TurnAction::Fail(e)
            },
            TurnEvent::StreamBroken { text, error } => {
                if self.phase != TurnPhase::Streaming {
                    return TurnAction::Ignored;
                }
                let ghost h0 = history@;
                history.push(Message::assistant(text.as_str()));
                assert(history@.drop_last() =~= h0);
                self.phase = TurnPhase::Idle;
                TurnAction::Fail(error)
            },
            TurnEvent::StreamFinished { text, calls } => {
                if self.phase != TurnPhase::Streaming {
                    return TurnAction::Ignored;
                }
                let ghost h0 = history@;
                history.push(assistant_message(text.as_str(), calls.as_slice()));
                assert(history@.drop_last() =~= h0);
                if calls.len() == 0 {
                    self.phase = TurnPhase::Idle;
                    return TurnAction::Complete;
                }
                self.calls = calls;
                self.next = 0;
                self.advance()
            },
            TurnEvent::ToolDone(out) => {
                if self.phase != TurnPhase::RunningTool {
                    return TurnAction::Ignored;
                }
                let ghost h0 = history@;
                let resp = Message::tool_response(self.calls[self.next].id.as_str(), out.as_str());
                history.push(resp);
                assert(history@.drop_last() =~= h0);
                let n = self.calls.len();
                assert(self.next < n);
                self.next = self.next + 1;
                self.phase = TurnPhase::Idle;
                self.advance()
            },
            TurnEvent::Permission(d) => {
                if self.phase != TurnPhase::AwaitingPermission {
                    return TurnAction::Ignored;
                }
                let c = copy_call(&self.calls[self.next]);
                match d {
                    PermissionDecision::AllowOnce => {
                        self.phase = TurnPhase::RunningTool;
                        TurnAction::RunTool(c)
                    },
                    PermissionDecision::AllowSession => {
                        let ghost a0 = allowed_names(self.allow_set@);
                        self.allow_set.push(c.name.clone());
                        assert(allowed_names(self.allow_set@) =~= a0.push(c.name@));
                        self.phase = TurnPhase::RunningTool;
                        TurnAction::RunTool(c)
                    },
                    PermissionDecision::Reject => {
                        let ghost h0 = history@;
                        history.push(Message::tool_response(c.id.as_str(), DENIAL_TEXT));
                        assert(history@.drop_last() =~= h0);
                        self.phase = TurnPhase::Denied;
                        TurnAction::ToolDenied(c)
                    },
                }
            },
            TurnEvent::Continue => {
                if self.phase != TurnPhase::Denied {
                    return TurnAction::Ignored;
                }
                let n = self.calls.len();
                assert(self.next < n);
                self.next = self.next + 1;
                self.phase = TurnPhase::Idle;
                self.advance()
            },
        }
    }
}


/// Bytes of tool arguments shown in a call's title before it is shortened.
pub const ARGS_SUMMARY_MAX_BYTES: usize = 80;
/// Bytes kept when the arguments are shortened.
pub const ARGS_SUMMARY_KEPT_BYTES: usize = 77;

/// The arguments as shown in a tool call's title: trimmed, and when longer
/// than 80 bytes cut to their first 77 bytes and an ellipsis.
pub open spec fn args_summary(args: Seq<char>) -> Seq<char> {
    let t = crate::text::trim(args);
    if crate::tokens::utf8_len(t) <= ARGS_SUMMARY_MAX_BYTES {
        t
    } else {
        crate::tools::shell::byte_prefix(t, ARGS_SUMMARY_KEPT_BYTES as int) + "…"@
    }
}

pub open spec fn summary_cut_ok(args: Seq<char>) -> bool {
    let t = crate::text::trim(args);
    crate::tokens::utf8_len(t) > ARGS_SUMMARY_MAX_BYTES ==> crate::tools::shell::is_byte_boundary(
        t,
        ARGS_SUMMARY_KEPT_BYTES as int,
    )
}

fn prefix_bytes_index(v: &[char], n: usize) -> (r: Option<usize>)
    ensures
        match r {
            Some(k) => k as int == crate::tools::shell::char_index_at_byte(v@, n as int, 0, 0) && k <= v@.len(),
            None => crate::tools::shell::char_index_at_byte(v@, n as int, 0, 0) < 0,
        },
{
    crate::tools::shell::char_index_at_byte_of(v, n)
}

fn utf8_len_within(v: &[char], max: usize) -> (r: bool)
    ensures
        r == (crate::tokens::utf8_len(v@) <= max),
{
    let mut n: usize = 0;
    let mut i: usize = 0;
    while i < v.len()
        invariant
            i <= v@.len(),
            n == crate::tokens::utf8_len(v@.take(i as int)),
            n <= max,
        decreases v@.len() - i,
    {
        let u = v[i] as u32;
        let b: usize = if u < 0x80 {
            1
        } else if u < 0x800 {
            2
        } else if u < 0x10000 {
            3
        } else {
            4
        };
        assert(v@.take(i + 1).drop_last() =~= v@.take(i as int));
        if b > max - n {
            proof { lemma_utf8_len_mono(v@, i + 1); }
            return false;
        }
        n = n + b;
        i = i + 1;
    }
    assert(v@.take(i as int) =~= v@);
    true
}

proof fn lemma_utf8_len_mono(s: Seq<char>, k: int)
    requires
        0 <= k <= s.len(),
    ensures
        crate::tokens::utf8_len(s.take(k)) <= crate::tokens::utf8_len(s),
    decreases s.len() - k,
{
    if k < s.len() {
        lemma_utf8_len_mono(s, k + 1);
        assert(s.take(k + 1).drop_last() =~= s.take(k));
    } else {
        assert(s.take(k) =~= s);
    }
}

/// The arguments shown in a call's title (see `args_summary`); the cut must
/// fall between characters.
pub fn summarize_args(args: &str) -> (r: String)
    requires
        summary_cut_ok(args@),
    ensures
        r@ == args_summary(args@),
{
    let v = chars_of(args);
    let t = crate::text::trimmed(v.as_slice());
    if utf8_len_within(t.as_slice(), ARGS_SUMMARY_MAX_BYTES) {
        return string_of(t.as_slice());
    }
    let k = match prefix_bytes_index(t.as_slice(), ARGS_SUMMARY_KEPT_BYTES) {
        Some(k) => k,
        None => {
            assert(false);
            0
        },
    };
    let head = crate::text::subvec(t.as_slice(), 0, k);
    assert(head@ =~= t@.take(k as int));
    let mut s = string_of(head.as_slice());
    s.append("…");
    s
}

/// `summarize_args`, or `None` where the cut would split a character.
pub fn summarize_args_checked(args: &str) -> (r: Option<String>)
    ensures
        match r {
            Some(s) => summary_cut_ok(args@) && s@ == args_summary(args@),
            None => !summary_cut_ok(args@),
        },
{
    let v = chars_of(args);
    let t = crate::text::trimmed(v.as_slice());
    if !utf8_len_within(t.as_slice(), ARGS_SUMMARY_MAX_BYTES) && prefix_bytes_index(t.as_slice(), ARGS_SUMMARY_KEPT_BYTES).is_none() {
        return None;
    }
    Some(summarize_args(args))
}

/// A tool call's title: its name and its argument summary.
pub fn tool_call_title(name: &str, args: &str) -> (r: String)
    requires
        summary_cut_ok(args@),
    ensures
        r@ == name@ + " "@ + args_summary(args@),
{
    let mut s = String::from_str(name);
    s.append(" ");
    s.append(summarize_args(args).as_str());
    s
}

} // verus!
