//! Decisions of the slash commands whose effect happens outside the library
//! (the auth CLI, settings files, the agent connection, a child
//! `llama-server`): what each one shows and what it asks the caller to do.
use crate::cli::Provider;
use crate::slash::{arg_at, arg_str};
use crate::text::{chars_of, decimal_int, i64_decimal, str_eq, string_of, trim, trimmed};
use vstd::string::StringExecFns;
use vstd::prelude::*;

verus! {

/// The auth CLI's `auth` subcommand behind `/login` and `/logout`.
#[derive(Debug, Clone, Copy, PartialEq, Eq, Structural)]
pub enum AuthCommand {
    Login,
    Logout,
}

pub open spec fn auth_word(c: AuthCommand) -> Seq<char> {
    match c {
        AuthCommand::Login => "login"@,
        AuthCommand::Logout => "logout"@,
    }
}

impl AuthCommand {
    /// `login` or `logout`.
    pub fn word(self) -> (r: &'static str)
        ensures
            r@ == auth_word(self),
    {
        match self {
            AuthCommand::Login => "login",
            AuthCommand::Logout => "logout",
        }
    }
}

/// How an auth command starts.
#[derive(Debug, Clone, PartialEq, Eq)]
pub enum AuthStart {
    /// The command was given arguments: show its usage, nothing else.
    Usage(String),
    /// Echo the command, then show this notice: nothing to do.
    Notice(String),
    /// Echo the command, then show this error: the auth CLI is not on PATH.
    NoCli(String),
    /// Echo the command, show this pending text and run the auth CLI's `auth <word>`.
    Run(String),
}

/// An auth start as plain values.
pub enum AuthStartView {
    Usage(Seq<char>),
    Notice(Seq<char>),
    NoCli(Seq<char>),
    Run(Seq<char>),
}

impl View for AuthStart {
    type V = AuthStartView;

    open spec fn view(&self) -> AuthStartView {
        match self {
            AuthStart::Usage(s) => AuthStartView::Usage(s@),
            AuthStart::Notice(s) => AuthStartView::Notice(s@),
            AuthStart::NoCli(s) => AuthStartView::NoCli(s@),
            AuthStart::Run(s) => AuthStartView::Run(s@),
        }
    }
}

/// Whether the command has nothing to do: logging in with credentials
/// present, or out without them.
pub open spec fn auth_already_done(c: AuthCommand, has_credentials: bool) -> bool {
    match c {
        AuthCommand::Login => has_credentials,
        AuthCommand::Logout => !has_credentials,
    }
}

/// How `/login` or `/logout` with `n_args` arguments starts, given whether
/// credentials are stored and whether the auth CLI was found.
pub open spec fn auth_start_spec(c: AuthCommand, n_args: nat, has_credentials: bool, cli_found: bool) -> AuthStartView {
    if n_args > 0 {
        AuthStartView::Usage("Usage: /"@ + auth_word(c))
    } else if auth_already_done(c, has_credentials) {
        AuthStartView::Notice(
            match c {
                AuthCommand::Login => "Already authenticated. Use /logout first to re-authenticate."@,
                AuthCommand::Logout => "Not currently authenticated. Nothing to log out from."@,
            },
        )
    } else if !cli_found {
        AuthStartView::NoCli(
            "auth CLI not found in PATH. Install it and retry /"@ + auth_word(c) + ", or run its `auth "@
                + auth_word(c) + "` subcommand manually in another terminal."@,
        )
    } else {
        AuthStartView::Run(
            match c {
                AuthCommand::Login => "Authenticating..."@,
                AuthCommand::Logout => "Signing out..."@,
            },
        )
    }
}

pub fn auth_start(c: AuthCommand, n_args: usize, has_credentials: bool, cli_found: bool) -> (r: AuthStart)
    ensures
        r@ == auth_start_spec(c, n_args as nat, has_credentials, cli_found),
{
    if n_args > 0 {
        let mut s = String::from_str("Usage: /");
        s.append(c.word());
        return AuthStart::Usage(s);
    }
    let done = match c {
        AuthCommand::Login => has_credentials,
        AuthCommand::Logout => !has_credentials,
    };
    if done {
        return AuthStart::Notice(
            String::from_str(
                match c {
                    AuthCommand::Login => "Already authenticated. Use /logout first to re-authenticate.",
                    AuthCommand::Logout => "Not currently authenticated. Nothing to log out from.",
                },
            ),
        );
    }
    if !cli_found {
        let mut s = String::from_str("auth CLI not found in PATH. Install it and retry /");
        s.append(c.word());
        s.append(", or run its `auth ");
        s.append(c.word());
        s.append("` subcommand manually in another terminal.");
        return AuthStart::NoCli(s);
    }
    AuthStart::Run(
        String::from_str(
            match c {
                AuthCommand::Login => "Authenticating...",
                AuthCommand::Logout => "Signing out...",
            },
        ),
    )
}

/// How the auth CLI's `auth` process ended.
#[derive(Debug, Clone, PartialEq, Eq)]
pub enum AuthRun {
    /// It exited, successfully or not, with this exit code when it had one.
    Exited { success: bool, code: Option<i32> },
    /// It could not be run, for this reason.
    Failed(String),
}

/// What the session does after the auth process.
#[derive(Debug, Clone, PartialEq, Eq)]
pub enum AuthFinish {
    /// Logged in: start a session on the connection.
    LoggedIn,
    /// Logged out.
    LoggedOut,
    /// Report this error.
    Error(String),
}

pub open spec fn exit_code_text(code: Option<i32>) -> Seq<char> {
    match code {
        Some(c) => decimal_int(c as int),
        None => "unknown"@,
    }
}

/// The outcome of an auth command, given how its process ended, whether
/// credentials are stored afterwards, and (for `/login`) whether a
/// connection is there to start a session on.
pub open spec fn auth_finish_spec(c: AuthCommand, run: AuthRun, has_credentials: bool, has_conn: bool) -> Result<
    (),
    Seq<char>,
> {
    match run {
        AuthRun::Failed(e) => Err("Failed to run auth CLI `auth "@ + auth_word(c) + "`: "@ + e@),
        AuthRun::Exited { success, code } => if !success {
            Err("/"@ + auth_word(c) + " failed (exit code: "@ + exit_code_text(code) + ")"@)
        } else {
            match c {
                AuthCommand::Login => if !has_credentials {
                    Err(
                        "Login exited successfully but no credentials were saved. Try /login again or run the auth CLI's `auth login` in another terminal."@,
                    )
                } else if !has_conn {
                    Err("Login succeeded but no connection available to start a session."@)
                } else {
                    Ok(())
                },
                AuthCommand::Logout => if has_credentials {
                    Err(
                        "Logout exited successfully but credentials are still present. Try /logout again or run the auth CLI's `auth logout` in another terminal."@,
                    )
                } else {
                    Ok(())
                },
            }
        },
    }
}

pub fn auth_finish(c: AuthCommand, run: AuthRun, has_credentials: bool, has_conn: bool) -> (r: AuthFinish)
    ensures
        match auth_finish_spec(c, run, has_credentials, has_conn) {
            Ok(()) => r == (if c == AuthCommand::Login {
                AuthFinish::LoggedIn
            } else {
                AuthFinish::LoggedOut
            }),
            Err(m) => r matches AuthFinish::Error(e) && e@ == m,
        },
{
    match run {
        AuthRun::Failed(e) => {
            let mut s = String::from_str("Failed to run auth CLI `auth ");
            s.append(c.word());
            s.append("`: ");
            s.append(e.as_str());
            AuthFinish::Error(s)
        },
        AuthRun::Exited { success, code } => {
            if !success {
                let mut s = String::from_str("/");
                s.append(c.word());
                s.append(" failed (exit code: ");
                match code {
                    Some(k) => s.append(string_of(i64_decimal(k as i64).as_slice()).as_str()),
                    None => s.append("unknown"),
                }
                s.append(")");
                return AuthFinish::Error(s);
            }
            match c {
                AuthCommand::Login => if !has_credentials {
                    AuthFinish::Error(
                        String::from_str(
                            "Login exited successfully but no credentials were saved. Try /login again or run the auth CLI's `auth login` in another terminal.",
                        ),
                    )
                } else if !has_conn {
                    AuthFinish::Error(String::from_str("Login succeeded but no connection available to start a session."))
                } else {
                    AuthFinish::LoggedIn
                },
                AuthCommand::Logout => if has_credentials {
                    AuthFinish::Error(
                        String::from_str(
                            "Logout exited successfully but credentials are still present. Try /logout again or run the auth CLI's `auth logout` in another terminal.",
                        ),
                    )
                } else {
                    AuthFinish::LoggedOut
                },
            }
        },
    }
}


/// What a `/provider` command asks for.
#[derive(Debug, Clone, PartialEq, Eq)]
pub enum ProviderPlan {
    /// Show this; nothing else.
    Info(String),
    /// Warn with this; nothing else.
    Warn(String),
    /// Serve the model at this path with a new managed `llama-server`,
    /// once the file is known to exist.
    Swap(String),
}

pub enum ProviderPlanView {
    Info(Seq<char>),
    Warn(Seq<char>),
    Swap(Seq<char>),
}

impl View for ProviderPlan {
    type V = ProviderPlanView;

    open spec fn view(&self) -> ProviderPlanView {
        match self {
            ProviderPlan::Info(s) => ProviderPlanView::Info(s@),
            ProviderPlan::Warn(s) => ProviderPlanView::Warn(s@),
            ProviderPlan::Swap(s) => ProviderPlanView::Swap(s@),
        }
    }
}

pub open spec fn provider_name(p: Provider) -> Seq<char> {
    match p {
        Provider::Anthropic => "anthropic"@,
        Provider::Llamacpp => "llamacpp"@,
    }
}

/// The hint shown when no managed server runs under the llama provider.
pub open spec fn no_managed_hint() -> Seq<char> {
    "no managed llama-server is running.\n\nTo start one inline:\n  /provider llamacpp <PATH-TO-GGUF>\n\ne.g. /provider llamacpp ~/gguf/qwen3-7b.Q5_K_M.gguf\n(model load takes 10-30s; child process dies when Mochi exits)\n"@
}

/// What `/provider show` reports: the provider, the server URL, and the
/// managed model (or how to start one).
pub open spec fn provider_status_text(p: Provider, llama_url: Seq<char>, managed_model: Option<Seq<char>>) -> Seq<char> {
    "provider: "@ + provider_name(p) + "\nllama_url: "@ + llama_url + "\n"@ + match managed_model {
        Some(m) => "managed model: "@ + m + "\n"@,
        None => if p == Provider::Llamacpp {
            no_managed_hint()
        } else {
            Seq::empty()
        },
    }
}

pub fn provider_status(p: Provider, llama_url: &str, managed_model: Option<&str>) -> (r: String)
    ensures
        r@ == provider_status_text(p, llama_url@, managed_model.deep_view()),
{
    let mut s = String::from_str("provider: ");
    s.append(
        match p {
            Provider::Anthropic => "anthropic",
            Provider::Llamacpp => "llamacpp",
        },
    );
    s.append("\nllama_url: ");
    s.append(llama_url);
    s.append("\n");
    match managed_model {
        Some(m) => {
            s.append("managed model: ");
            s.append(m);
            s.append("\n");
        },
        None => if p == Provider::Llamacpp {
            s.append(
                "no managed llama-server is running.\n\nTo start one inline:\n  /provider llamacpp <PATH-TO-GGUF>\n\ne.g. /provider llamacpp ~/gguf/qwen3-7b.Q5_K_M.gguf\n(model load takes 10-30s; child process dies when Mochi exits)\n",
            );
        },
    }
    s
}

/// The plan of a `/provider` command (arguments after the command name).
pub open spec fn provider_plan_spec(
    args: Seq<String>,
    p: Provider,
    llama_url: Seq<char>,
    managed_model: Option<Seq<char>>,
) -> ProviderPlanView {
    let sub = match arg_at(args, 0) {
        Some(s) => s,
        None => "show"@,
    };
    if sub == "show"@ || sub.len() == 0 {
        ProviderPlanView::Info(provider_status_text(p, llama_url, managed_model))
    } else if sub == "llamacpp"@ {
        match arg_at(args, 1) {
            None => ProviderPlanView::Info("usage: /provider llamacpp <PATH-TO-GGUF>"@),
            Some(path) => if p != Provider::Llamacpp {
                ProviderPlanView::Warn("current provider is not llamacpp — restart with `mochi --provider llamacpp` first"@)
            } else {
                ProviderPlanView::Swap(path)
            },
        }
    } else if sub == "anthropic"@ {
        ProviderPlanView::Warn(
            "switching to anthropic mid-session is not supported — restart with `mochi --provider anthropic`"@,
        )
    } else {
        ProviderPlanView::Info("provider: subcommands are show | llamacpp <PATH> | anthropic"@)
    }
}

pub fn plan_provider(args: &[String], p: Provider, llama_url: &str, managed_model: Option<&str>) -> (r: ProviderPlan)
    ensures
        r@ == provider_plan_spec(args@, p, llama_url@, managed_model.deep_view()),
{
    proof {
        reveal_strlit("");
    }
    let sub: &str = match arg_str(args, 0) {
        Some(s) => s,
        None => "show",
    };
    if str_eq(sub, "show") || sub.is_empty() {
        return ProviderPlan::Info(provider_status(p, llama_url, managed_model));
    }
    if str_eq(sub, "llamacpp") {
        return match arg_str(args, 1) {
            None => ProviderPlan::Info(String::from_str("usage: /provider llamacpp <PATH-TO-GGUF>")),
            Some(path) => if p != Provider::Llamacpp {
                ProviderPlan::Warn(
                    String::from_str("current provider is not llamacpp — restart with `mochi --provider llamacpp` first"),
                )
            } else {
                ProviderPlan::Swap(String::from_str(path))
            },
        };
    }
    if str_eq(sub, "anthropic") {
        return ProviderPlan::Warn(
            String::from_str(
                "switching to anthropic mid-session is not supported — restart with `mochi --provider anthropic`",
            ),
        );
    }
    ProviderPlan::Info(String::from_str("provider: subcommands are show | llamacpp <PATH> | anthropic"))
}

/// What a swap reports before it starts.
pub fn swap_notice(model_path: &str) -> (r: String)
    ensures
        r@ == "switching to llamacpp model "@ + model_path@ + " ... (model load may take 10-30s)"@,
{
    let mut s = String::from_str("switching to llamacpp model ");
    s.append(model_path);
    s.append(" ... (model load may take 10-30s)");
    s
}

/// What a swap reports when the model file does not exist.
pub fn missing_model_warning(model_path: &str) -> (r: String)
    ensures
        r@ == "model not found at "@ + model_path@,
{
    let mut s = String::from_str("model not found at ");
    s.append(model_path);
    s
}

/// The port a swapped server binds: the running managed server's port, or
/// the default 8765.
pub fn swap_port(managed_url: Option<&str>) -> (r: u16)
    ensures
        r == match managed_url {
            Some(u) => match crate::slash::port_of(u@) {
                Some(p) => p,
                None => 8765,
            },
            None => 8765u16,
        },
{
    match managed_url {
        Some(u) => match crate::slash::extract_port(u) {
            Some(p) => p,
            None => 8765,
        },
        None => 8765,
    }
}


/// What `/opus-version` asks for.
#[derive(Debug, Clone, Copy, PartialEq, Eq)]
pub enum OpusVersionPlan {
    /// Show `OPUS_VERSION_USAGE`.
    Usage,
    /// Report the current pin.
    Status,
    /// Pin this model id, or clear the pin (`None`).
    Pin(Option<&'static str>),
}

/// The plan of `/opus-version`: exactly one non-empty argument, `status`,
/// `default` or a known version.
pub fn plan_opus_version(args: &[String]) -> (r: OpusVersionPlan)
    ensures
        match crate::slash::single_arg_spec(args@) {
            None => r == OpusVersionPlan::Usage,
            Some(a) => if a == "status"@ {
                r == OpusVersionPlan::Status
            } else if a == "default"@ {
                r == OpusVersionPlan::Pin(None)
            } else {
                match crate::slash::opus_model_for(a) {
                    Some(m) => r matches OpusVersionPlan::Pin(Some(x)) && x@ == m,
                    None => r == OpusVersionPlan::Usage,
                }
            },
        },
{
    let a = match crate::slash::single_arg(args) {
        Some(a) => a,
        None => return OpusVersionPlan::Usage,
    };
    if str_eq(a.as_str(), "status") {
        OpusVersionPlan::Status
    } else if str_eq(a.as_str(), "default") {
        OpusVersionPlan::Pin(None)
    } else {
        match crate::slash::opus_model_id_for_version(a.as_str()) {
            Some(m) => OpusVersionPlan::Pin(Some(m)),
            None => OpusVersionPlan::Usage,
        }
    }
}

/// What `/1m-context` asks for.
#[derive(Debug, Clone, Copy, PartialEq, Eq, Structural)]
pub enum OneMContextPlan {
    /// Show `ONE_M_CONTEXT_USAGE`.
    Usage,
    /// Report whether 1M context is disabled.
    Status,
    /// Disable (`true`) or enable (`false`) 1M context.
    SetDisabled(bool),
}

/// The plan of `/1m-context`: exactly one non-empty argument, `status`,
/// `disable` or `enable`.
pub fn plan_one_m_context(args: &[String]) -> (r: OneMContextPlan)
    ensures
        match crate::slash::single_arg_spec(args@) {
            None => r == OneMContextPlan::Usage,
            Some(a) => r == if a == "status"@ {
                OneMContextPlan::Status
            } else if a == "disable"@ {
                OneMContextPlan::SetDisabled(true)
            } else if a == "enable"@ {
                OneMContextPlan::SetDisabled(false)
            } else {
                OneMContextPlan::Usage
            },
        },
{
    let a = match crate::slash::single_arg(args) {
        Some(a) => a,
        None => return OneMContextPlan::Usage,
    };
    if str_eq(a.as_str(), "status") {
        OneMContextPlan::Status
    } else if str_eq(a.as_str(), "disable") {
        OneMContextPlan::SetDisabled(true)
    } else if str_eq(a.as_str(), "enable") {
        OneMContextPlan::SetDisabled(false)
    } else {
        OneMContextPlan::Usage
    }
}

/// What `/1m-context status` reports.
pub fn one_m_context_status(disabled: bool) -> (r: &'static str)
    ensures
        r@ == if disabled {
            "1M context is disabled for future sessions in this folder via `settings.local.json`."@
        } else {
            "1M context is enabled for future sessions in this folder."@
        },
{
    if disabled {
        "1M context is disabled for future sessions in this folder via `settings.local.json`."
    } else {
        "1M context is enabled for future sessions in this folder."
    }
}


/// How far the agent connection has got.
#[derive(Debug, Clone, Copy, PartialEq, Eq, Structural)]
pub enum SessionLink {
    /// No connection yet.
    NotConnected,
    /// Connected, but no session is active.
    NoSession,
    /// A session is active.
    Active,
}

/// `/mode` or `/model`.
#[derive(Debug, Clone, Copy, PartialEq, Eq, Structural)]
pub enum SwitchKind {
    Mode,
    Model,
}

pub open spec fn switch_word(k: SwitchKind) -> Seq<char> {
    match k {
        SwitchKind::Mode => "mode"@,
        SwitchKind::Model => "model"@,
    }
}

/// What `/mode` or `/model` asks for.
#[derive(Debug, Clone, PartialEq, Eq)]
pub enum SwitchPlan {
    /// Show this; nothing else.
    Say(String),
    /// Show the pending text and ask the agent to switch to this id.
    Switch { id: String, pending: &'static str },
}

pub open spec fn names_contain(names: Seq<String>, x: Seq<char>) -> bool {
    exists|i: int| 0 <= i < names.len() && (#[trigger] names[i])@ == x
}

/// The plan of `/mode <id>` or `/model <id>`: one non-empty argument, an
/// active session, and (when `known` lists the ids on offer) a listed id.
pub open spec fn switch_plan_ok(k: SwitchKind, args: Seq<String>, link: SessionLink, known: Option<Seq<String>>) -> Result<
    Seq<char>,
    Seq<char>,
> {
    match crate::slash::single_arg_spec(args) {
        None => Err("Usage: /"@ + switch_word(k) + " <id>"@),
        Some(id) => if link == SessionLink::NotConnected {
            Err("Cannot switch "@ + switch_word(k) + ": not connected yet."@)
        } else if link == SessionLink::NoSession {
            Err("Cannot switch "@ + switch_word(k) + ": no active session."@)
        } else if known matches Some(ids) && !names_contain(ids, id) {
            Err(
                (match k {
                    SwitchKind::Mode => "Unknown mode: "@,
                    SwitchKind::Model => "Unknown model: "@,
                }) + id,
            )
        } else {
            Ok(id)
        },
    }
}

fn contains_name(names: &[String], x: &str) -> (r: bool)
    ensures
        r == names_contain(names@, x@),
{
    let mut i: usize = 0;
    while i < names.len()
        invariant
            i <= names@.len(),
            forall|j: int| 0 <= j < i ==> (#[trigger] names@[j])@ != x@,
        decreases names@.len() - i,
    {
        if str_eq(names[i].as_str(), x) {
            return true;
        }
        i = i + 1;
    }
    false
}

pub fn plan_switch(k: SwitchKind, args: &[String], link: SessionLink, known: Option<&[String]>) -> (r: SwitchPlan)
    ensures
        match switch_plan_ok(k, args@, link, match known { Some(v) => Some(v@), None => None }) {
            Ok(id) => r matches SwitchPlan::Switch { id: x, pending } && x@ == id && pending@ == (if k == SwitchKind::Mode {
                "Switching mode..."@
            } else {
                "Switching model..."@
            }),
            Err(m) => r matches SwitchPlan::Say(x) && x@ == m,
        },
{
    let word: &str = match k {
        SwitchKind::Mode => "mode",
        SwitchKind::Model => "model",
    };
    let id = match crate::slash::single_arg(args) {
        Some(a) => a,
        None => {
            let mut s = String::from_str("Usage: /");
            s.append(word);
            s.append(" <id>");
            return SwitchPlan::Say(s);
        },
    };
    if link != SessionLink::Active {
        let mut s = String::from_str("Cannot switch ");
        s.append(word);
        s.append(if link == SessionLink::NotConnected { ": not connected yet." } else { ": no active session." });
        return SwitchPlan::Say(s);
    }
    match known {
        Some(ids) => if !contains_name(ids, id.as_str()) {
            let mut s = String::from_str(
                match k {
                    SwitchKind::Mode => "Unknown mode: ",
                    SwitchKind::Model => "Unknown model: ",
                },
            );
            s.append(id.as_str());
            return SwitchPlan::Say(s);
        },
        None => {},
    }
    SwitchPlan::Switch {
        id,
        pending: match k {
            SwitchKind::Mode => "Switching mode...",
            SwitchKind::Model => "Switching model...",
        },
    }
}

/// The usage line a command that takes no arguments shows when given some.
pub fn usage_if_args(command: &str, n_args: usize) -> (r: Option<String>)
    ensures
        match r {
            Some(m) => n_args > 0 && m@ == "Usage: "@ + command@,
            None => n_args == 0,
        },
{
    if n_args > 0 {
        let mut s = String::from_str("Usage: ");
        s.append(command);
        Some(s)
    } else {
        None
    }
}

/// Why `/compact` cannot start (usage, no connection, no session), or
/// `None` when it can.
pub fn plan_compact(n_args: usize, link: SessionLink) -> (r: Option<&'static str>)
    ensures
        match r {
            Some(m) => m@ == if n_args > 0 {
                "Usage: /compact"@
            } else if link == SessionLink::NotConnected {
                "Cannot compact: not connected yet."@
            } else {
                "Cannot compact: no active session."@
            },
            None => n_args == 0 && link == SessionLink::Active,
        },
        r is None <==> (n_args == 0 && link == SessionLink::Active),
{
    if n_args > 0 {
        Some("Usage: /compact")
    } else if link == SessionLink::NotConnected {
        Some("Cannot compact: not connected yet.")
    } else if link == SessionLink::NoSession {
        Some("Cannot compact: no active session.")
    } else {
        None
    }
}

/// What `/new-session` and `/resume` do.
#[derive(Debug, Clone, PartialEq, Eq)]
pub enum SessionStartPlan {
    /// Show this usage; nothing else.
    Usage(String),
    /// Echo this, then show this error: there is no connection.
    Refused { echo: String, message: String },
    /// Echo this, show the pending text, then start a new session, or
    /// resume the session with this id.
    Start { echo: String, pending: String, resume_id: Option<String> },
}

/// The plan of `/new-session` (no arguments, a connection needed).
pub fn plan_new_session(n_args: usize, connected: bool) -> (r: SessionStartPlan)
    ensures
        n_args > 0 ==> (r matches SessionStartPlan::Usage(m) && m@ == "Usage: /new-session"@),
        n_args == 0 && !connected ==> (r matches SessionStartPlan::Refused { echo, message } && echo@ == "/new-session"@
            && message@ == "Cannot create new session: not connected yet."@),
        n_args == 0 && connected ==> (r matches SessionStartPlan::Start { echo, pending, resume_id } && echo@
            == "/new-session"@ && pending@ == "Starting new session..."@ && resume_id is None),
{
    if n_args > 0 {
        return SessionStartPlan::Usage(String::from_str("Usage: /new-session"));
    }
    if !connected {
        return SessionStartPlan::Refused {
            echo: String::from_str("/new-session"),
            message: String::from_str("Cannot create new session: not connected yet."),
        };
    }
    SessionStartPlan::Start {
        echo: String::from_str("/new-session"),
        pending: String::from_str("Starting new session..."),
        resume_id: None,
    }
}

/// The plan of `/resume <session_id>` (one non-empty argument, a
/// connection needed).
pub fn plan_resume(args: &[String], connected: bool) -> (r: SessionStartPlan)
    ensures
        match crate::slash::single_arg_spec(args@) {
            None => r matches SessionStartPlan::Usage(m) && m@ == "Usage: /resume <session_id>"@,
            Some(id) => if !connected {
                r matches SessionStartPlan::Refused { echo, message } && echo@ == "/resume "@ + id && message@
                    == "Cannot resume session: not connected yet."@
            } else {
                r matches SessionStartPlan::Start { echo, pending, resume_id } && echo@ == "/resume "@ + id && pending@
                    == "Resuming session "@ + id + "..."@ && (resume_id matches Some(x) && x@ == id)
            },
        },
{
    let id = match crate::slash::single_arg(args) {
        Some(a) => a,
        None => return SessionStartPlan::Usage(String::from_str("Usage: /resume <session_id>")),
    };
    let mut echo = String::from_str("/resume ");
    echo.append(id.as_str());
    if !connected {
        return SessionStartPlan::Refused { echo, message: String::from_str("Cannot resume session: not connected yet.") };
    }
    let mut pending = String::from_str("Resuming session ");
    pending.append(id.as_str());
    pending.append("...");
    SessionStartPlan::Start { echo, pending, resume_id: Some(id) }
}

/// What an unsupported command shows.
pub fn unsupported_message(command_name: &str) -> (r: String)
    ensures
        r@ == command_name@ + " is not yet supported"@,
{
    let mut s = String::from_str(command_name);
    s.append(" is not yet supported");
    s
}


/// A `/docs` topic.
#[derive(Debug, Clone, Copy, PartialEq, Eq, Structural)]
pub enum DocsTopic {
    Mode,
    Models,
    Shortcuts,
    Commands,
    Agents,
}

/// What `/docs` asks for.
#[derive(Debug, Clone, PartialEq, Eq)]
pub enum DocsPlan {
    /// Show this; nothing else.
    Say(String),
    /// Show the page of this topic.
    Show(DocsTopic),
}

pub open spec fn docs_topic_of(t: Seq<char>) -> Option<DocsTopic> {
    if t == "mode"@ {
        Some(DocsTopic::Mode)
    } else if t == "models"@ {
        Some(DocsTopic::Models)
    } else if t == "shortcuts"@ {
        Some(DocsTopic::Shortcuts)
    } else if t == "commands"@ {
        Some(DocsTopic::Commands)
    } else if t == "agents"@ {
        Some(DocsTopic::Agents)
    } else {
        None
    }
}

/// The plan of `/docs <topic>`: one non-empty argument naming a topic.
pub fn plan_docs(args: &[String]) -> (r: DocsPlan)
    ensures
        match crate::slash::single_arg_spec(args@) {
            None => r matches DocsPlan::Say(m) && m@ == "Usage: /docs <mode|models|shortcuts|commands|agents>"@,
            Some(t) => match docs_topic_of(t) {
                Some(topic) => r == DocsPlan::Show(topic),
                None => r matches DocsPlan::Say(m) && m@ == "Unknown docs topic: "@ + t + "\n"@
                    + "Usage: /docs <mode|models|shortcuts|commands|agents>"@,
            },
        },
{
    let t = match crate::slash::single_arg(args) {
        Some(a) => a,
        None => return DocsPlan::Say(String::from_str(crate::slash::docs_usage())),
    };
    let w = t.as_str();
    if str_eq(w, "mode") {
        DocsPlan::Show(DocsTopic::Mode)
    } else if str_eq(w, "models") {
        DocsPlan::Show(DocsTopic::Models)
    } else if str_eq(w, "shortcuts") {
        DocsPlan::Show(DocsTopic::Shortcuts)
    } else if str_eq(w, "commands") {
        DocsPlan::Show(DocsTopic::Commands)
    } else if str_eq(w, "agents") {
        DocsPlan::Show(DocsTopic::Agents)
    } else {
        let mut s = String::from_str("Unknown docs topic: ");
        s.append(w);
        s.append("\n");
        s.append(crate::slash::docs_usage());
        DocsPlan::Say(s)
    }
}

/// The rows of a docs table as pairs of texts.
pub open spec fn row_pairs(rs: Seq<crate::slash::DocsRow>) -> Seq<(Seq<char>, Seq<char>)> {
    rs.map_values(|r: crate::slash::DocsRow| (r.left@, r.right@))
}

pub open spec fn pair_rows_text(ps: Seq<(Seq<char>, Seq<char>)>) -> Seq<char>
    decreases ps.len(),
{
    if ps.len() == 0 {
        Seq::empty()
    } else {
        pair_rows_text(ps.drop_last()) + "| "@ + crate::slash::table_cell(ps.last().0) + " | "@
            + crate::slash::table_cell(ps.last().1) + " |\n"@
    }
}

/// A docs page (see `render_docs_table`) over rows given as pairs.
pub open spec fn pair_table_text(
    title: Seq<char>,
    intro: Seq<char>,
    h0: Seq<char>,
    h1: Seq<char>,
    ps: Seq<(Seq<char>, Seq<char>)>,
) -> Seq<char> {
    "# "@ + title + "\n\n"@ + intro + "\n\n| "@ + h0 + " | "@ + h1 + " |\n| --- | --- |\n"@ + pair_rows_text(ps)
}

proof fn lemma_rows_text(rs: Seq<crate::slash::DocsRow>)
    ensures
        crate::slash::docs_rows_text(rs) == pair_rows_text(row_pairs(rs)),
    decreases rs.len(),
{
    if rs.len() > 0 {
        assert(row_pairs(rs).drop_last() =~= row_pairs(rs.drop_last()));
        lemma_rows_text(rs.drop_last());
    }
}

fn render_pairs(title: &str, intro: &str, h0: &str, h1: &str, rows: &[crate::slash::DocsRow]) -> (r: String)
    ensures
        r@ == pair_table_text(title@, intro@, h0@, h1@, row_pairs(rows@)),
{
    proof {
        lemma_rows_text(rows@);
    }
    crate::slash::render_docs_table(title, intro, (h0, h1), rows)
}

fn row(left: String, right: String) -> (r: crate::slash::DocsRow)
    ensures
        r.left@ == left@,
        r.right@ == right@,
{
    crate::slash::DocsRow { left, right }
}

/// One selectable session mode.
#[derive(Debug, Clone)]
pub struct ModeEntry {
    pub id: String,
    pub name: String,
}

/// The session's mode and the modes on offer.
#[derive(Debug, Clone)]
pub struct ModeState {
    pub current_id: String,
    pub current_name: String,
    pub available: Vec<ModeEntry>,
}

pub open spec fn mode_detail(id: Seq<char>, current: Seq<char>) -> Seq<char> {
    "ID `"@ + id + "`"@ + if id == current {
        "; current"@
    } else {
        Seq::empty()
    }
}

/// The rows of the mode page: each mode on offer (the current one marked),
/// the current mode alone when none is listed, or a stand-in row when no
/// session has reported its mode.
pub open spec fn mode_rows(mode: Option<ModeState>) -> Seq<(Seq<char>, Seq<char>)> {
    match mode {
        None => seq![("Unavailable"@, "Connect to load the current session mode."@)],
        Some(m) => if m.available@.len() == 0 {
            seq![(m.current_name@, "ID `"@ + m.current_id@ + "`; current"@)]
        } else {
            Seq::new(
                m.available@.len(),
                |i: int| (m.available@[i].name@, mode_detail(m.available@[i].id@, m.current_id@)),
            )
        },
    }
}

/// The `/docs mode` page.
pub fn docs_mode_markdown(mode: Option<&ModeState>) -> (r: String)
    ensures
        r@ == pair_table_text(
            "Docs: Mode"@,
            "Current and available session modes."@,
            "Mode"@,
            "Details"@,
            mode_rows(match mode { Some(m) => Some(*m), None => None }),
        ),
{
    let mut rows: Vec<crate::slash::DocsRow> = Vec::new();
    match mode {
        None => {
            rows.push(row(String::from_str("Unavailable"), String::from_str("Connect to load the current session mode.")));
        },
        Some(m) => {
            if m.available.len() == 0 {
                let mut d = String::from_str("ID `");
                d.append(m.current_id.as_str());
                d.append("`; current");
                rows.push(row(m.current_name.clone(), d));
            } else {
                let ghost want = mode_rows(Some(*m));
                let mut i: usize = 0;
                while i < m.available.len()
                    invariant
                        i <= m.available@.len(),
                        m.available@.len() > 0,
                        want == mode_rows(Some(*m)),
                        row_pairs(rows@) == want.take(i as int),
                    decreases m.available@.len() - i,
                {
                    let e = &m.available[i];
                    let mut d = String::from_str("ID `");
                    d.append(e.id.as_str());
                    d.append("`");
                    if str_eq(e.id.as_str(), m.current_id.as_str()) {
                        d.append("; current");
                    }
                    let ghost before = rows@;
                    rows.push(row(e.name.clone(), d));
                    assert(row_pairs(rows@) =~= row_pairs(before).push(want[i as int]));
                    assert(want.take(i + 1) =~= want.take(i as int).push(want[i as int]));
                    i = i + 1;
                }
                assert(want.take(i as int) =~= want);
            }
        },
    }
    proof {
        let rp = row_pairs(rows@);
        let want = mode_rows(match mode { Some(m) => Some(*m), None => None });
        assert(rp =~= want);
    }
    render_pairs("Docs: Mode", "Current and available session modes.", "Mode", "Details", rows.as_slice())
}


/// A model the agent advertises.
#[derive(Debug, Clone)]
pub struct ModelEntry {
    pub id: String,
    pub display_name: String,
    pub description: Option<String>,
    pub supports_effort: bool,
    pub supports_adaptive_thinking: Option<bool>,
    pub supports_fast_mode: Option<bool>,
    pub supports_auto_mode: Option<bool>,
}

/// The parts of a model's details: its id, its description when not blank,
/// then the capabilities it supports.
pub open spec fn detail_parts(m: ModelEntry) -> Seq<Seq<char>> {
    seq!["ID `"@ + m.id@ + "`"@] + (match m.description {
        Some(d) => if trim(d@).len() > 0 {
            seq![trim(d@)]
        } else {
            Seq::empty()
        },
        None => Seq::empty(),
    }) + (if m.supports_effort {
        seq!["Effort"@]
    } else {
        Seq::empty()
    }) + (if m.supports_adaptive_thinking == Some(true) {
        seq!["Adaptive thinking"@]
    } else {
        Seq::empty()
    }) + (if m.supports_fast_mode == Some(true) {
        seq!["Fast mode"@]
    } else {
        Seq::empty()
    }) + (if m.supports_auto_mode == Some(true) {
        seq!["Auto mode"@]
    } else {
        Seq::empty()
    })
}

/// Parts joined with `; `.
pub open spec fn join_semis(parts: Seq<Seq<char>>) -> Seq<char>
    decreases parts.len(),
{
    if parts.len() == 0 {
        Seq::empty()
    } else if parts.len() == 1 {
        parts[0]
    } else {
        join_semis(parts.drop_last()) + "; "@ + parts.last()
    }
}

fn append_part(out: &mut String, parts: Ghost<Seq<Seq<char>>>, p: &str)
    requires
        old(out)@ == join_semis(parts@),
        parts@.len() > 0,
    ensures
        final(out)@ == join_semis(parts@.push(p@)),
{
    proof {
        assert(parts@.push(p@).drop_last() =~= parts@);
    }
    out.append("; ");
    out.append(p);
}

/// The details column of a model's row.
pub fn model_details(m: &ModelEntry) -> (r: String)
    ensures
        r@ == join_semis(detail_parts(*m)),
{
    let mut out = String::from_str("ID `");
    out.append(m.id.as_str());
    out.append("`");
    let ghost mut parts: Seq<Seq<char>> = seq!["ID `"@ + m.id@ + "`"@];
    assert(join_semis(parts) == parts[0]);
    match &m.description {
        Some(d) => {
            let t = trimmed(chars_of(d.as_str()).as_slice());
            if t.len() > 0 {
                let ts = string_of(t.as_slice());
                append_part(&mut out, Ghost(parts), ts.as_str());
                proof { parts = parts.push(trim(d@)); }
            }
        },
        None => {},
    }
    if m.supports_effort {
        append_part(&mut out, Ghost(parts), "Effort");
        proof { parts = parts.push("Effort"@); }
    }
    if m.supports_adaptive_thinking == Some(true) {
        append_part(&mut out, Ghost(parts), "Adaptive thinking");
        proof { parts = parts.push("Adaptive thinking"@); }
    }
    if m.supports_fast_mode == Some(true) {
        append_part(&mut out, Ghost(parts), "Fast mode");
        proof { parts = parts.push("Fast mode"@); }
    }
    if m.supports_auto_mode == Some(true) {
        append_part(&mut out, Ghost(parts), "Auto mode");
        proof { parts = parts.push("Auto mode"@); }
    }
    assert(parts =~= detail_parts(*m));
    out
}

/// The name column of a model's row: its display name, or its id when the
/// display name is blank.
pub open spec fn model_name(m: ModelEntry) -> Seq<char> {
    if trim(m.display_name@).len() == 0 {
        m.id@
    } else {
        m.display_name@
    }
}

/// The rows of the models page, or a stand-in row when none is advertised.
pub open spec fn model_rows(ms: Seq<ModelEntry>) -> Seq<(Seq<char>, Seq<char>)> {
    if ms.len() == 0 {
        seq![("Unavailable"@, "Connect to load advertised models."@)]
    } else {
        Seq::new(ms.len(), |i: int| (model_name(ms[i]), join_semis(detail_parts(ms[i]))))
    }
}

/// The `/docs models` page.
pub fn docs_models_markdown(models: &[ModelEntry]) -> (r: String)
    ensures
        r@ == pair_table_text(
            "Docs: Models"@,
            "Advertised models and capabilities for the current session."@,
            "Model"@,
            "Details"@,
            model_rows(models@),
        ),
{
    let ghost want = model_rows(models@);
    let mut rows: Vec<crate::slash::DocsRow> = Vec::new();
    if models.len() == 0 {
        rows.push(row(String::from_str("Unavailable"), String::from_str("Connect to load advertised models.")));
    } else {
        let mut i: usize = 0;
        while i < models.len()
            invariant
                i <= models@.len(),
                models@.len() > 0,
                want == model_rows(models@),
                row_pairs(rows@) == want.take(i as int),
            decreases models@.len() - i,
        {
            let m = &models[i];
            let blank = trimmed(chars_of(m.display_name.as_str()).as_slice()).len() == 0;
            let name = if blank { m.id.clone() } else { m.display_name.clone() };
            let ghost before = rows@;
            rows.push(row(name, model_details(m)));
            assert(row_pairs(rows@) =~= row_pairs(before).push(want[i as int]));
            assert(want.take(i + 1) =~= want.take(i as int).push(want[i as int]));
            i = i + 1;
        }
        assert(want.take(i as int) =~= want);
    }
    assert(row_pairs(rows@) =~= want);
    render_pairs(
        "Docs: Models",
        "Advertised models and capabilities for the current session.",
        "Model",
        "Details",
        rows.as_slice(),
    )
}


/// A folder-local setting that a slash command edits.
#[derive(Debug, Clone, Copy, PartialEq, Eq, Structural)]
pub enum LocalSetting {
    /// `env.CLAUDE_CODE_DISABLE_1M_CONTEXT`, edited by `/1m-context`.
    OneMContext,
    /// `env.ANTHROPIC_DEFAULT_OPUS_MODEL`, edited by `/opus-version`.
    OpusVersion,
}

/// Why a folder-local setting cannot be edited: the project is not trusted,
/// or there is no local settings file to write; `None` when it can.
pub fn setting_edit_refusal(setting: LocalSetting, project_trusted: bool, path_known: bool) -> (r: Option<&'static str>)
    ensures
        match r {
            Some(m) => m@ == if !project_trusted {
                match setting {
                    LocalSetting::OneMContext => "Project trust must be accepted before editing folder-local 1M context settings"@,
                    LocalSetting::OpusVersion => "Project trust must be accepted before editing folder-local Opus version settings"@,
                }
            } else {
                "Local settings path is not available"@
            },
            None => project_trusted && path_known,
        },
        r is None <==> (project_trusted && path_known),
{
    if !project_trusted {
        Some(
            match setting {
                LocalSetting::OneMContext => "Project trust must be accepted before editing folder-local 1M context settings",
                LocalSetting::OpusVersion => "Project trust must be accepted before editing folder-local Opus version settings",
            },
        )
    } else if !path_known {
        Some("Local settings path is not available")
    } else {
        None
    }
}

/// What is reported when the stored setting is not a string.
pub fn setting_type_error(setting: LocalSetting) -> (r: &'static str)
    ensures
        r@ == match setting {
            LocalSetting::OneMContext => "Expected `settings.local.json` env.CLAUDE_CODE_DISABLE_1M_CONTEXT to be a string"@,
            LocalSetting::OpusVersion => "Expected `settings.local.json` env.ANTHROPIC_DEFAULT_OPUS_MODEL to be a string"@,
        },
{
    match setting {
        LocalSetting::OneMContext => "Expected `settings.local.json` env.CLAUDE_CODE_DISABLE_1M_CONTEXT to be a string",
        LocalSetting::OpusVersion => "Expected `settings.local.json` env.ANTHROPIC_DEFAULT_OPUS_MODEL to be a string",
    }
}

} // verus!
