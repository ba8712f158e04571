use mochi::commands::{setting_edit_refusal, setting_type_error, LocalSetting};
use mochi::cli::Provider;
use mochi::commands::{
    auth_finish, auth_start, docs_mode_markdown, docs_models_markdown, model_details, plan_compact, plan_docs, plan_new_session,
    plan_one_m_context, plan_opus_version, plan_provider, plan_resume, plan_switch, provider_status, swap_port, usage_if_args,
    AuthCommand, AuthFinish, AuthRun, AuthStart, DocsPlan, DocsTopic, ModeEntry, ModeState, ModelEntry, OneMContextPlan,
    OpusVersionPlan, ProviderPlan, SessionLink, SessionStartPlan, SwitchKind, SwitchPlan,
};

fn strings(v: &[&str]) -> Vec<String> {
    v.iter().map(|s| (*s).to_owned()).collect()
}

#[test]
fn auth_start_checks_args_credentials_and_cli() {
    assert_eq!(auth_start(AuthCommand::Login, 1, false, true), AuthStart::Usage("Usage: /login".to_owned()));
    assert_eq!(
        auth_start(AuthCommand::Login, 0, true, true),
        AuthStart::Notice("Already authenticated. Use /logout first to re-authenticate.".to_owned())
    );
    assert_eq!(
        auth_start(AuthCommand::Logout, 0, false, true),
        AuthStart::Notice("Not currently authenticated. Nothing to log out from.".to_owned())
    );
    assert_eq!(
        auth_start(AuthCommand::Logout, 0, true, false),
        AuthStart::NoCli(
            "auth CLI not found in PATH. Install it and retry /logout, or run its `auth logout` subcommand manually in another terminal."
                .to_owned()
        )
    );
    assert_eq!(auth_start(AuthCommand::Login, 0, false, true), AuthStart::Run("Authenticating...".to_owned()));
}

#[test]
fn auth_finish_reports_each_outcome() {
    let ok = AuthRun::Exited { success: true, code: Some(0) };
    assert_eq!(auth_finish(AuthCommand::Login, ok.clone(), true, true), AuthFinish::LoggedIn);
    assert!(matches!(auth_finish(AuthCommand::Login, ok.clone(), false, true), AuthFinish::Error(_)));
    assert_eq!(
        auth_finish(AuthCommand::Login, ok.clone(), true, false),
        AuthFinish::Error("Login succeeded but no connection available to start a session.".to_owned())
    );
    assert_eq!(auth_finish(AuthCommand::Logout, ok.clone(), false, false), AuthFinish::LoggedOut);
    assert_eq!(
        auth_finish(AuthCommand::Logout, AuthRun::Exited { success: false, code: Some(2) }, true, false),
        AuthFinish::Error("/logout failed (exit code: 2)".to_owned())
    );
    assert_eq!(
        auth_finish(AuthCommand::Login, AuthRun::Exited { success: false, code: None }, false, false),
        AuthFinish::Error("/login failed (exit code: unknown)".to_owned())
    );
    assert_eq!(
        auth_finish(AuthCommand::Login, AuthRun::Failed("boom".to_owned()), false, false),
        AuthFinish::Error("Failed to run auth CLI `auth login`: boom".to_owned())
    );
}

#[test]
fn provider_plans_follow_subcommands() {
    assert_eq!(
        plan_provider(&[], Provider::Llamacpp, "http://h:1", Some("/m.gguf")),
        ProviderPlan::Info("provider: llamacpp\nllama_url: http://h:1\nmanaged model: /m.gguf\n".to_owned())
    );
    assert!(provider_status(Provider::Llamacpp, "u", None).contains("no managed llama-server is running."));
    assert_eq!(provider_status(Provider::Anthropic, "u", None), "provider: anthropic\nllama_url: u\n");
    assert_eq!(
        plan_provider(&strings(&["llamacpp", "/x.gguf"]), Provider::Llamacpp, "u", None),
        ProviderPlan::Swap("/x.gguf".to_owned())
    );
    assert!(matches!(plan_provider(&strings(&["llamacpp", "/x.gguf"]), Provider::Anthropic, "u", None), ProviderPlan::Warn(_)));
    assert_eq!(
        plan_provider(&strings(&["llamacpp"]), Provider::Llamacpp, "u", None),
        ProviderPlan::Info("usage: /provider llamacpp <PATH-TO-GGUF>".to_owned())
    );
    assert!(matches!(plan_provider(&strings(&["anthropic"]), Provider::Llamacpp, "u", None), ProviderPlan::Warn(_)));
    assert_eq!(
        plan_provider(&strings(&["zzz"]), Provider::Llamacpp, "u", None),
        ProviderPlan::Info("provider: subcommands are show | llamacpp <PATH> | anthropic".to_owned())
    );
}

#[test]
fn swaps_keep_the_managed_port() {
    assert_eq!(swap_port(Some("http://127.0.0.1:9000")), 9000);
    assert_eq!(swap_port(Some("http://h")), 8765);
    assert_eq!(swap_port(None), 8765);
}

#[test]
fn settings_commands_take_one_argument() {
    assert_eq!(plan_opus_version(&[]), OpusVersionPlan::Usage);
    assert_eq!(plan_opus_version(&strings(&[" status "])), OpusVersionPlan::Status);
    assert_eq!(plan_opus_version(&strings(&["default"])), OpusVersionPlan::Pin(None));
    assert_eq!(plan_opus_version(&strings(&["4.7"])), OpusVersionPlan::Pin(Some("opus-4-7")));
    assert_eq!(plan_opus_version(&strings(&["9"])), OpusVersionPlan::Usage);
    assert_eq!(plan_one_m_context(&strings(&["disable"])), OneMContextPlan::SetDisabled(true));
    assert_eq!(plan_one_m_context(&strings(&["enable"])), OneMContextPlan::SetDisabled(false));
    assert_eq!(plan_one_m_context(&strings(&["status", "x"])), OneMContextPlan::Usage);
}

#[test]
fn switches_need_a_session_and_a_known_id() {
    let ids = strings(&["plan", "code"]);
    assert_eq!(
        plan_switch(SwitchKind::Mode, &strings(&["plan"]), SessionLink::Active, Some(&ids)),
        SwitchPlan::Switch { id: "plan".to_owned(), pending: "Switching mode..." }
    );
    assert_eq!(
        plan_switch(SwitchKind::Mode, &strings(&["zzz"]), SessionLink::Active, Some(&ids)),
        SwitchPlan::Say("Unknown mode: zzz".to_owned())
    );
    assert_eq!(
        plan_switch(SwitchKind::Model, &strings(&["any"]), SessionLink::Active, None),
        SwitchPlan::Switch { id: "any".to_owned(), pending: "Switching model..." }
    );
    assert_eq!(
        plan_switch(SwitchKind::Model, &[], SessionLink::Active, None),
        SwitchPlan::Say("Usage: /model <id>".to_owned())
    );
    assert_eq!(
        plan_switch(SwitchKind::Model, &strings(&["x"]), SessionLink::NotConnected, None),
        SwitchPlan::Say("Cannot switch model: not connected yet.".to_owned())
    );
    assert_eq!(
        plan_switch(SwitchKind::Mode, &strings(&["x"]), SessionLink::NoSession, None),
        SwitchPlan::Say("Cannot switch mode: no active session.".to_owned())
    );
}

#[test]
fn session_commands_check_usage_and_connection() {
    assert_eq!(usage_if_args("/config", 1), Some("Usage: /config".to_owned()));
    assert_eq!(usage_if_args("/config", 0), None);
    assert_eq!(plan_compact(0, SessionLink::Active), None);
    assert_eq!(plan_compact(0, SessionLink::NoSession), Some("Cannot compact: no active session."));
    assert_eq!(plan_compact(2, SessionLink::Active), Some("Usage: /compact"));
    assert_eq!(plan_new_session(1, true), SessionStartPlan::Usage("Usage: /new-session".to_owned()));
    assert!(matches!(plan_new_session(0, false), SessionStartPlan::Refused { .. }));
    assert_eq!(
        plan_resume(&strings(&["abc"]), true),
        SessionStartPlan::Start {
            echo: "/resume abc".to_owned(),
            pending: "Resuming session abc...".to_owned(),
            resume_id: Some("abc".to_owned())
        }
    );
    assert_eq!(plan_resume(&[], true), SessionStartPlan::Usage("Usage: /resume <session_id>".to_owned()));
}

#[test]
fn docs_topics_and_pages() {
    assert_eq!(plan_docs(&strings(&["models"])), DocsPlan::Show(DocsTopic::Models));
    assert_eq!(
        plan_docs(&strings(&["nope"])),
        DocsPlan::Say("Unknown docs topic: nope\nUsage: /docs <mode|models|shortcuts|commands|agents>".to_owned())
    );
    assert_eq!(
        docs_mode_markdown(None),
        "# Docs: Mode\n\nCurrent and available session modes.\n\n| Mode | Details |\n| --- | --- |\n| Unavailable | Connect to load the current session mode. |\n"
    );
    let state = ModeState {
        current_id: "code".to_owned(),
        current_name: "Code".to_owned(),
        available: vec![
            ModeEntry { id: "plan".to_owned(), name: "Plan".to_owned() },
            ModeEntry { id: "code".to_owned(), name: "Code".to_owned() },
        ],
    };
    assert!(docs_mode_markdown(Some(&state)).ends_with("| Plan | ID `plan` |\n| Code | ID `code`; current |\n"));
    let m = ModelEntry {
        id: "m1".to_owned(),
        display_name: " ".to_owned(),
        description: Some("  fast one ".to_owned()),
        supports_effort: true,
        supports_adaptive_thinking: Some(false),
        supports_fast_mode: Some(true),
        supports_auto_mode: None,
    };
    assert_eq!(model_details(&m), "ID `m1`; fast one; Effort; Fast mode");
    assert!(docs_models_markdown(&[m]).ends_with("| m1 | ID `m1`; fast one; Effort; Fast mode |\n"));
    assert!(docs_models_markdown(&[]).contains("| Unavailable | Connect to load advertised models. |"));
}

#[test]
fn local_settings_need_trust_and_a_path() {
    assert_eq!(
        setting_edit_refusal(LocalSetting::OpusVersion, false, true),
        Some("Project trust must be accepted before editing folder-local Opus version settings")
    );
    assert_eq!(setting_edit_refusal(LocalSetting::OneMContext, true, false), Some("Local settings path is not available"));
    assert_eq!(setting_edit_refusal(LocalSetting::OneMContext, true, true), None);
    assert!(setting_type_error(LocalSetting::OneMContext).contains("CLAUDE_CODE_DISABLE_1M_CONTEXT"));
}
