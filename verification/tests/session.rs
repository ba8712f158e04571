use mochi::memory::{Fact, FactKind, FactStatus};
use mochi::memory_capture::CapturedFact;
use mochi::memory_judge::JudgeOutcome;
use mochi::session::{archived_by_capture, capture_target};
use mochi::agent::{absorb_event, chat_url, is_done_marker, ChatEvent, Message, Role};
use mochi::session::{
    assistant_message, compose_system_prompt, decision_for_option, extract_user_text, llama_model_id, summarize_args_checked,
    tool_call_title, LlamaRuntimeCommand, LlmToolCall, MemoryMode, PermissionDecision, PromptChunk, RuntimeState, ToolLoop,
    TurnAction, TurnEvent, TurnPhase, DENIAL_TEXT,
};

fn call(id: &str, name: &str) -> LlmToolCall {
    LlmToolCall { id: id.to_owned(), name: name.to_owned(), arguments: "{}".to_owned() }
}

#[test]
fn runtime_commands_update_state() {
    let mut st = RuntimeState::new("http://127.0.0.1:8765");
    assert_eq!(st.memory_mode, MemoryMode::All);
    assert!(st.apply(LlamaRuntimeCommand::SetActiveSkill(Some("grumpy".to_owned()))));
    assert_eq!(st.active_skill.as_deref(), Some("grumpy"));
    assert!(!st.apply(LlamaRuntimeCommand::SetMemoryMode(MemoryMode::Active)));
    assert_eq!(st.memory_mode, MemoryMode::Active);
    assert!(!st.apply(LlamaRuntimeCommand::SetLlamaUrl("http://h:1".to_owned())));
    assert_eq!(st.url, "http://h:1");
    assert!(st.apply(LlamaRuntimeCommand::RebuildSystem));
    assert_eq!(st.active_skill.as_deref(), Some("grumpy"));
}

#[test]
fn system_prompt_appends_active_skill() {
    assert_eq!(compose_system_prompt("M\n", "base", None, None), "M\nbase");
    assert_eq!(
        compose_system_prompt("", "base", Some("s"), Some("do it")),
        "base\n\n[Active skill: s]\ndo it\n"
    );
    assert_eq!(compose_system_prompt("", "base", Some("s"), None), "base");
}

#[test]
fn permission_options_map_to_decisions() {
    assert_eq!(decision_for_option("allow_once"), PermissionDecision::AllowOnce);
    assert_eq!(decision_for_option("allow_session"), PermissionDecision::AllowSession);
    assert_eq!(decision_for_option("reject_once"), PermissionDecision::Reject);
}

#[test]
fn user_text_joins_text_chunks() {
    let chunks = vec![
        PromptChunk { kind: "text".to_owned(), text: Some("a".to_owned()) },
        PromptChunk { kind: "image".to_owned(), text: None },
        PromptChunk { kind: "text".to_owned(), text: Some("b".to_owned()) },
    ];
    assert_eq!(extract_user_text(&chunks), "a\nb");
    assert_eq!(extract_user_text(&[]), "");
}

#[test]
fn model_id_drops_scheme() {
    assert_eq!(llama_model_id("http://127.0.0.1:8765"), "llama@127.0.0.1:8765");
    assert_eq!(llama_model_id("https://h"), "llama@h");
}

#[test]
fn tool_titles_shorten_long_arguments() {
    assert_eq!(tool_call_title("Bash", "  {\"command\":\"ls\"}  "), "Bash {\"command\":\"ls\"}");
    let long = "x".repeat(100);
    let s = summarize_args_checked(&long).unwrap();
    assert_eq!(s, format!("{}…", "x".repeat(77)));
}

#[test]
fn assistant_message_records_calls() {
    let m = assistant_message("hi", &[call("c1", "Read")]);
    assert_eq!(m.role, Role::Assistant);
    let calls = m.tool_calls.unwrap();
    assert_eq!(calls.len(), 1);
    assert_eq!(calls[0].id, "c1");
    assert_eq!(calls[0].kind, "function");
    assert_eq!(calls[0].function.name, "Read");
    assert_eq!(assistant_message("x", &[]).tool_calls, None);
}

#[test]
fn turn_without_tools_completes() {
    let mut lp = ToolLoop::new();
    let mut history: Vec<Message> = Vec::new();
    assert_eq!(lp.step(&mut history, TurnEvent::Prompt("hello".to_owned())), TurnAction::CallModel);
    assert_eq!(history.len(), 1);
    let a = lp.step(&mut history, TurnEvent::StreamFinished { text: "hi!".to_owned(), calls: Vec::new() });
    assert_eq!(a, TurnAction::Complete);
    assert_eq!(history[1].content, "hi!");
    assert_eq!(lp.phase, TurnPhase::Idle);
}

#[test]
fn gated_tool_asks_then_runs_once_allowed() {
    let mut lp = ToolLoop::new();
    let mut history: Vec<Message> = Vec::new();
    lp.step(&mut history, TurnEvent::Prompt("run".to_owned()));
    let a = lp.step(&mut history, TurnEvent::StreamFinished { text: String::new(), calls: vec![call("c1", "Bash")] });
    assert_eq!(a, TurnAction::AskPermission(call("c1", "Bash")));
    let a = lp.step(&mut history, TurnEvent::Permission(PermissionDecision::AllowSession));
    assert_eq!(a, TurnAction::RunTool(call("c1", "Bash")));
    assert_eq!(lp.allow_set, vec!["Bash".to_owned()]);
    let a = lp.step(&mut history, TurnEvent::ToolDone("ok".to_owned()));
    assert_eq!(a, TurnAction::CallModel);
    assert_eq!(history.last().unwrap().tool_call_id.as_deref(), Some("c1"));
    let a = lp.step(&mut history, TurnEvent::StreamFinished { text: String::new(), calls: vec![call("c2", "Bash")] });
    assert_eq!(a, TurnAction::RunTool(call("c2", "Bash")));
}

#[test]
fn ungated_tool_runs_without_asking() {
    let mut lp = ToolLoop::new();
    let mut history: Vec<Message> = Vec::new();
    lp.step(&mut history, TurnEvent::Prompt("read".to_owned()));
    let a = lp.step(&mut history, TurnEvent::StreamFinished { text: String::new(), calls: vec![call("c1", "Read")] });
    assert_eq!(a, TurnAction::RunTool(call("c1", "Read")));
}

#[test]
fn rejected_tool_is_reported_to_the_model() {
    let mut lp = ToolLoop::new();
    let mut history: Vec<Message> = Vec::new();
    lp.step(&mut history, TurnEvent::Prompt("run".to_owned()));
    lp.step(&mut history, TurnEvent::StreamFinished { text: String::new(), calls: vec![call("c1", "Bash")] });
    let a = lp.step(&mut history, TurnEvent::Permission(PermissionDecision::Reject));
    assert_eq!(a, TurnAction::ToolDenied(call("c1", "Bash")));
    assert_eq!(history.last().unwrap().content, DENIAL_TEXT);
    assert!(lp.allow_set.is_empty());
    assert_eq!(lp.step(&mut history, TurnEvent::Continue), TurnAction::CallModel);
}

#[test]
fn tool_loop_stops_after_six_model_calls() {
    let mut lp = ToolLoop::new();
    let mut history: Vec<Message> = Vec::new();
    let mut a = lp.step(&mut history, TurnEvent::Prompt("loop".to_owned()));
    let mut calls = 1;
    loop {
        assert_eq!(a, TurnAction::CallModel);
        a = lp.step(&mut history, TurnEvent::StreamFinished { text: String::new(), calls: vec![call("c", "Read")] });
        assert_eq!(a, TurnAction::RunTool(call("c", "Read")));
        a = lp.step(&mut history, TurnEvent::ToolDone("x".to_owned()));
        if a != TurnAction::CallModel {
            break;
        }
        calls += 1;
    }
    assert_eq!(calls, 6);
    assert_eq!(a, TurnAction::Fail("max tool iterations (6) reached".to_owned()));
}

#[test]
fn events_out_of_phase_are_ignored() {
    let mut lp = ToolLoop::new();
    let mut history: Vec<Message> = Vec::new();
    assert_eq!(lp.step(&mut history, TurnEvent::ToolDone("x".to_owned())), TurnAction::Ignored);
    assert_eq!(lp.step(&mut history, TurnEvent::Prompt(String::new())), TurnAction::Complete);
    assert!(history.is_empty());
}

#[test]
fn failed_first_request_drops_the_prompt() {
    let mut lp = ToolLoop::new();
    let mut history: Vec<Message> = Vec::new();
    lp.step(&mut history, TurnEvent::Prompt("hello".to_owned()));
    let a = lp.step(&mut history, TurnEvent::StreamFailed("down".to_owned()));
    assert_eq!(a, TurnAction::Fail("down".to_owned()));
    assert!(history.is_empty());
}

#[test]
fn stream_events_accumulate_text() {
    let mut acc = String::new();
    assert!(absorb_event(&mut acc, &ChatEvent::Delta("Hel".to_owned())));
    assert!(absorb_event(&mut acc, &ChatEvent::Delta("lo".to_owned())));
    assert!(!absorb_event(&mut acc, &ChatEvent::Done));
    assert_eq!(acc, "Hello");
    assert_eq!(chat_url("http://h:1/"), "http://h:1/v1/chat/completions");
    assert!(is_done_marker("[DONE]"));
    assert!(!is_done_marker("{}"));
}

#[test]
fn calls_of_one_reply_run_in_order_then_model_is_called() {
    let mut lp = ToolLoop::new();
    let mut history: Vec<Message> = Vec::new();
    lp.step(&mut history, TurnEvent::Prompt("go".to_owned()));
    let a = lp.step(&mut history, TurnEvent::StreamFinished { text: String::new(), calls: vec![call("c1", "Read"), call("c2", "Write")] });
    assert_eq!(a, TurnAction::RunTool(call("c1", "Read")));
    assert_eq!(lp.next, 0);
    let a = lp.step(&mut history, TurnEvent::ToolDone("text".to_owned()));
    assert_eq!(a, TurnAction::AskPermission(call("c2", "Write")));
    assert_eq!(lp.next, 1);
    let a = lp.step(&mut history, TurnEvent::Permission(PermissionDecision::Reject));
    assert_eq!(a, TurnAction::ToolDenied(call("c2", "Write")));
    let a = lp.step(&mut history, TurnEvent::Continue);
    assert_eq!(a, TurnAction::CallModel);
    assert_eq!(lp.iteration, 2);
}

#[test]
fn replace_archives_and_takes_the_old_slot() {
    let old = Fact {
        id: 7,
        kind: FactKind::State,
        slug: "current-city".to_owned(),
        content: "Hanoi".to_owned(),
        skill_scope: None,
        created_at: 0,
        last_used: 0,
        status: FactStatus::Active,
        stale_at: None,
    };
    let new = CapturedFact { kind: FactKind::State, slug: "city".to_owned(), content: "Saigon".to_owned() };
    let replace = JudgeOutcome::Replace { existing_id: 7 };
    assert_eq!(capture_target(&new, replace, &[old], "default"), ("current-city".to_owned(), None));
    assert_eq!(archived_by_capture(FactKind::State, replace), Some(7));
    assert_eq!(archived_by_capture(FactKind::Profile, replace), Some(7));
    assert_eq!(archived_by_capture(FactKind::Concept, replace), None);
    assert_eq!(archived_by_capture(FactKind::State, JudgeOutcome::Reuse { existing_id: 7 }), None);
}
