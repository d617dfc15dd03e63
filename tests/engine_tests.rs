use grok_cli::config::{Config, RateLimitConfig};
use grok_cli::engine::{
    classify_api_error, directive_for_input, CallStep, RateWindow, ReplyOutcome, RequestStep, Suspension, TurnEngine,
};
use grok_cli::message::{FunctionCall, Message, ToolCall};
use grok_cli::roles::ActiveRole;
use grok_cli::stream::StreamDecoder;

fn msg(role: &str, content: &str) -> Message {
    Message { role: role.to_string(), content: Some(content.to_string()), tool_calls: None, tool_call_id: None }
}

fn engine(history: Vec<Message>, allowed: Vec<String>) -> TurnEngine {
    TurnEngine::start(
        history,
        None,
        "grok-3".to_string(),
        Config::default().roles,
        allowed,
        131_072,
        None,
        false,
        RateWindow::new(0),
    )
}

fn reply_with_calls(calls: Vec<ToolCall>) -> Message {
    Message { role: "assistant".to_string(), content: None, tool_calls: Some(calls), tool_call_id: None }
}

fn call(id: &str, name: &str, args: &str) -> ToolCall {
    ToolCall {
        id: id.to_string(),
        call_type: "function".to_string(),
        function: FunctionCall { name: name.to_string(), arguments: args.to_string() },
    }
}

fn empty_reply() -> Message {
    Message { role: "assistant".to_string(), content: None, tool_calls: None, tool_call_id: None }
}

#[test]
fn list_call_runs_and_the_loop_goes_on() {
    let mut e = engine(vec![msg("system", "sys"), msg("user", "list files")], vec![]);
    assert!(matches!(e.begin_request(), RequestStep::Send(m) if m == "grok-3"));
    let mut d = StreamDecoder::new();
    d.push_chunk("data: {\"choices\":[{\"delta\":{\"tool_calls\":[{\"index\":0,\"id\":\"1\",\"function\":{\"name\":\"List\",\"arguments\":\"{\\\"path\\\":\\\".\\\"}\"}}]}}]}\n\ndata: [DONE]\n");
    let reply = d.finish();
    assert!(matches!(e.on_reply(reply), ReplyOutcome::Dispatch));
    let c = match e.next_call() {
        CallStep::Execute(c) => c,
        other => panic!("unexpected {:?}", other),
    };
    assert_eq!(c.function.name, "List");
    assert_eq!(c.function.arguments, "{\"path\":\".\"}");
    e.record_tool_result(&c, "a.txt\nb.txt".to_string());
    let last = e.history.last().unwrap();
    assert_eq!(last.role, "tool");
    assert_eq!(last.tool_call_id.as_deref(), Some("1"));
    assert_eq!(last.content.as_deref(), Some("a.txt\nb.txt"));
    assert!(matches!(e.next_call(), CallStep::BatchDone));
    assert!(!e.finished);
    assert_eq!(e.history.len(), 4);
    assert!(matches!(e.begin_request(), RequestStep::Send(_)));
}

#[test]
fn handoff_switches_role_and_continues() {
    let mut e = engine(vec![msg("system", "sys"), msg("user", "plan it")], vec![]);
    let reply = msg("assistant", "Plan:\n...\n@coder: implement it");
    match e.on_reply(reply) {
        ReplyOutcome::Handoff { from, to } => {
            assert_eq!(from, "default");
            assert_eq!(to, "coder");
        }
        other => panic!("unexpected {:?}", other),
    }
    assert!(!e.finished);
    let last = e.history.last().unwrap();
    assert_eq!(last.role, "user");
    assert_eq!(last.content.as_deref(), Some("Continue with the following task:\nimplement it"));
    assert_eq!(e.active_role.as_ref().unwrap().model, "grok-code-fast-1");
    assert!(e.history[1].content.as_deref().unwrap().starts_with("[Role: @coder]\n"));
    assert!(matches!(e.begin_request(), RequestStep::Send(m) if m == "grok-code-fast-1"));
}

#[test]
fn unknown_role_ends_the_turn() {
    let mut e = engine(vec![msg("system", "sys")], vec![]);
    assert!(matches!(e.on_reply(msg("assistant", "@nobody: do it")), ReplyOutcome::Done));
    assert!(e.finished);
}

#[test]
fn rate_pause_then_reset_then_request() {
    let mut e = TurnEngine::start(
        vec![msg("system", "sys"), msg("user", "hi")],
        None,
        "grok-3".to_string(),
        vec![],
        vec![],
        131_072,
        Some(RateLimitConfig::new(131_072, 1_000_000, 300)),
        true,
        RateWindow { tokens_used: 850_000, requests_used: 3, window_start: 0 },
    );
    assert!(matches!(e.begin_request(), RequestStep::Pause(60)));
    e.resume_after_pause();
    assert_eq!(e.window.tokens_used, 0);
    assert_eq!(e.window.requests_used, 0);
    assert!(matches!(e.begin_request(), RequestStep::Send(_)));
    assert_eq!(e.window.requests_used, 1);
}

#[test]
fn preflight_blocks_at_seventy_percent() {
    let limits = RateLimitConfig::new(131_072, 1_000, 100);
    assert!(RateWindow { tokens_used: 699, requests_used: 69, window_start: 0 }.preflight_allows(&limits));
    assert!(!RateWindow { tokens_used: 700, requests_used: 0, window_start: 0 }.preflight_allows(&limits));
    assert!(!RateWindow { tokens_used: 0, requests_used: 70, window_start: 0 }.preflight_allows(&limits));
    assert!(RateWindow { tokens_used: 799, requests_used: 79, window_start: 0 }.needs_pause(&limits) == false);
    assert!(RateWindow { tokens_used: 0, requests_used: 80, window_start: 0 }.needs_pause(&limits));
}

#[test]
fn three_empty_replies_give_one_warning() {
    let mut e = engine(vec![msg("system", "sys"), msg("user", "hi")], vec![]);
    let mut warnings = 0;
    let mut retries = 0;
    for _ in 0..3 {
        if e.finished {
            break;
        }
        match e.on_reply(empty_reply()) {
            ReplyOutcome::Retry => retries += 1,
            ReplyOutcome::GiveUp(w) => {
                warnings += 1;
                assert!(w.contains("empty response"));
            }
            other => panic!("unexpected {:?}", other),
        }
    }
    assert_eq!(retries, 2);
    assert_eq!(warnings, 1);
    assert!(e.finished);
    let nudges = e.history.iter().filter(|m| m.content.as_deref() == Some("Please continue with your response.")).count();
    assert_eq!(nudges, 2);
}

#[test]
fn a_real_reply_resets_the_retry_count() {
    let mut e = engine(vec![msg("system", "sys")], vec![]);
    assert!(matches!(e.on_reply(empty_reply()), ReplyOutcome::Retry));
    assert!(matches!(e.on_reply(reply_with_calls(vec![call("1", "Read", "{}")])), ReplyOutcome::Dispatch));
    assert_eq!(e.empty_retries, 0);
}

#[test]
fn approvals_and_todos() {
    let mut e = engine(vec![msg("system", "sys")], vec!["ls".to_string()]);
    e.on_reply(reply_with_calls(vec![
        call("t", "TodoWrite", r#"{"todos":[{"content":"a","status":"in_progress","activeForm":"doing a"},{"content":"b"}]}"#),
        call("b1", "Bash", r#"{"command":"ls"}"#),
        call("b2", "run_shell_command", r#"{"command":"rm -rf x"}"#),
        call("w", "WebSearch", r#"{"query":"rust"}"#),
    ]));
    match e.next_call() {
        CallStep::Todos(Some(items)) => {
            assert_eq!(items.len(), 1);
            assert_eq!(items[0].content, "a");
        }
        other => panic!("unexpected {:?}", other),
    }
    assert_eq!(e.history.last().unwrap().content.as_deref(), Some("Todo list updated."));
    assert!(matches!(e.next_call(), CallStep::Execute(c) if c.id == "b1"));
    match e.next_call() {
        CallStep::Suspend(Suspension::BashApproval { call, command }) => {
            assert_eq!(call.id, "b2");
            assert_eq!(command, "rm -rf x");
        }
        other => panic!("unexpected {:?}", other),
    }
    assert!(e.finished);
}

#[test]
fn planning_and_confirmation_suspend() {
    let mut e = engine(vec![msg("system", "sys")], vec![]);
    e.on_reply(reply_with_calls(vec![call("q", "ask_multiple_choice", r#"{"question":"Which?","options":["a","b"]}"#)]));
    match e.next_call() {
        CallStep::Suspend(Suspension::Planning { question, options, call_id }) => {
            assert_eq!(question, "Which?");
            assert_eq!(options, vec!["a".to_string(), "b".to_string()]);
            assert_eq!(call_id, "q");
        }
        other => panic!("unexpected {:?}", other),
    }
    let mut e = engine(vec![msg("system", "sys")], vec![]);
    e.on_reply(reply_with_calls(vec![call("p", "ConfirmPlan", r#"{"plan":"do it"}"#)]));
    assert!(matches!(e.next_call(), CallStep::Suspend(Suspension::Confirmation { plan, .. }) if plan == "do it"));
}

#[test]
fn api_errors_are_classified() {
    assert!(classify_api_error("HTTP 429 Too Many Requests").contains("Rate limit exceeded"));
    assert!(classify_api_error("SAFETY_CHECK failed").contains("safety filters"));
    assert!(classify_api_error("401 Unauthorized").contains("authentication"));
    assert_eq!(classify_api_error("timeout"), "API Error: timeout");
    let mut e = engine(vec![msg("system", "sys")], vec![]);
    let m = e.on_api_error("boom");
    assert_eq!(m, "API Error: boom");
    assert!(e.finished);
}

#[test]
fn role_prompt_is_injected_after_the_first_message() {
    let role = ActiveRole { name: "coder".to_string(), model: "m".to_string(), system_prompt: Some("be brief".to_string()) };
    let e = TurnEngine::start(
        vec![msg("system", "sys"), msg("user", "hi")],
        Some(role),
        "grok-3".to_string(),
        vec![],
        vec![],
        131_072,
        None,
        false,
        RateWindow::new(0),
    );
    assert_eq!(e.history.len(), 3);
    assert_eq!(e.history[1].content.as_deref(), Some("[Role: @coder]\nbe brief"));
}

#[test]
fn window_resets_after_sixty_seconds() {
    let mut w = RateWindow { tokens_used: 10, requests_used: 2, window_start: 100 };
    w.refresh(159);
    assert_eq!(w.tokens_used, 10);
    w.refresh(160);
    assert_eq!((w.tokens_used, w.requests_used, w.window_start), (0, 0, 160));
    w.record_usage(7, 3);
    w.record_request();
    assert_eq!((w.tokens_used, w.requests_used), (10, 1));
}

#[test]
fn user_directive_selects_a_configured_role() {
    let roles = Config::default().roles;
    let (role, text) = directive_for_input(&roles, "@planner: design a cache");
    let role = role.unwrap();
    assert_eq!(role.name, "planner");
    assert_eq!(role.model, "grok-4.1-fast-reasoning");
    assert_eq!(text, "design a cache");
    let (role, text) = directive_for_input(&roles, "@ghost: boo");
    assert!(role.is_none());
    assert_eq!(text, "@ghost: boo");
}
