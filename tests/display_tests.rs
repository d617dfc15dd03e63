use grok_cli::display::DisplayTranscript;
use grok_cli::events::AppEvent;
use grok_cli::message::Message;

fn msg(role: &str, content: &str) -> Message {
    Message { role: role.to_string(), content: Some(content.to_string()), tool_calls: None, tool_call_id: None }
}

#[test]
fn streamed_tokens_grow_one_message_and_the_final_one_replaces_it() {
    let mut d = DisplayTranscript::new(vec![msg("user", "hi")]);
    d.apply(&AppEvent::ThinkingToken("hm".to_string()));
    d.apply(&AppEvent::ThinkingToken("m".to_string()));
    d.apply(&AppEvent::Token("Hel".to_string()));
    d.apply(&AppEvent::Token("lo".to_string()));
    assert_eq!(d.messages.len(), 3);
    assert_eq!(d.messages[1].role, "thought");
    assert_eq!(d.messages[1].content.as_deref(), Some("hmm"));
    assert_eq!(d.messages[2].content.as_deref(), Some("Hello"));
    d.apply(&AppEvent::NewMessage(msg("assistant", "Hello!")));
    assert_eq!(d.messages.len(), 3);
    assert_eq!(d.messages[2].content.as_deref(), Some("Hello!"));
    assert_eq!(d.api_messages.len(), 1);
}

#[test]
fn late_events_after_cancel_are_ignored() {
    let mut d = DisplayTranscript::new(vec![msg("user", "hi")]);
    d.cancel();
    d.apply(&AppEvent::Token("late".to_string()));
    d.apply(&AppEvent::NewMessage(msg("assistant", "late")));
    d.apply(&AppEvent::NewMessage(msg("assistant", "late")));
    assert_eq!(d.messages.len(), 1);
    assert!(d.api_messages.is_empty());
    assert!(d.cancel_requested);
    d.apply(&AppEvent::Finished);
    assert!(!d.cancel_requested);
    d.apply(&AppEvent::Token("next".to_string()));
    assert_eq!(d.messages.len(), 2);
}
