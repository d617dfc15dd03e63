use grok_cli::context::{
    compress_history_if_needed, estimate_tokens, filter_valid_messages, message_tokens,
    safe_truncate, summarize_tool_result, total_context_tokens,
};
use grok_cli::message::{FunctionCall, Message, ToolCall};

fn msg(role: &str, content: Option<&str>) -> Message {
    Message {
        role: role.to_string(),
        content: content.map(|c| c.to_string()),
        tool_calls: None,
        tool_call_id: None,
    }
}

fn call(id: &str, name: &str, args: &str) -> ToolCall {
    ToolCall {
        id: id.to_string(),
        call_type: "function".to_string(),
        function: FunctionCall { name: name.to_string(), arguments: args.to_string() },
    }
}

#[test]
fn test_filter_valid_messages() {
    let messages = vec![
        Message { role: "system".to_string(), content: Some("sys".to_string()), tool_calls: None, tool_call_id: None },
        Message { role: "user".to_string(), content: Some("hi".to_string()), tool_calls: None, tool_call_id: None },
        Message { role: "assistant".to_string(), content: None, tool_calls: None, tool_call_id: None },
        Message { role: "assistant".to_string(), content: Some("response".to_string()), tool_calls: None, tool_call_id: None },
        Message { role: "assistant".to_string(), content: None, tool_calls: Some(vec![]), tool_call_id: None },
        Message { role: "assistant".to_string(), content: Some("".to_string()), tool_calls: None, tool_call_id: None },
        Message { role: "thought".to_string(), content: Some("thinking".to_string()), tool_calls: None, tool_call_id: None },
    ];

    let filtered = filter_valid_messages(&messages);

    println!("Filtered: {:?}", filtered);

    assert_eq!(filtered.len(), 3);
    assert!(filtered.iter().any(|m| m.role == "system"));
    assert!(filtered.iter().any(|m| m.role == "user"));
    assert!(filtered.iter().any(|m| m.role == "assistant" && m.content.as_deref() == Some("response")));

    assert!(!filtered.iter().any(|m| m.role == "thought"));
    assert!(!filtered.iter().any(|m| m.content.as_deref() == Some("")));
    assert!(!filtered.iter().any(|m| m.tool_calls.as_ref().map(|tc| tc.is_empty()).unwrap_or(false)));
}

#[test]
fn filter_keeps_tool_call_only_messages() {
    let m = Message {
        role: "assistant".to_string(),
        content: None,
        tool_calls: Some(vec![call("1", "List", "{}")]),
        tool_call_id: None,
    };
    assert_eq!(filter_valid_messages(&[m]).len(), 1);
}

#[test]
fn estimate_rounds_up_per_four_chars() {
    assert_eq!(estimate_tokens(""), 0);
    assert_eq!(estimate_tokens("abc"), 1);
    assert_eq!(estimate_tokens("abcd"), 1);
    assert_eq!(estimate_tokens("abcde"), 2);
}

#[test]
fn message_tokens_count_overhead_text_and_calls() {
    let mut m = msg("assistant", Some("12345678"));
    assert_eq!(message_tokens(&m), 4 + 2);
    m.tool_calls = Some(vec![call("1", "Read", "{\"a\":1}")]);
    assert_eq!(message_tokens(&m), 4 + 2 + 1 + 2);
    let h = vec![msg("system", Some("abcd")), m];
    assert_eq!(total_context_tokens(&h), 5 + 9);
}

#[test]
fn truncation_marks_the_cut() {
    assert_eq!(safe_truncate("hello", 5), "hello");
    assert_eq!(safe_truncate("hello world", 5), "hello...");
    assert_eq!(safe_truncate("h\u{e9}llo", 2), "h\u{e9}...");
}

#[test]
fn tool_summaries_by_kind() {
    assert_eq!(summarize_tool_result("a\nb\nc", Some("Read")), "Read 3 lines (5 chars)");
    assert_eq!(summarize_tool_result("Error: boom\nmore", Some("Read")), "Error: Error: boom");
    assert_eq!(summarize_tool_result("   ", Some("Bash")), "Command completed (no output)");
    assert_eq!(summarize_tool_result("done", Some("run_shell_command")), "Output: done");
    assert_eq!(summarize_tool_result("a\nb", Some("Bash")), "Output: 2 lines");
    assert_eq!(summarize_tool_result("x.rs\n\ny.rs\n", Some("Glob")), "Found 2 files");
    assert_eq!(summarize_tool_result("m1\nm2\nm3", Some("grep")), "Found 3 matches");
    assert_eq!(summarize_tool_result("\u{2713} edited", Some("Edit")), "Edit successful");
    assert_eq!(summarize_tool_result("anything", Some("write_file")), "File written");
    assert_eq!(summarize_tool_result("a\nb\n", Some("List")), "Listed 2 items");
    assert_eq!(summarize_tool_result("one\ntwo\nthree", None), "3 lines of output");
    assert_eq!(summarize_tool_result("short", Some("Unknown")), "short");
}

fn long_history(n: usize, size: usize) -> Vec<Message> {
    let mut h = vec![msg("system", Some("you are helpful"))];
    for i in 0..n {
        let role = if i % 2 == 0 { "user" } else { "assistant" };
        h.push(msg(role, Some(&"x".repeat(size))));
    }
    h
}

#[test]
fn compression_below_trigger_is_a_no_op() {
    let mut h = long_history(30, 40);
    let before = format!("{:?}", h);
    assert!(!compress_history_if_needed(&mut h, 1_000_000));
    assert_eq!(format!("{:?}", h), before);
}

#[test]
fn compression_keeps_system_message_and_recent_tail() {
    let mut h = long_history(30, 400);
    let original = h.clone();
    let tokens = total_context_tokens(&h);
    let max_context = tokens;
    assert!(compress_history_if_needed(&mut h, max_context));
    assert_eq!(h[0].content, original[0].content);
    let avg = tokens / original.len();
    let keep = ((max_context * 3 / 10) / avg).clamp(6, 20);
    let tail_start = original.len() - keep;
    let kept: Vec<_> = h[h.len() - keep..].iter().map(|m| m.content.clone()).collect();
    let expected: Vec<_> = original[tail_start..].iter().map(|m| m.content.clone()).collect();
    assert_eq!(kept, expected);
    assert!(h.len() == keep + 1 || h.len() == keep + 2);
    if h.len() == keep + 2 {
        let summary = h[1].content.clone().unwrap();
        let header = format!("[Previous conversation summary - {} messages compressed]\n", original.len() - keep - 1);
        assert!(summary.starts_with(&header));
        assert_eq!(h[1].role, "system");
    }
}

#[test]
fn compressing_an_already_compressed_transcript_changes_nothing() {
    let mut h = long_history(30, 100);
    let max_context = total_context_tokens(&h);
    assert!(compress_history_if_needed(&mut h, max_context));
    let once = format!("{:?}", h);
    assert!(!compress_history_if_needed(&mut h, max_context));
    assert_eq!(format!("{:?}", h), once);
}

#[test]
fn summary_lines_describe_older_messages() {
    let mut h = vec![msg("system", Some("sys"))];
    let long = format!("please list the files {}", "x".repeat(300));
    h.push(msg("user", Some(&long)));
    h.push(Message {
        role: "assistant".to_string(),
        content: Some("Listing now".to_string()),
        tool_calls: Some(vec![call("c1", "List", "{}")]),
        tool_call_id: None,
    });
    h.push(Message {
        role: "tool".to_string(),
        content: Some("a\nb\nc".to_string()),
        tool_calls: None,
        tool_call_id: Some("c1".to_string()),
    });
    for i in 0..6 {
        h.push(msg(if i % 2 == 0 { "user" } else { "assistant" }, Some("recent")));
    }
    // every message costs at least 5 tokens; a tiny context forces compression
    let mut compressed = h.clone();
    assert!(compress_history_if_needed(&mut compressed, 10));
    // the summary itself is dropped again because the result is still too large
    assert_eq!(compressed.len(), 7);
    let mut roomy = h.clone();
    let tokens = total_context_tokens(&h);
    // trigger at 70% of 14/10 of the tokens, so the rebuilt transcript fits
    assert!(compress_history_if_needed(&mut roomy, tokens * 14 / 10));
    let summary = roomy[1].content.clone().unwrap();
    let expected = format!(
        "[Previous conversation summary - 3 messages compressed]\nUser: {}\nAssistant used: List | Assistant: Listing now\n  \u{2192} Listed 3 items",
        safe_truncate(&long, 120)
    );
    assert_eq!(summary, expected);
    assert_eq!(roomy.len(), 8);
}

#[test]
fn thresholds_are_parameters() {
    let mut h = long_history(30, 40);
    let tokens = total_context_tokens(&h);
    // a 100% trigger equal to the size compresses, a 100% trigger above it does not
    let mut same = h.clone();
    assert!(!grok_cli::context::compress_history(&mut h, tokens + 10, 100, 30));
    assert!(grok_cli::context::compress_history(&mut same, tokens, 100, 30));
}
