use grok_cli::stream::{LineBuffer, StreamDecoder, StreamEvent};

fn frame(json: &str) -> String {
    format!("data: {}\n\n", json)
}

fn sample_stream() -> String {
    let mut s = String::new();
    s.push_str(&frame(r#"{"choices":[{"delta":{"reasoning_content":"thinking"}}]}"#));
    s.push_str(&frame(r#"{"choices":[{"delta":{"content":"Hel"}}]}"#));
    s.push_str(&frame(r#"{"choices":[{"delta":{"content":"lo"}}]}"#));
    s.push_str(&frame(r#"{"choices":[{"delta":{"tool_calls":[{"index":0,"id":"call_1","function":{"name":"Re","arguments":"{\"file"}}]}}]}"#));
    s.push_str(&frame(r#"{"choices":[{"delta":{"tool_calls":[{"index":0,"function":{"name":"ad","arguments":"_path\":\"a\"}"}}]}}]}"#));
    s.push_str(&frame(r#"{"choices":[{"delta":{"tool_calls":[{"index":1,"id":"call_2","function":{"name":"List","arguments":"{}"}}]}}]}"#));
    s.push_str("this line is not a frame\n");
    s.push_str("data: {not json\n");
    s.push_str(&frame(r#"{"choices":[],"usage":{"prompt_tokens":12,"completion_tokens":5}}"#));
    s.push_str("data: [DONE]\n");
    s
}

fn decode_in_chunks(text: &str, size: usize) -> (StreamDecoder, Vec<StreamEvent>) {
    let mut d = StreamDecoder::new();
    let mut events = Vec::new();
    let chars: Vec<char> = text.chars().collect();
    for piece in chars.chunks(size) {
        let chunk: String = piece.iter().collect();
        events.extend(d.push_chunk(&chunk));
    }
    (d, events)
}

#[test]
fn fragments_reassemble_whatever_the_chunk_size() {
    let text = sample_stream();
    let (whole, _) = decode_in_chunks(&text, text.chars().count());
    let reference = whole.finish();
    assert_eq!(reference.content.as_deref(), Some("Hello"));
    let calls = reference.tool_calls.clone().unwrap();
    assert_eq!(calls.len(), 2);
    assert_eq!(calls[0].id, "call_1");
    assert_eq!(calls[0].function.name, "Read");
    assert_eq!(calls[0].function.arguments, "{\"file_path\":\"a\"}");
    assert_eq!(calls[1].function.name, "List");
    for size in [1usize, 2, 3, 7, 16, 50] {
        let (d, _) = decode_in_chunks(&text, size);
        let m = d.finish();
        assert_eq!(format!("{:?}", m), format!("{:?}", reference), "chunk size {}", size);
    }
}

#[test]
fn decoder_reports_reasoning_and_usage() {
    let (d, events) = decode_in_chunks(&sample_stream(), 5);
    assert!(d.finished);
    assert!(events.iter().any(|e| matches!(e, StreamEvent::Reasoning(t) if t == "thinking")));
    assert!(events.iter().any(|e| matches!(e, StreamEvent::Usage { prompt_tokens: 12, completion_tokens: 5 })));
}

#[test]
fn input_after_the_terminator_is_ignored() {
    let mut d = StreamDecoder::new();
    d.push_chunk("data: [DONE]\n");
    let ev = d.push_chunk(&frame(r#"{"choices":[{"delta":{"content":"late"}}]}"#));
    assert!(ev.is_empty());
    assert!(d.finish().content.is_none());
}

#[test]
fn empty_stream_gives_an_empty_reply() {
    let mut d = StreamDecoder::new();
    d.push_chunk("data: [DONE]\n");
    let m = d.finish();
    assert!(m.content.is_none() && m.tool_calls.is_none());
    assert_eq!(m.role, "assistant");
}

#[test]
fn line_buffer_waits_for_the_line_end() {
    let mut b = LineBuffer::new();
    assert!(b.push("data: {\"a\"").is_empty());
    let lines = b.push(":1}\nnext");
    assert_eq!(lines.len(), 1);
    assert_eq!(lines[0].iter().collect::<String>(), "data: {\"a\":1}");
    assert_eq!(b.pending.iter().collect::<String>(), "next");
}

#[test]
fn fragment_with_a_gap_grows_the_call_list() {
    let mut d = StreamDecoder::new();
    d.push_chunk(&frame(r#"{"choices":[{"delta":{"tool_calls":[{"index":2,"id":"z","function":{"name":"Bash","arguments":"{}"}}]}}]}"#));
    assert_eq!(d.tool_calls.len(), 3);
    assert_eq!(d.tool_calls[0].function.name, "");
    assert_eq!(d.tool_calls[0].call_type, "function");
    assert_eq!(d.tool_calls[2].function.name, "Bash");
}

#[test]
fn malformed_frame_is_skipped_and_later_frames_decode() {
    let mut d = StreamDecoder::new();
    let ev = d.push_chunk("data: {not json\ndata: {\"choices\":[{\"delta\":{\"content\":\"ok\"}}]}\n");
    assert_eq!(ev.len(), 1);
    assert!(matches!(&ev[0], StreamEvent::Content(t) if t == "ok"));
}

#[test]
fn reasoning_falls_back_to_thinking_and_message() {
    let ev = grok_cli::stream::frame_events(r#"{"choices":[{"message":{"thinking":"hm","content":"x"}}]}"#);
    assert_eq!(ev.len(), 2);
    assert!(matches!(&ev[0], StreamEvent::Reasoning(t) if t == "hm"));
    assert!(grok_cli::stream::frame_events("[1,2]").is_empty());
}
