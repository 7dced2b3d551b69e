use codaze::classifier::FailureClass;
use codaze::failover::AccountSettlement;
use codaze::models::ResponseShape;
use codaze::responses::sse::{
    classify_sse_line_start, find_sse_event_end, parse_event_bytes, SseLineStartMatch,
};
use codaze::responses::stream::ResponsesSseState;
use std::collections::VecDeque;

#[test]
fn classify_sse_line_start_matches_full_prefixes_at_response_start() {
    assert_eq!(
        classify_sse_line_start(b"event: response.completed"),
        SseLineStartMatch::Full
    );
    assert_eq!(
        classify_sse_line_start(b"data: {\"type\":\"response.failed\"}"),
        SseLineStartMatch::Full
    );
    assert_eq!(
        classify_sse_line_start(b": keep-alive"),
        SseLineStartMatch::Full
    );
}

#[test]
fn classify_sse_line_start_matches_partial_prefixes() {
    assert_eq!(classify_sse_line_start(b"eve"), SseLineStartMatch::Partial);
    assert_eq!(classify_sse_line_start(b"da"), SseLineStartMatch::Partial);
    assert_eq!(classify_sse_line_start(b"ret"), SseLineStartMatch::Partial);
}

#[test]
fn classify_sse_line_start_rejects_non_prefixes() {
    assert_eq!(classify_sse_line_start(b"hello"), SseLineStartMatch::Unmatched);
    assert_eq!(classify_sse_line_start(b" event:"), SseLineStartMatch::Unmatched);
}

#[test]
fn observe_bytes_detects_sse_at_response_start() {
    let mut state = ResponsesSseState::default();
    let mut output = VecDeque::new();

    state.observe_bytes(
        b"event: response.completed\ndata: {\"type\":\"response.completed\",\"sequence_number\":1,\"response\":{\"id\":\"resp_done\"}}\n\n",
        ResponseShape::Codex,
        &mut output,
    );

    assert_eq!(output.len(), 1);
    let chunk = output.pop_front().expect("chunk");
    let text = String::from_utf8(chunk.to_vec()).expect("utf8");
    assert!(text.contains("event: response.completed"));
    assert!(matches!(
        state.terminal_action(),
        Some(AccountSettlement::Success)
    ));
}

#[test]
fn observe_bytes_detects_sse_after_newline_and_preserves_prior_passthrough() {
    let mut state = ResponsesSseState::default();
    let mut output = VecDeque::new();

    state.observe_bytes(
        b"hello\nevent: response.completed\ndata: {\"type\":\"response.completed\",\"sequence_number\":1,\"response\":{\"id\":\"resp_done\"}}\n\n",
        ResponseShape::Codex,
        &mut output,
    );

    assert_eq!(output.len(), 2);
    assert_eq!(
        output.pop_front().expect("passthrough"),
        b"hello\n".to_vec()
    );
    let chunk = output.pop_front().expect("event");
    let text = String::from_utf8(chunk.to_vec()).expect("utf8");
    assert!(text.contains("event: response.completed"));
    assert!(matches!(
        state.terminal_action(),
        Some(AccountSettlement::Success)
    ));
}

#[test]
fn observe_bytes_does_not_match_embedded_event_text_mid_line() {
    let mut state = ResponsesSseState::default();
    let mut output = VecDeque::new();

    state.observe_bytes(
        b"hello event: response.completed",
        ResponseShape::Codex,
        &mut output,
    );

    assert_eq!(output.len(), 1);
    assert_eq!(
        output.pop_front().expect("passthrough"),
        b"hello event: response.completed".to_vec()
    );
    assert!(state.terminal_action().is_none());
}

#[test]
fn observe_bytes_detects_sse_with_crlf_event_boundaries() {
    let mut state = ResponsesSseState::default();
    let mut output = VecDeque::new();

    state.observe_bytes(
        b"event: response.completed\r\ndata: {\"type\":\"response.completed\",\"sequence_number\":1,\"response\":{\"id\":\"resp_done\"}}\r\n\r\n",
        ResponseShape::Codex,
        &mut output,
    );

    assert_eq!(output.len(), 1);
    let chunk = output.pop_front().expect("chunk");
    let text = String::from_utf8(chunk.to_vec()).expect("utf8");
    assert!(text.contains("event: response.completed"));
    assert!(text.contains("\"type\":\"response.completed\""));
    assert!(matches!(
        state.terminal_action(),
        Some(AccountSettlement::Success)
    ));
}

#[test]
fn observe_bytes_joins_multiple_data_lines_in_one_event() {
    let mut state = ResponsesSseState::default();
    let mut output = VecDeque::new();

    state.observe_bytes(
        b"event: response.incomplete\ndata: {\"type\":\"response.incomplete\",\ndata: \"response\":{\"incomplete_details\":{\"reason\":\"max_output_tokens\"}}}\n\n",
        ResponseShape::Codex,
        &mut output,
    );

    assert_eq!(output.len(), 1);
    let chunk = output.pop_front().expect("chunk");
    let text = String::from_utf8(chunk.to_vec()).expect("utf8");
    assert!(text.contains("event: response.incomplete"));
    assert!(matches!(
        state.terminal_action(),
        Some(AccountSettlement::Failure {
            failure: FailureClass::RequestRejected,
            retry_after: None,
            ref details,
        }) if details == "Incomplete response returned, reason: max_output_tokens"
    ));
}

#[test]
fn observe_bytes_joins_multiple_data_lines_with_crlf_in_one_event() {
    let mut state = ResponsesSseState::default();
    let mut output = VecDeque::new();

    state.observe_bytes(
        b"data: {\"type\":\"response.failed\",\r\ndata: \"sequence_number\":1,\"response\":{\"id\":\"resp_rate_limit\",\"error\":{\"code\":\"rate_limit_exceeded\",\"message\":\"Rate limit reached\"}}}\r\n\r\n",
        ResponseShape::Codex,
        &mut output,
    );

    assert_eq!(output.len(), 1);
    let chunk = output.pop_front().expect("chunk");
    let text = String::from_utf8(chunk.to_vec()).expect("utf8");
    assert!(text.contains("\"type\":\"response.failed\""));
    assert!(matches!(
        state.terminal_action(),
        Some(AccountSettlement::Failure {
            failure: FailureClass::RateLimited,
            ..
        })
    ));
}

#[test]
fn observe_bytes_preserves_id_retry_and_comment_lines_inside_event() {
    let mut state = ResponsesSseState::default();
    let mut output = VecDeque::new();

    state.observe_bytes(
        b": keep-alive\nevent: response.completed\nid: evt_123\nretry: 5000\ndata: {\"type\":\"response.completed\",\"sequence_number\":1,\"response\":{\"id\":\"resp_done\"}}\n\n",
        ResponseShape::Codex,
        &mut output,
    );

    assert_eq!(output.len(), 1);
    let chunk = output.pop_front().expect("chunk");
    let text = String::from_utf8(chunk.to_vec()).expect("utf8");
    assert!(text.contains(": keep-alive"));
    assert!(text.contains("id: evt_123"));
    assert!(text.contains("retry: 5000"));
    assert!(text.contains("event: response.completed"));
    assert!(matches!(
        state.terminal_action(),
        Some(AccountSettlement::Success)
    ));
}

#[test]
fn observe_bytes_preserves_passthrough_prefix_before_sse_in_same_chunk() {
    let mut state = ResponsesSseState::default();
    let mut output = VecDeque::new();

    state.observe_bytes(
        b"hello\ndata: {\"type\":\"response.failed\",\"sequence_number\":1,\"response\":{\"id\":\"resp_rate_limit\",\"error\":{\"code\":\"rate_limit_exceeded\",\"message\":\"Rate limit reached\"}}}\n\n",
        ResponseShape::Codex,
        &mut output,
    );

    assert_eq!(output.len(), 2);
    assert_eq!(
        output.pop_front().expect("passthrough"),
        b"hello\n".to_vec()
    );
    let chunk = output.pop_front().expect("event");
    let text = String::from_utf8(chunk.to_vec()).expect("utf8");
    assert!(text.contains("\"type\":\"response.failed\""));
    assert!(matches!(
        state.terminal_action(),
        Some(AccountSettlement::Failure {
            failure: FailureClass::RateLimited,
            ..
        })
    ));
}

#[test]
fn observe_bytes_handles_comment_chunk_followed_by_event_chunk() {
    let mut state = ResponsesSseState::default();
    let mut output = VecDeque::new();

    state.observe_bytes(b": keep-alive\n", ResponseShape::Codex, &mut output);

    assert_eq!(output.len(), 0);
    assert!(state.terminal_action().is_none());

    state.observe_bytes(
        b"event: response.completed\ndata: {\"type\":\"response.completed\",\"sequence_number\":1,\"response\":{\"id\":\"resp_done\"}}\n\n",
        ResponseShape::Codex,
        &mut output,
    );

    assert_eq!(output.len(), 1);
    let chunk = output.pop_front().expect("chunk");
    let text = String::from_utf8(chunk.to_vec()).expect("utf8");
    assert!(text.contains(": keep-alive"));
    assert!(text.contains("event: response.completed"));
    assert!(matches!(
        state.terminal_action(),
        Some(AccountSettlement::Success)
    ));
}

#[test]
fn events_end_at_an_empty_line() {
    assert_eq!(find_sse_event_end(b"data: 1\n\nrest"), Some(9));
    assert_eq!(find_sse_event_end(b"data: 1\r\n\r\nrest"), Some(11));
    assert_eq!(find_sse_event_end(b"data: 1\n"), None);
    assert_eq!(find_sse_event_end(b""), None);
}

#[test]
fn event_fields_are_read_line_by_line() {
    let event = parse_event_bytes(b"event: a\r\ndata: one\ndata:two\nid: 3\n: note\n\n");
    assert_eq!(event.name.as_deref(), Some("a"));
    assert_eq!(event.data.as_deref(), Some("one\ntwo"));
}

#[test]
fn bytes_that_are_no_text_pass_in_an_event() {
    let mut state = ResponsesSseState::default();
    let mut output = VecDeque::new();
    let bytes = b"data: \xff\xfe\n\n";
    state.observe_bytes(bytes, ResponseShape::OpenAi, &mut output);
    assert_eq!(output.pop_front().expect("chunk"), bytes.to_vec());
    assert!(state.terminal_action().is_none());
}
