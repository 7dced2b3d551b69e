#![allow(dead_code)]
use codaze::accounts::{
    AccountStore, AccountView, BlockedReason, BlockedSource, RefreshedAccount, RoutingState,
};
use codaze::classifier::TransportError;
use codaze::config::RoutingPolicy;
use codaze::error_semantics::{RetryAfter, RetryUnit};
use codaze::failover::{apply_account_settlement, AccountSettlement};
use codaze::models::ResponseShape;
use codaze::responses::failure::extract_retry_after;
use codaze::responses::managed::{ManagedResponseStream, StreamStep};
use codaze::responses::stream::ResponsesSseState;
use codaze::time::{utc_now, Delay, Timestamp};
use http::{HeaderMap, HeaderValue};
use std::collections::VecDeque;
use std::time::Duration;

fn wait(retry_after: &Option<RetryAfter>) -> Option<Duration> {
    match retry_after {
        Some(RetryAfter::Exact(delay)) => Some(Duration::from_nanos(delay.nanos as u64)),
        Some(RetryAfter::Hint(hint)) => {
            let factor = match hint.unit {
                RetryUnit::Milliseconds => 0.001,
                RetryUnit::Seconds => 1.0,
                RetryUnit::Minutes => 60.0,
                RetryUnit::Hours => 3600.0,
            };
            let amount = hint.amount.parse::<f64>().ok()?;
            Duration::try_from_secs_f64(amount * factor).ok()
        }
        None => None,
    }
}

fn delay_of(retry_after: &Option<RetryAfter>) -> Option<Delay> {
    wait(retry_after).map(|duration| Delay { nanos: duration.as_nanos() })
}

fn error_text(error: &TransportError) -> String {
    match error {
        TransportError::Http { status, .. } => format!("http {status}"),
        TransportError::RetryLimit => "retry limit reached".to_string(),
        TransportError::Timeout => "timeout".to_string(),
        TransportError::Network(detail) => format!("network error: {detail}"),
        TransportError::Build(detail) => format!("request build error: {detail}"),
    }
}

fn seeded_store() -> (AccountStore, String) {
    let mut store = AccountStore::new("/accounts".to_string());
    let plan = store.prepare_import_account("rt_123".to_string(), None, None).expect("plan");
    let id = store.apply_import_account_plan(plan).expect("import succeeds").account.id;
    store
        .finish_refresh_success_without_persist(
            &id,
            RefreshedAccount {
                access_token: "at_123".to_string(),
                refresh_token: None,
                account_id: Some("acct_123".to_string()),
                plan_type: Some("plus".to_string()),
                email: Some("user@example.com".to_string()),
                access_token_expires_at: Some(Timestamp {
                    nanos: utc_now().nanos + 1800 * 1_000_000_000,
                }),
            },
        )
        .expect("refresh success seeded");
    let selection = store
        .select_account(RoutingPolicy::LeastInFlight, 8, &Vec::new())
        .expect("selection succeeds");
    assert!(!selection.needs_refresh);
    (store, selection.account_id)
}

/// A stream that is fed with what the upstream sends, and the account that it is served with.
struct Driven {
    store: AccountStore,
    account_id: String,
    items: VecDeque<Result<Vec<u8>, TransportError>>,
    stays_open: bool,
    stream: ManagedResponseStream,
}

impl Driven {
    fn new(
        store: AccountStore,
        account_id: String,
        items: Vec<Result<Vec<u8>, TransportError>>,
        stays_open: bool,
        shape: ResponseShape,
    ) -> Driven {
        Driven {
            store,
            account_id,
            items: items.into(),
            stays_open,
            stream: ManagedResponseStream::new(shape),
        }
    }

    fn settle(&mut self, settlement: Option<AccountSettlement>) {
        if let Some(settlement) = settlement {
            let hinted = match &settlement {
                AccountSettlement::Failure { retry_after, .. } => delay_of(retry_after),
                _ => None,
            };
            apply_account_settlement(&mut self.store, &self.account_id, settlement, hinted);
        }
    }

    fn next(&mut self) -> Option<Vec<u8>> {
        let mut step = self.stream.poll_pending();
        loop {
            match step {
                StreamStep::Chunk(bytes) => return Some(bytes),
                StreamStep::End => return None,
                StreamStep::Wait => {}
            }
            let reaction = match self.items.pop_front() {
                Some(Ok(bytes)) => self.stream.on_bytes(&bytes),
                Some(Err(error)) => {
                    let hinted = delay_of(&extract_retry_after(&error));
                    self.stream.on_error(&error, &error_text(&error), hinted)
                }
                None => {
                    assert!(!self.stays_open, "the stream waits for ever");
                    self.stream.on_end()
                }
            };
            self.settle(reaction.settlement);
            step = reaction.step;
        }
    }

    fn dropped(&mut self) {
        let settlement = self.stream.on_drop();
        self.settle(settlement);
    }

    fn view(&self) -> AccountView {
        self.store.view(&self.account_id).expect("view exists")
    }
}

#[test]
fn managed_response_stream_marks_failure_on_clean_eof_without_completed() {
    let (store, account_id) = seeded_store();
    let items = vec![Ok(b"ok".to_vec())];
    let mut stream = Driven::new(store, account_id, items, false, ResponseShape::Codex);

    let first = stream.next().expect("first chunk");
    assert_eq!(first, b"ok".to_vec());
    let terminal = stream.next().expect("terminal chunk");
    let terminal_text = String::from_utf8(terminal.to_vec()).expect("utf8");
    assert!(terminal_text.contains("event: response.failed"));
    assert!(terminal_text.contains("stream closed before response.completed"));
    assert!(stream.next().is_none());

    let view = stream.view();
    assert!(view.last_success_at.is_none());
    assert_eq!(view.in_flight_requests, 0);
    assert!(view.last_error.is_some());
}

#[test]
fn managed_response_stream_marks_success_after_completed_event() {
    let (store, account_id) = seeded_store();
    let completed = b"event: response.completed\ndata: {\"type\":\"response.completed\",\"sequence_number\":1,\"response\":{\"id\":\"resp_done\",\"object\":\"response\",\"created_at\":1,\"status\":\"completed\",\"background\":false}}\n\n".to_vec();
    let items = vec![Ok(completed)];
    let mut stream = Driven::new(store, account_id, items, false, ResponseShape::Codex);

    let chunk = stream.next().expect("first chunk");
    assert!(
        String::from_utf8(chunk.to_vec())
            .expect("utf8")
            .contains("response.completed")
    );
    assert!(stream.next().is_none());

    let view = stream.view();
    assert!(view.last_success_at.is_some());
    assert_eq!(view.in_flight_requests, 0);
    assert!(view.last_error.is_none());
}

#[test]
fn managed_response_stream_marks_success_after_completed_event_without_trailing_separator() {
    let (store, account_id) = seeded_store();
    let completed = b"event: response.completed\ndata: {\"type\":\"response.completed\",\"sequence_number\":1,\"response\":{\"id\":\"resp_done\",\"object\":\"response\",\"created_at\":1,\"status\":\"completed\",\"background\":false}}\n".to_vec();
    let items = vec![Ok(completed)];
    let mut stream = Driven::new(store, account_id, items, false, ResponseShape::Codex);

    let chunk = stream.next().expect("first chunk");
    let text = String::from_utf8(chunk.to_vec()).expect("utf8");
    assert!(text.contains("response.completed"));
    assert!(!text.contains("stream closed before response.completed"));
    assert!(stream.next().is_none());

    let view = stream.view();
    assert!(view.last_success_at.is_some());
    assert_eq!(view.in_flight_requests, 0);
    assert!(view.last_error.is_none());
}

#[test]
fn managed_response_stream_eof_chunk_drop_still_marks_failure() {
    let (store, account_id) = seeded_store();
    let created = b"event: response.created\ndata: {\"type\":\"response.created\",\"sequence_number\":0,\"response\":{\"id\":\"resp_progress\",\"object\":\"response\",\"created_at\":1,\"status\":\"in_progress\",\"background\":false,\"error\":null}}\n".to_vec();
    let items = vec![Ok(created)];
    let mut stream = Driven::new(store, account_id, items, false, ResponseShape::Codex);

    let chunk = stream.next().expect("first chunk");
    let text = String::from_utf8(chunk.to_vec()).expect("utf8");
    assert!(text.contains("response.created"));
    stream.dropped();

    let view = stream.view();
    assert!(view.last_success_at.is_none());
    assert_eq!(view.in_flight_requests, 0);
    assert!(view.last_error.is_some());
}

#[test]
fn managed_response_stream_keeps_failed_event_without_trailing_separator() {
    let (store, account_id) = seeded_store();
    let failed = b"event: response.failed\ndata: {\"type\":\"response.failed\",\"sequence_number\":1,\"response\":{\"id\":\"resp_fail\",\"object\":\"response\",\"created_at\":1,\"status\":\"failed\",\"background\":false,\"error\":{\"code\":\"rate_limit_exceeded\",\"message\":\"Rate limit reached for gpt-5.4. Please try again in 8s.\"}}}\n".to_vec();
    let items = vec![Ok(failed)];
    let mut stream = Driven::new(store, account_id, items, false, ResponseShape::Codex);

    let chunk = stream.next().expect("first chunk");
    let text = String::from_utf8(chunk.to_vec()).expect("utf8");
    assert!(text.contains("response.failed"));
    assert!(!text.contains("stream closed before response.completed"));
    assert!(stream.next().is_none());

    let view = stream.view();
    assert!(view.last_success_at.is_none());
    assert_eq!(
        view.last_error.as_deref(),
        Some("Rate limit reached for gpt-5.4. Please try again in 8s.")
    );
    assert_eq!(view.in_flight_requests, 0);
}

#[test]
fn managed_response_stream_completed_then_transport_error_does_not_emit_extra_failure() {
    let (store, account_id) = seeded_store();
    let completed = b"event: response.completed\ndata: {\"type\":\"response.completed\",\"sequence_number\":1,\"response\":{\"id\":\"resp_done\",\"object\":\"response\",\"created_at\":1,\"status\":\"completed\",\"background\":false}}\n\n".to_vec();
    let items = vec![
        Ok(completed),
        Err(TransportError::Network("boom".to_string())),
    ];
    let mut stream = Driven::new(store, account_id, items, false, ResponseShape::Codex);

    let chunk = stream.next().expect("first chunk");
    assert!(
        String::from_utf8(chunk.to_vec())
            .expect("utf8")
            .contains("response.completed")
    );
    assert!(stream.next().is_none());

    let view = stream.view();
    assert!(view.last_success_at.is_some());
    assert!(view.last_error.is_none());
    assert_eq!(view.in_flight_requests, 0);
}

#[test]
fn managed_response_stream_marks_failure_after_incomplete_event_without_extra_synthetic() {
    let (store, account_id) = seeded_store();
    let incomplete = b"event: response.incomplete\ndata: {\"type\":\"response.incomplete\",\"sequence_number\":1,\"response\":{\"id\":\"resp_incomplete\",\"object\":\"response\",\"created_at\":1,\"status\":\"incomplete\",\"background\":false,\"incomplete_details\":{\"reason\":\"max_output_tokens\"}}}\n\n".to_vec();
    let items = vec![Ok(incomplete)];
    let mut stream = Driven::new(store, account_id, items, false, ResponseShape::Codex);

    let chunk = stream.next().expect("first chunk");
    assert!(
        String::from_utf8(chunk.to_vec())
            .expect("utf8")
            .contains("response.incomplete")
    );
    assert!(stream.next().is_none());

    let view = stream.view();
    assert!(view.last_success_at.is_none());
    assert_eq!(
        view.last_error.as_deref(),
        Some("Incomplete response returned, reason: max_output_tokens")
    );
    assert!(view.blocked_reason.is_none());
    assert_eq!(view.in_flight_requests, 0);
}

#[test]
fn managed_response_stream_incomplete_then_transport_error_does_not_emit_extra_failure() {
    let (store, account_id) = seeded_store();
    let incomplete = b"event: response.incomplete\ndata: {\"type\":\"response.incomplete\",\"sequence_number\":1,\"response\":{\"id\":\"resp_incomplete\",\"object\":\"response\",\"created_at\":1,\"status\":\"incomplete\",\"background\":false,\"incomplete_details\":{\"reason\":\"max_output_tokens\"}}}\n\n".to_vec();
    let items = vec![
        Ok(incomplete),
        Err(TransportError::Network("boom".to_string())),
    ];
    let mut stream = Driven::new(store, account_id, items, false, ResponseShape::Codex);

    let chunk = stream.next().expect("first chunk");
    assert!(
        String::from_utf8(chunk.to_vec())
            .expect("utf8")
            .contains("response.incomplete")
    );
    assert!(stream.next().is_none());

    let view = stream.view();
    assert_eq!(
        view.last_error.as_deref(),
        Some("Incomplete response returned, reason: max_output_tokens")
    );
    assert!(view.last_success_at.is_none());
    assert_eq!(view.in_flight_requests, 0);
}

#[test]
fn managed_response_stream_marks_failure_on_upstream_error() {
    let (store, account_id) = seeded_store();
    let items = vec![Err(TransportError::Network(
        "boom".to_string(),
    ))];
    let mut stream = Driven::new(store, account_id, items, false, ResponseShape::Codex);

    let result = stream.next().expect("first item");
    let chunk = result;
    let text = String::from_utf8(chunk.to_vec()).expect("utf8");
    assert!(text.contains("event: response.failed"));
    assert!(text.contains("\"code\":\"network_error\""));
    assert!(stream.next().is_none());

    let view = stream.view();
    assert_eq!(
        view.routing_state,
        RoutingState::TemporarilyUnavailable
    );
    assert_eq!(
        view.blocked_reason,
        Some(BlockedReason::TemporarilyUnavailable)
    );
    assert_eq!(view.in_flight_requests, 0);
}

#[test]
fn managed_response_stream_discards_partial_sse_fragment_before_transport_failure() {
    let (store, account_id) = seeded_store();
    let items = vec![
        Ok(b"data: partial".to_vec()),
        Err(TransportError::Network("boom".to_string())),
    ];
    let mut stream = Driven::new(store, account_id, items, false, ResponseShape::Codex);

    let terminal = stream.next().expect("terminal item");
    let text = String::from_utf8(terminal.to_vec()).expect("utf8");
    assert!(text.contains("event: response.failed"));
    assert!(text.contains("\"code\":\"network_error\""));
    assert!(!text.contains("data: partial"));
    assert!(stream.next().is_none());

    let view = stream.view();
    assert_eq!(view.in_flight_requests, 0);
    assert!(view.last_error.is_some());
}

#[test]
fn managed_response_stream_discards_split_sse_prefix_before_transport_failure() {
    let (store, account_id) = seeded_store();
    let items = vec![
        Ok(b"dat".to_vec()),
        Err(TransportError::Network("boom".to_string())),
    ];
    let mut stream = Driven::new(store, account_id, items, false, ResponseShape::Codex);

    let terminal = stream.next().expect("terminal item");
    let text = String::from_utf8(terminal.to_vec()).expect("utf8");
    assert!(text.starts_with("event: response.failed"));
    assert!(text.contains("\"code\":\"network_error\""));
    assert!(stream.next().is_none());

    let view = stream.view();
    assert_eq!(view.in_flight_requests, 0);
    assert!(view.last_error.is_some());
}

#[test]
fn managed_response_stream_discards_partial_sse_fragment_before_clean_eof() {
    let (store, account_id) = seeded_store();
    let items = vec![Ok(b"data: partial".to_vec())];
    let mut stream = Driven::new(store, account_id, items, false, ResponseShape::OpenAi);

    let terminal = stream.next().expect("terminal item");
    let text = String::from_utf8(terminal.to_vec()).expect("utf8");
    assert!(text.contains("event: error"));
    assert!(text.contains("stream closed before response.completed"));
    assert!(!text.contains("data: partial"));
    assert!(stream.next().is_none());

    let view = stream.view();
    assert_eq!(view.in_flight_requests, 0);
    assert!(view.last_error.is_some());
}

#[test]
fn managed_response_stream_discards_split_event_prefix_before_clean_eof() {
    let (store, account_id) = seeded_store();
    let items = vec![Ok(b"eve".to_vec())];
    let mut stream = Driven::new(store, account_id, items, false, ResponseShape::OpenAi);

    let terminal = stream.next().expect("terminal item");
    let text = String::from_utf8(terminal.to_vec()).expect("utf8");
    assert!(text.starts_with("event: error"));
    assert!(text.contains("stream closed before response.completed"));
    assert!(stream.next().is_none());

    let view = stream.view();
    assert_eq!(view.in_flight_requests, 0);
    assert!(view.last_error.is_some());
}

#[test]
fn managed_response_stream_reassembles_split_event_prefix_before_completed() {
    let (store, account_id) = seeded_store();
    let items = vec![
        Ok(b"eve".to_vec()),
        Ok(b"nt: response.completed\ndata: {\"type\":\"response.completed\",\"sequence_number\":1,\"response\":{\"id\":\"resp_done\",\"object\":\"response\",\"created_at\":1,\"status\":\"completed\",\"background\":false}}\n\n".to_vec()),
    ];
    let mut stream = Driven::new(store, account_id, items, false, ResponseShape::Codex);

    let chunk = stream.next().expect("first chunk");
    let text = String::from_utf8(chunk.to_vec()).expect("utf8");
    assert!(text.contains("event: response.completed"));
    assert!(!text.contains("event: response.failed"));
    assert!(stream.next().is_none());

    let view = stream.view();
    assert!(view.last_success_at.is_some());
    assert!(view.last_error.is_none());
    assert_eq!(view.in_flight_requests, 0);
}

#[test]
fn managed_response_stream_reassembles_split_data_prefix_before_failed() {
    let (store, account_id) = seeded_store();
    let items = vec![
        Ok(b"da".to_vec()),
        Ok(b"ta: {\"type\":\"response.failed\",\"sequence_number\":1,\"response\":{\"id\":\"resp_rate_limit\",\"object\":\"response\",\"created_at\":1,\"status\":\"failed\",\"background\":false,\"error\":{\"code\":\"rate_limit_exceeded\",\"message\":\"Rate limit reached for gpt-5.4. Please try again in 8s.\"}}}\n\n".to_vec()),
    ];
    let mut stream = Driven::new(store, account_id, items, false, ResponseShape::Codex);

    let chunk = stream.next().expect("first chunk");
    let text = String::from_utf8(chunk.to_vec()).expect("utf8");
    assert!(text.contains("\"type\":\"response.failed\""));
    assert!(!text.starts_with("da"));
    assert!(stream.next().is_none());

    let view = stream.view();
    assert_eq!(
        view.blocked_reason,
        Some(BlockedReason::RateLimited)
    );
    assert!(view.last_error.is_some());
    assert_eq!(view.in_flight_requests, 0);
}

#[test]
fn managed_response_stream_openai_shape_emits_error_event_on_upstream_error() {
    let (store, account_id) = seeded_store();
    let first = b"event: response.created\ndata: {\"type\":\"response.created\",\"sequence_number\":4,\"response\":{\"id\":\"resp_existing\",\"object\":\"response\",\"created_at\":1,\"status\":\"in_progress\",\"background\":false,\"error\":null}}\n\n".to_vec();
    let items = vec![
        Ok(first),
        Err(TransportError::Network("boom".to_string())),
    ];
    let mut stream = Driven::new(store, account_id, items, false, ResponseShape::OpenAi);

    let first = stream.next().expect("first item");
    assert!(
        String::from_utf8(first.to_vec())
            .expect("utf8")
            .contains("response.created")
    );
    let terminal = stream.next().expect("terminal item");
    let text = String::from_utf8(terminal.to_vec()).expect("utf8");
    assert!(text.contains("event: error"));
    assert!(text.contains("\"type\":\"error\""));
    assert!(text.contains("\"code\":\"network_error\""));
    assert!(text.contains("\"sequence_number\":5"));
    assert!(!text.contains("response.failed"));
    assert!(stream.next().is_none());

    let view = stream.view();
    assert_eq!(
        view.blocked_reason,
        Some(BlockedReason::TemporarilyUnavailable)
    );
    assert_eq!(view.in_flight_requests, 0);
}

#[test]
fn managed_response_stream_openai_shape_emits_error_event_on_clean_eof_without_completed() {
    let (store, account_id) = seeded_store();
    let items = vec![Ok(b"event: response.created\ndata: {\"type\":\"response.created\",\"sequence_number\":0,\"response\":{\"id\":\"resp_existing\",\"object\":\"response\",\"created_at\":1,\"status\":\"in_progress\",\"background\":false,\"error\":null}}\n\n".to_vec())];
    let mut stream = Driven::new(store, account_id, items, false, ResponseShape::OpenAi);

    let _ = stream.next().expect("first item");
    let terminal = stream.next().expect("terminal item");
    let text = String::from_utf8(terminal.to_vec()).expect("utf8");
    assert!(text.contains("event: error"));
    assert!(text.contains("\"message\":\"stream closed before response.completed\""));
    assert!(!text.contains("response.failed"));
    assert!(stream.next().is_none());

    let view = stream.view();
    assert!(view.last_success_at.is_none());
    assert_eq!(view.in_flight_requests, 0);
    assert!(view.last_error.is_some());
}

#[test]
fn managed_response_stream_openai_upstream_error_event_is_terminal_without_extra_synthetic() {
    let (store, account_id) = seeded_store();
    let errored = b"event: error\ndata: {\"type\":\"error\",\"code\":\"rate_limit_exceeded\",\"message\":\"Rate limit reached\",\"sequence_number\":7}\n\n".to_vec();
    let items = vec![Ok(errored)];
    let mut stream = Driven::new(store, account_id, items, false, ResponseShape::OpenAi);

    let chunk = stream.next().expect("first item");
    let text = String::from_utf8(chunk.to_vec()).expect("utf8");
    assert!(text.contains("event: error"));
    assert!(text.contains("\"sequence_number\":7"));
    assert!(stream.next().is_none());

    let view = stream.view();
    assert_eq!(
        view.blocked_reason,
        Some(BlockedReason::RateLimited)
    );
    assert!(view.last_error.is_some());
}

#[test]
fn managed_response_stream_rewrites_generic_forbidden_response_failed_to_gateway_unavailable() {
    let (store, account_id) = seeded_store();
    let failed = b"event: response.failed\ndata: {\"type\":\"response.failed\",\"sequence_number\":1,\"response\":{\"id\":\"resp_forbidden\",\"object\":\"response\",\"created_at\":1,\"status\":\"failed\",\"background\":false,\"error\":{\"code\":\"forbidden\",\"message\":\"forbidden\"}}}\n\n".to_vec();
    let items = vec![Ok(failed)];
    let mut stream = Driven::new(store, account_id, items, false, ResponseShape::Codex);

    let chunk = stream.next().expect("first item");
    let text = String::from_utf8(chunk.to_vec()).expect("utf8");
    assert!(text.contains("event: response.failed"));
    assert!(text.contains("\"code\":\"server_is_overloaded\""));
    assert!(text.contains("No account available right now. Try again later."));
    assert!(!text.contains("\"code\":\"forbidden\""));
    assert!(stream.next().is_none());

    let view = stream.view();
    assert_eq!(
        view.blocked_reason,
        Some(BlockedReason::TemporarilyUnavailable)
    );
    assert_eq!(view.last_error.as_deref(), Some("forbidden"));
}

#[test]
fn managed_response_stream_rewrites_invalid_api_key_error_to_gateway_unavailable() {
    let (store, account_id) = seeded_store();
    let errored = b"event: error\ndata: {\"type\":\"error\",\"code\":\"invalid_api_key\",\"message\":\"bad key\",\"sequence_number\":7}\n\n".to_vec();
    let items = vec![Ok(errored)];
    let mut stream = Driven::new(store, account_id, items, false, ResponseShape::OpenAi);

    let chunk = stream.next().expect("first item");
    let text = String::from_utf8(chunk.to_vec()).expect("utf8");
    assert!(text.contains("event: error"));
    assert!(text.contains("\"sequence_number\":7"));
    assert!(text.contains("\"code\":\"server_is_overloaded\""));
    assert!(text.contains("No account available right now. Try again later."));
    assert!(!text.contains("\"code\":\"invalid_api_key\""));
    assert!(stream.next().is_none());

    let view = stream.view();
    assert_eq!(view.last_error.as_deref(), Some("bad key"));
}

#[test]
fn managed_response_stream_rewrites_authentication_error_typed_event_to_gateway_unavailable() {
    let (store, account_id) = seeded_store();
    let errored = b"event: error\ndata: {\"type\":\"authentication_error\",\"code\":\"invalid_api_key\",\"message\":\"bad key\",\"sequence_number\":7}\n\n".to_vec();
    let items = vec![Ok(errored)];
    let mut stream = Driven::new(store, account_id, items, false, ResponseShape::OpenAi);

    let chunk = stream.next().expect("first item");
    let text = String::from_utf8(chunk.to_vec()).expect("utf8");
    assert!(text.contains("event: error"));
    assert!(text.contains("\"sequence_number\":7"));
    assert!(text.contains("\"code\":\"server_is_overloaded\""));
    assert!(text.contains("No account available right now. Try again later."));
    assert!(!text.contains("\"code\":\"invalid_api_key\""));
    assert!(stream.next().is_none());

    let view = stream.view();
    assert_eq!(view.last_error.as_deref(), Some("bad key"));
}

#[test]
fn managed_response_stream_rewrites_wrapped_authentication_error_event_to_gateway_unavailable() {
    let (store, account_id) = seeded_store();
    let errored = b"event: error\ndata: {\"type\":\"error\",\"status\":401,\"error\":{\"type\":\"authentication_error\",\"code\":\"invalid_api_key\",\"message\":\"bad key\"}}\n\n".to_vec();
    let items = vec![Ok(errored)];
    let mut stream = Driven::new(store, account_id, items, false, ResponseShape::OpenAi);

    let chunk = stream.next().expect("first item");
    let text = String::from_utf8(chunk.to_vec()).expect("utf8");
    assert!(text.contains("event: error"));
    assert!(text.contains("\"code\":\"server_is_overloaded\""));
    assert!(text.contains("No account available right now. Try again later."));
    assert!(!text.contains("\"code\":\"invalid_api_key\""));
    assert!(stream.next().is_none());

    let view = stream.view();
    assert_eq!(view.last_error.as_deref(), Some("bad key"));
}

#[test]
fn managed_response_stream_rewrites_permission_error_typed_response_failed_to_gateway_unavailable() {
    let (store, account_id) = seeded_store();
    let failed = b"event: response.failed\ndata: {\"type\":\"response.failed\",\"sequence_number\":1,\"response\":{\"id\":\"resp_forbidden_typed\",\"object\":\"response\",\"created_at\":1,\"status\":\"failed\",\"background\":false,\"error\":{\"type\":\"permission_error\",\"code\":\"forbidden\",\"message\":\"forbidden\"}}}\n\n".to_vec();
    let items = vec![Ok(failed)];
    let mut stream = Driven::new(store, account_id, items, false, ResponseShape::Codex);

    let chunk = stream.next().expect("first item");
    let text = String::from_utf8(chunk.to_vec()).expect("utf8");
    assert!(text.contains("event: response.failed"));
    assert!(text.contains("\"code\":\"server_is_overloaded\""));
    assert!(text.contains("No account available right now. Try again later."));
    assert!(!text.contains("\"code\":\"forbidden\""));
    assert!(stream.next().is_none());

    let view = stream.view();
    assert_eq!(
        view.blocked_reason,
        Some(BlockedReason::TemporarilyUnavailable)
    );
    assert_eq!(view.last_error.as_deref(), Some("forbidden"));
}

#[test]
fn managed_response_stream_wrapped_gateway_unavailable_error_advances_sequence_number() {
    let (store, account_id) = seeded_store();
    let first = b"event: response.created\ndata: {\"type\":\"response.created\",\"sequence_number\":7,\"response\":{\"id\":\"resp_existing\",\"object\":\"response\",\"created_at\":1,\"status\":\"in_progress\",\"background\":false,\"error\":null}}\n\n".to_vec();
    let wrapped = b"event: error\ndata: {\"type\":\"error\",\"status\":401,\"error\":{\"type\":\"authentication_error\",\"code\":\"invalid_api_key\",\"message\":\"bad key\"}}\n\n".to_vec();
    let items = vec![Ok(first), Ok(wrapped)];
    let mut stream = Driven::new(store, account_id, items, false, ResponseShape::OpenAi);

    let _ = stream.next().expect("first item");
    let chunk = stream.next().expect("second item");
    let text = String::from_utf8(chunk.to_vec()).expect("utf8");
    assert!(text.contains("event: error"));
    assert!(text.contains("\"code\":\"server_is_overloaded\""));
    assert!(text.contains("\"sequence_number\":8"));
    assert!(stream.next().is_none());
}

#[test]
fn managed_response_stream_reuses_response_id_and_advances_sequence_number() {
    let (store, account_id) = seeded_store();
    let first = b"event: response.created\ndata: {\"type\":\"response.created\",\"sequence_number\":7,\"response\":{\"id\":\"resp_existing\",\"object\":\"response\",\"created_at\":1,\"status\":\"in_progress\",\"background\":false,\"error\":null}}\n\n".to_vec();
    let error = TransportError::Http {
        status: 429,
        headers: Some({
            let mut headers = HeaderMap::new();
            headers.insert("retry-after", HeaderValue::from_static("11"));
            headers
        }),
        body: Some(
            "{\"error\":{\"message\":\"The usage limit has been reached\",\"type\":\"usage_limit_reached\",\"resets_in_seconds\":77}}"
                .to_string(),
        ),
    };
    let items = vec![Ok(first), Err(error)];
    let mut stream = Driven::new(store, account_id, items, false, ResponseShape::Codex);

    let _ = stream.next().expect("upstream event");
    let chunk = stream.next().expect("synthetic event");
    let payload = String::from_utf8(chunk.to_vec()).expect("utf8");

    assert!(payload.contains("\"sequence_number\":8"));
    assert!(payload.contains("\"id\":\"resp_existing\""));
    assert!(payload.contains("\"code\":\"server_is_overloaded\""));
    assert!(payload.contains("No account available right now. Try again later."));
    assert!(!payload.contains("try again in"));
    assert!(!payload.contains("\"resets_at\""));
    assert!(!payload.contains("\"resets_in_seconds\""));
}

#[test]
fn managed_response_stream_openai_shape_transport_gateway_unavailable_strips_retry_metadata() {
    let (store, account_id) = seeded_store();
    let first = b"event: response.created\ndata: {\"type\":\"response.created\",\"sequence_number\":4,\"response\":{\"id\":\"resp_existing\",\"object\":\"response\",\"created_at\":1,\"status\":\"in_progress\",\"background\":false,\"error\":null}}\n\n".to_vec();
    let error = TransportError::Http {
        status: 429,
        headers: Some({
            let mut headers = HeaderMap::new();
            headers.insert("retry-after", HeaderValue::from_static("11"));
            headers
        }),
        body: Some(
            r#"{"error":{"message":"The usage limit has been reached","type":"usage_limit_reached","resets_at":1775973729,"resets_in_seconds":77}}"#
                .to_string(),
        ),
    };
    let items = vec![Ok(first), Err(error)];
    let mut stream = Driven::new(store, account_id, items, false, ResponseShape::OpenAi);

    let _ = stream.next().expect("first item");
    let terminal = stream.next().expect("terminal item");
    let text = String::from_utf8(terminal.to_vec()).expect("utf8");

    assert!(text.contains("event: error"));
    assert!(text.contains("\"code\":\"server_is_overloaded\""));
    assert!(text.contains("No account available right now. Try again later."));
    assert!(!text.contains("try again in"));
    assert!(!text.contains("\"resets_at\""));
    assert!(!text.contains("\"resets_in_seconds\""));
}

#[test]
fn managed_response_stream_release_on_drop_does_not_mark_success() {
    let (store, account_id) = seeded_store();
    let items = Vec::new();
    let mut stream = Driven::new(store, account_id, items, true, ResponseShape::Codex);
    stream.dropped();

    let view = stream.view();
    assert!(view.last_success_at.is_none());
    assert!(view.last_error.is_none());
    assert_eq!(view.in_flight_requests, 0);
}

#[test]
fn managed_response_stream_rate_limit_failure_settles_before_eof() {
    let (store, account_id) = seeded_store();
    let failed = b"event: response.failed\ndata: {\"type\":\"response.failed\",\"sequence_number\":1,\"response\":{\"id\":\"resp_rate_limit\",\"object\":\"response\",\"created_at\":1,\"status\":\"failed\",\"background\":false,\"error\":{\"code\":\"rate_limit_exceeded\",\"message\":\"Rate limit reached for gpt-5.4. Please try again in 11.5s.\"}}}\n\n".to_vec();
    let items = vec![Ok(failed)];
    let mut stream = Driven::new(store, account_id, items, false, ResponseShape::Codex);

    let chunk = stream.next().expect("first chunk");
    assert!(
        String::from_utf8(chunk.to_vec())
            .expect("utf8")
            .contains("response.failed")
    );

    let view = stream.view();
    assert_eq!(
        view.blocked_reason,
        Some(BlockedReason::RateLimited)
    );
    assert_eq!(view.in_flight_requests, 0);
    assert!(view.last_error.is_some());
}

#[test]
fn managed_response_stream_failed_then_transport_error_does_not_emit_extra_failure() {
    let (store, account_id) = seeded_store();
    let failed = b"event: response.failed\ndata: {\"type\":\"response.failed\",\"sequence_number\":1,\"response\":{\"id\":\"resp_rate_limit\",\"object\":\"response\",\"created_at\":1,\"status\":\"failed\",\"background\":false,\"error\":{\"code\":\"rate_limit_exceeded\",\"message\":\"Rate limit reached for gpt-5.4. Please try again in 11.5s.\"}}}\n\n".to_vec();
    let items = vec![
        Ok(failed),
        Err(TransportError::Network("boom".to_string())),
    ];
    let mut stream = Driven::new(store, account_id, items, false, ResponseShape::Codex);

    let chunk = stream.next().expect("first chunk");
    assert!(
        String::from_utf8(chunk.to_vec())
            .expect("utf8")
            .contains("response.failed")
    );
    assert!(stream.next().is_none());

    let view = stream.view();
    assert_eq!(
        view.blocked_reason,
        Some(BlockedReason::RateLimited)
    );
    assert_eq!(view.in_flight_requests, 0);
    assert!(view.last_error.is_some());
}

#[test]
fn managed_response_stream_request_rejected_transport_records_last_error_without_blocking() {
    let (store, account_id) = seeded_store();
    let items = vec![Err(TransportError::Http {
        status: 400,
        headers: None,
        body: Some(r#"{"error":{"code":"invalid_prompt","message":"bad prompt"}}"#.to_string()),
    })];
    let mut stream = Driven::new(store, account_id, items, false, ResponseShape::Codex);

    let result = stream.next().expect("first item");
    let chunk = result;
    let text = String::from_utf8(chunk.to_vec()).expect("utf8");
    assert!(text.contains("event: response.failed"));
    assert!(text.contains("\"code\":\"invalid_prompt\""));

    let view = stream.view();
    assert_eq!(
        view.last_error.as_deref(),
        Some(
            "RequestRejected: status=400 Bad Request body={\"error\":{\"code\":\"invalid_prompt\",\"message\":\"bad prompt\"}}"
        )
    );
    assert!(view.blocked_reason.is_none());
    assert!(view.blocked_until.is_none());
    assert_eq!(view.in_flight_requests, 0);
}

#[test]
fn managed_response_stream_http_usage_limit_sets_block_from_body_resets() {
    let (store, account_id) = seeded_store();
    let items = vec![Err(TransportError::Http {
        status: 502,
        headers: None,
        body: Some(
            r#"{"error":{"type":"usage_limit_reached","message":"The usage limit has been reached","resets_in_seconds":77}}"#
                .to_string(),
        ),
    })];
    let mut stream = Driven::new(store, account_id, items, false, ResponseShape::Codex);

    let _ = stream.next().expect("synthetic event");

    let view = stream.view();
    assert_eq!(
        view.blocked_reason,
        Some(BlockedReason::QuotaExhausted)
    );
    assert_eq!(
        view.blocked_source,
        Some(BlockedSource::UpstreamRetryAfter)
    );
    assert!(view.blocked_until.is_some());
    assert!(
        view.blocked_until.expect("blocked until")
            .nanos
            > utc_now().nanos + 70 * 1_000_000_000
    );
}

#[test]
fn managed_response_stream_http_websocket_connection_limit_is_not_quota() {
    let (store, account_id) = seeded_store();
    let items = vec![Err(TransportError::Http {
        status: 400,
        headers: None,
        body: Some(
            r#"{"error":{"type":"invalid_request_error","code":"websocket_connection_limit_reached","message":"Responses websocket connection limit reached (60 minutes). Create a new websocket connection to continue."}}"#
                .to_string(),
        ),
    })];
    let mut stream = Driven::new(store, account_id, items, false, ResponseShape::Codex);

    let _ = stream.next().expect("synthetic event");

    let view = stream.view();
    assert_eq!(
        view.blocked_reason,
        Some(BlockedReason::TemporarilyUnavailable)
    );
    assert_ne!(
        view.blocked_reason,
        Some(BlockedReason::QuotaExhausted)
    );
}

#[test]
fn managed_response_stream_quota_failure_settles_before_eof() {
    let (store, account_id) = seeded_store();
    let failed = b"event: response.failed\ndata: {\"type\":\"response.failed\",\"sequence_number\":1,\"response\":{\"id\":\"resp_quota\",\"object\":\"response\",\"created_at\":1,\"status\":\"failed\",\"background\":false,\"error\":{\"code\":\"insufficient_quota\",\"message\":\"You exceeded your current quota, please check your plan and billing details.\"}}}\n\n".to_vec();
    let items = vec![Ok(failed)];
    let mut stream = Driven::new(store, account_id, items, false, ResponseShape::Codex);

    let _ = stream.next().expect("first chunk");

    let view = stream.view();
    assert_eq!(
        view.blocked_reason,
        Some(BlockedReason::QuotaExhausted)
    );
    assert_eq!(view.in_flight_requests, 0);
    assert!(view.last_error.is_some());
}

#[test]
fn managed_response_stream_completed_closes_without_waiting_for_eof() {
    let (store, account_id) = seeded_store();
    let completed = b"event: response.completed\ndata: {\"type\":\"response.completed\",\"sequence_number\":1,\"response\":{\"id\":\"resp_done\",\"object\":\"response\",\"created_at\":1,\"status\":\"completed\",\"background\":false}}\n\n".to_vec();
    let items = vec![Ok(completed)];
    let mut stream = Driven::new(store, account_id, items, true, ResponseShape::Codex);

    let _ = stream.next().expect("first chunk");
    assert!(
        stream.next().is_none()
    );

    let view = stream.view();
    assert!(view.last_success_at.is_some());
    assert!(view.last_error.is_none());
    assert_eq!(view.in_flight_requests, 0);
}

#[test]
fn managed_response_stream_same_chunk_locks_first_completed_terminal_event() {
    let (store, account_id) = seeded_store();
    let combined = b"event: response.completed\ndata: {\"type\":\"response.completed\",\"sequence_number\":1,\"response\":{\"id\":\"resp_done\",\"object\":\"response\",\"created_at\":1,\"status\":\"completed\",\"background\":false}}\n\nevent: response.failed\ndata: {\"type\":\"response.failed\",\"sequence_number\":2,\"response\":{\"id\":\"resp_done\",\"object\":\"response\",\"created_at\":1,\"status\":\"failed\",\"background\":false,\"error\":{\"code\":\"rate_limit_exceeded\",\"message\":\"should be ignored\"}}}\n\n".to_vec();
    let items = vec![Ok(combined)];
    let mut stream = Driven::new(store, account_id, items, false, ResponseShape::Codex);

    let first = stream.next().expect("first chunk");
    let text = String::from_utf8(first.to_vec()).expect("utf8");
    assert!(text.contains("response.completed"));
    assert!(!text.contains("response.failed"));
    assert!(stream.next().is_none());

    let view = stream.view();
    assert!(view.last_success_at.is_some());
    assert!(view.last_error.is_none());
    assert_eq!(view.in_flight_requests, 0);
}

#[test]
fn managed_response_stream_same_chunk_emits_multiple_nonterminal_events_in_order() {
    let (store, account_id) = seeded_store();
    let combined = b"event: response.created\ndata: {\"type\":\"response.created\",\"sequence_number\":1,\"response\":{\"id\":\"resp_progress\",\"object\":\"response\",\"created_at\":1,\"status\":\"in_progress\",\"background\":false,\"error\":null}}\n\nevent: response.output_text.delta\ndata: {\"type\":\"response.output_text.delta\",\"sequence_number\":2,\"delta\":\"OK\"}\n\n".to_vec();
    let completed = b"event: response.completed\ndata: {\"type\":\"response.completed\",\"sequence_number\":3,\"response\":{\"id\":\"resp_progress\",\"object\":\"response\",\"created_at\":1,\"status\":\"completed\",\"background\":false}}\n\n".to_vec();
    let items = vec![Ok(combined), Ok(completed)];
    let mut stream = Driven::new(store, account_id, items, false, ResponseShape::Codex);

    let first = stream.next().expect("first chunk");
    let first_text = String::from_utf8(first.to_vec()).expect("utf8");
    assert!(first_text.contains("response.created"));

    let second = stream.next().expect("second chunk");
    let second_text = String::from_utf8(second.to_vec()).expect("utf8");
    assert!(second_text.contains("response.output_text.delta"));
    assert!(second_text.contains("\"delta\":\"OK\""));

    let third = stream.next().expect("third chunk");
    let third_text = String::from_utf8(third.to_vec()).expect("utf8");
    assert!(third_text.contains("response.completed"));
    assert!(stream.next().is_none());

    let view = stream.view();
    assert!(view.last_success_at.is_some());
    assert!(view.last_error.is_none());
    assert_eq!(view.in_flight_requests, 0);
}

#[test]
fn managed_response_stream_same_chunk_drops_trailing_bytes_after_terminal_event() {
    let (store, account_id) = seeded_store();
    let combined = b"event: response.completed\ndata: {\"type\":\"response.completed\",\"sequence_number\":1,\"response\":{\"id\":\"resp_done\",\"object\":\"response\",\"created_at\":1,\"status\":\"completed\",\"background\":false}}\n\n: trailing comment that must be dropped\n\ngarbage after terminal".to_vec();
    let items = vec![Ok(combined)];
    let mut stream = Driven::new(store, account_id, items, false, ResponseShape::Codex);

    let first = stream.next().expect("first chunk");
    let text = String::from_utf8(first.to_vec()).expect("utf8");
    assert!(text.contains("response.completed"));
    assert!(!text.contains("trailing comment"));
    assert!(!text.contains("garbage after terminal"));
    assert!(stream.next().is_none());

    let view = stream.view();
    assert!(view.last_success_at.is_some());
    assert!(view.last_error.is_none());
    assert_eq!(view.in_flight_requests, 0);
}

#[test]
fn managed_response_stream_failed_closes_without_waiting_for_eof() {
    let (store, account_id) = seeded_store();
    let failed = b"event: response.failed\ndata: {\"type\":\"response.failed\",\"sequence_number\":1,\"response\":{\"id\":\"resp_rate_limit\",\"object\":\"response\",\"created_at\":1,\"status\":\"failed\",\"background\":false,\"error\":{\"code\":\"rate_limit_exceeded\",\"message\":\"Rate limit reached for gpt-5.4. Please try again in 8s.\"}}}\n\n".to_vec();
    let items = vec![Ok(failed)];
    let mut stream = Driven::new(store, account_id, items, true, ResponseShape::Codex);

    let _ = stream.next().expect("first chunk");
    assert!(
        stream.next().is_none()
    );

    let view = stream.view();
    assert_eq!(
        view.blocked_reason,
        Some(BlockedReason::RateLimited)
    );
    assert_eq!(view.in_flight_requests, 0);
    assert!(view.last_error.is_some());
}

#[test]
fn managed_response_stream_same_chunk_locks_first_failed_terminal_event() {
    let (store, account_id) = seeded_store();
    let combined = b"event: response.failed\ndata: {\"type\":\"response.failed\",\"sequence_number\":1,\"response\":{\"id\":\"resp_rate_limit\",\"object\":\"response\",\"created_at\":1,\"status\":\"failed\",\"background\":false,\"error\":{\"code\":\"rate_limit_exceeded\",\"message\":\"Rate limit reached for gpt-5.4. Please try again in 8s.\"}}}\n\nevent: response.completed\ndata: {\"type\":\"response.completed\",\"sequence_number\":2,\"response\":{\"id\":\"resp_rate_limit\",\"object\":\"response\",\"created_at\":1,\"status\":\"completed\",\"background\":false}}\n\n".to_vec();
    let items = vec![Ok(combined)];
    let mut stream = Driven::new(store, account_id, items, false, ResponseShape::Codex);

    let first = stream.next().expect("first chunk");
    let text = String::from_utf8(first.to_vec()).expect("utf8");
    assert!(text.contains("response.failed"));
    assert!(!text.contains("response.completed"));
    assert!(stream.next().is_none());

    let view = stream.view();
    assert_eq!(
        view.blocked_reason,
        Some(BlockedReason::RateLimited)
    );
    assert!(view.last_error.is_some());
    assert_eq!(view.in_flight_requests, 0);
}

#[test]
fn synthetic_failed_event_preserves_resets_in_seconds_from_http_body() {
    let chunk = ResponsesSseState::default()
        .synthetic_failed_event(&TransportError::Http {
            status: 502,
                headers: None,
            body: Some(
                r#"{"error":{"message":"The usage limit has been reached","type":"usage_limit_reached","resets_in_seconds":77}}"#
                    .to_string(),
            ),
        }, "", None);
    let text = String::from_utf8(chunk.to_vec()).expect("utf8");

    assert!(text.contains(r#""resets_in_seconds":77"#));
}

#[test]
fn synthetic_failed_event_preserves_both_reset_fields_from_http_body() {
    let chunk = ResponsesSseState::default()
        .synthetic_failed_event(&TransportError::Http {
            status: 502,
                headers: None,
            body: Some(
                r#"{"error":{"message":"The usage limit has been reached","type":"usage_limit_reached","resets_at":1775973729,"resets_in_seconds":77}}"#
                    .to_string(),
            ),
        }, "", None);
    let text = String::from_utf8(chunk.to_vec()).expect("utf8");

    assert!(text.contains(r#""resets_at":1775973729"#));
    assert!(text.contains(r#""resets_in_seconds":77"#));
}


#[test]
fn chunks_do_not_change_what_a_client_gets() {
    let text = b"hello\nevent: response.created\ndata: {\"type\":\"response.created\",\"sequence_number\":7,\"response\":{\"id\":\"r\"}}\n\nevent: x\ndata: 1\n\nevent: response.completed\ndata: {\"type\":\"response.completed\"}\n\n";
    let read = |size: usize| {
        let (store, account_id) = seeded_store();
        let items = text.chunks(size).map(|chunk| Ok(chunk.to_vec())).collect();
        let mut stream = Driven::new(store, account_id, items, false, ResponseShape::Codex);
        let mut all = Vec::new();
        while let Some(chunk) = stream.next() {
            all.extend(chunk);
        }
        assert!(stream.view().last_success_at.is_some());
        all
    };
    for size in [1, 2, 3, 7, 20, 1000] {
        assert_eq!(read(size), text.to_vec());
    }
}

#[test]
fn shutting_down_releases_the_account() {
    let (store, account_id) = seeded_store();
    let mut stream = Driven::new(store, account_id, Vec::new(), true, ResponseShape::Codex);
    let reaction = stream.stream.on_shutdown();
    assert_eq!(reaction.settlement, Some(AccountSettlement::Release));
    assert!(matches!(reaction.step, StreamStep::End));
    stream.settle(reaction.settlement);
    assert_eq!(stream.view().in_flight_requests, 0);
    assert!(stream.view().last_success_at.is_none());
    assert_eq!(stream.stream.on_drop(), None);
}

#[test]
fn synthetic_failed_event_goes_on_from_a_checkpoint() {
    let state = ResponsesSseState::with_checkpoint(Some(2), Some("resp_test".to_string()));
    let chunk = state.synthetic_failed_event(
        &TransportError::Http {
            status: 429,
            headers: None,
            body: Some(
                "{\"error\":{\"message\":\"Rate limit reached for gpt-5.4. Please try again in 11.054s.\",\"code\":\"rate_limit_exceeded\"}}"
                    .to_string(),
            ),
        },
        "",
        Some(Delay { nanos: 11_054_000_000 }),
    );
    let text = String::from_utf8(chunk).expect("utf8");
    assert!(text.starts_with("event: response.failed\ndata: "));
    assert!(text.ends_with("\n\n"));
    assert!(text.contains("\"sequence_number\":3"));
    assert!(text.contains("\"id\":\"resp_test\""));
    assert!(text.contains("\"code\":\"rate_limit_exceeded\""));
    assert!(text.contains("Rate limit reached"));
}

#[test]
fn synthetic_failed_event_without_a_body_names_no_quota() {
    let chunk = ResponsesSseState::default().synthetic_failed_event(
        &TransportError::Http { status: 403, headers: None, body: None },
        "",
        None,
    );
    let text = String::from_utf8(chunk).expect("utf8");
    assert!(text.contains("\"code\":\"http_error\""));
    assert!(!text.contains("\"code\":\"insufficient_quota\""));
}
