use codaze::accounts::disk::temp_account_name;
use codaze::accounts::{AccountStore, RoutingState};
use codaze::api::models_codex_success_response;
use codaze::classifier::FailureClass;
use codaze::error_semantics::parse_retry_after_header;
use codaze::gateway_errors::{
    failover_surface, FailureRenderMode, InternalFailoverSurface, ResponseBody,
};
use codaze::json::Json;
use codaze::models::{ModelsSnapshot, ResponseShape};
use codaze::responses::failure::{
    downstream_failure_kind_for_http, render_openai_stream_error_event,
    render_synthetic_response_failed_event, DownstreamFailureKind, SyntheticResponseFailedPayload,
};
use codaze::responses::websocket::proxy::{
    on_client_sent, on_replay_failure, settlement_for_outcome, stream_failure_outcome,
    PendingWebsocketRequest, ProxyStep,
};
use codaze::responses::websocket::WebsocketProxyOutcome;
use codaze::time::{timestamp, Delay};
use http::{HeaderMap, HeaderValue};
use serde_json::Value;

fn payload() -> SyntheticResponseFailedPayload {
    SyntheticResponseFailedPayload {
        code: Some("rate_limit_exceeded".to_string()),
        message: None,
        error_type: None,
        plan_type: None,
        resets_at: None,
        resets_in_seconds: None,
    }
}

fn store_with_account() -> (AccountStore, String) {
    let mut store = AccountStore::new("/accounts".to_string());
    let plan = store.prepare_import_account("rt".to_string(), None, None).expect("import");
    let id = store.apply_import_account_plan(plan).expect("import").account.id;
    (store, id)
}

fn shown(value: &impl std::fmt::Debug) -> String {
    format!("{value:?}")
}

#[test]
fn error_events_are_numbered_behind_the_last_event() {
    let bytes = render_openai_stream_error_event(Some(6), &payload());
    assert_eq!(
        String::from_utf8(bytes).unwrap(),
        "event: error\ndata: {\"code\":\"rate_limit_exceeded\",\
         \"message\":\"Upstream request failed.\",\"sequence_number\":7,\"type\":\"error\"}\n\n"
    );
    let text = String::from_utf8(render_openai_stream_error_event(None, &payload())).unwrap();
    assert!(text.contains("\"sequence_number\":0"));
}

#[test]
fn failed_events_name_the_last_response() {
    let bytes = render_synthetic_response_failed_event(Some("resp_1"), Some(1), &payload());
    let text = String::from_utf8(bytes).unwrap();
    let data = text
        .strip_prefix("event: response.failed\ndata: ")
        .and_then(|rest| rest.strip_suffix("\n\n"))
        .expect("one event");
    let data: Value = serde_json::from_str(data).unwrap();
    assert_eq!(data.get("sequence_number").and_then(Value::as_i64), Some(2));
    assert_eq!(data.pointer("/response/id").and_then(Value::as_str), Some("resp_1"));
    assert_eq!(
        data.pointer("/response/error/code").and_then(Value::as_str),
        Some("rate_limit_exceeded")
    );
}

#[test]
fn refused_requests_are_for_the_caller_to_mend() {
    assert_eq!(
        downstream_failure_kind_for_http(400, Some(r#"{"error":{"message":"bad"}}"#)),
        DownstreamFailureKind::CallerError
    );
    assert_eq!(
        downstream_failure_kind_for_http(429, None),
        DownstreamFailureKind::GatewayUnavailable
    );
}

#[test]
fn surfaces_are_named_by_client_and_kind_of_answer() {
    let surface = failover_surface(ResponseShape::OpenAi, FailureRenderMode::ResponsesPreStream);
    assert_eq!(surface, InternalFailoverSurface::OpenAiResponsesPreStream);
    assert_eq!(surface.as_str(), "openai_responses_pre_stream");
    assert_eq!(
        failover_surface(ResponseShape::Codex, FailureRenderMode::UnaryJson).as_str(),
        "codex_unary"
    );
}

#[test]
fn files_are_written_beside_the_ones_they_replace() {
    assert_eq!(temp_account_name("a.json", 12), ".a.json.12.tmp");
}

#[test]
fn codex_clients_get_the_list_as_it_came() {
    let list = Json::object().with("models", Json::Array(Vec::new())).with("etag", Json::text("e"));
    let snapshot = ModelsSnapshot::from_value(list.clone()).expect("a list");
    let response = models_codex_success_response(&snapshot);
    assert_eq!(response.status, 200);
    let ResponseBody::Json(body) = response.body else {
        panic!("expected JSON");
    };
    assert!(body.same(&list));
}

#[test]
fn retry_after_headers_are_read_in_seconds() {
    let mut headers = HeaderMap::new();
    headers.insert("retry-after", HeaderValue::from_static("42"));
    assert_eq!(parse_retry_after_header(Some(&headers)), Some(Delay::from_secs(42)));
    assert_eq!(parse_retry_after_header(Some(&HeaderMap::new())), None);
    assert_eq!(parse_retry_after_header(None), None);
}

#[test]
fn a_close_releases_the_account_whether_it_was_sent_or_not() {
    for error in [None, Some("gone")] {
        let plan = on_client_sent(&Some(PendingWebsocketRequest::default()), true, error);
        assert_eq!(shown(&plan.next), shown(&ProxyStep::End(WebsocketProxyOutcome::Released)));
        assert!(plan.deliver.is_empty());
    }
    let plan = on_client_sent(&None, false, None);
    assert_eq!(shown(&plan.next), shown(&ProxyStep::Continue));
}

#[test]
fn messages_that_cannot_be_sent_make_another_account_take_over() {
    let failure = stream_failure_outcome("gone");
    let plan = on_client_sent(&Some(PendingWebsocketRequest::default()), false, Some("gone"));
    assert_eq!(shown(&plan.next), shown(&ProxyStep::Retry(failure.clone())));
    let begun = PendingWebsocketRequest { committed: true, ..PendingWebsocketRequest::default() };
    let plan = on_client_sent(&Some(begun), false, Some("gone"));
    assert_eq!(shown(&plan.next), shown(&ProxyStep::End(failure.clone())));
    let plan = on_client_sent(&None, false, Some("gone"));
    assert_eq!(shown(&plan.next), shown(&ProxyStep::End(failure)));
}

#[test]
fn accounts_that_cannot_be_sent_a_request_again_are_not_tried_again() {
    let mut pending = Some(PendingWebsocketRequest::default());
    let settlement = on_replay_failure(&mut pending, "b", "gone");
    assert_eq!(pending.expect("request").tried_accounts, vec!["b"]);
    assert_eq!(settlement, settlement_for_outcome(stream_failure_outcome("gone")));
}

#[test]
fn shorter_blocks_and_successes_leave_a_longer_block() {
    let (mut store, id) = store_with_account();
    let now = timestamp(1_000, 0);
    let quota = |secs| Some(Delay::from_secs(secs));
    store.apply_failure_at(&id, now, FailureClass::QuotaExhausted, quota(500), "q".to_string());
    let at = store.position(&id).expect("record");
    let until = store.records[at].blocked_until;
    assert_eq!(until, Some(timestamp(1_500, 0)));
    store.apply_failure_at(&id, now, FailureClass::QuotaExhausted, quota(5), "q".to_string());
    assert_eq!(store.records[at].blocked_until, until);
    store.mark_request_success_at(&id, timestamp(1_001, 0));
    assert_eq!(store.records[at].blocked_until, until);
    store.apply_failure_at(&id, now, FailureClass::RequestRejected, None, "r".to_string());
    assert_eq!(store.records[at].blocked_until, until);
}

#[test]
fn accounts_that_are_lost_stay_lost() {
    let (mut store, id) = store_with_account();
    let now = timestamp(1_000, 0);
    store.apply_failure_at(&id, now, FailureClass::AuthInvalid, None, "lost".to_string());
    let at = store.position(&id).expect("record");
    assert_eq!(store.records[at].routing_state, RoutingState::AuthInvalid);
    store.mark_request_success_at(&id, timestamp(1_001, 0));
    assert_eq!(store.records[at].routing_state, RoutingState::AuthInvalid);
    let woken = store.wake_account(&id).expect("known account");
    assert_eq!(woken.account.routing_state, RoutingState::AuthInvalid);
}

#[test]
fn waking_twice_changes_nothing_more() {
    let (mut store, id) = store_with_account();
    store.apply_failure_at(
        &id,
        timestamp(1_000, 0),
        FailureClass::TemporaryFailure,
        None,
        "down".to_string(),
    );
    let first = store.wake_account(&id).expect("known account");
    assert_eq!(first.account.blocked_reason, None);
    assert_eq!(first.account.routing_state, RoutingState::Cold);
    let second = store.wake_account(&id).expect("known account");
    assert_eq!(shown(&second), shown(&first));
}
