use codaze::accounts::{BlockedReason, PoolBlockSummary};
use codaze::api::body_as_json;
use codaze::classifier::{FailureClass, TransportError};
use codaze::config::FingerprintMode;
use codaze::error_semantics::{RetryAfter, RetryUnit};
use codaze::failover::{AccountSettlement, FailoverFailure};
use codaze::json::Json;
use codaze::responses::websocket::errors::{
    classify_openai_error_event, classify_response_failed_event, classify_websocket_error_text,
    classify_websocket_upstream_message, WEBSOCKET_CONNECTION_LIMIT_REACHED_CODE,
    WEBSOCKET_CONNECTION_LIMIT_REACHED_MESSAGE,
};
use codaze::responses::websocket::protocol::{
    is_responses_websocket_request_start, known_settlement_from_upstream_message,
    map_client_message_to_upstream, map_upstream_message_to_client,
    normalize_rate_limit_event_payload, normalize_response_create_installation_id_payload,
    normalize_response_create_payload, normalize_websocket_rate_limit_message,
    rewrite_previous_response_not_found_message, rewrite_previous_response_not_found_payload,
    should_passthrough_retryable_websocket_reset, upstream_message_commits_request,
    upstream_message_is_terminal,
};
use codaze::responses::websocket::proxy::{
    note_failed_account, on_client_message, on_no_replacement, on_switched, on_upstream_message,
    on_upstream_stream_failure, replay_messages, settlement_for_outcome, PendingWebsocketRequest,
    ProxyStep,
};
use codaze::responses::websocket::replies::websocket_error_message_for_failover_failure;
use codaze::responses::websocket::{
    outcome_after_client_delivery_failure, CloseFrame, WebsocketMessage, WebsocketProxyOutcome,
};
use codaze::time::{utc_now, Delay, Timestamp};
use serde_json::Value;
use std::time::Duration;

fn wait(retry_after: &Option<RetryAfter>) -> Option<Duration> {
    match retry_after {
        Some(RetryAfter::Exact(delay)) => Some(Duration::from_nanos(delay.nanos as u64)),
        Some(RetryAfter::Hint(hint)) => {
            let factor = match hint.unit {
                RetryUnit::Milliseconds => 0.001,
                RetryUnit::Seconds => 1.0,
                RetryUnit::Minutes => 60.0,
                RetryUnit::Hours => 3600.0,
            };
            let amount = hint.amount.parse::<f64>().ok()?;
            Duration::try_from_secs_f64(amount * factor).ok()
        }
        None => None,
    }
}

fn lib(value: &Value) -> Json {
    body_as_json(value.to_string().as_bytes()).expect("json")
}

fn reply(failure: &FailoverFailure) -> WebsocketMessage {
    websocket_error_message_for_failover_failure(failure, "", None)
}

fn in_seconds(seconds: i128) -> Timestamp {
    Timestamp { nanos: utc_now().nanos + seconds * 1_000_000_000 }
}

#[test]
fn websocket_error_text_classifies_wrapped_rate_limit_error() {
    let reset_at = chrono::Utc::now().timestamp() + 12;
    let outcome = classify_websocket_error_text(
        &format!(
            r#"{{"type":"error","status":429,"headers":{{"retry-after":"1"}},"error":{{"type":"usage_limit_reached","message":"The usage limit has been reached","plan_type":"free","resets_at":{reset_at}}}}}"#
        ),
    )
    .expect("classified");

    let WebsocketProxyOutcome::Failed {
        failure,
        retry_after,
        details,
    } = outcome
    else {
        panic!("expected failed outcome");
    };
    assert_eq!(failure, FailureClass::QuotaExhausted);
    assert!(details.contains("responses websocket upstream returned error event"));
    assert!(details.contains("status=429"));
    assert!(details.contains("error.type=usage_limit_reached"));
    assert!(details.contains("error.message=The usage limit has been reached"));
    assert!(details.contains("error.resets_at="));
    assert!(retry_after.is_some());
    assert!(wait(&retry_after).expect("retry after").as_secs() <= 12);
}

#[test]
fn websocket_error_text_prefers_resets_in_seconds_for_usage_limit_error() {
    let outcome = classify_websocket_error_text(
        r#"{"type":"error","status":429,"error":{"type":"usage_limit_reached","message":"The usage limit has been reached","resets_in_seconds":77}}"#,
    )
    .expect("classified");

    let WebsocketProxyOutcome::Failed {
        failure,
        retry_after,
        details,
    } = outcome
    else {
        panic!("expected failed outcome");
    };
    assert_eq!(failure, FailureClass::QuotaExhausted);
    assert_eq!(wait(&retry_after), Some(Duration::from_secs(77)));
    assert!(details.contains("error.type=usage_limit_reached"));
    assert!(details.contains("error.resets_in_seconds=77"));
}

#[test]
fn websocket_error_text_accepts_status_code_alias() {
    let outcome = classify_websocket_error_text(
        r#"{"type":"error","status_code":429,"error":{"type":"usage_limit_reached","message":"The usage limit has been reached","resets_in_seconds":77}}"#,
    )
    .expect("classified");

    let WebsocketProxyOutcome::Failed {
        failure,
        retry_after,
        details,
    } = outcome
    else {
        panic!("expected failed outcome");
    };
    assert_eq!(failure, FailureClass::QuotaExhausted);
    assert_eq!(wait(&retry_after), Some(Duration::from_secs(77)));
    assert!(details.contains("status=429"));
    assert!(details.contains("error.type=usage_limit_reached"));
}

#[test]
fn websocket_error_text_infers_status_when_wrapped_error_omits_it() {
    let outcome = classify_websocket_error_text(
        r#"{"type":"error","error":{"type":"authentication_error","code":"invalid_api_key","message":"bad key"}}"#,
    )
    .expect("classified");

    let WebsocketProxyOutcome::Failed {
        failure,
        retry_after,
        details,
    } = outcome
    else {
        panic!("expected failed outcome");
    };
    assert_eq!(failure, FailureClass::AccessTokenRejected);
    assert_eq!(wait(&retry_after), None);
    assert!(!details.contains("status=502"));
    assert!(details.contains("error.type=authentication_error"));
    assert!(details.contains("error.code=invalid_api_key"));
}

#[test]
fn websocket_error_text_uses_retry_after_for_usage_limit_even_when_status_is_502() {
    let outcome = classify_websocket_error_text(
        r#"{"type":"error","status":502,"error":{"type":"usage_limit_reached","message":"The usage limit has been reached","resets_in_seconds":597805}}"#,
    )
    .expect("classified");

    let WebsocketProxyOutcome::Failed {
        failure,
        retry_after,
        details,
    } = outcome
    else {
        panic!("expected failed outcome");
    };
    assert_eq!(failure, FailureClass::QuotaExhausted);
    assert_eq!(wait(&retry_after), Some(Duration::from_secs(597805)));
    assert!(details.contains("status=502"));
    assert!(details.contains("error.type=usage_limit_reached"));
    assert!(details.contains("error.resets_in_seconds=597805"));
}

#[test]
fn websocket_connection_limit_error_is_temporary_failure_not_quota() {
    let outcome = classify_websocket_error_text(
        r#"{"type":"error","status":400,"error":{"type":"invalid_request_error","code":"websocket_connection_limit_reached","message":"Responses websocket connection limit reached (60 minutes). Create a new websocket connection to continue."}}"#,
    )
    .expect("classified");

    let WebsocketProxyOutcome::Failed {
        failure,
        retry_after,
        details,
    } = outcome
    else {
        panic!("expected failed outcome");
    };
    assert_eq!(failure, FailureClass::TemporaryFailure);
    assert_eq!(wait(&retry_after), None);
    assert!(details.contains("error.code=websocket_connection_limit_reached"));
}

#[test]
fn rewrite_previous_response_not_found_payload_maps_to_retryable_websocket_error() {
    let rewritten = rewrite_previous_response_not_found_payload(
        r#"{"type":"error","error":{"type":"invalid_request_error","code":"previous_response_not_found","message":"Previous response with id 'resp_123' not found.","param":"previous_response_id"},"status":400}"#,
    )
    .expect("rewritten");
    let json: Value = serde_json::from_str(&rewritten).expect("json");

    assert_eq!(json.get("type").and_then(Value::as_str), Some("error"));
    assert_eq!(json.get("status").and_then(Value::as_u64), Some(400));
    let error = json.get("error").expect("error object");
    assert_eq!(
        error.get("type").and_then(Value::as_str),
        Some("invalid_request_error")
    );
    assert_eq!(
        error.get("code").and_then(Value::as_str),
        Some(WEBSOCKET_CONNECTION_LIMIT_REACHED_CODE)
    );
    assert_eq!(
        error.get("message").and_then(Value::as_str),
        Some(WEBSOCKET_CONNECTION_LIMIT_REACHED_MESSAGE)
    );
}

#[test]
fn rewrite_previous_response_not_found_payload_leaves_other_errors_unchanged() {
    let original = r#"{"type":"error","error":{"type":"invalid_request_error","code":"invalid_prompt","message":"bad"},"status":400}"#;
    assert_eq!(rewrite_previous_response_not_found_payload(original), None);
}

#[test]
fn passthrough_retryable_websocket_reset_only_applies_precommit() {
    let message = rewrite_previous_response_not_found_message(WebsocketMessage::Text(
        r#"{"type":"error","error":{"type":"invalid_request_error","code":"previous_response_not_found","message":"Previous response with id 'resp_123' not found.","param":"previous_response_id"},"status":400}"#
            .into(),
    ));
    let pending_precommit = Some(PendingWebsocketRequest::default());
    let pending_committed = Some(PendingWebsocketRequest {
        committed: true,
        ..Default::default()
    });

    assert!(should_passthrough_retryable_websocket_reset(
        pending_precommit
            .as_ref()
            .is_some_and(|pending| !pending.committed),
        &message
    ));
    assert!(!should_passthrough_retryable_websocket_reset(
        pending_committed
            .as_ref()
            .is_some_and(|pending| !pending.committed),
        &message
    ));
    assert!(!should_passthrough_retryable_websocket_reset(
        false, &message
    ));
}

#[test]
fn websocket_error_text_classifies_response_failed_payload() {
    let outcome = classify_websocket_error_text(
        r#"{"type":"response.failed","response":{"error":{"code":"insufficient_quota","message":"You exceeded your current quota"}}}"#,
    )
    .expect("classified");

    let WebsocketProxyOutcome::Failed {
        failure,
        retry_after,
        details,
    } = outcome
    else {
        panic!("expected failed outcome");
    };
    assert_eq!(failure, FailureClass::QuotaExhausted);
    assert_eq!(wait(&retry_after), None);
    assert_eq!(
        details,
        "responses websocket upstream returned response.failed: You exceeded your current quota"
    );
}

#[test]
fn classify_openai_error_event_infers_unauthorized_from_authentication_error_type() {
    let payload: Value = serde_json::from_str(
        r#"{"type":"authentication_error","code":"invalid_api_key","message":"bad key"}"#,
    )
    .expect("json");

    let classified = classify_openai_error_event(&lib(&payload));

    assert_eq!(classified.status, 401);
    assert_eq!(classified.failure, FailureClass::AccessTokenRejected);
    assert_eq!(wait(&classified.retry_after), None);
    assert_eq!(classified.details, "bad key");
}

#[test]
fn classify_openai_error_event_infers_unauthorized_from_wrapped_authentication_error() {
    let payload: Value = serde_json::from_str(
        r#"{"type":"error","status":401,"error":{"type":"authentication_error","code":"invalid_api_key","message":"bad key"}}"#,
    )
    .expect("json");

    let classified = classify_openai_error_event(&lib(&payload));

    assert_eq!(classified.status, 401);
    assert_eq!(classified.failure, FailureClass::AccessTokenRejected);
    assert_eq!(wait(&classified.retry_after), None);
    assert_eq!(classified.details, "bad key");
}

#[test]
fn classify_response_failed_event_infers_forbidden_from_permission_error_type() {
    let payload: Value = serde_json::from_str(
        r#"{"type":"permission_error","code":"forbidden","message":"forbidden"}"#,
    )
    .expect("json");

    let classified = classify_response_failed_event(&lib(&payload));

    assert_eq!(classified.status, 403);
    assert_eq!(classified.failure, FailureClass::TemporaryFailure);
    assert_eq!(wait(&classified.retry_after), None);
    assert_eq!(classified.details, "forbidden");
}

#[test]
fn websocket_close_none_releases() {
    let outcome = classify_websocket_upstream_message(&WebsocketMessage::Close(None));
    assert_eq!(outcome, Some(WebsocketProxyOutcome::Released));
}

#[test]
fn websocket_close_normal_code_with_empty_reason_releases() {
    let outcome = classify_websocket_upstream_message(&WebsocketMessage::Close(Some(
        CloseFrame {
            code: 1000,
            reason: "".into(),
        },
    )));

    assert_eq!(outcome, Some(WebsocketProxyOutcome::Released));
}

#[test]
fn websocket_close_reason_classifies_explicit_rate_limit() {
    let outcome = classify_websocket_upstream_message(&WebsocketMessage::Close(Some(
        CloseFrame {
            code: 1008,
            reason: "Rate limit reached".into(),
        },
    )));

    assert_eq!(
        outcome,
        Some(WebsocketProxyOutcome::Failed {
            failure: FailureClass::RateLimited,
            retry_after: None,
            details: "responses websocket upstream closed with error: reason=Rate limit reached"
                .to_string(),
        })
    );
}

#[test]
fn websocket_abnormal_close_without_reason_is_temporary_failure() {
    let outcome = classify_websocket_upstream_message(&WebsocketMessage::Close(Some(
        CloseFrame {
            code: 1006,
            reason: "".into(),
        },
    )));

    assert_eq!(
        outcome,
        Some(WebsocketProxyOutcome::Failed {
            failure: FailureClass::TemporaryFailure,
            retry_after: None,
            details: "responses websocket upstream closed with error: code=1006 reason="
                .to_string(),
        })
    );
}

#[test]
fn websocket_restart_close_without_reason_is_temporary_failure() {
    let outcome = classify_websocket_upstream_message(&WebsocketMessage::Close(Some(
        CloseFrame {
            code: 1012,
            reason: "".into(),
        },
    )));

    assert_eq!(
        outcome,
        Some(WebsocketProxyOutcome::Failed {
            failure: FailureClass::TemporaryFailure,
            retry_after: None,
            details: "responses websocket upstream closed with error: code=1012 reason="
                .to_string(),
        })
    );
}

#[test]
fn websocket_again_close_without_reason_is_temporary_failure() {
    let outcome = classify_websocket_upstream_message(&WebsocketMessage::Close(Some(
        CloseFrame {
            code: 1013,
            reason: "".into(),
        },
    )));

    assert_eq!(
        outcome,
        Some(WebsocketProxyOutcome::Failed {
            failure: FailureClass::TemporaryFailure,
            retry_after: None,
            details: "responses websocket upstream closed with error: code=1013 reason="
                .to_string(),
        })
    );
}

#[test]
fn response_create_marks_websocket_request_start() {
    let message =
        WebsocketMessage::Text(r#"{"type":"response.create","model":"gpt-5.4"}"#.into());
    assert!(is_responses_websocket_request_start(&message));
}

#[test]
fn normalize_response_create_installation_id_payload_injects_client_metadata() {
    let normalized = normalize_response_create_installation_id_payload(
        r#"{"type":"response.create","model":"gpt-5.4","client_metadata":{"existing":"value","x-codex-installation-id":"old"}}"#,
        FingerprintMode::Normalize,
        Some("11111111-1111-5111-8111-111111111111"),
    )
    .expect("normalized payload");
    let json: Value = serde_json::from_str(&normalized).expect("json");

    assert_eq!(
        json.pointer("/client_metadata/x-codex-installation-id")
            .and_then(Value::as_str),
        Some("11111111-1111-5111-8111-111111111111")
    );
    assert_eq!(
        json.pointer("/client_metadata/existing")
            .and_then(Value::as_str),
        Some("value")
    );
}

#[test]
fn normalize_response_create_installation_id_payload_is_noop_in_passthrough_mode() {
    let normalized = normalize_response_create_installation_id_payload(
        r#"{"type":"response.create","model":"gpt-5.4"}"#,
        FingerprintMode::Passthrough,
        Some("11111111-1111-5111-8111-111111111111"),
    );

    assert!(normalized.is_none());
}

#[test]
fn normalize_response_create_installation_id_payload_is_connection_scoped_on_replay() {
    let original = r#"{"type":"response.create","model":"gpt-5.4","client_metadata":{"x-codex-installation-id":"downstream","existing":"value"}}"#;
    let first = normalize_response_create_installation_id_payload(
        original,
        FingerprintMode::Normalize,
        Some("aaaaaaaa-aaaa-5aaa-8aaa-aaaaaaaaaaaa"),
    )
    .expect("first normalization");
    let second = normalize_response_create_installation_id_payload(
        original,
        FingerprintMode::Normalize,
        Some("bbbbbbbb-bbbb-5bbb-8bbb-bbbbbbbbbbbb"),
    )
    .expect("second normalization");

    let first_json: Value = serde_json::from_str(&first).expect("first json");
    let second_json: Value = serde_json::from_str(&second).expect("second json");

    assert_eq!(
        first_json
            .pointer("/client_metadata/x-codex-installation-id")
            .and_then(Value::as_str),
        Some("aaaaaaaa-aaaa-5aaa-8aaa-aaaaaaaaaaaa")
    );
    assert_eq!(
        second_json
            .pointer("/client_metadata/x-codex-installation-id")
            .and_then(Value::as_str),
        Some("bbbbbbbb-bbbb-5bbb-8bbb-bbbbbbbbbbbb")
    );
    assert_eq!(
        first_json
            .pointer("/client_metadata/existing")
            .and_then(Value::as_str),
        Some("value")
    );
    assert_eq!(
        second_json
            .pointer("/client_metadata/existing")
            .and_then(Value::as_str),
        Some("value")
    );
    assert_eq!(
        first_json.get("instructions").and_then(Value::as_str),
        Some("")
    );
    assert_eq!(
        second_json.get("instructions").and_then(Value::as_str),
        Some("")
    );
}

#[test]
fn normalize_response_create_payload_adds_http_style_defaults_for_codex() {
    let normalized = normalize_response_create_payload(
        r#"{"type":"response.create","model":"gpt-5.4","instructions":null}"#,
        FingerprintMode::Normalize,
        true,
        None,
        Some("11111111-1111-5111-8111-111111111111"),
    )
    .expect("normalized payload");
    let json: Value = serde_json::from_str(&normalized).expect("json");

    assert_eq!(json.get("instructions").and_then(Value::as_str), Some(""));
    assert_eq!(json.get("store").and_then(Value::as_bool), Some(false));
    assert!(json.get("parallel_tool_calls").is_some());
    assert_eq!(
        json.pointer("/client_metadata/x-codex-installation-id")
            .and_then(Value::as_str),
        Some("11111111-1111-5111-8111-111111111111")
    );
    assert_eq!(
        json.pointer("/client_metadata/x-codex-turn-metadata")
            .and_then(Value::as_str)
            .and_then(|value| serde_json::from_str::<Value>(value).ok())
            .and_then(|metadata| {
                metadata
                    .get("thread_source")
                    .and_then(Value::as_str)
                    .map(str::to_string)
            })
            .as_deref(),
        Some("user")
    );
}

#[test]
fn normalize_response_create_payload_applies_non_codex_compatibility() {
    let normalized = normalize_response_create_payload(
        r#"{"type":"response.create","model":"gpt-5.4","input":"hello","temperature":0.7,"tool_choice":"web_search_preview","instructions":null}"#,
        FingerprintMode::Normalize,
        false,
        None,
        Some("11111111-1111-5111-8111-111111111111"),
    )
    .expect("normalized payload");
    let json: Value = serde_json::from_str(&normalized).expect("json");

    assert_eq!(json.get("temperature"), None);
    assert_eq!(json.get("instructions").and_then(Value::as_str), Some(""));
    assert_eq!(
        json.pointer("/tool_choice/type").and_then(Value::as_str),
        Some("web_search")
    );
    assert_eq!(
        json.pointer("/input/0/type").and_then(Value::as_str),
        Some("message")
    );
    assert_eq!(
        json.pointer("/input/0/content/0/text")
            .and_then(Value::as_str),
        Some("hello")
    );
}

#[test]
fn normalize_response_create_payload_preserves_existing_thread_source_override() {
    let normalized = normalize_response_create_payload(
        r#"{"type":"response.create","model":"gpt-5.4","client_metadata":{"x-codex-turn-metadata":"{\"thread_source\":\"subagent\",\"k\":\"v\"}"}}"#,
        FingerprintMode::Normalize,
        true,
        None,
        None,
    )
    .expect("normalized payload");
    let json: Value = serde_json::from_str(&normalized).expect("json");
    let metadata = json
        .pointer("/client_metadata/x-codex-turn-metadata")
        .and_then(Value::as_str)
        .and_then(|value| serde_json::from_str::<Value>(value).ok())
        .expect("turn metadata");

    assert_eq!(
        metadata.get("thread_source").and_then(Value::as_str),
        Some("subagent")
    );
    assert_eq!(metadata.get("k").and_then(Value::as_str), Some("v"));
}

#[test]
fn normalize_response_create_payload_passthrough_still_applies_non_codex_body_compatibility() {
    let normalized = normalize_response_create_payload(
        r#"{"type":"response.create","model":"gpt-5.4","input":"hello","temperature":0.7}"#,
        FingerprintMode::Passthrough,
        false,
        None,
        None,
    )
    .expect("normalized payload");
    let json: Value = serde_json::from_str(&normalized).expect("json");

    assert_eq!(json.get("temperature"), None);
    assert_eq!(
        json.pointer("/input/0/type").and_then(Value::as_str),
        Some("message")
    );
    assert!(json.get("instructions").is_none());
}

#[test]
fn codex_rate_limits_does_not_commit_buffered_websocket_request() {
    let message = WebsocketMessage::Text(r#"{"type":"codex.rate_limits"}"#.into());
    assert!(!upstream_message_commits_request(&message));
    assert!(!upstream_message_is_terminal(&message));
}

#[test]
fn response_created_commits_buffered_websocket_request() {
    let message = WebsocketMessage::Text(
        r#"{"type":"response.created","response":{"id":"resp-1"}}"#.into(),
    );
    assert!(upstream_message_commits_request(&message));
    assert!(!upstream_message_is_terminal(&message));
}

#[test]
fn normalize_rate_limit_event_payload_rewrites_used_percent_to_zero() {
    let normalized = normalize_rate_limit_event_payload(
        r#"{"type":"codex.rate_limits","rate_limits":{"primary":{"used_percent":95.0,"window_minutes":15,"reset_at":123},"secondary":{"used_percent":82.5,"window_minutes":10080,"reset_at":456}},"plan_type":"plus"}"#,
    )
    .expect("normalized payload");
    let json: Value = serde_json::from_str(&normalized).expect("json");

    assert_eq!(
        json.get("type").and_then(Value::as_str),
        Some("codex.rate_limits")
    );
    assert_eq!(
        json.pointer("/rate_limits/primary/used_percent")
            .and_then(Value::as_f64),
        Some(0.0)
    );
    assert_eq!(
        json.pointer("/rate_limits/secondary/used_percent")
            .and_then(Value::as_f64),
        Some(0.0)
    );
    assert_eq!(
        json.pointer("/rate_limits/primary/window_minutes")
            .and_then(Value::as_i64),
        Some(15)
    );
}

#[test]
fn normalize_websocket_rate_limit_message_drops_private_frame_for_non_codex() {
    let message = WebsocketMessage::Text(
        r#"{"type":"codex.rate_limits","rate_limits":{"primary":{"used_percent":95.0}}}"#.into(),
    );

    assert!(normalize_websocket_rate_limit_message(message, false).is_none());
}

#[test]
fn normalize_websocket_rate_limit_message_preserves_private_frame_for_codex() {
    let message = WebsocketMessage::Text(
        r#"{"type":"codex.rate_limits","rate_limits":{"primary":{"used_percent":95.0}}}"#.into(),
    );

    let Some(WebsocketMessage::Text(text)) =
        normalize_websocket_rate_limit_message(message, true)
    else {
        panic!("expected normalized text message");
    };
    let json: Value = serde_json::from_str(&text).expect("json");
    assert_eq!(
        json.pointer("/rate_limits/primary/used_percent")
            .and_then(Value::as_f64),
        Some(0.0)
    );
}

#[test]
fn websocket_error_message_for_pool_block_temporary_unavailable_is_classified() {
    let message = reply(&FailoverFailure::PoolBlocked(PoolBlockSummary {
        blocked_reason: BlockedReason::TemporarilyUnavailable,
        blocked_until: Some(in_seconds(1)),
        retry_after: Some(Delay::from_secs(1)),
    }));

    let Some(WebsocketProxyOutcome::Failed {
        failure,
        retry_after,
        ..
    }) = classify_websocket_upstream_message(&message)
    else {
        panic!("expected failed outcome");
    };

    assert_eq!(failure, FailureClass::TemporaryFailure);
    assert_eq!(wait(&retry_after), None);
}

#[test]
fn websocket_error_message_for_pool_block_quota_is_classified() {
    let message = reply(&FailoverFailure::PoolBlocked(PoolBlockSummary {
        blocked_reason: BlockedReason::QuotaExhausted,
        blocked_until: Some(in_seconds(600)),
        retry_after: Some(Delay::from_secs(600)),
    }));

    let Some(WebsocketProxyOutcome::Failed {
        failure,
        retry_after,
        ..
    }) = classify_websocket_upstream_message(&message)
    else {
        panic!("expected failed outcome");
    };

    assert_eq!(failure, FailureClass::TemporaryFailure);
    assert_eq!(wait(&retry_after), None);
}

#[test]
fn websocket_error_message_for_pool_block_auth_invalid_is_classified() {
    let message = reply(&FailoverFailure::PoolBlocked(PoolBlockSummary {
        blocked_reason: BlockedReason::AuthInvalid,
        blocked_until: None,
        retry_after: None,
    }));

    let Some(WebsocketProxyOutcome::Failed {
        failure,
        retry_after,
        details,
    }) = classify_websocket_upstream_message(&message)
    else {
        panic!("expected failed outcome");
    };

    assert_eq!(failure, FailureClass::TemporaryFailure);
    assert_eq!(wait(&retry_after), None);
    assert!(details.contains("status=503"));
    assert!(details.contains("error.code=server_is_overloaded"));
}

#[test]
fn websocket_error_message_for_failover_failure_http_transport_is_classified() {
    let message = reply(&FailoverFailure::Transport(
        TransportError::Http {
            status: 400,
            headers: None,
            body: Some(
                r#"{"error":{"type":"invalid_request_error","code":"invalid_prompt","message":"bad input"}}"#
                    .to_string(),
            ),
        },
    ));

    let Some(WebsocketProxyOutcome::Failed {
        failure,
        retry_after,
        details,
    }) = classify_websocket_upstream_message(&message)
    else {
        panic!("expected failed outcome");
    };

    assert_eq!(failure, FailureClass::RequestRejected);
    assert_eq!(wait(&retry_after), None);
    assert!(details.contains("status=400"));
    assert!(details.contains("error.code=invalid_prompt"));
}

#[test]
fn websocket_error_message_for_failover_failure_json_internal_is_classified() {
    let message = reply(&FailoverFailure::CallerJson {
        status: 500,
        message: "disk write failed".to_string(),
    });

    let Some(WebsocketProxyOutcome::Failed {
        failure,
        retry_after,
        details,
    }) = classify_websocket_upstream_message(&message)
    else {
        panic!("expected failed outcome");
    };

    assert_eq!(failure, FailureClass::TemporaryFailure);
    assert_eq!(wait(&retry_after), None);
    assert!(details.contains("status=500"));
    assert!(details.contains("error.code=internal_server_error"));
}

#[test]
fn retryable_websocket_reset_passthrough_branch_releases_account() {
    let message = rewrite_previous_response_not_found_message(WebsocketMessage::Text(
        r#"{"type":"error","error":{"type":"invalid_request_error","code":"previous_response_not_found","message":"Previous response with id 'resp_123' not found.","param":"previous_response_id"},"status":400}"#
            .into(),
    ));

    assert!(should_passthrough_retryable_websocket_reset(
        true, &message
    ));
    assert_eq!(
        outcome_after_client_delivery_failure(None),
        WebsocketProxyOutcome::Released
    );
}

#[test]
fn response_completed_produces_known_success_settlement() {
    let message = WebsocketMessage::Text(
        r#"{"type":"response.completed","response":{"id":"resp_done"}}"#.into(),
    );

    assert_eq!(
        known_settlement_from_upstream_message(
            &message,
            classify_websocket_upstream_message(&message)
        ),
        Some(WebsocketProxyOutcome::Success)
    );
}

#[test]
fn map_client_close_drops_illegal_wire_code() {
    let message = WebsocketMessage::Close(Some(CloseFrame {
        code: 1006,
        reason: "".into(),
    }));

    let WebsocketMessage::Close(frame) = map_client_message_to_upstream(message) else {
        panic!("expected close frame");
    };
    assert!(frame.is_none());
}

#[test]
fn map_client_close_drops_bad_wire_code() {
    let message = WebsocketMessage::Close(Some(CloseFrame {
        code: 1004,
        reason: "".into(),
    }));

    let WebsocketMessage::Close(frame) = map_client_message_to_upstream(message) else {
        panic!("expected close frame");
    };
    assert!(frame.is_none());
}

#[test]
fn map_upstream_close_drops_illegal_wire_code() {
    let message = WebsocketMessage::Close(Some(CloseFrame {
        code: 1006,
        reason: "".into(),
    }));

    let Some(WebsocketMessage::Close(frame)) = map_upstream_message_to_client(message) else {
        panic!("expected close frame");
    };
    assert!(frame.is_none());
}

#[test]
fn map_upstream_close_drops_reserved_wire_code() {
    let message = WebsocketMessage::Close(Some(CloseFrame {
        code: 1016,
        reason: "".into(),
    }));

    let Some(WebsocketMessage::Close(frame)) = map_upstream_message_to_client(message) else {
        panic!("expected close frame");
    };
    assert!(frame.is_none());
}


fn text(text: &str) -> WebsocketMessage {
    WebsocketMessage::Text(text.to_string())
}

#[test]
fn internal_failures_are_told_without_their_detail() {
    let message = reply(&FailoverFailure::Internal {
        status: 500,
        detail: "disk write failed".to_string(),
    });
    let WebsocketMessage::Text(told) = &message else {
        panic!("expected a text");
    };
    assert!(!told.contains("disk write failed"));
    assert!(told.contains("Internal Server Error"));
}

#[test]
fn requests_are_held_until_their_response_begins() {
    let mut pending = None;
    let create = r#"{"type":"response.create","model":"gpt-5.4"}"#;
    let plan = on_client_message(
        &mut pending,
        text(create),
        FingerprintMode::Passthrough,
        true,
        None,
        None,
    );
    assert!(!plan.closes);
    let request = pending.as_ref().expect("a request is under way");
    assert_eq!(request.request_messages.len(), 1);
    assert!(!request.committed);

    let limits = r#"{"type":"codex.rate_limits","rate_limits":{"primary":{"used_percent":95.0}}}"#;
    let plan = on_upstream_message(&mut pending, text(limits), true);
    assert!(plan.deliver.is_empty());
    assert!(matches!(plan.next, ProxyStep::Continue));
    assert_eq!(pending.as_ref().unwrap().buffered_upstream_messages.len(), 1);

    let created = r#"{"type":"response.created","response":{"id":"resp-1"}}"#;
    let plan = on_upstream_message(&mut pending, text(created), true);
    assert_eq!(plan.deliver.len(), 2);
    assert!(pending.as_ref().unwrap().committed);
}

#[test]
fn failures_before_a_response_begins_are_tried_again() {
    let failed = r#"{"type":"response.failed","response":{"error":{"code":"insufficient_quota","message":"You exceeded your current quota"}}}"#;
    let mut pending = Some(PendingWebsocketRequest::default());
    let plan = on_upstream_message(&mut pending, text(failed), true);
    assert!(matches!(plan.next, ProxyStep::Retry { .. }));
    let mut begun =
        Some(PendingWebsocketRequest { committed: true, ..PendingWebsocketRequest::default() });
    let plan = on_upstream_message(&mut begun, text(failed), true);
    assert!(!matches!(plan.next, ProxyStep::Retry { .. }));
    assert_eq!(plan.deliver.len(), 1);
}

#[test]
fn a_lost_upstream_is_a_temporary_failure() {
    let plan = on_upstream_stream_failure(&Some(PendingWebsocketRequest::default()), "reset");
    assert!(matches!(plan.next, ProxyStep::Retry { .. }));
    let settlement = settlement_for_outcome(WebsocketProxyOutcome::Failed {
        failure: FailureClass::TemporaryFailure,
        retry_after: None,
        details: "reset".to_string(),
    });
    assert!(matches!(
        settlement,
        AccountSettlement::Failure { failure: FailureClass::TemporaryFailure, .. }
    ));
    assert_eq!(settlement_for_outcome(WebsocketProxyOutcome::Released), AccountSettlement::Release);
    assert_eq!(settlement_for_outcome(WebsocketProxyOutcome::Success), AccountSettlement::Success);
}

#[test]
fn replayed_requests_name_the_new_installation() {
    let request = PendingWebsocketRequest {
        request_messages: vec![
            text(r#"{"type":"response.create","model":"gpt-5.4"}"#),
            WebsocketMessage::Binary(vec![1, 2]),
        ],
        ..PendingWebsocketRequest::default()
    };
    let messages = replay_messages(&request, FingerprintMode::Normalize, true, None, Some("inst-2"));
    assert_eq!(messages.len(), 2);
    let WebsocketMessage::Text(first) = &messages[0] else {
        panic!("expected a text");
    };
    assert!(first.contains("inst-2"));
    assert_eq!(messages[1], WebsocketMessage::Binary(vec![1, 2]));
}

#[test]
fn held_back_messages_reach_the_client_where_no_account_is_left() {
    let limits = text(r#"{"type":"codex.rate_limits"}"#);
    let mut pending = Some(PendingWebsocketRequest {
        buffered_upstream_messages: vec![limits.clone()],
        ..PendingWebsocketRequest::default()
    });
    note_failed_account(&mut pending, "a");
    note_failed_account(&mut pending, "a");
    assert_eq!(pending.as_ref().unwrap().tried_accounts, vec!["a"]);
    let failure = WebsocketProxyOutcome::Failed {
        failure: FailureClass::QuotaExhausted,
        retry_after: None,
        details: "quota".to_string(),
    };
    let told = text(r#"{"type":"error"}"#);
    let plan = on_no_replacement(&mut pending, Some(told.clone()), failure.clone());
    assert_eq!(plan.deliver, vec![limits, told]);
    assert!(pending.expect("request").buffered_upstream_messages.is_empty());
    assert_eq!(
        on_switched(&mut Some(PendingWebsocketRequest::default()), failure.clone()),
        settlement_for_outcome(failure)
    );
}
