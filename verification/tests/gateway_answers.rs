use codaze::accounts::{
    AccountRecord, AccountStore, BlockedReason, BlockedSource, PoolBlockSummary, RoutingState,
    SelectionFailure,
};
use codaze::api::{
    apply_turn_state_header, body_as_json, cached_or_refreshing_models,
    models_openai_success_response, prepare_compact_request, prepare_responses_request,
    rewrite_openai_compact_response_body, shape_compact_success_response,
    shape_responses_success_headers, shape_unary_responses_success_headers,
    should_stream_responses_request, read_models_body, finish_request, BodyRejection,
};
use codaze::classifier::{FailureClass, TransportError};
use codaze::config::{FingerprintMode, RoutingPolicy};
use codaze::failover::{resolve_selection_failure, FailoverFailure, RefreshFailure};
use codaze::gateway_errors::{
    openai_refresh_failure_response, openai_transport_error_response_ref, render_failover_failure,
    render_status_message_error, set_content_type, FailureRenderMode, GatewayResponse,
    ResponseBody, JSON_CONTENT_TYPE, SSE_CONTENT_TYPE,
};
use codaze::admin::{
    empty_refresh_token_response, import_failure_response, import_status, requested_routing_policy,
    routing_policy_response, unknown_account_response,
};
use codaze::headers::takes_one_more;
use codaze::http_shape::sanitize_response_headers;
use codaze::json::{Json, JsonNumber};
use codaze::models::{ModelsCache, ModelsSnapshot, ResponseShape};
use codaze::time::{utc_now, Delay, Timestamp};
use http::{header, HeaderMap, HeaderValue};
use serde_json::Value;

fn json(text: &str) -> Value {
    serde_json::from_str(text).expect("json")
}

fn lib(value: &Value) -> Json {
    body_as_json(value.to_string().as_bytes()).expect("json")
}

fn value(json: &Json) -> Value {
    match json {
        Json::Null => Value::Null,
        Json::Bool(b) => Value::Bool(*b),
        Json::Number(JsonNumber::Unsigned(n)) => Value::from(*n),
        Json::Number(JsonNumber::Negative(n)) => Value::from(*n),
        Json::Number(JsonNumber::Decimal(text)) => serde_json::from_str(text).expect("number"),
        Json::Text(text) => Value::String(text.clone()),
        Json::Array(items) => Value::Array(items.iter().map(value).collect()),
        Json::Object(entries) => {
            let mut object = serde_json::Map::new();
            for (key, item) in entries {
                object.insert(key.clone(), value(item));
            }
            Value::Object(object)
        }
    }
}

struct Parts {
    status: u16,
    headers: HeaderMap,
}

/// An answer as it goes out: a JSON body brings its content type where the headers name none.
fn parts_of(response: GatewayResponse) -> (Parts, Vec<u8>) {
    let mut headers = response.headers;
    let bytes = match &response.body {
        ResponseBody::Json(body) => {
            if !headers.contains_key(header::CONTENT_TYPE) {
                headers.insert(header::CONTENT_TYPE, HeaderValue::from_static(JSON_CONTENT_TYPE));
            }
            value(body).to_string().into_bytes()
        }
        ResponseBody::Text(text) => text.clone().into_bytes(),
        ResponseBody::Events(bytes) => bytes.clone(),
    };
    (Parts { status: response.status, headers }, bytes)
}

fn response_parts(response: GatewayResponse) -> (u16, HeaderMap, Vec<u8>) {
    let (parts, bytes) = parts_of(response);
    (parts.status, parts.headers, bytes)
}

fn snapshot_of(value: &Value) -> ModelsSnapshot {
    ModelsSnapshot::from_value(lib(value)).expect("snapshot")
}

fn rewrite(body: &mut Value) {
    let mut inner = lib(body);
    rewrite_openai_compact_response_body(&mut inner);
    *body = value(&inner);
}

fn pre_stream(failure: &FailoverFailure, shape: ResponseShape) -> GatewayResponse {
    render_failover_failure(failure, shape, FailureRenderMode::ResponsesPreStream, "", None)
}

fn import(accounts: &mut AccountStore, token: &str) -> String {
    let plan = accounts.prepare_import_account(token.to_string(), None, None).expect("plan");
    accounts.apply_import_account_plan(plan).expect("import succeeds").account.id
}

fn record_mut<'a>(accounts: &'a mut AccountStore, id: &str) -> &'a mut AccountRecord {
    let at = accounts.position(id).expect("record exists");
    &mut accounts.records[at]
}

fn mark_refresh_in_flight(accounts: &mut AccountStore, id: &str) {
    let record = record_mut(accounts, id);
    record.refresh_in_flight = true;
    record.routing_state = RoutingState::Warming;
}

fn in_minutes(minutes: i128) -> Timestamp {
    Timestamp { nanos: utc_now().nanos + minutes * 60 * 1_000_000_000 }
}

#[test]
fn openai_transport_error_response_overrides_existing_content_type() {
    let response = openai_transport_error_response_ref(&TransportError::Http {
        status: 400,
        headers: Some({
            let mut headers = HeaderMap::new();
            headers.insert(
                header::CONTENT_TYPE,
                HeaderValue::from_static("text/plain; charset=utf-8"),
            );
            headers
        }),
        body: Some("{\"error\":{\"message\":\"bad request\"}}".to_string()),
    });

    let (parts, bytes) = parts_of(response);
    assert_eq!(parts.status, 400);
    assert_eq!(
        parts
            .headers
            .get(header::CONTENT_TYPE)
            .and_then(|value| value.to_str().ok()),
        Some(JSON_CONTENT_TYPE)
    );
    assert_eq!(
        serde_json::from_slice::<Value>(&bytes)
            .expect("json")
            .pointer("/error/message")
            .and_then(Value::as_str),
        Some("bad request")
    );
}

#[test]
fn openai_transport_error_response_removes_content_encoding() {
    let response = openai_transport_error_response_ref(&TransportError::Http {
        status: 400,
        headers: Some({
            let mut headers = HeaderMap::new();
            headers.insert(header::CONTENT_TYPE, HeaderValue::from_static("application/json"));
            headers.insert(
                header::CONTENT_ENCODING,
                HeaderValue::from_static("zstd"),
            );
            headers
        }),
        body: Some("{\"error\":{\"message\":\"bad request\"}}".to_string()),
    });

    let (parts, bytes) = parts_of(response);
    let json: Value = serde_json::from_slice(&bytes).expect("json");

    assert_eq!(parts.status, 400);
    assert!(
        parts
            .headers
            .get(header::CONTENT_ENCODING)
            .is_none()
    );
    assert_eq!(
        parts
            .headers
            .get(header::CONTENT_TYPE)
            .and_then(|value| value.to_str().ok()),
        Some(JSON_CONTENT_TYPE)
    );
    assert_eq!(
        json.pointer("/error/message").and_then(Value::as_str),
        Some("bad request")
    );
}

#[test]
fn openai_transport_error_response_filters_non_openai_headers() {
    let response = openai_transport_error_response_ref(&TransportError::Http {
        status: 400,
        headers: Some({
            let mut headers = HeaderMap::new();
            headers.insert(header::CONTENT_TYPE, HeaderValue::from_static("application/json"));
            headers.insert(
                header::CACHE_CONTROL,
                HeaderValue::from_static("no-store"),
            );
            headers.insert(
                "x-codex-turn-state",
                HeaderValue::from_static("turn-state-123"),
            );
            headers.insert("traceparent", HeaderValue::from_static("00-abc-123-01"));
            headers
        }),
        body: Some("{\"error\":{\"message\":\"bad request\"}}".to_string()),
    });

    let (parts, bytes) = parts_of(response);
    let json: Value = serde_json::from_slice(&bytes).expect("json");

    assert_eq!(parts.status, 400);
    assert_eq!(
        parts
            .headers
            .get(header::CONTENT_TYPE)
            .and_then(|value| value.to_str().ok()),
        Some(JSON_CONTENT_TYPE)
    );
    assert_eq!(
        parts
            .headers
            .get(header::CACHE_CONTROL)
            .and_then(|value| value.to_str().ok()),
        Some("no-store")
    );
    assert!(parts.headers.get("x-codex-turn-state").is_none());
    assert!(parts.headers.get("traceparent").is_none());
    assert_eq!(
        json.pointer("/error/message").and_then(Value::as_str),
        Some("bad request")
    );
}

#[test]
fn openai_transport_error_response_wraps_non_enveloped_json() {
    let response = openai_transport_error_response_ref(&TransportError::Http {
        status: 400,
        headers: Some({
            let mut headers = HeaderMap::new();
            headers.insert(header::CONTENT_TYPE, HeaderValue::from_static("application/json"));
            headers
        }),
        body: Some("{\"detail\":\"bad request\"}".to_string()),
    });

    let (parts, bytes) = parts_of(response);
    let json: Value = serde_json::from_slice(&bytes).expect("json");

    assert_eq!(parts.status, 400);
    assert_eq!(
        parts
            .headers
            .get(header::CONTENT_TYPE)
            .and_then(|value| value.to_str().ok()),
        Some(JSON_CONTENT_TYPE)
    );
    assert_eq!(
        json.pointer("/error/message").and_then(Value::as_str),
        Some("bad request")
    );
    assert_eq!(
        json.pointer("/error/type").and_then(Value::as_str),
        Some("invalid_request_error")
    );
    assert_eq!(
        json.pointer("/error/code").and_then(Value::as_str),
        Some("invalid_request_error")
    );
    assert!(json.pointer("/detail").is_none());
}

#[test]
fn openai_refresh_failure_response_wraps_non_enveloped_json() {
    let response = openai_refresh_failure_response(&RefreshFailure {
        status: 400,
        body: "{\"detail\":\"bad refresh request\"}".to_string(),
        class: FailureClass::RequestRejected,
        retry_after: None,
    });

    let (parts, bytes) = parts_of(response);
    let json: Value = serde_json::from_slice(&bytes).expect("json");

    assert_eq!(parts.status, 400);
    assert_eq!(
        parts
            .headers
            .get(header::CONTENT_TYPE)
            .and_then(|value| value.to_str().ok()),
        Some(JSON_CONTENT_TYPE)
    );
    assert_eq!(
        json.pointer("/error/message").and_then(Value::as_str),
        Some("bad refresh request")
    );
    assert_eq!(
        json.pointer("/error/type").and_then(Value::as_str),
        Some("invalid_request_error")
    );
    assert_eq!(
        json.pointer("/error/code").and_then(Value::as_str),
        Some("invalid_request_error")
    );
    assert!(json.pointer("/detail").is_none());
}

#[test]
fn openai_transport_error_response_preserves_standard_openai_error_fields() {
    let response = openai_transport_error_response_ref(&TransportError::Http {
        status: 400,
        headers: Some({
            let mut headers = HeaderMap::new();
            headers.insert(header::CONTENT_TYPE, HeaderValue::from_static("application/json"));
            headers.insert(
                header::CACHE_CONTROL,
                HeaderValue::from_static("no-store"),
            );
            headers
        }),
        body: Some(
            "{\"error\":{\"message\":\"bad tool config\",\"type\":\"invalid_request_error\",\"param\":\"tools\",\"code\":\"invalid_value\"}}"
                .to_string(),
        ),
    });

    let (parts, bytes) = parts_of(response);
    let json: Value = serde_json::from_slice(&bytes).expect("json");

    assert_eq!(parts.status, 400);
    assert_eq!(
        parts
            .headers
            .get(header::CONTENT_TYPE)
            .and_then(|value| value.to_str().ok()),
        Some(JSON_CONTENT_TYPE)
    );
    assert_eq!(
        parts
            .headers
            .get(header::CACHE_CONTROL)
            .and_then(|value| value.to_str().ok()),
        Some("no-store")
    );
    assert_eq!(
        json.pointer("/error/message").and_then(Value::as_str),
        Some("bad tool config")
    );
    assert_eq!(
        json.pointer("/error/type").and_then(Value::as_str),
        Some("invalid_request_error")
    );
    assert_eq!(
        json.pointer("/error/param").and_then(Value::as_str),
        Some("tools")
    );
    assert_eq!(
        json.pointer("/error/code").and_then(Value::as_str),
        Some("invalid_value")
    );
}

#[test]
fn openai_transport_error_response_strips_nonstandard_fields_from_standard_error_shape() {
    let response = openai_transport_error_response_ref(&TransportError::Http {
        status: 400,
        headers: Some({
            let mut headers = HeaderMap::new();
            headers.insert(header::CONTENT_TYPE, HeaderValue::from_static("application/json"));
            headers
        }),
        body: Some(
            "{\"error\":{\"message\":\"bad tool config\",\"type\":\"invalid_request_error\",\"param\":\"tools\",\"code\":\"invalid_value\",\"resets_in_seconds\":77},\"plan_type\":\"plus\"}"
                .to_string(),
        ),
    });

    let (parts, bytes) = parts_of(response);
    let json: Value = serde_json::from_slice(&bytes).expect("json");

    assert_eq!(parts.status, 400);
    assert_eq!(
        json.pointer("/error/message").and_then(Value::as_str),
        Some("bad tool config")
    );
    assert_eq!(
        json.pointer("/error/type").and_then(Value::as_str),
        Some("invalid_request_error")
    );
    assert_eq!(
        json.pointer("/error/param").and_then(Value::as_str),
        Some("tools")
    );
    assert_eq!(
        json.pointer("/error/code").and_then(Value::as_str),
        Some("invalid_value")
    );
    assert!(json.pointer("/error/resets_in_seconds").is_none());
    assert!(json.pointer("/plan_type").is_none());
}

#[test]
fn openai_transport_error_response_rewraps_enveloped_non_openai_error_shape() {
    let response = openai_transport_error_response_ref(&TransportError::Http {
        status: 502,
        headers: Some({
            let mut headers = HeaderMap::new();
            headers.insert(header::CONTENT_TYPE, HeaderValue::from_static("application/json"));
            headers.insert(
                header::CACHE_CONTROL,
                HeaderValue::from_static("no-store"),
            );
            headers
        }),
        body: Some(
            "{\"error\":{\"type\":\"usage_limit_reached\",\"message\":\"The usage limit has been reached\",\"resets_in_seconds\":77}}"
                .to_string(),
        ),
    });

    let (parts, bytes) = parts_of(response);
    let json: Value = serde_json::from_slice(&bytes).expect("json");

    assert_eq!(parts.status, 502);
    assert_eq!(
        parts
            .headers
            .get(header::CONTENT_TYPE)
            .and_then(|value| value.to_str().ok()),
        Some(JSON_CONTENT_TYPE)
    );
    assert_eq!(
        parts
            .headers
            .get(header::CACHE_CONTROL)
            .and_then(|value| value.to_str().ok()),
        Some("no-store")
    );
    assert_eq!(
        json.pointer("/error/message").and_then(Value::as_str),
        Some("The usage limit has been reached")
    );
    assert_eq!(
        json.pointer("/error/type").and_then(Value::as_str),
        Some("permission_error")
    );
    assert_eq!(
        json.pointer("/error/code").and_then(Value::as_str),
        Some("insufficient_quota")
    );
    assert!(json.pointer("/error/param").is_some());
    assert!(json.pointer("/error/resets_in_seconds").is_none());
}

#[test]
fn openai_refresh_failure_response_rewraps_enveloped_non_openai_error_shape() {
    let response = openai_refresh_failure_response(&RefreshFailure {
        status: 502,
        body: "{\"error\":{\"type\":\"usage_limit_reached\",\"message\":\"The usage limit has been reached\",\"resets_in_seconds\":77}}".to_string(),
        class: FailureClass::QuotaExhausted,
        retry_after: None,
    });

    let (parts, bytes) = parts_of(response);
    let json: Value = serde_json::from_slice(&bytes).expect("json");

    assert_eq!(parts.status, 502);
    assert_eq!(
        parts
            .headers
            .get(header::CONTENT_TYPE)
            .and_then(|value| value.to_str().ok()),
        Some(JSON_CONTENT_TYPE)
    );
    assert_eq!(
        json.pointer("/error/message").and_then(Value::as_str),
        Some("The usage limit has been reached")
    );
    assert_eq!(
        json.pointer("/error/type").and_then(Value::as_str),
        Some("permission_error")
    );
    assert_eq!(
        json.pointer("/error/code").and_then(Value::as_str),
        Some("insufficient_quota")
    );
    assert!(json.pointer("/error/resets_in_seconds").is_none());
}

#[test]
fn openai_transport_error_response_hides_non_http_transport_details() {
    let response = openai_transport_error_response_ref(&TransportError::Build(
        "tls config failed: /tmp/secret.pem".to_string(),
    ));

    let (parts, bytes) = parts_of(response);
    let json: Value = serde_json::from_slice(&bytes).expect("json");

    assert_eq!(parts.status, 502);
    assert_eq!(
        parts
            .headers
            .get(header::CONTENT_TYPE)
            .and_then(|value| value.to_str().ok()),
        Some(JSON_CONTENT_TYPE)
    );
    assert_eq!(
        json.pointer("/error/message").and_then(Value::as_str),
        Some("Bad Gateway")
    );
    assert_eq!(
        json.pointer("/error/type").and_then(Value::as_str),
        Some("server_error")
    );
    assert_eq!(
        json.pointer("/error/code").and_then(Value::as_str),
        Some("internal_server_error")
    );
    assert!(
        !String::from_utf8(bytes.to_vec())
            .expect("utf8")
            .contains("/tmp/secret.pem")
    );
}

#[test]
fn set_content_type_replaces_existing_value() {
    let mut headers = HeaderMap::new();
    headers.insert(
        header::CONTENT_TYPE,
        HeaderValue::from_static("text/plain; charset=utf-8"),
    );

    set_content_type(&mut headers, SSE_CONTENT_TYPE);

    assert_eq!(
        headers
            .get(header::CONTENT_TYPE)
            .and_then(|value| value.to_str().ok()),
        Some(SSE_CONTENT_TYPE)
    );
}

#[test]
fn render_status_message_error_uses_sse_for_codex_responses_pre_stream() {
    let response = render_status_message_error(
        ResponseShape::Codex,
        FailureRenderMode::ResponsesPreStream,
        400,
        "bad request".to_string(),
    );

    let (parts, bytes) = parts_of(response);

    assert_eq!(parts.status, 200);
    assert_eq!(
        parts
            .headers
            .get(header::CONTENT_TYPE)
            .and_then(|value| value.to_str().ok()),
        Some(SSE_CONTENT_TYPE)
    );
    let text = String::from_utf8(bytes.to_vec()).expect("utf8");
    assert!(text.contains("event: response.failed"));
    assert!(text.contains("\"message\":\"bad request\""));
}

#[test]
fn render_status_message_error_uses_json_for_openai_responses_pre_stream() {
    let response = render_status_message_error(
        ResponseShape::OpenAi,
        FailureRenderMode::ResponsesPreStream,
        400,
        "bad request".to_string(),
    );

    let (parts, bytes) = parts_of(response);
    let json: Value = serde_json::from_slice(&bytes).expect("json");

    assert_eq!(parts.status, 400);
    assert_eq!(
        parts
            .headers
            .get(header::CONTENT_TYPE)
            .and_then(|value| value.to_str().ok()),
        Some(JSON_CONTENT_TYPE)
    );
    assert_eq!(
        json.pointer("/error/message").and_then(Value::as_str),
        Some("bad request")
    );
    assert_eq!(
        json.pointer("/error/type").and_then(Value::as_str),
        Some("invalid_request_error")
    );
}

#[test]
fn render_status_message_error_preserves_json_internal_for_openai_responses_pre_stream() {
    let response = render_status_message_error(
        ResponseShape::OpenAi,
        FailureRenderMode::ResponsesPreStream,
        500,
        "disk write failed".to_string(),
    );

    let (parts, bytes) = parts_of(response);
    let json: Value = serde_json::from_slice(&bytes).expect("json");

    assert_eq!(parts.status, 500);
    assert_eq!(
        parts
            .headers
            .get(header::CONTENT_TYPE)
            .and_then(|value| value.to_str().ok()),
        Some(JSON_CONTENT_TYPE)
    );
    assert_eq!(
        json.pointer("/error/message").and_then(Value::as_str),
        Some("disk write failed")
    );
    assert_eq!(
        json.pointer("/error/type").and_then(Value::as_str),
        Some("server_error")
    );
    assert_eq!(
        json.pointer("/error/code").and_then(Value::as_str),
        Some("internal_server_error")
    );
}

#[test]
fn render_status_message_error_preserves_json_internal_for_codex_responses_pre_stream() {
    let response = render_status_message_error(
        ResponseShape::Codex,
        FailureRenderMode::ResponsesPreStream,
        500,
        "disk write failed".to_string(),
    );

    let (parts, bytes) = parts_of(response);
    let text = String::from_utf8(bytes.to_vec()).expect("utf8");

    assert_eq!(parts.status, 200);
    assert_eq!(
        parts
            .headers
            .get(header::CONTENT_TYPE)
            .and_then(|value| value.to_str().ok()),
        Some(SSE_CONTENT_TYPE)
    );
    assert!(text.contains("event: response.failed"));
    assert!(text.contains("\"message\":\"disk write failed\""));
    assert!(text.contains("\"code\":\"internal_server_error\""));
    assert!(!text.contains("\"code\":\"server_is_overloaded\""));
}

#[test]
fn rewrite_openai_compact_response_body_rewrites_compaction_summary_items() {
    let mut body = json(r#"{"object":"response.compaction","output":[{"type":"message","role":"user","content":[{"type":"input_text","text":"hi"}]},{"type":"compaction_summary","encrypted_content":"abc"}]}"#);

    rewrite(&mut body);

    assert_eq!(
        body.pointer("/output/0/type").and_then(Value::as_str),
        Some("message")
    );
    assert_eq!(
        body.pointer("/output/1/type").and_then(Value::as_str),
        Some("compaction")
    );
    assert_eq!(
        body.pointer("/output/1/encrypted_content")
            .and_then(Value::as_str),
        Some("abc")
    );
}

#[test]
fn rewrite_openai_compact_response_body_is_noop_without_compaction_summary() {
    let mut body = json(r#"{"object":"response.compaction","output":[{"type":"message","role":"user"}]}"#);

    rewrite(&mut body);

    assert_eq!(
        body.pointer("/output/0/type").and_then(Value::as_str),
        Some("message")
    );
}

#[test]
fn openai_compact_success_response_sets_json_content_type() {
    let mut headers = HeaderMap::new();
    headers.insert(
        header::CONTENT_TYPE,
        HeaderValue::from_static("text/plain; charset=utf-8"),
    );
    headers.insert(
        header::CACHE_CONTROL,
        HeaderValue::from_static("no-store"),
    );
    headers.insert("x-codex-turn-state", HeaderValue::from_static("turn-123"));
    let body = json(r#"{"object":"response.compaction","output":[{"type":"compaction_summary","encrypted_content":"abc"}]}"#);

    let (headers, body) = shape_compact_success_response(ResponseShape::OpenAi, headers, lib(&body));

    let response = GatewayResponse { status: 200, headers, body: ResponseBody::Json(body) };
    let (parts, bytes) = parts_of(response);
    let json: Value = serde_json::from_slice(&bytes).expect("json");

    assert_eq!(
        parts
            .headers
            .get("content-type")
            .and_then(|value| value.to_str().ok()),
        Some(JSON_CONTENT_TYPE)
    );
    assert_eq!(
        parts
            .headers
            .get(header::CACHE_CONTROL)
            .and_then(|value| value.to_str().ok()),
        Some("no-store")
    );
    assert!(parts.headers.get("x-codex-turn-state").is_none());
    assert_eq!(
        json.pointer("/output/0/type").and_then(Value::as_str),
        Some("compaction")
    );
}

#[test]
fn models_openai_success_response_sets_json_content_type() {
    let snapshot = snapshot_of(&json(r#"{"models":[{"slug":"gpt-5.4","display_name":"GPT-5.4","description":null,"default_reasoning_level":"medium","supported_reasoning_levels":[],"shell_type":"shell_command","visibility":"list","supported_in_api":true,"priority":1,"availability_nux":null,"upgrade":null,"base_instructions":"","model_messages":null,"supports_reasoning_summaries":false,"default_reasoning_summary":"auto","support_verbosity":false,"default_verbosity":null,"apply_patch_tool_type":null,"web_search_tool_type":"text","truncation_policy":{"mode":"bytes","limit":10000},"supports_parallel_tool_calls":true,"supports_image_detail_original":false,"context_window":272000,"auto_compact_token_limit":null,"effective_context_window_percent":95,"experimental_supported_tools":[],"input_modalities":["text"],"used_fallback_model_metadata":false,"supports_search_tool":false}]}"#));
    let mut headers = HeaderMap::new();
    headers.insert(
        header::CONTENT_TYPE,
        HeaderValue::from_static("text/plain; charset=utf-8"),
    );
    headers.insert(
        header::CACHE_CONTROL,
        HeaderValue::from_static("no-store"),
    );
    headers.insert("x-codex-turn-state", HeaderValue::from_static("turn-123"));

    let response = models_openai_success_response(&snapshot, headers);
    let (parts, bytes) = parts_of(response);
    let json: Value = serde_json::from_slice(&bytes).expect("json");

    assert_eq!(
        parts
            .headers
            .get("content-type")
            .and_then(|value| value.to_str().ok()),
        Some(JSON_CONTENT_TYPE)
    );
    assert_eq!(
        parts
            .headers
            .get(header::CACHE_CONTROL)
            .and_then(|value| value.to_str().ok()),
        Some("no-store")
    );
    assert!(parts.headers.get("x-codex-turn-state").is_none());
    assert_eq!(
        json.pointer("/data/0/id").and_then(Value::as_str),
        Some("gpt-5.4")
    );
}

#[test]
fn shape_responses_success_headers_keeps_json_when_openai_stream_is_false() {
    let mut headers = HeaderMap::new();
    headers.insert(
        header::CONTENT_TYPE,
        HeaderValue::from_static("application/json"),
    );
    headers.insert(
        header::CACHE_CONTROL,
        HeaderValue::from_static("private, max-age=0"),
    );
    headers.insert("x-codex-turn-state", HeaderValue::from_static("turn-123"));
    headers.insert("traceparent", HeaderValue::from_static("00-abc-123-01"));

    let headers = shape_responses_success_headers(
        ResponseShape::OpenAi,
        &lib(&json(r#"{"model":"gpt-5.4","stream":false}"#)),
        headers,
    );

    assert_eq!(
        headers
            .get("content-type")
            .and_then(|value| value.to_str().ok()),
        Some("application/json")
    );
    assert_eq!(
        headers
            .get(header::CACHE_CONTROL)
            .and_then(|value| value.to_str().ok()),
        Some("private, max-age=0")
    );
    assert!(headers.get("x-codex-turn-state").is_none());
    assert!(headers.get("traceparent").is_none());
}

#[test]
fn shape_responses_success_headers_forces_sse_when_openai_streams() {
    let mut headers = HeaderMap::new();
    headers.insert(
        header::CONTENT_TYPE,
        HeaderValue::from_static("application/json"),
    );
    headers.insert(
        header::CACHE_CONTROL,
        HeaderValue::from_static("no-cache"),
    );
    headers.insert("x-codex-turn-state", HeaderValue::from_static("turn-123"));

    let headers = shape_responses_success_headers(
        ResponseShape::OpenAi,
        &lib(&json(r#"{"model":"gpt-5.4","stream":true}"#)),
        headers,
    );

    assert_eq!(
        headers
            .get("content-type")
            .and_then(|value| value.to_str().ok()),
        Some(SSE_CONTENT_TYPE)
    );
    assert_eq!(
        headers
            .get(header::CACHE_CONTROL)
            .and_then(|value| value.to_str().ok()),
        Some("no-cache")
    );
    assert!(headers.get("x-codex-turn-state").is_none());
}

#[test]
fn responses_streaming_defaults_to_true_when_stream_is_missing() {
    assert!(should_stream_responses_request(&lib(&json(r#"{"model":"gpt-5.4"}"#))));
}

#[test]
fn responses_streaming_is_enabled_when_stream_is_true() {
    assert!(should_stream_responses_request(&lib(&json(r#"{"model":"gpt-5.4","stream":true}"#))));
}

#[test]
fn responses_streaming_is_disabled_when_stream_is_false() {
    assert!(!should_stream_responses_request(&lib(&json(r#"{"model":"gpt-5.4","stream":false}"#))));
}

#[test]
fn unary_responses_success_headers_force_json_for_openai() {
    let mut headers = HeaderMap::new();
    headers.insert(
        header::CONTENT_TYPE,
        HeaderValue::from_static("text/plain; charset=utf-8"),
    );
    headers.insert(
        header::CACHE_CONTROL,
        HeaderValue::from_static("private"),
    );
    headers.insert("x-codex-turn-state", HeaderValue::from_static("turn-123"));

    let headers = shape_unary_responses_success_headers(ResponseShape::OpenAi, headers);

    assert_eq!(
        headers
            .get("content-type")
            .and_then(|value| value.to_str().ok()),
        Some(JSON_CONTENT_TYPE)
    );
    assert_eq!(
        headers
            .get(header::CACHE_CONTROL)
            .and_then(|value| value.to_str().ok()),
        Some("private")
    );
    assert!(headers.get("x-codex-turn-state").is_none());
}

#[test]
fn apply_turn_state_header_preserves_existing_value_when_upstream_has_none() {
    let mut headers = HeaderMap::new();
    headers.insert(
        "x-codex-turn-state",
        HeaderValue::from_static("existing-turn-state"),
    );

    apply_turn_state_header(&mut headers, None);

    assert_eq!(
        headers
            .get("x-codex-turn-state")
            .and_then(|value| value.to_str().ok()),
        Some("existing-turn-state")
    );
}

#[test]
fn stale_models_cached_entry_forces_no_store_cache_control() {
    let snapshot = snapshot_of(&json(r#"{"models":[{"slug":"gpt-5.4","display_name":"GPT-5.4","description":null,"default_reasoning_level":"medium","supported_reasoning_levels":[],"shell_type":"shell_command","visibility":"list","supported_in_api":true,"priority":1,"availability_nux":null,"upgrade":null,"base_instructions":"","model_messages":null,"supports_reasoning_summaries":false,"default_reasoning_summary":"auto","support_verbosity":false,"default_verbosity":null,"apply_patch_tool_type":null,"web_search_tool_type":"text","truncation_policy":{"mode":"bytes","limit":10000},"supports_parallel_tool_calls":true,"supports_image_detail_original":false,"context_window":272000,"auto_compact_token_limit":null,"effective_context_window_percent":95,"experimental_supported_tools":[],"input_modalities":["text"],"used_fallback_model_metadata":false,"supports_search_tool":false}]}"#));
    let mut headers = HeaderMap::new();
    headers.insert(
        header::CACHE_CONTROL,
        HeaderValue::from_static("private, max-age=60"),
    );

    let cache = ModelsCache { snapshot: Some(snapshot), response_headers: headers };
    let cached = cached_or_refreshing_models(&cache, None).expect("list at hand");
    assert!(cached.refresh);
    let headers = cached.headers;

    assert_eq!(
        headers
            .get(header::CACHE_CONTROL)
            .and_then(|value| value.to_str().ok()),
        Some("no-store")
    );
}

#[test]
fn responses_prepare_rewrites_non_codex_string_input_before_upstream() {
    let prepared = prepare_responses_request(
        FingerprintMode::Normalize,
        &{
            let mut headers = HeaderMap::new();
            headers.insert("originator", HeaderValue::from_static("openai-python"));
            headers
        },
        Ok(lib(&json(r#"{"model":"gpt-5.4","input":"hi","stream":true}"#))),
        None,
    )
    .expect("request prepared");

    assert_eq!(
        prepared.failure_context.response_shape,
        ResponseShape::OpenAi
    );
    let body = value(&prepared.body);
    assert_eq!(
        body.pointer("/input/0/type")
            .and_then(Value::as_str),
        Some("message")
    );
    assert_eq!(
        body.pointer("/input/0/role")
            .and_then(Value::as_str),
        Some("user")
    );
    assert_eq!(
        body.pointer("/input/0/content/0/type")
            .and_then(Value::as_str),
        Some("input_text")
    );
    assert_eq!(
        body.pointer("/input/0/content/0/text")
            .and_then(Value::as_str),
        Some("hi")
    );
}

#[test]
fn compact_prepare_rewrites_non_codex_string_input_before_upstream() {
    let prepared = prepare_compact_request(
        FingerprintMode::Normalize,
        &{
            let mut headers = HeaderMap::new();
            headers.insert("originator", HeaderValue::from_static("openai-python"));
            headers
        },
        Ok(lib(&json(r#"{"model":"gpt-5.4","input":"hi"}"#))),
        None,
    )
    .expect("request prepared");

    assert_eq!(
        prepared.failure_context.response_shape,
        ResponseShape::OpenAi
    );
    let body = value(&prepared.body);
    assert_eq!(
        body.pointer("/input/0/type")
            .and_then(Value::as_str),
        Some("message")
    );
    assert_eq!(
        body.pointer("/input/0/role")
            .and_then(Value::as_str),
        Some("user")
    );
    assert_eq!(
        body.pointer("/input/0/content/0/type")
            .and_then(Value::as_str),
        Some("input_text")
    );
    assert_eq!(
        body.pointer("/input/0/content/0/text")
            .and_then(Value::as_str),
        Some("hi")
    );
}

#[test]
fn compact_non_codex_invalid_gateway_returns_openai_json_error() {
    let response = prepare_compact_request(
        FingerprintMode::Normalize,
        &{
            let mut headers = HeaderMap::new();
            headers.insert("originator", HeaderValue::from_static("openai-python"));
            headers
        },
        Ok(lib(&json(r#"{"model":"gpt-5.4","_gateway":7}"#))),
        None,
    )
    .expect_err("request is refused")
    .into_response();

    let (status, headers, body) = response_parts(response);
    assert_eq!(status, 400);
    assert_eq!(
        headers
            .get("content-type")
            .and_then(|value| value.to_str().ok()),
        Some("application/json")
    );
    let json_body: Value = serde_json::from_slice(&body).expect("json body");
    assert!(json_body.get("error").is_some());
    assert!(json_body.pointer("/detail").is_none());
}

#[test]
fn compact_non_codex_pool_block_returns_openai_json_error() {
    let mut accounts = AccountStore::new("/accounts".to_string());
    let failure = resolve_selection_failure(
        &mut accounts,
        SelectionFailure::NoEligibleAccount,
        &Vec::new(),
        None,
    );
    let response = render_failover_failure(
        &failure,
        ResponseShape::OpenAi,
        FailureRenderMode::UnaryJson,
        "",
        None,
    );

    let (status, headers, body) = response_parts(response);
    assert_eq!(status, 503);
    assert_eq!(
        headers
            .get("content-type")
            .and_then(|value| value.to_str().ok()),
        Some("application/json")
    );
    let json_body: Value = serde_json::from_slice(&body).expect("json body");
    assert_eq!(
        json_body.pointer("/error/code").and_then(Value::as_str),
        Some("server_is_overloaded")
    );
    assert_eq!(
        json_body.pointer("/error/type").and_then(Value::as_str),
        Some("server_error")
    );
    assert!(json_body.pointer("/detail").is_none());
}

#[test]
fn models_non_codex_pool_block_returns_openai_json_error() {
    let mut accounts = AccountStore::new("/accounts".to_string());
    let failure = resolve_selection_failure(
        &mut accounts,
        SelectionFailure::NoEligibleAccount,
        &Vec::new(),
        None,
    );
    let response = render_failover_failure(
        &failure,
        ResponseShape::OpenAi,
        FailureRenderMode::UnaryJson,
        "",
        None,
    );

    let (status, headers, body) = response_parts(response);
    assert_eq!(status, 503);
    assert_eq!(
        headers
            .get("content-type")
            .and_then(|value| value.to_str().ok()),
        Some("application/json")
    );
    let json_body: Value = serde_json::from_slice(&body).expect("json body");
    assert_eq!(
        json_body.pointer("/error/code").and_then(Value::as_str),
        Some("server_is_overloaded")
    );
    assert_eq!(
        json_body.pointer("/error/type").and_then(Value::as_str),
        Some("server_error")
    );
}

#[test]
fn responses_codex_invalid_gateway_returns_synthetic_sse() {
    let response = prepare_responses_request(
        FingerprintMode::Normalize,
        &{
            let mut headers = HeaderMap::new();
            headers.insert("originator", HeaderValue::from_static("codex-tui"));
            headers
        },
        Ok(lib(&json(r#"{"model":"gpt-5.4","_gateway":7,"stream":true}"#))),
        None,
    )
    .expect_err("request is refused")
    .into_response();

    let (status, headers, body) = response_parts(response);
    assert_eq!(status, 200);
    assert_eq!(
        headers
            .get("content-type")
            .and_then(|value| value.to_str().ok()),
        Some("text/event-stream")
    );
    let text = String::from_utf8(body.to_vec()).expect("utf8");
    assert!(text.contains("event: response.failed"));
    assert!(text.contains("_gateway must be null or object"));
}

#[test]
fn responses_non_codex_invalid_gateway_returns_openai_json_error() {
    let response = prepare_responses_request(
        FingerprintMode::Normalize,
        &{
            let mut headers = HeaderMap::new();
            headers.insert("originator", HeaderValue::from_static("openai-python"));
            headers
        },
        Ok(lib(&json(r#"{"model":"gpt-5.4","_gateway":7,"stream":true}"#))),
        None,
    )
    .expect_err("request is refused")
    .into_response();

    let (status, headers, body) = response_parts(response);
    assert_eq!(status, 400);
    assert_eq!(
        headers
            .get("content-type")
            .and_then(|value| value.to_str().ok()),
        Some("application/json")
    );
    let json_body: Value = serde_json::from_slice(&body).expect("json body");
    assert_eq!(
        json_body.pointer("/error/type").and_then(Value::as_str),
        Some("invalid_request_error")
    );
    assert!(json_body.pointer("/detail").is_none());
}

#[test]
fn responses_prepare_stream_false_uses_unary_failure_mode() {
    let prepared = prepare_responses_request(
        FingerprintMode::Normalize,
        &{
            let mut headers = HeaderMap::new();
            headers.insert("originator", HeaderValue::from_static("openai-python"));
            headers
        },
        Ok(lib(&json(r#"{"model":"gpt-5.4","input":"hi","stream":false}"#))),
        None,
    )
    .expect("request prepared");

    assert_eq!(
        prepared.failure_context.render_mode,
        FailureRenderMode::UnaryJson
    );
}

#[test]
fn responses_non_codex_stream_false_invalid_gateway_returns_unary_json_error() {
    let response = prepare_responses_request(
        FingerprintMode::Normalize,
        &{
            let mut headers = HeaderMap::new();
            headers.insert("originator", HeaderValue::from_static("openai-python"));
            headers
        },
        Ok(lib(&json(r#"{"model":"gpt-5.4","_gateway":7,"stream":false}"#))),
        None,
    )
    .expect_err("request is refused")
    .into_response();

    let (status, headers, body) = response_parts(response);
    assert_eq!(status, 400);
    assert_eq!(
        headers
            .get("content-type")
            .and_then(|value| value.to_str().ok()),
        Some("application/json")
    );
    let text = String::from_utf8(body.to_vec()).expect("utf8");
    assert!(!text.contains("response.failed"));
    let json_body: Value = serde_json::from_slice(text.as_bytes()).expect("json body");
    assert_eq!(
        json_body.pointer("/error/type").and_then(Value::as_str),
        Some("invalid_request_error")
    );
}

#[test]
fn pool_blocked_quota_into_response_is_structured_json() {
    let until = in_minutes(10);
    let response = FailoverFailure::PoolBlocked(PoolBlockSummary {
        blocked_reason: BlockedReason::QuotaExhausted,
        blocked_until: Some(until),
        retry_after: Some(Delay::from_secs(600)),
    })
    .into_response("");

    let (status, _headers, body) = response_parts(response);
    assert_eq!(status, 503);
    let (_, headers, _) = response_parts(
        FailoverFailure::PoolBlocked(PoolBlockSummary {
            blocked_reason: BlockedReason::QuotaExhausted,
            blocked_until: Some(until),
            retry_after: Some(Delay::from_secs(600)),
        })
        .into_response("")
    );
    assert!(headers.get("retry-after").is_none());
    let json: Value = serde_json::from_slice(&body).expect("json");
    assert_eq!(
        json.pointer("/error/code").and_then(Value::as_str),
        Some("server_is_overloaded")
    );
    assert_eq!(
        json.pointer("/error/message").and_then(Value::as_str),
        Some("No account available right now. Try again later.")
    );
    assert!(json.pointer("/error/type").is_none());
    assert!(json.pointer("/error/resets_in_seconds").is_none());
    assert!(json.pointer("/error/resets_at").is_none());
}

#[test]
fn pool_blocked_auth_invalid_into_response_is_structured_json() {
    let response = FailoverFailure::PoolBlocked(PoolBlockSummary {
        blocked_reason: BlockedReason::AuthInvalid,
        blocked_until: None,
        retry_after: None,
    })
    .into_response("");

    let (status, headers, body) = response_parts(response);
    assert_eq!(status, 503);
    assert!(headers.get("retry-after").is_none());
    let json: Value = serde_json::from_slice(&body).expect("json");
    assert_eq!(
        json.pointer("/error/code").and_then(Value::as_str),
        Some("server_is_overloaded")
    );
    assert_eq!(
        json.pointer("/error/message").and_then(Value::as_str),
        Some("No account available right now. Try again later.")
    );
    assert!(json.pointer("/error/resets_in_seconds").is_none());
    assert!(json.pointer("/error/resets_at").is_none());
}

#[test]
fn resolve_selection_failure_uses_auth_invalid_candidate_before_generic_json() {
    let mut accounts = AccountStore::new("/accounts".to_string());

    let failure = resolve_selection_failure(
        &mut accounts,
        SelectionFailure::NoEligibleAccount,
        &Vec::new(),
        Some(PoolBlockSummary {
            blocked_reason: BlockedReason::AuthInvalid,
            blocked_until: None,
            retry_after: None,
        }),
    );

    match failure {
        FailoverFailure::PoolBlocked(summary) => {
            assert_eq!(
                summary.blocked_reason,
                BlockedReason::AuthInvalid
            );
            assert!(summary.retry_after.is_none());
            assert!(summary.blocked_until.is_none());
        }
        other => panic!("unexpected failure: {other:?}"),
    }
}

#[test]
fn resolve_selection_failure_no_eligible_returns_generic_pool_block_before_retryable_response() {
    let mut accounts = AccountStore::new("/accounts".to_string());

    let failure = resolve_selection_failure(
        &mut accounts,
        SelectionFailure::NoEligibleAccount,
        &Vec::new(),
        None,
    );

    match failure {
        FailoverFailure::PoolBlocked(summary) => {
            assert_eq!(
                summary.blocked_reason,
                BlockedReason::TemporarilyUnavailable
            );
            assert!(summary.retry_after.is_none());
            assert!(summary.blocked_until.is_none());
        }
        other => panic!("unexpected failure: {other:?}"),
    }
}

#[test]
fn resolve_selection_failure_uses_refresh_in_flight_summary_before_generic_json() {
    let mut accounts = AccountStore::new("/accounts".to_string());
    let id = import(&mut accounts, "rt_123");
    mark_refresh_in_flight(&mut accounts, &id);

    let failure = resolve_selection_failure(
        &mut accounts,
        SelectionFailure::NoEligibleAccount,
        &Vec::new(),
        None,
    );

    match failure {
        FailoverFailure::PoolBlocked(summary) => {
            assert_eq!(
                summary.blocked_reason,
                BlockedReason::TemporarilyUnavailable
            );
            assert_eq!(summary.retry_after, Some(Delay::from_secs(1)));
            assert!(summary.blocked_until.is_some());
        }
        other => panic!("unexpected failure: {other:?}"),
    }
}

#[test]
fn resolve_selection_failure_prefers_refresh_in_flight_over_blocked_summary() {
    let mut accounts = AccountStore::new("/accounts".to_string());
    let blocked = import(&mut accounts, "rt_blocked");
    let refreshing = import(&mut accounts, "rt_refreshing");

    {
        let record = record_mut(&mut accounts, &blocked);
        record.blocked_reason = Some(BlockedReason::QuotaExhausted);
        record.blocked_source = Some(BlockedSource::UpstreamRetryAfter);
        record.blocked_until = Some(in_minutes(10));
        record.routing_state = RoutingState::Cooldown;
    }
    mark_refresh_in_flight(&mut accounts, &refreshing);

    let failure = resolve_selection_failure(
        &mut accounts,
        SelectionFailure::NoEligibleAccount,
        &Vec::new(),
        None,
    );

    match failure {
        FailoverFailure::PoolBlocked(summary) => {
            assert_eq!(
                summary.blocked_reason,
                BlockedReason::TemporarilyUnavailable
            );
            assert_eq!(summary.retry_after, Some(Delay::from_secs(1)));
            assert!(summary.blocked_until.is_some());
        }
        other => panic!("unexpected failure: {other:?}"),
    }
}

#[test]
fn resolve_selection_failure_excludes_current_failed_account_from_pool_summary() {
    let mut accounts = AccountStore::new("/accounts".to_string());
    let blocked = import(&mut accounts, "rt_blocked");
    let refreshing = import(&mut accounts, "rt_refreshing");

    {
        let record = record_mut(&mut accounts, &blocked);
        record.blocked_reason = Some(BlockedReason::QuotaExhausted);
        record.blocked_source = Some(BlockedSource::UpstreamRetryAfter);
        record.blocked_until = Some(in_minutes(10));
        record.routing_state = RoutingState::Cooldown;
    }
    mark_refresh_in_flight(&mut accounts, &refreshing);

    let excluded_accounts = vec![blocked];
    let failure = resolve_selection_failure(
        &mut accounts,
        SelectionFailure::NoEligibleAccount,
        &excluded_accounts,
        None,
    );

    match failure {
        FailoverFailure::PoolBlocked(summary) => {
            assert_eq!(
                summary.blocked_reason,
                BlockedReason::TemporarilyUnavailable
            );
            assert_eq!(summary.retry_after, Some(Delay::from_secs(1)));
            assert!(summary.blocked_until.is_some());
        }
        other => panic!("unexpected failure: {other:?}"),
    }
}

#[test]
fn failover_failure_into_response_keeps_compact_http_error_shape() {
    let response = FailoverFailure::Transport(TransportError::Http {
        status: 403,
        headers: Some({
            let mut headers = HeaderMap::new();
            headers.insert(
                "x-codex-primary-used-percent",
                HeaderValue::from_static("95.0"),
            );
            headers
        }),
        body: Some("{\"error\":{\"message\":\"forbidden\"}}".to_string()),
    })
    .into_response("");

    let (status, headers, body) = response_parts(response);
    assert_eq!(status, 403);
    assert_eq!(
        headers
            .get("x-codex-primary-used-percent")
            .and_then(|value| value.to_str().ok()),
        Some("0.0")
    );
    assert_eq!(
        serde_json::from_slice::<Value>(&body)
            .expect("json")
            .pointer("/error/message")
            .and_then(Value::as_str),
        Some("forbidden")
    );
}

#[test]
fn transport_http_failure_response_sanitizes_hop_by_hop_headers() {
    let response = FailoverFailure::Transport(TransportError::Http {
        status: 502,
        headers: Some({
            let mut headers = HeaderMap::new();
            headers.insert("connection", HeaderValue::from_static("keep-alive, x-next"));
            headers.insert("keep-alive", HeaderValue::from_static("timeout=5"));
            headers.insert("transfer-encoding", HeaderValue::from_static("chunked"));
            headers.insert("upgrade", HeaderValue::from_static("websocket"));
            headers.insert("x-next", HeaderValue::from_static("value-b"));
            headers.insert("content-type", HeaderValue::from_static("application/json"));
            headers
        }),
        body: Some("{\"error\":{\"message\":\"upstream failed\"}}".to_string()),
    })
    .into_response("");

    let (status, headers, body) = response_parts(response);
    assert_eq!(status, 502);
    assert!(headers.get("connection").is_none());
    assert!(headers.get("keep-alive").is_none());
    assert!(headers.get("transfer-encoding").is_none());
    assert!(headers.get("upgrade").is_none());
    assert!(headers.get("x-next").is_none());
    assert!(headers.get("content-length").is_none());
    assert_eq!(
        headers
            .get("content-type")
            .and_then(|value| value.to_str().ok()),
        Some("application/json")
    );
    assert_eq!(
        serde_json::from_slice::<Value>(&body)
            .expect("json")
            .pointer("/error/message")
            .and_then(Value::as_str),
        Some("upstream failed")
    );
}

#[test]
fn responses_pre_stream_http_429_returns_synthetic_sse() {
    let response = pre_stream(&FailoverFailure::Transport(
        TransportError::Http {
            status: 429,
            headers: Some({
                let mut headers = HeaderMap::new();
                headers.insert("retry-after", HeaderValue::from_static("11"));
                headers.insert(
                    "x-codex-primary-used-percent",
                    HeaderValue::from_static("95.0"),
                );
                headers
            }),
            body: Some(
                "{\"error\":{\"message\":\"Rate limit reached for gpt-5.4. Please try again in 11s.\",\"code\":\"rate_limit_exceeded\"}}"
                    .to_string(),
            ),
        },
    ), ResponseShape::Codex);

    let (status, headers, body) = response_parts(response);
    assert_eq!(status, 200);
    assert_eq!(
        headers
            .get("content-type")
            .and_then(|value| value.to_str().ok()),
        Some("text/event-stream")
    );
    assert!(headers.get("connection").is_none());
    assert!(headers.get("x-codex-primary-used-percent").is_none());
    let text = String::from_utf8(body.to_vec()).expect("utf8");
    assert!(text.contains("event: response.failed"));
    assert!(text.contains("\"code\":\"server_is_overloaded\""));
    assert!(text.contains("No account available right now. Try again later."));
}

#[test]
fn responses_pre_stream_refresh_quota_failure_returns_synthetic_sse() {
    let response = pre_stream(&FailoverFailure::Refresh(
        RefreshFailure {
            status: 403,
            body: "{\"error\":{\"message\":\"You exceeded your current quota, please check your plan and billing details.\",\"code\":\"insufficient_quota\"}}".to_string(),
            class: FailureClass::QuotaExhausted,
            retry_after: None,
        },
    ), ResponseShape::Codex);

    let (status, headers, body) = response_parts(response);
    assert_eq!(status, 200);
    assert_eq!(
        headers
            .get("content-type")
            .and_then(|value| value.to_str().ok()),
        Some("text/event-stream")
    );

    let text = String::from_utf8(body.to_vec()).expect("utf8");
    assert!(text.contains("\"code\":\"server_is_overloaded\""));
    assert!(text.contains("No account available right now. Try again later."));
}

#[test]
fn responses_pre_stream_non_json_500_returns_synthetic_sse() {
    let response = pre_stream(
        &FailoverFailure::Transport(TransportError::Http {
            status: 500,
            headers: None,
            body: Some("upstream exploded".to_string()),
        }),
        ResponseShape::Codex,
    );

    let (status, headers, body) = response_parts(response);
    assert_eq!(status, 200);
    assert_eq!(
        headers
            .get("content-type")
            .and_then(|value| value.to_str().ok()),
        Some("text/event-stream")
    );
    let text = String::from_utf8(body.to_vec()).expect("utf8");
    assert!(text.contains("\"code\":\"server_is_overloaded\""));
    assert!(text.contains("No account available right now. Try again later."));
}

#[test]
fn responses_pre_stream_http_429_returns_json_error_for_non_codex_clients() {
    let response = pre_stream(
        &FailoverFailure::Transport(TransportError::Http {
            status: 429,
            headers: Some({
                let mut headers = HeaderMap::new();
                headers.insert("retry-after", HeaderValue::from_static("11"));
                headers.insert(
                    "x-codex-primary-used-percent",
                    HeaderValue::from_static("95.0"),
                );
                headers
            }),
            body: Some(
                "{\"error\":{\"message\":\"Rate limit reached for gpt-5.4. Please try again in 11s.\",\"code\":\"rate_limit_exceeded\"}}"
                    .to_string(),
            ),
        }),
        ResponseShape::OpenAi,
    );

    let (status, headers, body) = response_parts(response);
    assert_eq!(status, 503);
    assert_eq!(
        headers
            .get("content-type")
            .and_then(|value| value.to_str().ok()),
        Some("application/json")
    );
    assert!(headers.get("connection").is_none());
    let text = String::from_utf8(body.to_vec()).expect("utf8");
    assert!(text.contains("\"code\":\"server_is_overloaded\""));
    assert!(text.contains("No account available right now. Try again later."));
    assert!(!text.contains("response.failed"));
}

#[test]
fn responses_pre_stream_plain_text_http_failure_returns_openai_json_error_for_non_codex_clients() {
    let response = pre_stream(
        &FailoverFailure::Transport(TransportError::Http {
            status: 500,
            headers: Some({
                let mut headers = HeaderMap::new();
                headers.insert(
                    "content-type",
                    HeaderValue::from_static("text/plain; charset=utf-8"),
                );
                headers
            }),
            body: Some("upstream exploded".to_string()),
        }),
        ResponseShape::OpenAi,
    );

    let (status, headers, body) = response_parts(response);
    assert_eq!(status, 503);
    assert_eq!(
        headers
            .get("content-type")
            .and_then(|value| value.to_str().ok()),
        Some("application/json")
    );
    let text = String::from_utf8(body.to_vec()).expect("utf8");
    assert!(text.contains("No account available right now. Try again later."));
    assert!(text.contains("\"type\":\"server_error\""));
    assert!(text.contains("\"code\":\"server_is_overloaded\""));
    assert!(text.contains("\"param\":null"));
}

#[test]
fn responses_pre_stream_plain_text_unauthorized_uses_authentication_error_for_non_codex_clients() {
    let response = pre_stream(
        &FailoverFailure::Transport(TransportError::Http {
            status: 401,
            headers: None,
            body: Some("no auth".to_string()),
        }),
        ResponseShape::OpenAi,
    );

    let (status, _headers, body) = response_parts(response);
    assert_eq!(status, 503);
    let text = String::from_utf8(body.to_vec()).expect("utf8");
    assert!(text.contains("\"type\":\"server_error\""));
    assert!(text.contains("\"code\":\"server_is_overloaded\""));
}

#[test]
fn responses_pre_stream_plain_text_forbidden_uses_permission_error_for_non_codex_clients() {
    let response = pre_stream(
        &FailoverFailure::Transport(TransportError::Http {
            status: 403,
            headers: None,
            body: Some("forbidden".to_string()),
        }),
        ResponseShape::OpenAi,
    );

    let (status, _headers, body) = response_parts(response);
    assert_eq!(status, 503);
    let text = String::from_utf8(body.to_vec()).expect("utf8");
    assert!(text.contains("\"type\":\"server_error\""));
    assert!(text.contains("\"code\":\"server_is_overloaded\""));
}

#[test]
fn responses_pre_stream_pool_block_returns_json_error_for_non_codex_clients() {
    let response = pre_stream(
        &FailoverFailure::PoolBlocked(PoolBlockSummary {
            blocked_reason: BlockedReason::QuotaExhausted,
            blocked_until: None,
            retry_after: None,
        }),
        ResponseShape::OpenAi,
    );

    let (status, headers, body) = response_parts(response);
    assert_eq!(status, 503);
    assert_eq!(
        headers
            .get("content-type")
            .and_then(|value| value.to_str().ok()),
        Some("application/json")
    );
    let text = String::from_utf8(body.to_vec()).expect("utf8");
    assert!(text.contains("No account available right now. Try again later."));
    assert!(text.contains("\"code\":\"server_is_overloaded\""));
    assert!(text.contains("\"type\":\"server_error\""));
    assert!(!text.contains("response.failed"));
}


#[test]
fn unreadable_bodies_are_refused_with_their_own_status() {
    let mut headers = HeaderMap::new();
    headers.insert("originator", HeaderValue::from_static("openai-python"));
    let response = prepare_compact_request(
        FingerprintMode::Normalize,
        &headers,
        Err(BodyRejection { status: 415, message: "no JSON".to_string() }),
        None,
    )
    .expect_err("request is refused")
    .into_response();
    let (status, _headers, body) = response_parts(response);
    assert_eq!(status, 415);
    let json_body: Value = serde_json::from_slice(&body).expect("json body");
    assert_eq!(json_body.pointer("/error/message").and_then(Value::as_str), Some("no JSON"));
}

#[test]
fn session_sources_end_up_in_the_header() {
    let pending = prepare_responses_request(
        FingerprintMode::Normalize,
        &HeaderMap::new(),
        Ok(lib(&json(r#"{"model":"m","_gateway":{"session_source":"exec"}}"#))),
        None,
    )
    .expect("request prepared");
    let prepared = finish_request(pending, HeaderMap::new(), Ok("\"exec\"")).expect("source is read");
    assert_eq!(
        prepared.headers.get("x-codex-session-source").and_then(|value| value.to_str().ok()),
        Some("\"exec\"")
    );
    let pending = prepare_responses_request(
        FingerprintMode::Normalize,
        &HeaderMap::new(),
        Ok(lib(&json(r#"{"model":"m","_gateway":{"session_source":7}}"#))),
        None,
    )
    .expect("request prepared");
    let error = finish_request(pending, HeaderMap::new(), Err("no number")).expect_err("refused");
    assert_eq!(error.status, 400);
    assert!(error.message.contains("no number"));
}

#[test]
fn fresh_lists_keep_their_headers() {
    let mut headers = HeaderMap::new();
    headers.insert(header::CACHE_CONTROL, HeaderValue::from_static("private, max-age=60"));
    let cache = ModelsCache {
        snapshot: Some(snapshot_of(&json(r#"{"models":[]}"#))),
        response_headers: headers,
    };
    let fresh = cached_or_refreshing_models(&cache, Some(Delay::from_secs(43200))).expect("at hand");
    assert!(!fresh.refresh);
    assert_eq!(
        fresh.headers.get(header::CACHE_CONTROL).and_then(|value| value.to_str().ok()),
        Some("private, max-age=60")
    );
    let stale = cached_or_refreshing_models(&cache, Some(Delay { nanos: 43_200_000_000_001 })).expect("at hand");
    assert!(stale.refresh);
    let empty = ModelsCache { snapshot: None, response_headers: HeaderMap::new() };
    assert!(cached_or_refreshing_models(&empty, None).is_none());
}

#[test]
fn answers_that_are_no_models_are_told_apart() {
    assert_eq!(read_models_body(b"nope").unwrap_err(), "decode upstream json body");
    assert_eq!(read_models_body(b"\"\xff\"").unwrap_err(), "decode upstream json body");
    assert!(matches!(body_as_json("\"é\"".as_bytes()), Ok(Json::Text(text)) if text == "é"));
    assert_eq!(
        read_models_body(br#"{"data":[]}"#).unwrap_err(),
        "decode models response as Codex models list"
    );
    assert!(read_models_body(br#"{"models":[]}"#).is_ok());
}

#[test]
fn turn_states_that_a_header_cannot_carry_are_dropped() {
    let mut headers = HeaderMap::new();
    apply_turn_state_header(&mut headers, Some("turn\nstate"));
    assert!(headers.is_empty());
    apply_turn_state_header(&mut headers, Some("turn-1"));
    assert_eq!(headers.get("x-codex-turn-state").unwrap(), "turn-1");
}

#[test]
fn sanitizing_twice_is_sanitizing_once() {
    let mut headers = HeaderMap::new();
    headers.insert("connection", HeaderValue::from_static("x-a , X-B"));
    headers.insert("x-a", HeaderValue::from_static("1"));
    headers.insert("x-b", HeaderValue::from_static("2"));
    headers.insert("x-c", HeaderValue::from_static("3"));
    headers.append("x-c", HeaderValue::from_static("4"));
    headers.insert("content-length", HeaderValue::from_static("9"));
    headers.insert("x-codex-secondary-used-percent", HeaderValue::from_static("12.5"));
    let once = sanitize_response_headers(&headers);
    assert_eq!(once.get_all("x-c").iter().count(), 2);
    assert_eq!(once.get("x-codex-secondary-used-percent").unwrap(), "0.0");
    assert_eq!(once.len(), 3);
    assert_eq!(sanitize_response_headers(&once), once);
    assert!(takes_one_more(&once));
}

#[test]
fn upstream_answers_are_passed_on_to_codex_clients_in_one_piece() {
    let failure = || FailoverFailure::Transport(TransportError::Http {
        status: 429,
        headers: None,
        body: Some("slow down".to_string()),
    });
    let answer = |shape, mode| {
        let (status, _, body) =
            response_parts(render_failover_failure(&failure(), shape, mode, "", None));
        (status, String::from_utf8(body).expect("utf8"))
    };
    let told = (429, "slow down".to_string());
    assert_eq!(answer(ResponseShape::Codex, FailureRenderMode::UnaryJson), told);
    let (status, _, body) = response_parts(failure().into_response(""));
    assert_eq!((status, String::from_utf8(body).expect("utf8")), told);
    for (shape, mode, expected) in [
        (ResponseShape::Codex, FailureRenderMode::ResponsesPreStream, 200),
        (ResponseShape::OpenAi, FailureRenderMode::UnaryJson, 503),
        (ResponseShape::OpenAi, FailureRenderMode::ResponsesPreStream, 503),
    ] {
        let (status, body) = answer(shape, mode);
        assert_eq!(status, expected);
        assert!(!body.contains("slow down"));
    }
    let failure = FailoverFailure::Transport(TransportError::Timeout);
    let (status, _, _) = response_parts(failure.into_response("timeout"));
    assert_eq!(status, 503);
}

#[test]
fn internal_details_are_not_told() {
    for shape in [ResponseShape::Codex, ResponseShape::OpenAi] {
        for mode in [FailureRenderMode::UnaryJson, FailureRenderMode::ResponsesPreStream] {
            let failure =
                FailoverFailure::Internal { status: 502, detail: "secret detail".to_string() };
            let (_, _, body) =
                response_parts(render_failover_failure(&failure, shape, mode, "", None));
            let text = String::from_utf8(body).expect("utf8");
            assert!(!text.contains("secret detail"));
            assert!(text.contains("Bad Gateway"));
        }
    }
}

#[test]
fn administration_answers_name_what_is_wrong() {
    let (status, _, body) = response_parts(empty_refresh_token_response());
    assert_eq!(status, 400);
    assert_eq!(
        String::from_utf8(body).unwrap(),
        r#"{"error":{"message":"refresh_token must not be empty"}}"#
    );
    let (status, _, body) = response_parts(import_failure_response());
    assert_eq!(status, 500);
    assert_eq!(
        String::from_utf8(body).unwrap(),
        r#"{"error":{"message":"internal server error"}}"#
    );
    let (status, _, body) = response_parts(unknown_account_response("a1"));
    assert_eq!(status, 404);
    assert!(String::from_utf8(body).unwrap().contains("a1"));
    assert_eq!((import_status(false), import_status(true)), (201, 200));
    let (status, _, body) = response_parts(routing_policy_response(RoutingPolicy::FillFirst));
    assert_eq!(status, 200);
    assert!(String::from_utf8(body).unwrap().contains("fill_first"));
    assert!(matches!(requested_routing_policy(Some("round_robin")), Ok(RoutingPolicy::RoundRobin)));
    assert!(requested_routing_policy(Some("other")).is_err());
    assert!(requested_routing_policy(None).is_err());
}
