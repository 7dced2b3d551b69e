//! What clients get to see.
use crate::api::{
    body_json, compact_body, finishes, not_kept, prepares, responses_context, responses_headers,
    serves_kept, streams, success_headers, typed_headers, CachedModels, FailureContext,
    PendingJsonRequest, PreparedJsonRequest, PreparedRequestError,
};
use crate::admin::{policy_object, unknown_account_text};
use crate::classifier::{transport_class, FailureClass, TransportError};
use crate::config::{not_loopback_text, RoutingPolicy};
use crate::error_laws::{
    forbidden_answers_are_told_apart, limits_are_told_by_words, other_answers_blame_the_request,
    says_nothing, server_errors_pass, speaks_of_limits, told, too_many_requests_are_limited,
};
use crate::error_semantics::{delay_of, owned_text, text_payload, PayloadView, RetryAfter};
use crate::failover::{FailoverFailure, RefreshFailure};
use crate::gateway_errors::{
    failover_payload, failure_delay, failure_response, openai_body_of, openai_failure,
    openai_upstream_response, refresh_response,
    BodyView, FailureRenderMode, ResponseView,
};
use crate::headers::{header_entries, header_text, header_value, value_byte, value_text};
use crate::http_shape::{connection_names, is_piece, listed, openai_headers, piece_name, sanitized};
use crate::json::{parsed_json, JsonView};
use crate::models::{
    entries_view, is_fresh, model_of, models_in, models_of, openai_models, parallel_calls,
    parallel_default, shape_for, ModelsCache, ModelsSnapshot, ResponseShape,
};
use crate::request_normalization::{gateway_override, with_session_source, OverrideView};
use crate::responses::failure::{
    error_event, error_object, error_retry, failed_event, http_fallback_code, next_sequence,
    sse_bytes, transport_payload, unavailable,
};
use crate::responses::websocket::replies::{
    failover_event, failure_event, failure_status, retry_seconds,
};
use crate::status::canonical_reason;
use crate::text::{begins_with, decimal, has_text, lower, signed_decimal, trimmed};
use crate::time::{delay_text, Delay, Timestamp};
use http::{HeaderMap, HeaderValue};
use vstd::prelude::*;
use vstd::utf8::{
    decode_utf8, encode_utf8, is_ascii_chars, is_ascii_chars_encode_utf8, valid_utf8,
};

verus! {

/// The names of fields that stand side by side in what is sent, all of them different.
proof fn lemma_names()
    ensures
        "code"@.len() == 4 && "code"@[0] == 'c',
        "type"@.len() == 4 && "type"@[0] == 't',
        "data"@.len() == 4 && "data"@[0] == 'd',
        "message"@.len() == 7 && "message"@[0] == 'm',
        "created"@.len() == 7 && "created"@[0] == 'c',
        "headers"@.len() == 7 && "headers"@[0] == 'h',
        "plan_type"@.len() == 9 && "plan_type"@[0] == 'p',
        "resets_at"@.len() == 9 && "resets_at"@[0] == 'r',
        "resets_in_seconds"@.len() == 17,
        "param"@.len() == 5 && "param"@[0] == 'p',
        "error"@.len() == 5 && "error"@[0] == 'e',
        "id"@.len() == 2,
        "object"@.len() == 6 && "object"@[0] == 'o',
        "status"@.len() == 6 && "status"@[0] == 's',
        "owned_by"@.len() == 8 && "owned_by"@[0] == 'o',
        "response"@.len() == 8 && "response"@[0] == 'r',
        "created_at"@.len() == 10 && "created_at"@[0] == 'c',
        "background"@.len() == 10 && "background"@[0] == 'b',
        "incomplete_details"@.len() == 18,
        "sequence_number"@.len() == 15,
        "retry-after"@.len() == 11,
{
    reveal_strlit("code");
    reveal_strlit("type");
    reveal_strlit("data");
    reveal_strlit("message");
    reveal_strlit("created");
    reveal_strlit("headers");
    reveal_strlit("plan_type");
    reveal_strlit("resets_at");
    reveal_strlit("resets_in_seconds");
    reveal_strlit("param");
    reveal_strlit("error");
    reveal_strlit("id");
    reveal_strlit("object");
    reveal_strlit("status");
    reveal_strlit("owned_by");
    reveal_strlit("response");
    reveal_strlit("created_at");
    reveal_strlit("background");
    reveal_strlit("incomplete_details");
    reveal_strlit("sequence_number");
    reveal_strlit("retry-after");
}

/// Each model of a list stands at its place in the list that general clients get, under its own
/// name, and nothing else does.
pub proof fn models_are_listed_in_order(models: Seq<(Seq<char>, bool)>, i: int)
    requires
        0 <= i < models.len(),
    ensures
        ({
            let list = openai_models(models);
            let data = list.field("data"@);
            &&& list.field("object"@) == Some(JsonView::Text("list"@))
            &&& data is Some && data->0 is Array && data->0->Array_0.len() == models.len()
            &&& data->0->Array_0[i].field("id"@) == Some(JsonView::Text(models[i].0))
            &&& data->0->Array_0[i].field("object"@) == Some(JsonView::Text("model"@))
            &&& data->0->Array_0[i].field("created"@) == Some(JsonView::Integer(0))
            &&& data->0->Array_0[i].field("owned_by"@) == Some(JsonView::Text("openai"@))
        }),
{
    lemma_names();
}

proof fn lemma_models_of(items: Seq<JsonView>)
    ensures
        models_of(items) is Some <==> forall|i: int|
            0 <= i < items.len() ==> model_of(#[trigger] items[i]) is Some,
        models_of(items) matches Some(models) ==> models.len() == items.len() && forall|i: int|
            0 <= i < items.len() ==> Some(#[trigger] models[i]) == model_of(items[i]),
    decreases items.len(),
{
    if items.len() > 0 {
        lemma_models_of(items.drop_last());
        let last = items.len() - 1;
        assert(items.last() == items[last]);
        if models_of(items) is Some {
            let models = models_of(items)->0;
            let earlier = models_of(items.drop_last())->0;
            assert forall|i: int| 0 <= i < items.len() implies Some(#[trigger] models[i])
                == model_of(items[i]) by {
                if i < last {
                    assert(items.drop_last()[i] == items[i]);
                    assert(models[i] == earlier[i]);
                }
            }
            assert forall|i: int| 0 <= i < items.len() implies model_of(
                #[trigger] items[i],
            ) is Some by {
                assert(Some(models[i]) == model_of(items[i]));
            }
        } else if forall|i: int| 0 <= i < items.len() ==> model_of(#[trigger] items[i]) is Some {
            assert forall|i: int| 0 <= i < items.drop_last().len() implies model_of(
                #[trigger] items.drop_last()[i],
            ) is Some by {
                assert(items.drop_last()[i] == items[i]);
            }
        }
    }
}

/// The name of each model of the upstream list is the id at the same place of the list that general
/// clients get. There is no list where a model has no name, or does not say whether tools run at
/// once.
pub proof fn upstream_models_are_listed(value: JsonView, items: Seq<JsonView>, i: int)
    requires
        value.field("models"@) == Some(JsonView::Array(items)),
        0 <= i < items.len(),
    ensures
        models_in(value) matches Some(models) ==> {
            let data = openai_models(models).field("data"@);
            &&& data is Some && data->0 is Array && data->0->Array_0.len() == items.len()
            &&& items[i].text_field("slug"@) is Some
            &&& data->0->Array_0[i].field("id"@) == items[i].field("slug"@)
            &&& items[i].field("supports_parallel_tool_calls"@) == Some(JsonView::Bool(models[i].1))
        },
        items[i].text_field("slug"@) is None ==> models_in(value) is None,
        (forall|j: int|
            0 <= j < items.len() ==> (#[trigger] items[j]).text_field("slug"@) is Some && items[j].field(
                "supports_parallel_tool_calls"@,
            ) is Some && items[j].field("supports_parallel_tool_calls"@)->0 is Bool) ==> models_in(
            value,
        ) is Some,
{
    lemma_models_of(items);
    if let Some(models) = models_in(value) {
        models_are_listed_in_order(models, i);
        assert(Some(models[i]) == model_of(items[i]));
    }
    if forall|j: int|
        0 <= j < items.len() ==> (#[trigger] items[j]).text_field("slug"@) is Some && items[j].field(
            "supports_parallel_tool_calls"@,
        ) is Some && items[j].field("supports_parallel_tool_calls"@)->0 is Bool {
        assert forall|j: int| 0 <= j < items.len() implies model_of(#[trigger] items[j]) is Some by {
            assert(items[j].text_field("slug"@) is Some);
        }
    }
}

proof fn lemma_parallel_calls(models: Seq<(Seq<char>, bool)>, slug: Seq<char>, at: int)
    requires
        0 <= at < models.len(),
        models[at].0 == slug,
        forall|j: int| at < j < models.len() ==> (#[trigger] models[j]).0 != slug,
    ensures
        parallel_calls(models, slug) == models[at].1,
    decreases models.len(),
{
    let last = models.len() - 1;
    if at < last {
        assert(models[last].0 != slug);
        lemma_parallel_calls(models.drop_last(), slug, at);
    }
}

proof fn lemma_unknown_model(models: Seq<(Seq<char>, bool)>, slug: Seq<char>)
    requires
        forall|j: int| 0 <= j < models.len() ==> (#[trigger] models[j]).0 != slug,
    ensures
        parallel_calls(models, slug),
    decreases models.len(),
{
    if models.len() > 0 {
        assert(models[models.len() - 1].0 != slug);
        assert forall|j: int| 0 <= j < models.drop_last().len() implies (
        #[trigger] models.drop_last()[j]).0 != slug by {
            assert(models.drop_last()[j] == models[j]);
        }
        lemma_unknown_model(models.drop_last(), slug);
    }
}

/// Tools run at once as the model says that the request names, spaces around its name apart; they
/// do where no model is named, none is known, or the list does not hold it.
pub proof fn models_say_whether_tools_run_at_once(
    model: Option<JsonView>,
    snapshot: &ModelsSnapshot,
    at: int,
)
    ensures
        parallel_default(model, None),
        !(model is Some && model->0 is Text) ==> parallel_default(model, Some(snapshot)),
        model is Some && model->0 is Text && 0 <= at < snapshot.models@.len()
            && snapshot.models@[at].slug@ == trimmed(model->0->Text_0) && (forall|j: int|
            at < j < snapshot.models@.len() ==> (#[trigger] snapshot.models@[j]).slug@ != trimmed(
                model->0->Text_0,
            )) ==> parallel_default(model, Some(snapshot))
            == snapshot.models@[at].supports_parallel_tool_calls,
        model is Some && model->0 is Text && (forall|j: int|
            0 <= j < snapshot.models@.len() ==> (#[trigger] snapshot.models@[j]).slug@ != trimmed(
                model->0->Text_0,
            )) ==> parallel_default(model, Some(snapshot)),
{
    if model is Some && model->0 is Text {
        let entries = entries_view(snapshot.models@);
        let slug = trimmed(model->0->Text_0);
        if 0 <= at < snapshot.models@.len() && snapshot.models@[at].slug@ == slug && (forall|j: int|
            at < j < snapshot.models@.len() ==> (#[trigger] snapshot.models@[j]).slug@ != slug) {
            assert forall|j: int| at < j < entries.len() implies (#[trigger] entries[j]).0 != slug by {
                assert(snapshot.models@[j].slug@ != slug);
            }
            lemma_parallel_calls(entries, slug, at);
        }
        if forall|j: int|
            0 <= j < snapshot.models@.len() ==> (#[trigger] snapshot.models@[j]).slug@ != slug {
            assert forall|j: int| 0 <= j < entries.len() implies (#[trigger] entries[j]).0 != slug by {
                assert(snapshot.models@[j].slug@ != slug);
            }
            lemma_unknown_model(entries, slug);
        }
    }
}

/// A list of models is fresh for twelve hours.
pub proof fn lists_are_fresh_for_half_a_day(elapsed: Option<Delay>)
    ensures
        is_fresh(elapsed) <==> elapsed is Some && elapsed->0.nanos <= 12 * 3600 * 1_000_000_000,
{
}

/// A client is a Codex client where it says so in the header `originator`, by a text that begins
/// with `codex`, and else a general one.
pub proof fn originators_tell_clients_apart(entries: Map<Seq<char>, Seq<Seq<u8>>>)
    ensures
        shape_for(entries) == ResponseShape::Codex <==> header_text(entries, "originator"@) is Some
            && begins_with(header_text(entries, "originator"@)->0, "codex"@),
        shape_for(entries) == ResponseShape::Codex || shape_for(entries) == ResponseShape::OpenAi,
{
}

/// A response is streamed unless the client says `stream: false`, and a failure before it begins is
/// told in a stream exactly where the response would be.
pub proof fn responses_are_streamed_unless_refused(
    entries: Map<Seq<char>, Seq<Seq<u8>>>,
    body: JsonView,
)
    ensures
        !streams(body) <==> body.field("stream"@) == Some(JsonView::Bool(false)),
        responses_context(entries, body).response_shape == shape_for(entries),
        responses_context(entries, body).render_mode == FailureRenderMode::UnaryJson <==> body.field(
            "stream"@,
        ) == Some(JsonView::Bool(false)),
{
}

/// In a compact history a summary goes under the type `compaction`; every other item, and every
/// other field, stays as it is.
pub proof fn compact_items_are_kept(body: JsonView, items: Seq<JsonView>, i: int, key: Seq<char>)
    requires
        body.field("output"@) == Some(JsonView::Array(items)),
        0 <= i < items.len(),
    ensures
        ({
            let shaped = compact_body(body);
            let output = shaped.field("output"@);
            let summary = items[i].text_field("type"@) == Some("compaction_summary"@);
            &&& output is Some && output->0 is Array && output->0->Array_0.len() == items.len()
            &&& !summary ==> output->0->Array_0[i] == items[i]
            &&& summary ==> output->0->Array_0[i].field("type"@) == Some(
                JsonView::Text("compaction"@),
            )
            &&& key != "type"@ ==> output->0->Array_0[i].field(key) == items[i].field(key)
            &&& key != "output"@ ==> shaped.field(key) == body.field(key)
        }),
{
}

/// General clients get the content type and the caching of an answer, and no other header of it;
/// Codex clients get all of them.
pub proof fn general_clients_get_few_headers(
    entries: Map<Seq<char>, Seq<Seq<u8>>>,
    name: Seq<char>,
    content_type: Seq<char>,
)
    ensures
        openai_headers(entries).contains_key(name) <==> entries.contains_key(name) && (name
            == "content-type"@ || name == "cache-control"@),
        openai_headers(entries).contains_key(name) ==> openai_headers(entries)[name]
            == entries[name],
        success_headers(ResponseShape::OpenAi, entries) == openai_headers(entries),
        success_headers(ResponseShape::Codex, entries) == entries,
        typed_headers(ResponseShape::Codex, entries, content_type) == entries,
        name != "content-type"@ ==> (typed_headers(ResponseShape::OpenAi, entries, content_type)
            .contains_key(name) <==> openai_headers(entries).contains_key(name)),
{
}

/// A list that is out of date is not to be kept by a client; its other headers stay.
pub proof fn stale_lists_are_not_kept(entries: Map<Seq<char>, Seq<Seq<u8>>>, name: Seq<char>)
    ensures
        not_kept(entries).contains_key("cache-control"@),
        not_kept(entries)["cache-control"@] == seq![
            seq!['n' as u8, 'o' as u8, '-' as u8, 's' as u8, 't' as u8, 'o' as u8, 'r' as u8, 'e' as u8],
        ],
        name != "cache-control"@ ==> (not_kept(entries).contains_key(name) <==> entries.contains_key(
            name,
        )),
        name != "cache-control"@ && entries.contains_key(name) ==> not_kept(entries)[name]
            == entries[name],
{
    assert(not_kept(entries)["cache-control"@][0] =~= seq![
        'n' as u8,
        'o' as u8,
        '-' as u8,
        's' as u8,
        't' as u8,
        'o' as u8,
        'r' as u8,
        'e' as u8,
    ]);
}

/// What belongs to one connection is not passed on, nor what its `connection` header lists; how
/// much of a limit is used up is hidden; every other header is passed on as it is.
pub proof fn headers_of_a_connection_are_not_passed_on(
    entries: Map<Seq<char>, Seq<Seq<u8>>>,
    name: Seq<char>,
)
    ensures
        !sanitized(entries).contains_key("connection"@),
        !sanitized(entries).contains_key("keep-alive"@),
        !sanitized(entries).contains_key("proxy-authenticate"@),
        !sanitized(entries).contains_key("proxy-authorization"@),
        !sanitized(entries).contains_key("te"@),
        !sanitized(entries).contains_key("trailer"@),
        !sanitized(entries).contains_key("transfer-encoding"@),
        !sanitized(entries).contains_key("upgrade"@),
        !sanitized(entries).contains_key("content-length"@),
        connection_names(entries).contains(name) ==> !sanitized(entries).contains_key(name),
        name != "connection"@ && name != "keep-alive"@ && name != "proxy-authenticate"@ && name
            != "proxy-authorization"@ && name != "te"@ && name != "trailer"@ && name
            != "transfer-encoding"@ && name != "upgrade"@ && name != "content-length"@
            && !connection_names(entries).contains(name) && entries.contains_key(name) ==> sanitized(
            entries,
        ).contains_key(name) && sanitized(entries)[name] == (if name
            == "x-codex-primary-used-percent"@ || name == "x-codex-secondary-used-percent"@ {
            seq![seq!['0' as u8, '.' as u8, '0' as u8]]
        } else {
            entries[name]
        }),
        !entries.contains_key(name) ==> !sanitized(entries).contains_key(name),
        !entries.contains_key("connection"@) ==> !connection_names(entries).contains(name),
{
    assert(crate::http_shape::zero_percent() =~= seq!['0' as u8, '.' as u8, '0' as u8]);
}

/// Characters that can be seen may stand in a header.
proof fn lemma_plain_value(text: Seq<char>)
    requires
        forall|i: int| 0 <= i < text.len() ==> ' ' <= #[trigger] text[i] && text[i] <= '~',
    ensures
        header_value(encode_utf8(text)),
{
    assert(is_ascii_chars(text)) by {
        assert forall|i: int| 0 <= i < text.len() implies '\0' <= #[trigger] text[i] <= '\u{7f}' by {}
    }
    is_ascii_chars_encode_utf8(text);
    assert forall|i: int| 0 <= i < encode_utf8(text).len() implies value_byte(
        #[trigger] encode_utf8(text)[i],
    ) by {
        assert(text[i] as u8 == encode_utf8(text)[i]);
        assert(' ' <= text[i] && text[i] <= '~');
    }
}

proof fn lemma_content_types()
    ensures
        header_value(encode_utf8("application/json"@)),
        header_value(encode_utf8("text/event-stream"@)),
        header_value(encode_utf8("no-cache"@)),
{
    reveal_strlit("application/json");
    reveal_strlit("text/event-stream");
    reveal_strlit("no-cache");
    lemma_plain_value("application/json"@);
    lemma_plain_value("text/event-stream"@);
    lemma_plain_value("no-cache"@);
}

proof fn lemma_header_names()
    ensures
        "content-type"@ != "cache-control"@,
{
    reveal_strlit("content-type");
    reveal_strlit("cache-control");
    assert("content-type"@.len() == 12 && "cache-control"@.len() == 13);
}

/// The fields of an error in the form of Codex: its code and its message are always told, everything
/// else only where it is known.
pub proof fn codex_errors_are_told_whole(
    payload: PayloadView,
    code: Seq<char>,
    message: Seq<char>,
)
    ensures
        ({
            let error = error_object(payload, code, message);
            let told_code = if payload.code is Some { payload.code->0 } else { code };
            let told_message = if payload.message is Some { payload.message->0 } else { message };
            &&& error.field("code"@) == Some(JsonView::Text(told_code))
            &&& error.field("message"@) == Some(JsonView::Text(told_message))
            &&& error.text_field("type"@) == payload.error_type
            &&& error.text_field("plan_type"@) == payload.plan_type
            &&& error.signed_field("resets_at"@) == payload.resets_at
            &&& error.signed_field("resets_in_seconds"@) == payload.resets_in_seconds
            &&& error.field("param"@) is None
        }),
{
    lemma_names();
}

/// The event by which a response fails: it names the response, or one made up from the time, says
/// that it failed and why, and has its number.
pub proof fn failed_events_are_told_whole(
    response_id: Option<Seq<char>>,
    sequence_number: i64,
    payload: PayloadView,
    now: Timestamp,
)
    ensures
        ({
            let event = failed_event(response_id, sequence_number, payload, now);
            let response = event.field("response"@);
            let error = response->0.field("error"@);
            &&& event.field("type"@) == Some(JsonView::Text("response.failed"@))
            &&& event.field("sequence_number"@) == Some(JsonView::Integer(sequence_number as int))
            &&& response is Some
            &&& response_id is Some ==> response->0.field("id"@) == Some(
                JsonView::Text(response_id->0),
            )
            &&& response_id is None ==> response->0.field("id"@) == Some(
                JsonView::Text("resp_gateway_"@ + signed_decimal(now.nanos as int / 1_000)),
            )
            &&& response->0.field("object"@) == Some(JsonView::Text("response"@))
            &&& response->0.field("created_at"@) == Some(
                JsonView::Integer(now.nanos as int / 1_000_000_000),
            )
            &&& response->0.field("status"@) == Some(JsonView::Text("failed"@))
            &&& response->0.field("background"@) == Some(JsonView::Bool(false))
            &&& response->0.field("incomplete_details"@) == Some(JsonView::Null)
            &&& error is Some
            &&& payload.code is Some ==> error->0.field("code"@) == Some(
                JsonView::Text(payload.code->0),
            )
            &&& payload.code is None ==> error->0.field("code"@) == Some(
                JsonView::Text("internal_server_error"@),
            )
            &&& payload.message is Some ==> error->0.field("message"@) == Some(
                JsonView::Text(payload.message->0),
            )
            &&& payload.message is None ==> error->0.field("message"@) == Some(
                JsonView::Text("Upstream request failed."@),
            )
            &&& error->0.text_field("type"@) == payload.error_type
            &&& error->0.signed_field("resets_in_seconds"@) == payload.resets_in_seconds
        }),
{
    lemma_names();
    codex_errors_are_told_whole(
        payload,
        "internal_server_error"@,
        "Upstream request failed."@,
    );
}

/// The event by which a general client learns of an error has its code, its message and its number.
pub proof fn error_events_are_told_whole(sequence_number: i64, payload: PayloadView)
    ensures
        ({
            let event = error_event(sequence_number, payload);
            &&& event.field("type"@) == Some(JsonView::Text("error"@))
            &&& event.field("sequence_number"@) == Some(JsonView::Integer(sequence_number as int))
            &&& payload.code is Some ==> event.field("code"@) == Some(
                JsonView::Text(payload.code->0),
            )
            &&& payload.code is None ==> event.field("code"@) == Some(
                JsonView::Text("internal_server_error"@),
            )
            &&& payload.message is Some ==> event.field("message"@) == Some(
                JsonView::Text(payload.message->0),
            )
            &&& payload.message is None ==> event.field("message"@) == Some(
                JsonView::Text("Upstream request failed."@),
            )
        }),
{
    lemma_names();
}

/// Events are numbered without a gap from zero on, up to the greatest number there is.
pub proof fn events_are_numbered(last: i64)
    ensures
        next_sequence(None) == 0,
        last < i64::MAX ==> next_sequence(Some(last)) == last + 1,
        next_sequence(Some(last)) >= last,
{
}

/// The event by which a websocket fails has the status, the error and, where a delay is known, the
/// whole seconds to wait: enough of them, none too many, and at least one.
pub proof fn websocket_failures_are_told_whole(
    status: u16,
    payload: PayloadView,
    delay: Option<Delay>,
)
    ensures
        ({
            let event = failure_event(status, payload, delay);
            let error = event.field("error"@);
            let headers = event.field("headers"@);
            &&& event.field("type"@) == Some(JsonView::Text("error"@))
            &&& event.field("status"@) == Some(JsonView::Integer(status as int))
            &&& error is Some
            &&& payload.code is Some ==> error->0.field("code"@) == Some(
                JsonView::Text(payload.code->0),
            )
            &&& payload.message is Some ==> error->0.field("message"@) == Some(
                JsonView::Text(payload.message->0),
            )
            &&& error->0.text_field("type"@) == payload.error_type
            &&& error->0.signed_field("resets_in_seconds"@) == payload.resets_in_seconds
            &&& delay is None ==> headers is None
            &&& delay is Some ==> headers is Some && exists|seconds: nat|
                {
                    &&& headers->0.field("retry-after"@) == Some(
                        JsonView::Text(#[trigger] decimal(seconds)),
                    )
                    &&& seconds >= 1
                    &&& seconds * 1_000_000_000 >= delay->0.nanos
                    &&& seconds > 1 ==> (seconds - 1) * 1_000_000_000 < delay->0.nanos
                }
        }),
{
    lemma_names();
    if delay is Some {
        let seconds = retry_seconds(delay->0);
        let headers = failure_event(status, payload, delay).field("headers"@);
        assert(headers->0.field("retry-after"@) == Some(JsonView::Text(decimal(seconds))));
    }
}

/// What code an error gets that names none: by its status, and by what it says of limits and of
/// suspicion.
pub proof fn errors_without_a_code_get_one(status: u16, body: Option<Seq<char>>)
    requires
        says_nothing(text_payload(body)),
    ensures
        ({
            let code = http_fallback_code(status, body);
            let words = told(body);
            let limits = speaks_of_limits(words);
            let risk = has_text(words, "unusual activity"@) || has_text(words, "arkose"@) || has_text(
                words,
                "turnstile"@,
            );
            &&& status == 401 ==> code == "invalid_api_key"@
            &&& status == 429 ==> code == "rate_limit_exceeded"@
            &&& status == 403 && risk ==> code == "forbidden"@
            &&& status != 401 && status != 403 && has_text(words, "rate limit"@) ==> code
                == "rate_limit_exceeded"@
            &&& status != 401 && status != 403 && status != 429 && limits && !has_text(
                words,
                "rate limit"@,
            ) ==> code == "insufficient_quota"@
            &&& !limits && status == 400 ==> code == "invalid_request_error"@
            &&& !limits && status == 404 ==> code == "not_found"@
            &&& !limits && status == 408 ==> code == "request_timeout"@
            &&& !limits && status == 409 ==> code == "conflict"@
            &&& !limits && 500 <= status <= 599 ==> code == "internal_server_error"@
            &&& !limits && status == 403 && !risk ==> code == "http_error"@
            &&& !limits && status != 401 && status != 429 && status != 400 && status != 404 && status
                != 408 && status != 409 && status != 403 && !(500 <= status <= 599) ==> code
                == "http_error"@
        }),
{
    let class = FailureClass::AccessTokenRejected;
    if status == 429 {
        too_many_requests_are_limited(body, class);
    } else if status == 403 {
        forbidden_answers_are_told_apart(body, class);
    } else if status != 401 {
        limits_are_told_by_words(status, body, class);
        if !speaks_of_limits(told(body)) {
            if 500 <= status <= 599 {
                server_errors_pass(status, body, class);
            } else {
                other_answers_blame_the_request(status, body, class);
            }
        }
    }
}

/// What an answer of the upstream lacks is filled in, and what it has is kept.
pub proof fn answers_are_filled_in(
    status: u16,
    headers: Option<HeaderMap<HeaderValue>>,
    body: Option<String>,
    text: Seq<char>,
    delay: Option<Delay>,
)
    ensures
        ({
            let said = text_payload(owned_text(body));
            let payload = transport_payload(
                TransportError::Http { status, headers, body },
                text,
                delay,
            );
            &&& payload.code is Some && payload.message is Some
            &&& said.code is Some ==> payload.code == said.code
            &&& said.code is None ==> payload.code == Some(
                http_fallback_code(status, owned_text(body)),
            )
            &&& said.message is Some ==> payload.message == said.message
            &&& said.message is None && status == 429 && delay is Some ==> payload.message == Some(
                "Rate limit reached. Please try again in "@ + delay_text(delay->0) + "s."@,
            )
            &&& said.message is None && !(status == 429 && delay is Some) ==> payload.message
                == Some("Upstream request failed with status "@ + decimal(status as nat) + "."@)
            &&& payload.error_type == said.error_type
            &&& payload.plan_type == said.plan_type
            &&& payload.resets_at == said.resets_at
            &&& payload.resets_in_seconds == said.resets_in_seconds
        }),
{
}

/// A failure without an answer has a code of its own, and its words as the message.
pub proof fn silent_failures_are_named(error: TransportError, text: Seq<char>, delay: Option<Delay>)
    requires
        !(error is Http),
    ensures
        ({
            let payload = transport_payload(error, text, delay);
            &&& payload.message == Some(text)
            &&& error is Timeout ==> payload.code == Some("request_timeout"@)
            &&& error is Network ==> payload.code == Some("network_error"@)
            &&& error is Build ==> payload.code == Some("internal_server_error"@)
            &&& error is RetryLimit ==> payload.code == Some("retry_limit_reached"@)
            &&& payload.error_type is None && payload.plan_type is None
            &&& payload.resets_at is None && payload.resets_in_seconds is None
        }),
{
}

/// Is this how a client learns that no account can serve it?
pub open spec fn tells_of_no_account(response: ResponseView) -> bool {
    let error = response.body->Json_0.field("error"@);
    &&& response.status == 503
    &&& response.body is Json
    &&& error is Some
    &&& error->0.field("code"@) == Some(JsonView::Text("server_is_overloaded"@))
    &&& error->0.field("message"@) == Some(
        JsonView::Text("No account available right now. Try again later."@),
    )
}

/// Is another account, or more time, all that a failure asks for?
pub open spec fn is_passing(failure: FailoverFailure) -> bool {
    match failure {
        FailoverFailure::Refresh(_) | FailoverFailure::PoolBlocked(_) => true,
        FailoverFailure::Transport(error) => transport_class(error) != FailureClass::RequestRejected
            && transport_class(error) != FailureClass::InternalFailure,
        _ => false,
    }
}

/// Where accounts are what is missing, every client is told just that, with 503, and nothing of what
/// happened to them; only the answer of the upstream itself is passed on to a Codex client.
pub proof fn missing_accounts_are_told_alike(
    failure: FailoverFailure,
    shape: ResponseShape,
    text: Seq<char>,
    delay: Option<Delay>,
    now: Timestamp,
)
    requires
        is_passing(failure),
        !(shape == ResponseShape::Codex && failure is Transport && failure->Transport_0 is Http),
    ensures
        tells_of_no_account(
            failure_response(failure, shape, FailureRenderMode::UnaryJson, text, delay, now),
        ),
        shape == ResponseShape::OpenAi ==> tells_of_no_account(
            failure_response(failure, shape, FailureRenderMode::ResponsesPreStream, text, delay, now),
        ),
        shape == ResponseShape::OpenAi ==> failure_response(
            failure,
            shape,
            FailureRenderMode::UnaryJson,
            text,
            delay,
            now,
        ).body->Json_0.field("error"@)->0.field("type"@) == Some(JsonView::Text("server_error"@)),
{
    lemma_names();
    lemma_overloaded();
}

proof fn lemma_overloaded()
    ensures
        "server_is_overloaded"@ != "invalid_api_key"@,
        "server_is_overloaded"@ != "insufficient_quota"@,
        "server_is_overloaded"@ != "forbidden"@,
{
    reveal_strlit("server_is_overloaded");
    reveal_strlit("invalid_api_key");
    reveal_strlit("insufficient_quota");
    reveal_strlit("forbidden");
    assert("server_is_overloaded"@.len() == 20 && "invalid_api_key"@.len() == 15);
    assert("insufficient_quota"@.len() == 18 && "forbidden"@.len() == 9);
}

/// A Codex client gets the answer of the upstream: its status, its text and its headers, but for
/// those of the connection.
pub proof fn answers_are_passed_on(
    status: u16,
    headers: Option<HeaderMap<HeaderValue>>,
    body: Option<String>,
    text: Seq<char>,
    delay: Option<Delay>,
    now: Timestamp,
)
    ensures
        ({
            let response = failure_response(
                FailoverFailure::Transport(TransportError::Http { status, headers, body }),
                ResponseShape::Codex,
                FailureRenderMode::UnaryJson,
                text,
                delay,
                now,
            );
            &&& response.status == status
            &&& body is Some ==> response.body == BodyView::Text(body->0@)
            &&& body is None ==> response.body is Text && response.body->Text_0 == ""@
            &&& headers is Some ==> response.headers == sanitized(header_entries(headers->0))
            &&& headers is None ==> response.headers == Map::<Seq<char>, Seq<Seq<u8>>>::empty()
        }),
{
}

/// Before the stream of a Codex client begins, a failure is one event on a stream of its own, which
/// no client keeps.
pub proof fn early_failures_are_streamed(
    failure: FailoverFailure,
    text: Seq<char>,
    delay: Option<Delay>,
    now: Timestamp,
)
    ensures
        ({
            let response = failure_response(
                failure,
                ResponseShape::Codex,
                FailureRenderMode::ResponsesPreStream,
                text,
                delay,
                now,
            );
            let payload = failover_payload(failure, text, delay);
            &&& response.status == 200
            &&& response.headers.contains_key("content-type"@)
            &&& response.headers["content-type"@] == seq![encode_utf8("text/event-stream"@)]
            &&& response.headers.contains_key("cache-control"@)
            &&& response.headers["cache-control"@] == seq![encode_utf8("no-cache"@)]
            &&& exists|event: JsonView|
                {
                    let error = event.field("response"@)->0.field("error"@)->0;
                    &&& response.body == BodyView::Events(
                        #[trigger] sse_bytes("response.failed"@, event),
                    )
                    &&& event.field("type"@) == Some(JsonView::Text("response.failed"@))
                    &&& event.field("sequence_number"@) == Some(JsonView::Integer(0))
                    &&& is_passing(failure) ==> error.field("code"@) == Some(
                        JsonView::Text("server_is_overloaded"@),
                    ) && error.field("message"@) == Some(
                        JsonView::Text("No account available right now. Try again later."@),
                    ) && error.field("type"@) is None && error.field("resets_at"@) is None
                    &&& !is_passing(failure) ==> error.text_field("code"@) == payload.code
                        && error.text_field("message"@) == payload.message && error.text_field(
                        "type"@,
                    ) == payload.error_type
                }
        }),
{
    lemma_content_types();
    lemma_header_names();
    lemma_names();
    let payload = if is_passing(failure) {
        unavailable()
    } else {
        failover_payload(failure, text, delay)
    };
    failed_events_are_told_whole(None, 0, payload, now);
    let event = failed_event(None, 0, payload, now);
    assert(failure_response(
        failure,
        ResponseShape::Codex,
        FailureRenderMode::ResponsesPreStream,
        text,
        delay,
        now,
    ).body == BodyView::Events(sse_bytes("response.failed"@, event)));
}

/// What went wrong inside the gateway is told to nobody: two failures of one status are answered
/// alike.
pub proof fn inner_failures_are_not_told(
    status: u16,
    detail: String,
    other: String,
    shape: ResponseShape,
    mode: FailureRenderMode,
    text: Seq<char>,
    delay: Option<Delay>,
    now: Timestamp,
)
    ensures
        failure_response(
            FailoverFailure::Internal { status, detail },
            shape,
            mode,
            text,
            delay,
            now,
        ) == failure_response(
            FailoverFailure::Internal { status, detail: other },
            shape,
            mode,
            text,
            delay,
            now,
        ),
        ({
            let response = failure_response(
                FailoverFailure::Internal { status, detail },
                shape,
                FailureRenderMode::UnaryJson,
                text,
                delay,
                now,
            );
            let error = response.body->Json_0.field("error"@);
            &&& response.status == status
            &&& response.body is Json
            &&& error is Some
            &&& canonical_reason(status) is Some ==> error->0.field("message"@) == Some(
                JsonView::Text(canonical_reason(status)->0),
            )
            &&& canonical_reason(status) is None ==> error->0.field("message"@) == Some(
                JsonView::Text("Internal Server Error"@),
            )
        }),
{
    lemma_names();
}

/// A caller at fault is told what the fault is, with its status.
pub proof fn callers_are_told_their_faults(
    status: u16,
    message: String,
    shape: ResponseShape,
    text: Seq<char>,
    delay: Option<Delay>,
    now: Timestamp,
)
    ensures
        ({
            let response = failure_response(
                FailoverFailure::CallerJson { status, message },
                shape,
                FailureRenderMode::UnaryJson,
                text,
                delay,
                now,
            );
            let error = response.body->Json_0.field("error"@);
            &&& response.status == status
            &&& response.body is Json
            &&& error is Some
            &&& error->0.field("message"@) == Some(JsonView::Text(message@))
        }),
        failover_payload(FailoverFailure::CallerJson { status, message }, text, delay).message
            == Some(message@),
{
    lemma_names();
}

/// A request that could not be sent is told with 502: to a Codex client in words, to a general one
/// by the name of that status.
pub proof fn unsent_requests_are_bad_gateways(
    error: TransportError,
    shape: ResponseShape,
    text: Seq<char>,
    delay: Option<Delay>,
    now: Timestamp,
)
    requires
        error is Build,
    ensures
        ({
            let response = failure_response(
                FailoverFailure::Transport(error),
                shape,
                FailureRenderMode::UnaryJson,
                text,
                delay,
                now,
            );
            let told = response.body->Json_0.field("error"@);
            &&& response.status == 502
            &&& response.body is Json
            &&& told is Some
            &&& shape == ResponseShape::Codex ==> told->0.field("message"@) == Some(
                JsonView::Text(text),
            )
            &&& shape == ResponseShape::OpenAi && canonical_reason(502) is Some ==> told->0.field(
                "message"@,
            ) == Some(JsonView::Text(canonical_reason(502)->0))
        }),
{
    lemma_names();
}

/// Has an error the form that general clients know: a message, one of five types, a parameter that
/// may be null, and a code?
pub open spec fn is_openai_error(body: JsonView) -> bool {
    let error = body.field("error"@);
    &&& error is Some
    &&& error->0.text_field("message"@) is Some
    &&& error->0.text_field("code"@) is Some
    &&& error->0.field("param"@) is Some
    &&& {
        ||| error->0.text_field("type"@) == Some("authentication_error"@)
        ||| error->0.text_field("type"@) == Some("permission_error"@)
        ||| error->0.text_field("type"@) == Some("rate_limit_error"@)
        ||| error->0.text_field("type"@) == Some("server_error"@)
        ||| error->0.text_field("type"@) == Some("invalid_request_error"@)
    }
}

/// Every failure reaches a general client as JSON, in the form that it knows, under the content type
/// of JSON.
pub proof fn general_clients_know_the_form_of_errors(
    failure: FailoverFailure,
    mode: FailureRenderMode,
    text: Seq<char>,
    delay: Option<Delay>,
    now: Timestamp,
)
    ensures
        ({
            let response = failure_response(
                failure,
                ResponseShape::OpenAi,
                mode,
                text,
                delay,
                now,
            );
            &&& response.body is Json
            &&& is_openai_error(response.body->Json_0)
            &&& response.headers.contains_key("content-type"@)
            &&& response.headers["content-type"@] == seq![encode_utf8("application/json"@)]
            &&& forall|name: Seq<char>| #[trigger]
                response.headers.contains_key(name) ==> name == "content-type"@ || name
                    == "cache-control"@
        }),
{
    lemma_names();
    lemma_content_types();
}

/// The type of an error that names none of the five goes by its status, or by a code that says more.
pub proof fn error_types_go_by_status(status: u16, payload: PayloadView)
    requires
        payload.error_type is None,
        payload.code is Some,
        payload.code->0 != "invalid_api_key"@,
        payload.code->0 != "insufficient_quota"@,
        payload.code->0 != "forbidden"@,
    ensures
        ({
            let kind = openai_failure(status, payload).field("error"@)->0.text_field("type"@);
            &&& status == 401 ==> kind == Some("authentication_error"@)
            &&& status == 403 ==> kind == Some("permission_error"@)
            &&& status == 429 ==> kind == Some("rate_limit_error"@)
            &&& 500 <= status <= 599 ==> kind == Some("server_error"@)
            &&& status != 401 && status != 403 && status != 429 && !(500 <= status <= 599) ==> kind
                == Some("invalid_request_error"@)
        }),
{
    lemma_names();
}

/// Such codes are: a key that is not valid, a quota that is used up, and what is forbidden.
pub proof fn error_types_go_by_code(status: u16, payload: PayloadView)
    requires
        payload.error_type is None,
    ensures
        ({
            let kind = openai_failure(status, payload).field("error"@)->0.text_field("type"@);
            &&& payload.code == Some("invalid_api_key"@) ==> kind == Some("authentication_error"@)
            &&& status != 401 && payload.code == Some("insufficient_quota"@) ==> kind == Some(
                "permission_error"@,
            )
            &&& status != 401 && payload.code == Some("forbidden"@) ==> kind == Some(
                "permission_error"@,
            )
        }),
{
    lemma_names();
    lemma_codes_apart();
}

proof fn lemma_codes_apart()
    ensures
        "invalid_api_key"@.len() == 15,
        "insufficient_quota"@.len() == 18,
        "forbidden"@.len() == 9,
{
    reveal_strlit("invalid_api_key");
    reveal_strlit("insufficient_quota");
    reveal_strlit("forbidden");
}

/// An error of the upstream keeps its code and its message for a general client, and its type and
/// its parameter where they are in the form that it knows.
pub proof fn general_clients_get_the_errors_of_the_upstream(
    status: u16,
    text: Option<Seq<char>>,
    body: JsonView,
    error: JsonView,
)
    requires
        body.field("error"@) == Some(error),
    ensures
        ({
            let told = openai_body_of(status, text, body).field("error"@)->0;
            let kind = error.text_field("type"@);
            let known = kind == Some("authentication_error"@) || kind == Some("permission_error"@)
                || kind == Some("rate_limit_error"@) || kind == Some("server_error"@) || kind
                == Some("invalid_request_error"@);
            &&& error.text_field("message"@) is Some ==> told.text_field("message"@)
                == error.text_field("message"@)
            &&& error.text_field("code"@) is Some ==> told.text_field("code"@) == error.text_field(
                "code"@,
            )
            &&& error.text_field("code"@) is None ==> told.text_field("code"@) == Some(
                http_fallback_code(status, text),
            )
            &&& known ==> told.text_field("type"@) == kind
            &&& known && error.text_field("message"@) is Some && error.field("param"@) is Some
                ==> told.field("param"@) == error.field("param"@)
            &&& error.field("param"@) is None ==> told.field("param"@) == Some(JsonView::Null)
        }),
{
    lemma_names();
}

/// An answer that is no JSON is told to a general client as it is, without the spaces around it; one
/// that says nothing by the name of its status. A bare text or a `detail` is the message too.
pub proof fn general_clients_get_the_words_of_the_upstream(
    status: u16,
    entries: Map<Seq<char>, Seq<Seq<u8>>>,
    body: Option<Seq<char>>,
)
    ensures
        ({
            let response = openai_upstream_response(status, entries, body);
            let error = response.body->Json_0.field("error"@)->0;
            let json = parsed_json(body->0);
            &&& response.status == status
            &&& body is Some && json is None && trimmed(body->0).len() > 0 ==> error.field(
                "message"@,
            ) == Some(JsonView::Text(trimmed(body->0)))
            &&& (body is None || (json is None && trimmed(body->0).len() == 0)) && canonical_reason(
                status,
            ) is Some ==> error.field("message"@) == Some(
                JsonView::Text(canonical_reason(status)->0),
            )
            &&& body is Some && json is Some && json->0 is Text ==> error.field("message"@) == json
            &&& body is Some && json is Some && json->0.field("error"@) is None
                && json->0.text_field("message"@) is Some ==> error.text_field("message"@)
                == json->0.text_field("message"@)
            &&& body is Some && json is Some && json->0.field("error"@) is None && json->0.field(
                "message"@,
            ) is None && json->0.text_field("detail"@) is Some ==> error.text_field("message"@)
                == json->0.text_field("detail"@)
        }),
{
    lemma_names();
}

/// What a client says to the gateway itself does not go upstream, and everything else does. Where it
/// says that in a wrong way, it is told so with 400.
pub proof fn gateway_fields_stay_here(
    context: FailureContext,
    body: JsonView,
    result: Result<PendingJsonRequest, PreparedRequestError>,
    key: Seq<char>,
)
    requires
        prepares(context, body, result),
    ensures
        result matches Ok(request) ==> {
            &&& request.body@.field("_gateway"@) is None
            &&& key != "_gateway"@ ==> request.body@.field(key) == body.field(key)
            &&& request.failure_context == context
        },
        result matches Err(error) ==> error.status == 400 && error.failure_context == context
            && body.field("_gateway"@) is Some,
        body.field("_gateway"@) is None ==> result is Ok,
{
}

/// A header that the `connection` header lists, between commas and in whatever letters, is not passed
/// on.
pub proof fn listed_headers_are_not_passed_on(
    entries: Map<Seq<char>, Seq<Seq<u8>>>,
    text: Seq<char>,
    i: int,
    from: int,
    to: int,
)
    requires
        entries.contains_key("connection"@),
        0 <= i < entries["connection"@].len(),
        value_text(entries["connection"@][i]) == Some(text),
        0 <= from <= to <= text.len(),
        from == 0 || text[from - 1] == ',',
        to == text.len() || text[to] == ',',
        forall|k: int| from <= k < to ==> #[trigger] text[k] != ',',
    ensures
        !sanitized(entries).contains_key(lower(trimmed(text.subrange(from, to)))),
{
    let name = lower(trimmed(text.subrange(from, to)));
    assert(is_piece(text, from, to));
    assert(connection_names(entries).contains(name)) by {
        assert(value_text(entries["connection"@][i]) is Some);
        assert(listed(text).contains(name));
    }
}

/// The status that a failure has on a websocket, and where a time to wait is told with it.
pub proof fn websocket_failures_have_their_status(
    failure: FailoverFailure,
    text: Seq<char>,
    delay: Option<Delay>,
)
    ensures
        ({
            let event = failover_event(failure, text, delay);
            let status = event.field("status"@);
            let error = event.field("error"@);
            let waits = (failure is Refresh || failure is Transport) && delay is Some;
            &&& failure is PoolBlocked ==> status == Some(JsonView::Integer(503))
                && error->0.field("code"@) == Some(JsonView::Text("server_is_overloaded"@))
                && error->0.field("message"@) == Some(
                JsonView::Text("No account available right now. Try again later."@),
            )
            &&& failure matches FailoverFailure::Refresh(error) ==> status == Some(
                JsonView::Integer(error.status as int),
            )
            &&& failure matches FailoverFailure::CallerJson { status: given, message } ==> status
                == Some(JsonView::Integer(given as int)) && error->0.field("message"@) == Some(
                JsonView::Text(message@),
            )
            &&& failure matches FailoverFailure::Internal { status: given, .. } ==> status == Some(
                JsonView::Integer(given as int),
            )
            &&& failure matches FailoverFailure::Transport(error) ==> {
                &&& error matches TransportError::Http { status: given, .. } ==> status == Some(
                    JsonView::Integer(given as int),
                )
                &&& error is Timeout ==> status == Some(JsonView::Integer(408))
                &&& !(error is Http) && !(error is Timeout) ==> status == Some(
                    JsonView::Integer(502),
                )
            }
            &&& waits <==> event.field("headers"@) is Some
        }),
{
    lemma_names();
    let payload = failover_payload(failure, text, delay);
    websocket_failures_are_told_whole(failure_status(failure), payload, delay);
    websocket_failures_are_told_whole(failure_status(failure), payload, None);
}

/// Only what the `connection` header lists, and what belongs to every connection, is held back: a
/// header that is no entry of a list goes on.
pub proof fn unlisted_headers_are_passed_on(entries: Map<Seq<char>, Seq<Seq<u8>>>, name: Seq<char>)
    requires
        connection_names(entries).contains(name),
    ensures
        entries.contains_key("connection"@),
        exists|i: int, from: int, to: int|
            #![trigger entries["connection"@][i], is_piece(
                value_text(entries["connection"@][i])->0,
                from,
                to,
            )]
            {
                let text = value_text(entries["connection"@][i])->0;
                &&& 0 <= i < entries["connection"@].len()
                &&& value_text(entries["connection"@][i]) is Some
                &&& is_piece(text, from, to)
                &&& 0 <= from <= to <= text.len()
                &&& name == lower(trimmed(text.subrange(from, to)))
            },
{
    let values = entries["connection"@];
    let i = choose|i: int|
        0 <= i < values.len() && (match value_text(#[trigger] values[i]) {
            Some(text) => listed(text).contains(name),
            None => false,
        });
    let text = value_text(values[i])->0;
    assert(listed(text).contains(name));
    let (from, to) = choose|from: int, to: int|
        #![trigger is_piece(text, from, to)]
        is_piece(text, from, to) && to < text.len() + 1 && name == piece_name(text, from, to);
    assert(is_piece(value_text(entries["connection"@][i])->0, from, to));
}

/// What a client says of the source of its session goes with its request.
pub proof fn session_sources_go_with_the_request(
    context: FailureContext,
    body: JsonView,
    result: Result<PendingJsonRequest, PreparedRequestError>,
)
    requires
        prepares(context, body, result),
    ensures
        result matches Ok(request) ==> gateway_override(body) == Ok::<_, Seq<char>>(
            request.session_source@,
        ),
        result matches Err(error) ==> gateway_override(body) == Err::<OverrideView, _>(
            error.message@,
        ),
{
}

/// A failure to refresh a token is told as the upstream told it: its status, and its body where that
/// is JSON, else its words as the message of an error.
pub proof fn failed_refreshes_are_told(error: RefreshFailure)
    ensures
        ({
            let response = refresh_response(error);
            let json = parsed_json(error.body@);
            &&& response.status == error.status
            &&& json is Some ==> response.body == BodyView::Json(json->0)
            &&& json is None ==> response.body is Json && response.body->Json_0.field("error"@)
                is Some && response.body->Json_0.field("error"@)->0.field("message"@) == Some(
                JsonView::Text(error.body@),
            )
        }),
{
    lemma_names();
}

/// A body that is no text has no JSON in it.
pub proof fn bodies_are_read_as_text(body: Seq<u8>, text: Seq<char>)
    ensures
        !valid_utf8(body) ==> body_json(body) is None,
        valid_utf8(body) ==> body_json(body) == parsed_json(decode_utf8(body)),
        body_json(encode_utf8(text)) == parsed_json(text),
{
    vstd::utf8::encode_utf8_valid_utf8(text);
    vstd::utf8::encode_utf8_decode_utf8(text);
}

/// A time to wait is told of an answer, or of a refresh that failed, and of nothing else.
pub proof fn waits_come_from_answers(
    failure: FailoverFailure,
    hinted: Option<Delay>,
    delay: Delay,
    now: Timestamp,
)
    ensures
        !(failure is Refresh) && !(failure is Transport) ==> failure_delay(failure, hinted, now)
            is None,
        failure matches FailoverFailure::Refresh(error) ==> {
            &&& error.retry_after is None ==> failure_delay(failure, hinted, now) is None
            &&& error.retry_after == Some(RetryAfter::Exact(delay)) ==> failure_delay(
                failure,
                hinted,
                now,
            ) == Some(delay)
            &&& error.retry_after is Some && error.retry_after->0 is Hint ==> failure_delay(
                failure,
                hinted,
                now,
            ) == hinted
        },
        failure matches FailoverFailure::Transport(error) ==> failure_delay(failure, hinted, now)
            == delay_of(error_retry(error, now), hinted),
{
}

/// The routing policy is shown by its name, and an account that is not known by its id.
pub proof fn policies_are_shown_by_name(policy: RoutingPolicy, id: Seq<char>)
    ensures
        policy_object(policy).field("routing_policy"@) == Some(
            JsonView::Text(
                match policy {
                    RoutingPolicy::RoundRobin => "round_robin"@,
                    RoutingPolicy::LeastInFlight => "least_in_flight"@,
                    RoutingPolicy::FillFirst => "fill_first"@,
                },
            ),
        ),
        unknown_account_text(id) == "unknown account `"@ + id + "`"@,
        not_loopback_text(id) == "codaze is local-only; bind to 127.0.0.1 or ::1, got `"@ + id
            + "`"@,
{
}

/// A list of models that is kept is served at once. Up to twelve hours it is served as it came; later
/// it is fetched anew meanwhile, and the client is told not to keep it.
pub proof fn kept_lists_are_served(
    cache: ModelsCache,
    elapsed: Option<Delay>,
    cached: Option<CachedModels<'_>>,
)
    requires
        serves_kept(cache, elapsed, cached),
    ensures
        cached is Some <==> cache.snapshot is Some,
        cached matches Some(cached) ==> {
            let fresh = elapsed is Some && elapsed->0.nanos <= 12 * 3600 * 1_000_000_000;
            &&& cache.snapshot == Some(*cached.snapshot)
            &&& cached.refresh <==> !fresh
            &&& fresh ==> header_entries(cached.headers) == header_entries(cache.response_headers)
            &&& !fresh ==> header_entries(cached.headers).contains_key("cache-control"@)
                && header_entries(cached.headers)["cache-control"@] == seq![
                seq![110u8, 111u8, 45u8, 115u8, 116u8, 111u8, 114u8, 101u8],
            ]
        },
{
}

/// A request is refused only where it names a session source that cannot be read. Else it goes on
/// with its body as it is, and with its headers but for that of the session source, which changes
/// only where it is asked for.
pub proof fn unread_session_sources_are_refused(
    request: PendingJsonRequest,
    entries: Map<Seq<char>, Seq<Seq<u8>>>,
    decoded: Result<&str, &str>,
    result: Result<PreparedJsonRequest, PreparedRequestError>,
)
    requires
        finishes(request, entries, decoded, result),
    ensures
        result is Err <==> request.session_source@ is Replace && decoded is Err,
        result matches Err(refused) ==> refused.status == 400 && refused.failure_context
            == request.failure_context && begins_with(
            refused.message@,
            "session_source must match codex_protocol::SessionSource JSON: "@,
        ),
        result matches Ok(prepared) ==> prepared.body == request.body && prepared.failure_context
            == request.failure_context,
        result matches Ok(prepared) ==> (request.session_source@ is Unchanged ==> header_entries(
            prepared.headers,
        ) == entries),
        result matches Ok(prepared) ==> (request.session_source@ is Clear ==> header_entries(
            prepared.headers,
        ) == with_session_source(entries, None)),
        result matches Ok(prepared) ==> (request.session_source@ is Replace ==> header_entries(
            prepared.headers,
        ) == with_session_source(entries, Some(decoded->Ok_0@))),
{
    if let Err(refused) = result {
        let head = "session_source must match codex_protocol::SessionSource JSON: "@;
        assert(refused.message@.subrange(0, head.len() as int) =~= head);
    }
}

/// A response that is streamed to a general client says so by its type; one in one piece has the type
/// that it came with. A Codex client gets the headers as they came.
pub proof fn streams_say_what_they_are(
    body: JsonView,
    entries: Map<Seq<char>, Seq<Seq<u8>>>,
)
    ensures
        body.field("stream"@) != Some(JsonView::Bool(false)) ==> ({
            let sent = responses_headers(ResponseShape::OpenAi, body, entries);
            &&& sent.contains_key("content-type"@)
            &&& sent["content-type"@] == seq![encode_utf8("text/event-stream"@)]
        }),
        body.field("stream"@) == Some(JsonView::Bool(false)) ==> responses_headers(
            ResponseShape::OpenAi,
            body,
            entries,
        ) == openai_headers(entries),
        responses_headers(ResponseShape::Codex, body, entries) == entries,
        ({
            let sent = typed_headers(ResponseShape::OpenAi, entries, "application/json"@);
            &&& sent.contains_key("content-type"@)
            &&& sent["content-type"@] == seq![encode_utf8("application/json"@)]
        }),
{
    lemma_content_types();
}

}
