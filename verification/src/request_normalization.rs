//! How the bodies of requests are brought into one form.
use crate::config::FingerprintMode;
use crate::headers::{
    has_room, header_entries, header_value, insert_value, is_header_value, plain_name, remove_name,
};
use crate::http_shape::lemma_plain_is_lower;
use crate::json::{array_view, json_view, optional_text, Json, JsonView};
use crate::models::{default_parallel_tool_calls, parallel_default, ModelsSnapshot};
use crate::text::same_text;
use http::{HeaderMap, HeaderValue};
use vstd::prelude::*;
use vstd::utf8::encode_utf8;

verus! {

/// The field of a body that speaks to the gateway.
pub const GATEWAY_CONTROL_FIELD: &'static str = "_gateway";

/// The header that names where a session comes from.
pub const SESSION_SOURCE_HEADER: &'static str = "x-codex-session-source";

/// The name that stands for a tool under another name.
pub open spec fn tool_alias(name: Seq<char>) -> Option<Seq<char>> {
    if name == "web_search_preview"@ || name == "web_search_preview_2025_03_11"@ {
        Some("web_search"@)
    } else {
        None
    }
}

/// The type of a tool under its present name.
pub open spec fn aliased_type(value: JsonView) -> JsonView {
    match value {
        JsonView::Text(name) => match tool_alias(name) {
            Some(present) => JsonView::Text(present),
            None => value,
        },
        _ => value,
    }
}

/// A tool with its type under its present name.
pub open spec fn aliased_tool(value: JsonView) -> JsonView {
    match value.field("type"@) {
        Some(kind) => value.with("type"@, aliased_type(kind)),
        None => value,
    }
}

/// Tools with their types under their present names.
pub open spec fn aliased_tools(value: JsonView) -> JsonView {
    match value {
        JsonView::Array(items) => JsonView::Array(
            Seq::new(items.len(), |i: int| aliased_tool(items[i])),
        ),
        _ => value,
    }
}

/// A value with its tools under their present names.
pub open spec fn with_aliased_tools(value: JsonView) -> JsonView {
    match value.field("tools"@) {
        Some(tools) => value.with("tools"@, aliased_tools(tools)),
        None => value,
    }
}

/// The choice of a tool: a bare name becomes an object, and types go under their present names.
pub open spec fn aliased_choice(value: JsonView) -> JsonView {
    match value {
        JsonView::Text(name) => {
            let present = if name == "web_search"@ {
                Some("web_search"@)
            } else {
                tool_alias(name)
            };
            match present {
                Some(present) => JsonView::empty_object().with("type"@, JsonView::Text(present)),
                None => value,
            }
        },
        _ => with_aliased_tools(aliased_tool(value)),
    }
}

/// A body without the fields that the upstream refuses.
pub open spec fn without_refused(body: JsonView) -> JsonView {
    let plain = body.without("max_output_tokens"@).without("max_completion_tokens"@).without(
        "temperature"@,
    ).without("top_p"@).without("truncation"@).without("user"@);
    if plain.field("service_tier"@) == Some(JsonView::Text("priority"@)) {
        plain
    } else {
        plain.without("service_tier"@)
    }
}

/// The body of a general client in the form that the upstream takes.
pub open spec fn compatible(body: JsonView) -> JsonView {
    let tooled = with_aliased_tools(without_refused(body));
    match tooled.field("tool_choice"@) {
        Some(choice) => tooled.with("tool_choice"@, aliased_choice(choice)),
        None => tooled,
    }
}

/// A message from the user with one text.
pub open spec fn user_message(text: Seq<char>) -> JsonView {
    JsonView::empty_object().with("type"@, JsonView::Text("message"@)).with(
        "role"@,
        JsonView::Text("user"@),
    ).with(
        "content"@,
        JsonView::Array(
            seq![
                JsonView::empty_object().with("type"@, JsonView::Text("input_text"@)).with(
                    "text"@,
                    JsonView::Text(text),
                ),
            ],
        ),
    )
}

/// A body whose input is not a bare text.
pub open spec fn message_input(body: JsonView) -> JsonView {
    match body.text_field("input"@) {
        Some(text) => body.with("input"@, JsonView::Array(seq![user_message(text)])),
        None => body,
    }
}

/// A body with instructions, be they empty.
pub open spec fn with_instructions(body: JsonView) -> JsonView {
    match body.field("instructions"@) {
        Some(JsonView::Null) => body.with("instructions"@, JsonView::Text(Seq::empty())),
        Some(_) => body,
        None => body.with("instructions"@, JsonView::Text(Seq::empty())),
    }
}

/// A body with a value under a key, where it has none there.
pub open spec fn with_default(body: JsonView, key: Seq<char>, value: JsonView) -> JsonView {
    match body.field(key) {
        Some(_) => body,
        None => body.with(key, value),
    }
}

/// The body of a request for a response, as it goes upstream.
pub open spec fn normalized_responses(
    mode: FingerprintMode,
    codex_originator: bool,
    body: JsonView,
    snapshot: Option<&ModelsSnapshot>,
) -> JsonView {
    if body is Object {
        let shaped = if codex_originator {
            body
        } else {
            message_input(compatible(body))
        };
        if mode == FingerprintMode::Normalize {
            let instructed = with_instructions(shaped);
            with_default(
                with_default(instructed, "store"@, JsonView::Bool(false)),
                "parallel_tool_calls"@,
                JsonView::Bool(parallel_default(instructed.field("model"@), snapshot)),
            )
        } else {
            shaped
        }
    } else {
        body
    }
}

/// The body of a request for a compact history, as it goes upstream.
pub open spec fn normalized_compact(
    mode: FingerprintMode,
    codex_originator: bool,
    body: JsonView,
    snapshot: Option<&ModelsSnapshot>,
) -> JsonView {
    if body is Object {
        let shaped = if codex_originator {
            body
        } else {
            message_input(body)
        };
        if mode == FingerprintMode::Normalize {
            let instructed = with_instructions(shaped);
            with_default(
                instructed,
                "parallel_tool_calls"@,
                JsonView::Bool(parallel_default(instructed.field("model"@), snapshot)),
            )
        } else {
            shaped
        }
    } else {
        body
    }
}

/// The name that stands for a tool under another name.
pub fn normalize_builtin_tool_type(tool_type: &str) -> (present: Option<&'static str>)
    ensures
        crate::json::optional_text(present) == tool_alias(tool_type@),
{
    if same_text(tool_type, "web_search_preview") || same_text(
        tool_type,
        "web_search_preview_2025_03_11",
    ) {
        Some("web_search")
    } else {
        None
    }
}

/// The type of a tool under its present name.
pub fn normalize_builtin_tool_alias_type(value: &Json) -> (present: Json)
    ensures
        present@ == aliased_type(value@),
{
    if let Json::Text(name) = value {
        if let Some(present) = normalize_builtin_tool_type(name.as_str()) {
            return Json::text(present);
        }
    }
    value.clone()
}

/// A tool with its type under its present name.
pub fn normalize_builtin_tool_alias(tool: &Json) -> (present: Json)
    ensures
        present@ == aliased_tool(tool@),
{
    match tool.get("type") {
        Some(kind) => {
            let kind: Json = normalize_builtin_tool_alias_type(kind);
            tool.clone().with("type", kind)
        },
        None => tool.clone(),
    }
}

fn alias_tools(value: &Json) -> (present: Json)
    ensures
        present@ == aliased_tools(value@),
{
    match value {
        Json::Array(items) => {
            let mut tools: Vec<Json> = Vec::new();
            let mut i: usize = 0;
            while i < items.len()
                invariant
                    i <= items.len(),
                    tools.len() == i,
                    forall|j: int|
                        0 <= j < i ==> json_view(#[trigger] tools@[j]) == aliased_tool(
                            json_view(items@[j]),
                        ),
                decreases items.len() - i,
            {
                tools.push(normalize_builtin_tool_alias(&items[i]));
                i = i + 1;
            }
            assert(array_view(tools@) =~= Seq::new(
                array_view(items@).len(),
                |j: int| aliased_tool(array_view(items@)[j]),
            ));
            Json::Array(tools)
        },
        _ => value.clone(),
    }
}

/// Puts the tools of a value under their present names.
pub fn normalize_builtin_tool_aliases(value: &mut Json)
    ensures
        final(value)@ == with_aliased_tools(old(value)@),
{
    let tools: Option<Json> = match value.get("tools") {
        Some(tools) => Some(alias_tools(tools)),
        None => None,
    };
    if let Some(tools) = tools {
        value.set("tools", tools);
    }
}

/// The choice of a tool in the form that the upstream takes.
pub fn normalize_tool_choice_aliases(choice: &Json) -> (present: Json)
    ensures
        present@ == aliased_choice(choice@),
{
    match choice {
        Json::Text(name) => {
            let present: Option<&'static str> = if same_text(name.as_str(), "web_search") {
                Some("web_search")
            } else {
                normalize_builtin_tool_type(name.as_str())
            };
            match present {
                Some(present) => Json::object().with("type", Json::text(present)),
                None => choice.clone(),
            }
        },
        _ => {
            let mut present: Json = normalize_builtin_tool_alias(choice);
            normalize_builtin_tool_aliases(&mut present);
            present
        },
    }
}

/// Brings the body of a general client into the form that the upstream takes.
pub fn normalize_non_codex_responses_compatibility(body: &mut Json)
    ensures
        final(body)@ == compatible(old(body)@),
{
    body.remove("max_output_tokens");
    body.remove("max_completion_tokens");
    body.remove("temperature");
    body.remove("top_p");
    body.remove("truncation");
    body.remove("user");
    let priority: bool = match body.get("service_tier") {
        Some(Json::Text(tier)) => same_text(tier.as_str(), "priority"),
        _ => false,
    };
    if !priority {
        body.remove("service_tier");
    }
    normalize_builtin_tool_aliases(body);
    let choice: Option<Json> = match body.get("tool_choice") {
        Some(choice) => Some(normalize_tool_choice_aliases(choice)),
        None => None,
    };
    if let Some(choice) = choice {
        body.set("tool_choice", choice);
    }
}

/// Turns an input that is a bare text into a message from the user.
pub fn normalize_string_input_to_message(body: &mut Json)
    ensures
        final(body)@ == message_input(old(body)@),
{
    let text: Option<String> = match body.get_str("input") {
        Some(text) => Some(text.to_owned()),
        None => None,
    };
    if let Some(text) = text {
        let part: Json = Json::object().with("type", Json::text("input_text")).with(
            "text",
            Json::text(text.as_str()),
        );
        let ghost part_view = part@;
        let mut content: Vec<Json> = Vec::new();
        content.push(part);
        assert(array_view(content@) =~= seq![part_view]);
        let message: Json = Json::object().with("type", Json::text("message")).with(
            "role",
            Json::text("user"),
        ).with("content", Json::Array(content));
        let ghost message_view = message@;
        let mut input: Vec<Json> = Vec::new();
        input.push(message);
        assert(array_view(input@) =~= seq![message_view]);
        body.set("input", Json::Array(input));
    }
}

/// Gives a body instructions where it has none.
pub fn normalize_instructions_field(body: &mut Json)
    ensures
        final(body)@ == with_instructions(old(body)@),
{
    let missing: bool = match body.get("instructions") {
        Some(value) => value.is_null(),
        None => true,
    };
    if missing {
        body.set("instructions", Json::Text(String::new()));
    }
}

fn set_default(body: &mut Json, key: &str, value: Json)
    ensures
        final(body)@ == with_default(old(body)@, key@, value@),
{
    if body.get(key).is_none() {
        body.set(key, value);
    }
}

/// Brings the body of a request for a response into the form in which it goes upstream.
pub fn normalize_responses_request_body(
    mode: FingerprintMode,
    codex_originator: bool,
    body: &mut Json,
    snapshot: Option<&ModelsSnapshot>,
)
    ensures
        final(body)@ == normalized_responses(mode, codex_originator, old(body)@, snapshot),
{
    if body.is_object() {
        if !codex_originator {
            normalize_non_codex_responses_compatibility(body);
            normalize_string_input_to_message(body);
        }
        if mode != FingerprintMode::Normalize {
            return;
        }
        normalize_instructions_field(body);
        let parallel: bool = default_parallel_tool_calls(body.get("model"), snapshot);
        set_default(body, "store", Json::Bool(false));
        set_default(body, "parallel_tool_calls", Json::Bool(parallel));
    }
}

/// Brings the body of a request for a compact history into the form in which it goes upstream.
pub fn normalize_compact_request_body(
    mode: FingerprintMode,
    codex_originator: bool,
    body: &mut Json,
    snapshot: Option<&ModelsSnapshot>,
)
    ensures
        final(body)@ == normalized_compact(mode, codex_originator, old(body)@, snapshot),
{
    if body.is_object() {
        if !codex_originator {
            normalize_string_input_to_message(body);
        }
        if mode != FingerprintMode::Normalize {
            return;
        }
        normalize_instructions_field(body);
        let parallel: bool = default_parallel_tool_calls(body.get("model"), snapshot);
        set_default(body, "parallel_tool_calls", Json::Bool(parallel));
    }
}

/// What a body asks of the gateway about the session source.
#[derive(Debug)]
pub enum SessionSourceOverride {
    Unchanged,
    Clear,
    /// The header is to name this source, once it has been read and written again.
    Replace(Json),
}

/// The name of a JSON type.
pub open spec fn kind_name(value: JsonView) -> Seq<char> {
    match value {
        JsonView::Null => "null"@,
        JsonView::Bool(_) => "boolean"@,
        JsonView::Integer(_) | JsonView::Decimal(_) => "number"@,
        JsonView::Text(_) => "string"@,
        JsonView::Array(_) => "array"@,
        JsonView::Object(_) => "object"@,
    }
}

/// The name of a JSON type.
pub fn json_type_name(value: &Json) -> (name: &'static str)
    ensures
        name@ == kind_name(value@),
{
    match value {
        Json::Null => "null",
        Json::Bool(_) => "boolean",
        Json::Number(_) => "number",
        Json::Text(_) => "string",
        Json::Array(_) => "array",
        Json::Object(_) => "object",
    }
}

/// The model of what a body asks of the gateway.
pub enum OverrideView {
    Unchanged,
    Clear,
    Replace(JsonView),
}

impl View for SessionSourceOverride {
    type V = OverrideView;

    open spec fn view(&self) -> OverrideView {
        match *self {
            SessionSourceOverride::Unchanged => OverrideView::Unchanged,
            SessionSourceOverride::Clear => OverrideView::Clear,
            SessionSourceOverride::Replace(source) => OverrideView::Replace(source@),
        }
    }
}

/// What a body asks of the gateway about the session source; a message where it asks in a way that
/// is refused.
pub open spec fn gateway_override(body: JsonView) -> Result<OverrideView, Seq<char>> {
    match body.field(GATEWAY_CONTROL_FIELD@) {
        None | Some(JsonView::Null) => Ok(OverrideView::Unchanged),
        Some(gateway) => if gateway is Object {
            match gateway.field("session_source"@) {
                None => Ok(OverrideView::Unchanged),
                Some(JsonView::Null) => Ok(OverrideView::Clear),
                Some(source) => Ok(OverrideView::Replace(source)),
            }
        } else {
            Err("_gateway must be null or object; got "@ + kind_name(gateway))
        },
    }
}

/// The model of such an answer.
pub open spec fn override_view(result: Result<SessionSourceOverride, String>) -> Result<
    OverrideView,
    Seq<char>,
> {
    match result {
        Ok(source) => Ok(source@),
        Err(message) => Err(message@),
    }
}

/// Takes what a body says to the gateway out of it. Anything but null or an object is refused.
pub fn take_gateway_overrides(body: &mut Json) -> (result: Result<SessionSourceOverride, String>)
    ensures
        final(body)@ == old(body)@.without(GATEWAY_CONTROL_FIELD@),
        override_view(result) == gateway_override(old(body)@),
{
    let gateway: Option<Json> = match body.get(GATEWAY_CONTROL_FIELD) {
        Some(gateway) => Some(gateway.clone()),
        None => None,
    };
    body.remove(GATEWAY_CONTROL_FIELD);
    match gateway {
        None => Ok(SessionSourceOverride::Unchanged),
        Some(gateway) => {
            if gateway.is_null() {
                return Ok(SessionSourceOverride::Unchanged);
            }
            if !gateway.is_object() {
                let mut message: String = "_gateway must be null or object; got ".to_owned();
                message.append(json_type_name(&gateway));
                return Err(message);
            }
            match gateway.get("session_source") {
                Some(source) => if source.is_null() {
                    Ok(SessionSourceOverride::Clear)
                } else {
                    Ok(SessionSourceOverride::Replace(source.clone()))
                },
                None => Ok(SessionSourceOverride::Unchanged),
            }
        },
    }
}

/// What is shown where a session source cannot be read.
pub fn session_source_error(error: &str) -> (message: String)
    ensures
        message@ == "session_source must match codex_protocol::SessionSource JSON: "@ + error@,
{
    let mut message: String =
        "session_source must match codex_protocol::SessionSource JSON: ".to_owned();
    message.append(error);
    message
}

/// The name of the session source's header is plain.
proof fn lemma_session_source_name()
    ensures
        plain_name(SESSION_SOURCE_HEADER@),
{
    reveal_strlit("x-codex-session-source");
}

/// Headers that name a session source, or none.
pub open spec fn with_session_source(
    entries: Map<Seq<char>, Seq<Seq<u8>>>,
    encoded: Option<Seq<char>>,
) -> Map<Seq<char>, Seq<Seq<u8>>> {
    match encoded {
        None => entries.remove(SESSION_SOURCE_HEADER@),
        Some(text) => if header_value(encode_utf8(text)) {
            entries.insert(SESSION_SOURCE_HEADER@, seq![encode_utf8(text)])
        } else {
            entries
        },
    }
}

/// Names a session source in the headers, or clears it; a text that makes no header value changes
/// nothing.
pub fn apply_session_source_override(headers: &mut HeaderMap<HeaderValue>, encoded: Option<&str>)
    requires
        has_room(*old(headers)),
    ensures
        header_entries(*final(headers)) == with_session_source(
            header_entries(*old(headers)),
            optional_text(encoded),
        ),
{
    proof {
        lemma_session_source_name();
        lemma_plain_is_lower(SESSION_SOURCE_HEADER@);
    }
    match encoded {
        None => {
            remove_name(headers, SESSION_SOURCE_HEADER);
        },
        Some(text) => {
            if is_header_value(text.as_bytes()) {
                insert_value(headers, SESSION_SOURCE_HEADER, text.as_bytes());
            }
        },
    }
}

/// Does what a body asks of the gateway. `decoded` is the source that it names, written as it
/// stands in the header, or why it cannot be read; it counts only where a source is named.
pub fn apply_gateway_override(
    headers: &mut HeaderMap<HeaderValue>,
    source: &SessionSourceOverride,
    decoded: Result<&str, &str>,
) -> (result: Result<(), String>)
    requires
        has_room(*old(headers)),
    ensures
        match (source@, decoded) {
            (OverrideView::Unchanged, _) => result is Ok && header_entries(*final(headers))
                == header_entries(*old(headers)),
            (OverrideView::Clear, _) => result is Ok && header_entries(*final(headers))
                == with_session_source(header_entries(*old(headers)), None),
            (OverrideView::Replace(_), Ok(text)) => result is Ok && header_entries(*final(headers))
                == with_session_source(header_entries(*old(headers)), Some(text@)),
            (OverrideView::Replace(_), Err(error)) => header_entries(*final(headers))
                == header_entries(*old(headers)) && (result matches Err(message) && message@
                == "session_source must match codex_protocol::SessionSource JSON: "@ + error@),
        },
{
    match source {
        SessionSourceOverride::Unchanged => Ok(()),
        SessionSourceOverride::Clear => {
            apply_session_source_override(headers, None);
            Ok(())
        },
        SessionSourceOverride::Replace(_) => match decoded {
            Ok(text) => {
                apply_session_source_override(headers, Some(text));
                Ok(())
            },
            Err(error) => Err(session_source_error(error)),
        },
    }
}

}
