//! What holds of every body that goes upstream.
use crate::config::FingerprintMode;
use crate::headers::header_value;
use crate::json::JsonView;
use crate::models::ModelsSnapshot;
use crate::request_normalization::{
    aliased_choice, aliased_tool, aliased_tools, aliased_type, compatible, gateway_override,
    message_input, normalized_compact, normalized_responses, tool_alias, with_aliased_tools,
    with_default, with_instructions, with_session_source, without_refused, OverrideView,
};
use vstd::prelude::*;
use vstd::utf8::encode_utf8;

verus! {

/// Is this a field that the upstream refuses?
pub open spec fn is_refused(key: Seq<char>) -> bool {
    ||| key == "max_output_tokens"@
    ||| key == "max_completion_tokens"@
    ||| key == "temperature"@
    ||| key == "top_p"@
    ||| key == "truncation"@
    ||| key == "user"@
}

/// Is this a field that is brought into another form?
pub open spec fn is_shaped(key: Seq<char>) -> bool {
    ||| key == "service_tier"@
    ||| key == "tools"@
    ||| key == "tool_choice"@
    ||| key == "input"@
    ||| key == "instructions"@
    ||| key == "store"@
    ||| key == "parallel_tool_calls"@
}

proof fn lemma_keys()
    ensures
        !is_refused("service_tier"@),
        !is_refused("tools"@),
        !is_refused("tool_choice"@),
        !is_refused("input"@),
        !is_refused("instructions"@),
        !is_refused("store"@),
        !is_refused("parallel_tool_calls"@),
        "service_tier"@ != "tools"@,
        "service_tier"@ != "tool_choice"@,
        "service_tier"@ != "input"@,
        "service_tier"@ != "instructions"@,
        "service_tier"@ != "store"@,
        "service_tier"@ != "parallel_tool_calls"@,
        "tools"@ != "tool_choice"@,
        "tools"@ != "input"@,
        "tools"@ != "instructions"@,
        "tools"@ != "store"@,
        "tools"@ != "parallel_tool_calls"@,
        "tool_choice"@ != "input"@,
        "tool_choice"@ != "instructions"@,
        "tool_choice"@ != "store"@,
        "tool_choice"@ != "parallel_tool_calls"@,
        "input"@ != "instructions"@,
        "input"@ != "store"@,
        "input"@ != "parallel_tool_calls"@,
        "instructions"@ != "store"@,
        "instructions"@ != "parallel_tool_calls"@,
        "store"@ != "parallel_tool_calls"@,
        "type"@ != "tools"@,
        tool_alias("web_search"@) is None,
{
    reveal_strlit("max_output_tokens");
    reveal_strlit("max_completion_tokens");
    reveal_strlit("temperature");
    reveal_strlit("top_p");
    reveal_strlit("truncation");
    reveal_strlit("user");
    reveal_strlit("service_tier");
    reveal_strlit("tools");
    reveal_strlit("tool_choice");
    reveal_strlit("input");
    reveal_strlit("instructions");
    reveal_strlit("store");
    reveal_strlit("parallel_tool_calls");
    reveal_strlit("type");
    reveal_strlit("web_search");
    reveal_strlit("web_search_preview");
    reveal_strlit("web_search_preview_2025_03_11");
    assert("max_output_tokens"@.len() == 17);
    assert("max_completion_tokens"@.len() == 21);
    assert("temperature"@.len() == 11);
    assert("top_p"@.len() == 5);
    assert("truncation"@.len() == 10);
    assert("user"@.len() == 4);
    assert("service_tier"@.len() == 12);
    assert("tools"@.len() == 5);
    assert("tool_choice"@.len() == 11);
    assert("input"@.len() == 5);
    assert("instructions"@.len() == 12);
    assert("store"@.len() == 5);
    assert("parallel_tool_calls"@.len() == 19);
    assert("type"@.len() == 4);
    assert("web_search"@.len() == 10);
    assert("web_search_preview"@.len() == 18);
    assert("web_search_preview_2025_03_11"@.len() == 29);
    assert("tools"@[2] == 'o' && "input"@[2] == 'p' && "store"@[2] == 'o' && "top_p"@[2] == 'p');
    assert("tools"@[0] == 't' && "input"@[0] == 'i' && "store"@[0] == 's' && "top_p"@[0] == 't');
    assert("tool_choice"@[1] == 'o' && "temperature"@[1] == 'e');
    assert("service_tier"@[0] == 's' && "instructions"@[0] == 'i');
}

proof fn lemma_same_again(value: JsonView, key: Seq<char>)
    requires
        value.field(key) is Some,
    ensures
        value.with(key, value.field(key)->0) == value,
{
    if let JsonView::Object(entries) = value {
        assert(entries.insert(key, entries[key]) =~= entries);
    }
}

proof fn lemma_tool(tool: JsonView)
    ensures
        aliased_tool(aliased_tool(tool)) == aliased_tool(tool),
{
    lemma_keys();
    if tool.field("type"@) is Some {
        let once = aliased_tool(tool);
        assert(once.field("type"@) == Some(aliased_type(tool.field("type"@)->0)));
        lemma_same_again(once, "type"@);
    }
}

proof fn lemma_tools(tools: JsonView)
    ensures
        aliased_tools(aliased_tools(tools)) == aliased_tools(tools),
{
    if let JsonView::Array(items) = tools {
        let once = Seq::new(items.len(), |i: int| aliased_tool(items[i]));
        let twice = Seq::new(once.len(), |i: int| aliased_tool(once[i]));
        assert forall|i: int| 0 <= i < once.len() implies once[i] == twice[i] by {
            lemma_tool(items[i]);
        }
        assert(once =~= twice);
    }
}

proof fn lemma_with_tools(value: JsonView)
    ensures
        with_aliased_tools(with_aliased_tools(value)) == with_aliased_tools(value),
{
    if value.field("tools"@) is Some {
        let once = with_aliased_tools(value);
        lemma_tools(value.field("tools"@)->0);
        assert(once.field("tools"@) == Some(aliased_tools(value.field("tools"@)->0)));
        lemma_same_again(once, "tools"@);
    }
}

proof fn lemma_choice(choice: JsonView)
    ensures
        aliased_choice(aliased_choice(choice)) == aliased_choice(choice),
{
    lemma_keys();
    if let JsonView::Text(name) = choice {
        let once = aliased_choice(choice);
        if once is Object {
            assert(once.field("type"@) == Some(JsonView::Text("web_search"@)));
            lemma_same_again(once, "type"@);
            assert(aliased_tool(once) == once);
            assert(once.field("tools"@) is None);
        }
    } else {
        let typed = aliased_tool(choice);
        let once = with_aliased_tools(typed);
        lemma_tool(choice);
        lemma_with_tools(typed);
        assert(once.field("type"@) == typed.field("type"@));
        assert(aliased_tool(once) == once) by {
            if once.field("type"@) is Some {
                assert(typed.field("type"@) == Some(aliased_type(choice.field("type"@)->0)));
                lemma_same_again(once, "type"@);
            }
        }
        assert(!(once is Text));
    }
}

/// Is a body in the form into which the bodies of general clients are brought?
spec fn is_compatible(body: JsonView) -> bool {
    &&& forall|key: Seq<char>| is_refused(key) ==> #[trigger] body.field(key) is None
    &&& body.field("service_tier"@) is None || body.field("service_tier"@) == Some(
        JsonView::Text("priority"@),
    )
    &&& body.field("tools"@) matches Some(tools) ==> aliased_tools(tools) == tools
    &&& body.field("tool_choice"@) matches Some(choice) ==> aliased_choice(choice) == choice
}

proof fn lemma_without(value: JsonView, key: Seq<char>)
    requires
        value.field(key) is None,
    ensures
        value.without(key) == value,
{
    if let JsonView::Object(entries) = value {
        assert(entries.remove(key) =~= entries);
    }
}

proof fn lemma_compatible_stays(body: JsonView)
    requires
        is_compatible(body),
    ensures
        compatible(body) == body,
{
    assert(body.field("max_output_tokens"@) is None);
    assert(body.field("max_completion_tokens"@) is None);
    assert(body.field("temperature"@) is None);
    assert(body.field("top_p"@) is None);
    assert(body.field("truncation"@) is None);
    assert(body.field("user"@) is None);
    lemma_without(body, "max_output_tokens"@);
    lemma_without(body, "max_completion_tokens"@);
    lemma_without(body, "temperature"@);
    lemma_without(body, "top_p"@);
    lemma_without(body, "truncation"@);
    lemma_without(body, "user"@);
    if body.field("service_tier"@) is None {
        lemma_without(body, "service_tier"@);
    }
    assert(without_refused(body) == body);
    if body.field("tools"@) is Some {
        lemma_same_again(body, "tools"@);
    }
    if body.field("tool_choice"@) is Some {
        lemma_same_again(body, "tool_choice"@);
    }
}

proof fn lemma_made_compatible(body: JsonView)
    requires
        body is Object,
    ensures
        compatible(body) is Object,
        is_compatible(compatible(body)),
        forall|key: Seq<char>|
            !is_refused(key) && !is_shaped(key) ==> #[trigger] compatible(body).field(key)
                == body.field(key),
{
    lemma_keys();
    let plain = without_refused(body);
    let tooled = with_aliased_tools(plain);
    if plain.field("tools"@) is Some {
        lemma_tools(plain.field("tools"@)->0);
    }
    if tooled.field("tool_choice"@) is Some {
        lemma_choice(tooled.field("tool_choice"@)->0);
    }
}

proof fn lemma_still_compatible(body: JsonView, key: Seq<char>, value: JsonView)
    requires
        is_compatible(body),
        key == "input"@ || key == "instructions"@ || key == "store"@ || key
            == "parallel_tool_calls"@,
    ensures
        is_compatible(body.with(key, value)),
{
    lemma_keys();
    let after = body.with(key, value);
    assert forall|other: Seq<char>| is_refused(other) implies #[trigger] after.field(
        other,
    ) is None by {
        assert(body.field(other) is None);
    }
}

/// A body that is brought into its form for the upstream once more stays as it is.
pub proof fn normalizing_twice_is_normalizing_once(
    mode: FingerprintMode,
    codex_originator: bool,
    body: JsonView,
    snapshot: Option<&ModelsSnapshot>,
)
    ensures
        normalized_responses(
            mode,
            codex_originator,
            normalized_responses(mode, codex_originator, body, snapshot),
            snapshot,
        ) == normalized_responses(mode, codex_originator, body, snapshot),
        normalized_compact(
            mode,
            codex_originator,
            normalized_compact(mode, codex_originator, body, snapshot),
            snapshot,
        ) == normalized_compact(mode, codex_originator, body, snapshot),
{
    if body is Object {
        lemma_responses_twice(mode, codex_originator, body, snapshot);
        lemma_compact_twice(mode, codex_originator, body, snapshot);
    }
}

proof fn lemma_responses_twice(
    mode: FingerprintMode,
    codex_originator: bool,
    body: JsonView,
    snapshot: Option<&ModelsSnapshot>,
)
    requires
        body is Object,
    ensures
        normalized_responses(
            mode,
            codex_originator,
            normalized_responses(mode, codex_originator, body, snapshot),
            snapshot,
        ) == normalized_responses(mode, codex_originator, body, snapshot),
{
    lemma_keys();
    let done = normalized_responses(mode, codex_originator, body, snapshot);
    if !codex_originator {
        let first = compatible(body);
        lemma_made_compatible(body);
        let shaped = message_input(first);
        if let Some(text) = first.text_field("input"@) {
            lemma_still_compatible(
                first,
                "input"@,
                JsonView::Array(seq![crate::request_normalization::user_message(text)]),
            );
        }
        assert(is_compatible(shaped));
        assert(shaped.text_field("input"@) is None);
        if mode == FingerprintMode::Normalize {
            let instructed = with_instructions(shaped);
            let parallel = JsonView::Bool(
                crate::models::parallel_default(instructed.field("model"@), snapshot),
            );
            lemma_still_compatible(shaped, "instructions"@, JsonView::Text(Seq::empty()));
            let stored = with_default(instructed, "store"@, JsonView::Bool(false));
            lemma_still_compatible(instructed, "store"@, JsonView::Bool(false));
            lemma_still_compatible(stored, "parallel_tool_calls"@, parallel);
            assert(is_compatible(done));
            assert(done.field("input"@) == shaped.field("input"@));
        }
        assert(is_compatible(done));
        lemma_compatible_stays(done);
        assert(done.text_field("input"@) is None);
        assert(message_input(compatible(done)) == done);
    }
}

proof fn lemma_compact_twice(
    mode: FingerprintMode,
    codex_originator: bool,
    body: JsonView,
    snapshot: Option<&ModelsSnapshot>,
)
    requires
        body is Object,
    ensures
        normalized_compact(
            mode,
            codex_originator,
            normalized_compact(mode, codex_originator, body, snapshot),
            snapshot,
        ) == normalized_compact(mode, codex_originator, body, snapshot),
{
    lemma_keys();
    let done = normalized_compact(mode, codex_originator, body, snapshot);
    if !codex_originator {
        let shaped = message_input(body);
        assert(shaped.text_field("input"@) is None);
        assert(done.field("input"@) == shaped.field("input"@));
        assert(message_input(done) == done);
    }
}

/// The body of a Codex client passes unchanged where fingerprints pass through.
pub proof fn codex_bodies_pass_through(body: JsonView, snapshot: Option<&ModelsSnapshot>)
    ensures
        normalized_responses(FingerprintMode::Passthrough, true, body, snapshot) == body,
        normalized_compact(FingerprintMode::Passthrough, true, body, snapshot) == body,
{
}

/// What the upstream refuses is not sent to it for a general client.
pub proof fn refused_fields_are_not_sent(
    mode: FingerprintMode,
    body: JsonView,
    snapshot: Option<&ModelsSnapshot>,
    key: Seq<char>,
)
    requires
        body is Object,
        is_refused(key),
    ensures
        normalized_responses(mode, false, body, snapshot).field(key) is None,
{
    lemma_keys();
    lemma_made_compatible(body);
    assert(compatible(body).field(key) is None);
}

/// A field that is neither refused nor given a form of its own is sent as it is.
pub proof fn other_fields_are_kept(
    mode: FingerprintMode,
    codex_originator: bool,
    body: JsonView,
    snapshot: Option<&ModelsSnapshot>,
    key: Seq<char>,
)
    requires
        !is_refused(key),
        !is_shaped(key),
    ensures
        normalized_responses(mode, codex_originator, body, snapshot).field(key) == body.field(key),
        normalized_compact(mode, codex_originator, body, snapshot).field(key) == body.field(key),
{
    lemma_keys();
    if body is Object && !codex_originator {
        lemma_made_compatible(body);
        assert(compatible(body).field(key) == body.field(key));
    }
}

/// Where fingerprints are normalized, a request says whether it is stored, which tools may run
/// at once, and has instructions.
pub proof fn normalized_bodies_are_complete(
    codex_originator: bool,
    body: JsonView,
    snapshot: Option<&ModelsSnapshot>,
)
    requires
        body is Object,
    ensures
        ({
            let done = normalized_responses(
                FingerprintMode::Normalize,
                codex_originator,
                body,
                snapshot,
            );
            &&& done.field("store"@) is Some
            &&& done.field("parallel_tool_calls"@) is Some
            &&& done.field("instructions"@) is Some
            &&& !(done.field("instructions"@)->0 is Null)
        }),
{
    lemma_keys();
    if !codex_originator {
        lemma_made_compatible(body);
    }
}

/// The fields of a general client that come out of the common form: its tools and its choice of one
/// as they are in what is sent.
proof fn lemma_shaped_fields(
    mode: FingerprintMode,
    body: JsonView,
    snapshot: Option<&ModelsSnapshot>,
)
    requires
        body is Object,
    ensures
        ({
            let done = normalized_responses(mode, false, body, snapshot);
            &&& done.field("tools"@) == (match body.field("tools"@) {
                Some(tools) => Some(aliased_tools(tools)),
                None => None,
            })
            &&& done.field("tool_choice"@) == (match body.field("tool_choice"@) {
                Some(choice) => Some(aliased_choice(choice)),
                None => None,
            })
            &&& done.field("service_tier"@) == (if body.field("service_tier"@) == Some(
                JsonView::Text("priority"@),
            ) {
                body.field("service_tier"@)
            } else {
                None
            })
        }),
{
    lemma_keys();
}

/// The tools of a general client are sent in their order, each as the client wrote it: only a tool
/// of the type `web_search_preview` or `web_search_preview_2025_03_11` goes under the type
/// `web_search`, with its other fields as they were.
pub proof fn tools_are_sent_as_written(
    mode: FingerprintMode,
    body: JsonView,
    snapshot: Option<&ModelsSnapshot>,
    tools: Seq<JsonView>,
    i: int,
)
    requires
        body is Object,
        body.field("tools"@) == Some(JsonView::Array(tools)),
        0 <= i < tools.len(),
    ensures
        ({
            let sent = normalized_responses(mode, false, body, snapshot).field("tools"@);
            let kind = tools[i].text_field("type"@);
            let renamed = kind == Some("web_search_preview"@) || kind == Some(
                "web_search_preview_2025_03_11"@,
            );
            &&& sent is Some && sent->0 is Array && sent->0->Array_0.len() == tools.len()
            &&& !renamed ==> sent->0->Array_0[i] == tools[i]
            &&& renamed ==> sent->0->Array_0[i].field("type"@) == Some(JsonView::Text("web_search"@))
                && forall|key: Seq<char>|
                key != "type"@ ==> #[trigger] sent->0->Array_0[i].field(key) == tools[i].field(key)
        }),
{
    lemma_shaped_fields(mode, body, snapshot);
    if let Some(kind) = tools[i].field("type"@) {
        lemma_same_again(tools[i], "type"@);
    }
}

/// What is no list of tools is sent as it is, and tools that a client did not name are not sent.
pub proof fn other_tools_are_left_alone(
    mode: FingerprintMode,
    body: JsonView,
    snapshot: Option<&ModelsSnapshot>,
)
    requires
        body is Object,
        !(body.field("tools"@) matches Some(tools) && tools is Array),
    ensures
        normalized_responses(mode, false, body, snapshot).field("tools"@) == body.field("tools"@),
{
    lemma_shaped_fields(mode, body, snapshot);
}

/// The choice of a tool by name is sent as it is, such as `auto` or `none`, but for the web search,
/// which the upstream takes as an object of the type `web_search` only.
pub proof fn named_choices_are_sent_as_written(
    mode: FingerprintMode,
    body: JsonView,
    snapshot: Option<&ModelsSnapshot>,
    name: Seq<char>,
)
    requires
        body is Object,
        body.field("tool_choice"@) == Some(JsonView::Text(name)),
    ensures
        ({
            let sent = normalized_responses(mode, false, body, snapshot).field("tool_choice"@);
            let search = name == "web_search"@ || name == "web_search_preview"@ || name
                == "web_search_preview_2025_03_11"@;
            &&& !search ==> sent == Some(JsonView::Text(name))
            &&& search ==> sent is Some && sent->0.field("type"@) == Some(
                JsonView::Text("web_search"@),
            ) && forall|key: Seq<char>| key != "type"@ ==> #[trigger] sent->0.field(key) is None
        }),
{
    lemma_shaped_fields(mode, body, snapshot);
}

/// The choice of a tool by an object is sent as it is, unless it is of the type of an old web search
/// or lists tools.
pub proof fn other_choices_are_sent_as_written(
    mode: FingerprintMode,
    body: JsonView,
    snapshot: Option<&ModelsSnapshot>,
    choice: JsonView,
)
    requires
        body is Object,
        body.field("tool_choice"@) == Some(choice),
        !(choice is Text),
        choice.field("tools"@) is None,
    ensures
        ({
            let sent = normalized_responses(mode, false, body, snapshot).field("tool_choice"@);
            let kind = choice.text_field("type"@);
            let renamed = kind == Some("web_search_preview"@) || kind == Some(
                "web_search_preview_2025_03_11"@,
            );
            &&& !renamed ==> sent == Some(choice)
            &&& renamed ==> sent is Some && sent->0.field("type"@) == Some(
                JsonView::Text("web_search"@),
            )
        }),
{
    lemma_keys();
    lemma_shaped_fields(mode, body, snapshot);
    if let Some(kind) = choice.field("type"@) {
        lemma_same_again(choice, "type"@);
    }
}

/// A service tier of a general client is sent where it is `priority`, and else not at all.
pub proof fn only_the_priority_tier_is_sent(
    mode: FingerprintMode,
    body: JsonView,
    snapshot: Option<&ModelsSnapshot>,
)
    requires
        body is Object,
    ensures
        ({
            let sent = normalized_responses(mode, false, body, snapshot).field("service_tier"@);
            &&& body.text_field("service_tier"@) == Some("priority"@) ==> sent == Some(
                JsonView::Text("priority"@),
            )
            &&& body.text_field("service_tier"@) != Some("priority"@) ==> sent is None
        }),
{
    lemma_shaped_fields(mode, body, snapshot);
}

/// What the upstream refuses of a general client is not sent: limits on the output, how words are
/// drawn, how the input is cut, and who the user is. For a compact history it is sent.
pub proof fn sampling_fields_are_not_sent(
    mode: FingerprintMode,
    body: JsonView,
    snapshot: Option<&ModelsSnapshot>,
)
    requires
        body is Object,
    ensures
        ({
            let sent = normalized_responses(mode, false, body, snapshot);
            &&& sent.field("max_output_tokens"@) is None
            &&& sent.field("max_completion_tokens"@) is None
            &&& sent.field("temperature"@) is None
            &&& sent.field("top_p"@) is None
            &&& sent.field("truncation"@) is None
            &&& sent.field("user"@) is None
        }),
        ({
            let sent = normalized_compact(mode, false, body, snapshot);
            &&& sent.field("temperature"@) == body.field("temperature"@)
            &&& sent.field("user"@) == body.field("user"@)
            &&& sent.field("tools"@) == body.field("tools"@)
            &&& sent.field("service_tier"@) == body.field("service_tier"@)
        }),
{
    refused_fields_are_not_sent(mode, body, snapshot, "max_output_tokens"@);
    refused_fields_are_not_sent(mode, body, snapshot, "max_completion_tokens"@);
    refused_fields_are_not_sent(mode, body, snapshot, "temperature"@);
    refused_fields_are_not_sent(mode, body, snapshot, "top_p"@);
    refused_fields_are_not_sent(mode, body, snapshot, "truncation"@);
    refused_fields_are_not_sent(mode, body, snapshot, "user"@);
    lemma_keys();
}

/// A field is sent as the client wrote it, unless it is one of those that are named here.
pub proof fn fields_are_sent_as_written(
    mode: FingerprintMode,
    codex_originator: bool,
    body: JsonView,
    snapshot: Option<&ModelsSnapshot>,
    key: Seq<char>,
)
    requires
        key != "max_output_tokens"@ && key != "max_completion_tokens"@ && key != "temperature"@ && key
            != "top_p"@ && key != "truncation"@ && key != "user"@,
        key != "service_tier"@ && key != "tools"@ && key != "tool_choice"@ && key != "input"@,
        key != "instructions"@ && key != "store"@ && key != "parallel_tool_calls"@,
    ensures
        normalized_responses(mode, codex_originator, body, snapshot).field(key) == body.field(key),
        normalized_compact(mode, codex_originator, body, snapshot).field(key) == body.field(key),
{
    other_fields_are_kept(mode, codex_originator, body, snapshot, key);
}

/// Of a Codex client nothing is changed that it wrote, but instructions that are null.
pub proof fn codex_fields_are_sent_as_written(
    mode: FingerprintMode,
    body: JsonView,
    snapshot: Option<&ModelsSnapshot>,
    key: Seq<char>,
)
    requires
        body.field(key) is Some,
        !(key == "instructions"@ && body.field(key) == Some(JsonView::Null)),
    ensures
        normalized_responses(mode, true, body, snapshot).field(key) == body.field(key),
        normalized_compact(mode, true, body, snapshot).field(key) == body.field(key),
{
    lemma_keys();
}

/// An input that is a bare text is sent as one message of the user with that text; any other is sent
/// as it is.
pub proof fn bare_inputs_become_messages(
    mode: FingerprintMode,
    body: JsonView,
    snapshot: Option<&ModelsSnapshot>,
)
    requires
        body is Object,
    ensures
        ({
            let sent = normalized_responses(mode, false, body, snapshot).field("input"@);
            let compact = normalized_compact(mode, false, body, snapshot).field("input"@);
            &&& sent == compact
            &&& body.text_field("input"@) is None ==> sent == body.field("input"@)
            &&& body.text_field("input"@) matches Some(text) ==> {
                &&& sent is Some && sent->0 is Array && sent->0->Array_0.len() == 1
                &&& {
                    let message = sent->0->Array_0[0];
                    let content = message.field("content"@);
                    &&& message.field("type"@) == Some(JsonView::Text("message"@))
                    &&& message.field("role"@) == Some(JsonView::Text("user"@))
                    &&& content is Some && content->0 is Array && content->0->Array_0.len() == 1
                    &&& content->0->Array_0[0].field("type"@) == Some(JsonView::Text("input_text"@))
                    &&& content->0->Array_0[0].field("text"@) == Some(JsonView::Text(text))
                }
            }
        }),
{
    lemma_keys();
    reveal_strlit("type");
    reveal_strlit("role");
    reveal_strlit("content");
    reveal_strlit("text");
    assert("type"@.len() == 4 && "role"@.len() == 4 && "content"@.len() == 7 && "text"@.len() == 4);
    assert("type"@[1] == 'y' && "role"@[1] == 'o' && "text"@[1] == 'e');
    if let Some(text) = body.text_field("input"@) {
        let part = JsonView::empty_object().with("type"@, JsonView::Text("input_text"@)).with(
            "text"@,
            JsonView::Text(text),
        );
        assert(seq![part][0] == part);
        assert(seq![crate::request_normalization::user_message(text)][0]
            == crate::request_normalization::user_message(text));
    }
}

/// Where fingerprints are normalized, a request that does not say so is not stored, has empty
/// instructions, and lets tools run at once as its model does; what the client says is kept. Where
/// they pass through, nothing is added.
pub proof fn defaults_stand_where_a_client_is_silent(
    codex_originator: bool,
    body: JsonView,
    snapshot: Option<&ModelsSnapshot>,
)
    requires
        body is Object,
    ensures
        ({
            let sent = normalized_responses(
                FingerprintMode::Normalize,
                codex_originator,
                body,
                snapshot,
            );
            let compact = normalized_compact(
                FingerprintMode::Normalize,
                codex_originator,
                body,
                snapshot,
            );
            let passed = normalized_responses(
                FingerprintMode::Passthrough,
                codex_originator,
                body,
                snapshot,
            );
            let parallel = JsonView::Bool(
                crate::models::parallel_default(body.field("model"@), snapshot),
            );
            let instructions = if body.field("instructions"@) is None || body.field(
                "instructions"@,
            ) == Some(JsonView::Null) {
                Some(JsonView::Text(Seq::empty()))
            } else {
                body.field("instructions"@)
            };
            &&& body.field("store"@) is None ==> sent.field("store"@) == Some(JsonView::Bool(false))
            &&& body.field("store"@) is Some ==> sent.field("store"@) == body.field("store"@)
            &&& body.field("parallel_tool_calls"@) is None ==> sent.field("parallel_tool_calls"@)
                == Some(parallel) && compact.field("parallel_tool_calls"@) == Some(parallel)
            &&& body.field("parallel_tool_calls"@) is Some ==> sent.field("parallel_tool_calls"@)
                == body.field("parallel_tool_calls"@) && compact.field("parallel_tool_calls"@)
                == body.field("parallel_tool_calls"@)
            &&& sent.field("instructions"@) == instructions
            &&& compact.field("instructions"@) == instructions
            &&& compact.field("store"@) == body.field("store"@)
            &&& passed.field("store"@) == body.field("store"@)
            &&& passed.field("parallel_tool_calls"@) == body.field("parallel_tool_calls"@)
            &&& passed.field("instructions"@) == body.field("instructions"@)
        }),
{
    lemma_keys();
    lemma_model();
    other_fields_are_kept(
        FingerprintMode::Passthrough,
        codex_originator,
        body,
        snapshot,
        "model"@,
    );
    if !codex_originator {
        lemma_made_compatible(body);
    }
}

proof fn lemma_model()
    ensures
        !is_refused("model"@),
        !is_shaped("model"@),
{
    reveal_strlit("model");
    reveal_strlit("max_output_tokens");
    reveal_strlit("max_completion_tokens");
    reveal_strlit("temperature");
    reveal_strlit("top_p");
    reveal_strlit("truncation");
    reveal_strlit("user");
    reveal_strlit("service_tier");
    reveal_strlit("tools");
    reveal_strlit("tool_choice");
    reveal_strlit("input");
    reveal_strlit("instructions");
    reveal_strlit("store");
    reveal_strlit("parallel_tool_calls");
    assert("model"@.len() == 5 && "model"@[0] == 'm');
    assert("store"@[0] == 's' && "input"@[0] == 'i' && "tools"@[0] == 't' && "top_p"@[0] == 't');
    assert("max_output_tokens"@.len() == 17 && "max_completion_tokens"@.len() == 21);
    assert("temperature"@.len() == 11 && "truncation"@.len() == 10 && "user"@.len() == 4);
    assert("service_tier"@.len() == 12 && "tool_choice"@.len() == 11);
    assert("instructions"@.len() == 12 && "parallel_tool_calls"@.len() == 19);
}

/// A body that is no object is sent as it is.
pub proof fn other_bodies_are_sent_as_written(
    mode: FingerprintMode,
    codex_originator: bool,
    body: JsonView,
    snapshot: Option<&ModelsSnapshot>,
)
    requires
        !(body is Object),
    ensures
        normalized_responses(mode, codex_originator, body, snapshot) == body,
        normalized_compact(mode, codex_originator, body, snapshot) == body,
{
}

/// What a body says to the gateway is read from `_gateway`: nothing there changes nothing, a null
/// source clears the header, any other source takes its place, and anything but an object is
/// refused with the name of what it is.
pub proof fn gateway_fields_are_read(body: JsonView)
    ensures
        ({
            let said = body.field("_gateway"@);
            let read = gateway_override(body);
            &&& said is None || said == Some(JsonView::Null) ==> read == Ok::<_, Seq<char>>(
                OverrideView::Unchanged,
            )
            &&& said is Some && said->0 is Object && said->0.field("session_source"@) is None ==> read
                == Ok::<_, Seq<char>>(OverrideView::Unchanged)
            &&& said is Some && said->0.field("session_source"@) == Some(JsonView::Null) ==> read
                == Ok::<_, Seq<char>>(OverrideView::Clear)
            &&& said is Some && said->0.field("session_source"@) is Some && said->0.field(
                "session_source"@,
            ) != Some(JsonView::Null) ==> read == Ok::<_, Seq<char>>(
                OverrideView::Replace(said->0.field("session_source"@)->0),
            )
            &&& said is Some && said->0 is Bool ==> read == Err::<OverrideView, _>(
                "_gateway must be null or object; got "@ + "boolean"@,
            )
            &&& said is Some && said->0 is Text ==> read == Err::<OverrideView, _>(
                "_gateway must be null or object; got "@ + "string"@,
            )
            &&& said is Some && said->0 is Array ==> read == Err::<OverrideView, _>(
                "_gateway must be null or object; got "@ + "array"@,
            )
            &&& said is Some && (said->0 is Integer || said->0 is Decimal) ==> read == Err::<
                OverrideView,
                _,
            >("_gateway must be null or object; got "@ + "number"@)
        }),
{
}

/// The header of the session source holds what was read, or is gone; every other header stays.
pub proof fn session_sources_stand_in_one_header(
    entries: Map<Seq<char>, Seq<Seq<u8>>>,
    source: Option<Seq<char>>,
    name: Seq<char>,
)
    ensures
        ({
            let after = with_session_source(entries, source);
            &&& name != "x-codex-session-source"@ ==> (after.contains_key(name)
                <==> entries.contains_key(name)) && (entries.contains_key(name) ==> after[name]
                == entries[name])
            &&& source is None ==> !after.contains_key("x-codex-session-source"@)
            &&& source is Some && header_value(encode_utf8(source->0)) ==> after.contains_key(
                "x-codex-session-source"@,
            ) && after["x-codex-session-source"@] == seq![encode_utf8(source->0)]
        }),
{
}

}
