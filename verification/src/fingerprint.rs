//! What a request says of the client that it comes from.
use crate::json::{json_text, parse_json, parsed_json, render_json, Json, JsonView};
use vstd::prelude::*;

verus! {

/// The key of what a request says of its client.
pub open spec fn client_metadata() -> Seq<char> {
    "client_metadata"@
}

/// What a request says of its client: nothing yet where it says nothing, and nothing at all where
/// the place is taken by another value.
pub open spec fn metadata_of(body: JsonView) -> Option<JsonView> {
    if body is Object {
        match body.field(client_metadata()) {
            Some(JsonView::Object(entries)) => Some(JsonView::Object(entries)),
            Some(_) => None,
            None => Some(JsonView::empty_object()),
        }
    } else {
        None
    }
}

/// A request with a text in what it says of its client.
pub open spec fn with_metadata(body: JsonView, key: Seq<char>, text: Seq<char>) -> JsonView {
    match metadata_of(body) {
        Some(metadata) => body.with(
            client_metadata(),
            metadata.with(key, JsonView::Text(text)),
        ),
        None => body,
    }
}

fn get_metadata(body: &Json) -> (metadata: Option<Json>)
    ensures
        (match metadata {
            Some(metadata) => Some(metadata@),
            None => None,
        }) == metadata_of(body@),
{
    if !body.is_object() {
        return None;
    }
    match body.get("client_metadata") {
        Some(metadata) => if metadata.is_object() {
            Some(metadata.clone())
        } else {
            None
        },
        None => Some(Json::object()),
    }
}

fn set_metadata(body: &mut Json, key: &str, text: String)
    ensures
        final(body)@ == with_metadata(old(body)@, key@, text@),
{
    if let Some(metadata) = get_metadata(body) {
        let changed: Json = metadata.with(key, Json::Text(text));
        body.set("client_metadata", changed);
    }
}

/// Says which installation a request comes from.
pub fn apply_client_metadata_installation_id(body: &mut Json, installation_id: &str)
    ensures
        final(body)@ == with_metadata(
            old(body)@,
            "x-codex-installation-id"@,
            installation_id@,
        ),
{
    set_metadata(body, "x-codex-installation-id", installation_id.to_owned());
}

/// What a turn says of itself once it says that a user began it; nothing where it names another
/// source already, or is no object.
pub open spec fn user_turn(turn: Option<JsonView>) -> Option<JsonView> {
    match turn {
        Some(turn) => if turn is Object && turn.field("thread_source"@) is None {
            Some(turn.with("thread_source"@, JsonView::Text("user"@)))
        } else {
            None
        },
        None => None,
    }
}

/// What a turn says of itself once it says that a user began it.
pub fn with_user_source(turn: &Json) -> (changed: Option<Json>)
    ensures
        (match changed {
            Some(changed) => Some(changed@),
            None => None,
        }) == user_turn(Some(turn@)),
{
    if turn.is_object() && turn.get("thread_source").is_none() {
        Some(turn.clone().with("thread_source", Json::text("user")))
    } else {
        None
    }
}

/// What the turn of a request says of itself, as far as it can be read.
pub open spec fn turn_of(metadata: JsonView) -> Option<JsonView> {
    match metadata.field("x-codex-turn-metadata"@) {
        Some(value) => match value.text() {
            Some(text) => parsed_json(text),
            None => None,
        },
        None => Some(JsonView::empty_object()),
    }
}

/// A request that says that a user began its turn, unless it names another source.
pub open spec fn with_user_thread_source(body: JsonView) -> JsonView {
    match metadata_of(body) {
        Some(metadata) => match user_turn(turn_of(metadata)) {
            Some(turn) => with_metadata(body, "x-codex-turn-metadata"@, json_text(turn)),
            None => body,
        },
        None => body,
    }
}

/// Says that a user began the turn of a request, unless it names another source.
pub fn apply_client_metadata_user_thread_source(body: &mut Json)
    ensures
        final(body)@ == with_user_thread_source(old(body)@),
{
    let turn: Option<Json> = match get_metadata(body) {
        Some(metadata) => match metadata.get("x-codex-turn-metadata") {
            Some(value) => match value.as_str() {
                Some(text) => parse_json(text),
                None => None,
            },
            None => Some(Json::object()),
        },
        None => None,
    };
    if let Some(turn) = turn {
        if let Some(changed) = with_user_source(&turn) {
            set_metadata(body, "x-codex-turn-metadata", render_json(&changed));
        }
    }
}

}
