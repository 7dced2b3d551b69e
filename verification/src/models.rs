//! The list of models, and the shape in which a client wants its answers.
use crate::headers::{copy_headers, header_entries, header_str, header_text};
use crate::json::{optional_view, Json, JsonView};
use crate::text::{begins_with, same_text, starts_with, trim, trimmed};
use crate::time::Delay;
use http::{HeaderMap, HeaderValue};
use vstd::prelude::*;

verus! {

/// How long a list of models stays fresh, in seconds.
pub const MODELS_CACHE_TTL_SECONDS: u64 = 43200;

/// What routing reads of a model.
#[derive(Debug, Clone)]
pub struct ModelEntry {
    pub slug: String,
    pub supports_parallel_tool_calls: bool,
}

/// A list of models, as the upstream gave it and as its fields say.
#[derive(Debug)]
pub struct ModelsSnapshot {
    pub codex_json: Json,
    pub models: Vec<ModelEntry>,
}

/// A model of an upstream list.
pub open spec fn model_of(value: JsonView) -> Option<(Seq<char>, bool)> {
    match (value.text_field("slug"@), value.field("supports_parallel_tool_calls"@)) {
        (Some(slug), Some(JsonView::Bool(parallel))) => Some((slug, parallel)),
        _ => None,
    }
}

/// The models of an upstream list; nothing where one of them cannot be read.
pub open spec fn models_of(items: Seq<JsonView>) -> Option<Seq<(Seq<char>, bool)>>
    decreases items.len(),
{
    if items.len() == 0 {
        Some(Seq::empty())
    } else {
        match (models_of(items.drop_last()), model_of(items.last())) {
            (Some(earlier), Some(last)) => Some(earlier.push(last)),
            _ => None,
        }
    }
}

/// The models of an upstream answer.
pub open spec fn models_in(value: JsonView) -> Option<Seq<(Seq<char>, bool)>> {
    match value.field("models"@) {
        Some(JsonView::Array(items)) => models_of(items),
        _ => None,
    }
}

/// The characters and flags of some models.
pub open spec fn entries_view(models: Seq<ModelEntry>) -> Seq<(Seq<char>, bool)> {
    Seq::new(models.len(), |i: int| (models[i].slug@, models[i].supports_parallel_tool_calls))
}

/// A model in the list that general clients get.
pub open spec fn openai_model(slug: Seq<char>) -> JsonView {
    JsonView::empty_object().with("id"@, JsonView::Text(slug)).with(
        "object"@,
        JsonView::Text("model"@),
    ).with("created"@, JsonView::Integer(0)).with("owned_by"@, JsonView::Text("openai"@))
}

/// The list that general clients get.
pub open spec fn openai_models(models: Seq<(Seq<char>, bool)>) -> JsonView {
    JsonView::empty_object().with("object"@, JsonView::Text("list"@)).with(
        "data"@,
        JsonView::Array(Seq::new(models.len(), |i: int| openai_model(models[i].0))),
    )
}

/// Does the model take several tool calls at once? The last entry of its name says so; a model
/// that is not listed does.
pub open spec fn parallel_calls(models: Seq<(Seq<char>, bool)>, slug: Seq<char>) -> bool
    decreases models.len(),
{
    if models.len() == 0 {
        true
    } else if models.last().0 == slug {
        models.last().1
    } else {
        parallel_calls(models.drop_last(), slug)
    }
}

impl ModelsSnapshot {
    /// Reads an upstream answer; there is no list where a model in it cannot be read. Of a model
    /// its name and its flag for parallel tool calls are read, and the answer is kept as it came.
    pub fn from_value(value: Json) -> (snapshot: Option<ModelsSnapshot>)
        ensures
            match snapshot {
                Some(snapshot) => models_in(value@) == Some(entries_view(snapshot.models@))
                    && snapshot.codex_json@ == value@,
                None => models_in(value@) is None,
            },
    {
        let mut models: Vec<ModelEntry> = Vec::new();
        match value.get("models") {
            Some(Json::Array(items)) => {
                let ghost all = crate::json::array_view(items@);
                let mut i: usize = 0;
                assert(entries_view(models@) =~= Seq::empty());
                while i < items.len()
                    invariant
                        i <= items.len(),
                        all == crate::json::array_view(items@),
                        value@.field("models"@) == Some(JsonView::Array(all)),
                        models_of(all.take(i as int)) == Some(entries_view(models@)),
                    decreases items.len() - i,
                {
                    let item: &Json = &items[i];
                    assert(all[i as int] == item@);
                    assert(all.take(i + 1).drop_last() =~= all.take(i as int));
                    let ghost before = models@;
                    match (item.get_str("slug"), item.get("supports_parallel_tool_calls")) {
                        (Some(slug), Some(Json::Bool(parallel))) => {
                            models.push(
                                ModelEntry {
                                    slug: slug.to_owned(),
                                    supports_parallel_tool_calls: *parallel,
                                },
                            );
                            assert(entries_view(models@) =~= entries_view(before).push(
                                (slug@, *parallel),
                            ));
                        },
                        _ => {
                            proof {
                                lemma_unread(all, i + 1);
                            }
                            return None;
                        },
                    }
                    i = i + 1;
                }
                assert(all.take(i as int) =~= all);
            },
            _ => {
                return None;
            },
        }
        Some(ModelsSnapshot { codex_json: value, models })
    }

    /// The list as the upstream gave it.
    pub fn codex_json(&self) -> (json: Json)
        ensures
            json@ == self.codex_json@,
    {
        self.codex_json.clone()
    }

    /// The list that general clients get.
    pub fn openai_json(&self) -> (json: Json)
        ensures
            json@ == openai_models(entries_view(self.models@)),
    {
        let mut data: Vec<Json> = Vec::new();
        let mut i: usize = 0;
        while i < self.models.len()
            invariant
                i <= self.models.len(),
                data.len() == i,
                forall|j: int|
                    0 <= j < i ==> crate::json::json_view(#[trigger] data@[j]) == openai_model(
                        self.models@[j].slug@,
                    ),
            decreases self.models.len() - i,
        {
            data.push(
                Json::object().with("id", Json::text(self.models[i].slug.as_str())).with(
                    "object",
                    Json::text("model"),
                ).with("created", Json::integer(0)).with("owned_by", Json::text("openai")),
            );
            i = i + 1;
        }
        assert(crate::json::array_view(data@) =~= Seq::new(
            entries_view(self.models@).len(),
            |j: int| openai_model(entries_view(self.models@)[j].0),
        ));
        Json::object().with("object", Json::text("list")).with("data", Json::Array(data))
    }

    /// Does the model take several tool calls at once?
    pub fn supports_parallel_tool_calls(&self, slug: &str) -> (supported: bool)
        ensures
            supported == parallel_calls(entries_view(self.models@), slug@),
    {
        let ghost all = entries_view(self.models@);
        let mut i: usize = self.models.len();
        assert(all.take(i as int) =~= all);
        while i > 0
            invariant
                i <= self.models.len(),
                all == entries_view(self.models@),
                parallel_calls(all, slug@) == parallel_calls(all.take(i as int), slug@),
            decreases i,
        {
            i = i - 1;
            assert(all.take(i + 1).drop_last() =~= all.take(i as int));
            if same_text(self.models[i].slug.as_str(), slug) {
                return self.models[i].supports_parallel_tool_calls;
            }
        }
        true
    }
}

/// Where one model cannot be read, no list that holds it can.
proof fn lemma_unread(items: Seq<JsonView>, to: int)
    requires
        0 <= to <= items.len(),
        models_of(items.take(to)) is None,
    ensures
        models_of(items) is None,
    decreases items.len(),
{
    if to < items.len() {
        assert(items.drop_last().take(to) =~= items.take(to));
        lemma_unread(items.drop_last(), to);
    } else {
        assert(items.take(to) =~= items);
    }
}

/// The last list of models, with the headers that it came with.
pub struct ModelsCache {
    pub snapshot: Option<ModelsSnapshot>,
    pub response_headers: HeaderMap<HeaderValue>,
}

impl ModelsCache {
    /// The list and the headers, whatever their age.
    pub fn current_entry(&self) -> (entry: Option<(&ModelsSnapshot, HeaderMap<HeaderValue>)>)
        ensures
            match entry {
                Some((snapshot, headers)) => self.snapshot == Some(*snapshot) && header_entries(
                    headers,
                ) == header_entries(self.response_headers),
                None => self.snapshot is None,
            },
    {
        match &self.snapshot {
            Some(snapshot) => Some((snapshot, copy_headers(&self.response_headers))),
            None => None,
        }
    }

    /// The list and the headers, where they are fresh: `elapsed` is the time since they came.
    pub fn fresh_entry(&self, elapsed: Option<Delay>) -> (entry: Option<
        (&ModelsSnapshot, HeaderMap<HeaderValue>),
    >)
        ensures
            match entry {
                Some((snapshot, headers)) => self.snapshot == Some(*snapshot) && header_entries(
                    headers,
                ) == header_entries(self.response_headers) && is_fresh(elapsed),
                None => self.snapshot is None || !is_fresh(elapsed),
            },
    {
        match elapsed {
            Some(elapsed) => if elapsed.nanos <= (MODELS_CACHE_TTL_SECONDS as u128) * 1_000_000_000 {
                self.current_entry()
            } else {
                None
            },
            None => None,
        }
    }

    /// Takes a new list over.
    pub fn replace(&mut self, snapshot: ModelsSnapshot, response_headers: HeaderMap<HeaderValue>)
        ensures
            final(self).snapshot == Some(snapshot),
            final(self).response_headers == response_headers,
    {
        self.snapshot = Some(snapshot);
        self.response_headers = response_headers;
    }
}

/// Is a list of this age fresh?
pub open spec fn is_fresh(elapsed: Option<Delay>) -> bool {
    elapsed is Some && elapsed->0.nanos <= MODELS_CACHE_TTL_SECONDS * 1_000_000_000
}

/// The shape in which a client wants its answers.
#[derive(Debug, Clone, Copy, PartialEq, Eq, Structural)]
pub enum ResponseShape {
    Codex,
    OpenAi,
}

impl ResponseShape {
    /// Is this the shape for Codex clients?
    pub fn is_codex(self) -> (codex: bool)
        ensures
            codex == (self == ResponseShape::Codex),
    {
        match self {
            ResponseShape::Codex => true,
            ResponseShape::OpenAi => false,
        }
    }
}

/// The shape for a client: Codex clients name themselves in the header `originator`.
pub open spec fn shape_for(entries: Map<Seq<char>, Seq<Seq<u8>>>) -> ResponseShape {
    match header_text(entries, "originator"@) {
        Some(originator) => if begins_with(originator, "codex"@) {
            ResponseShape::Codex
        } else {
            ResponseShape::OpenAi
        },
        None => ResponseShape::OpenAi,
    }
}

/// The shape for a client.
pub fn response_shape_for_headers(headers: &HeaderMap<HeaderValue>) -> (shape: ResponseShape)
    ensures
        shape == shape_for(header_entries(*headers)),
{
    match header_str(headers, "originator") {
        Some(originator) => if starts_with(originator.as_str(), "codex") {
            ResponseShape::Codex
        } else {
            ResponseShape::OpenAi
        },
        None => ResponseShape::OpenAi,
    }
}

/// May tools be called in parallel if a request does not say so?
pub open spec fn parallel_default(
    model: Option<JsonView>,
    snapshot: Option<&ModelsSnapshot>,
) -> bool {
    match (model, snapshot) {
        (Some(JsonView::Text(slug)), Some(snapshot)) => parallel_calls(
            entries_view(snapshot.models@),
            trimmed(slug),
        ),
        _ => true,
    }
}

/// May tools be called in parallel if a request does not say so?
pub fn default_parallel_tool_calls(
    model: Option<&Json>,
    snapshot: Option<&ModelsSnapshot>,
) -> (parallel: bool)
    ensures
        parallel == parallel_default(optional_view(model), snapshot),
{
    match (model, snapshot) {
        (Some(Json::Text(slug)), Some(snapshot)) => {
            let slug: String = trim(slug.as_str());
            snapshot.supports_parallel_tool_calls(slug.as_str())
        },
        _ => true,
    }
}

}
