//! JSON values, and the texts that stand for them.
use crate::text::same_text;
use serde_json::Value;
use vstd::prelude::*;

verus! {

/// A number as `serde_json` holds it.
#[derive(Debug, PartialEq, Eq)]
pub enum JsonNumber {
    Unsigned(u64),
    Negative(i64),
    /// The shortest text of a number with a fraction or an exponent.
    Decimal(String),
}

/// A JSON value.
#[derive(Debug, PartialEq, Eq)]
pub enum Json {
    Null,
    Bool(bool),
    Number(JsonNumber),
    Text(String),
    Array(Vec<Json>),
    /// Where a key occurs twice, the later entry counts.
    Object(Vec<(String, Json)>),
}

/// The model of a JSON value.
pub enum JsonView {
    Null,
    Bool(bool),
    Integer(int),
    Decimal(Seq<char>),
    Text(Seq<char>),
    Array(Seq<JsonView>),
    Object(Map<Seq<char>, JsonView>),
}

/// The model of a number.
pub open spec fn number_view(number: JsonNumber) -> JsonView {
    match number {
        JsonNumber::Unsigned(n) => JsonView::Integer(n as int),
        JsonNumber::Negative(n) => JsonView::Integer(n as int),
        JsonNumber::Decimal(text) => JsonView::Decimal(text@),
    }
}

/// The model of a value.
pub open spec fn json_view(json: Json) -> JsonView
    decreases json,
{
    match json {
        Json::Null => JsonView::Null,
        Json::Bool(b) => JsonView::Bool(b),
        Json::Number(n) => number_view(n),
        Json::Text(text) => JsonView::Text(text@),
        Json::Array(items) => JsonView::Array(array_view(items@)),
        Json::Object(entries) => JsonView::Object(object_view(entries@)),
    }
}

/// The models of a sequence of values.
pub open spec fn array_view(items: Seq<Json>) -> Seq<JsonView>
    decreases items,
{
    Seq::new(
        items.len(),
        |i: int|
            if 0 <= i < items.len() {
                json_view(items[i])
            } else {
                JsonView::Null
            },
    )
}

/// The map that a sequence of entries stands for.
pub open spec fn object_view(entries: Seq<(String, Json)>) -> Map<Seq<char>, JsonView>
    decreases entries,
{
    if entries.len() == 0 {
        Map::empty()
    } else {
        object_view(entries.drop_last()).insert(
            entries[entries.len() - 1].0@,
            json_view(entries[entries.len() - 1].1),
        )
    }
}

impl View for Json {
    type V = JsonView;

    open spec fn view(&self) -> JsonView {
        json_view(*self)
    }
}


impl JsonView {
    /// The value of an object under a key.
    pub open spec fn field(self, key: Seq<char>) -> Option<JsonView> {
        match self {
            JsonView::Object(entries) => if entries.contains_key(key) {
                Some(entries[key])
            } else {
                None
            },
            _ => None,
        }
    }

    /// The characters of a text.
    pub open spec fn text(self) -> Option<Seq<char>> {
        match self {
            JsonView::Text(text) => Some(text),
            _ => None,
        }
    }

    /// An integer of 64 bits with a sign.
    pub open spec fn signed(self) -> Option<i64> {
        match self {
            JsonView::Integer(n) => if i64::MIN <= n <= i64::MAX {
                Some(n as i64)
            } else {
                None
            },
            _ => None,
        }
    }

    /// An integer of 64 bits without a sign.
    pub open spec fn unsigned(self) -> Option<u64> {
        match self {
            JsonView::Integer(n) => if 0 <= n <= u64::MAX {
                Some(n as u64)
            } else {
                None
            },
            _ => None,
        }
    }

    /// The text of an object under a key.
    pub open spec fn text_field(self, key: Seq<char>) -> Option<Seq<char>> {
        match self.field(key) {
            Some(value) => value.text(),
            None => None,
        }
    }

    /// The signed integer of an object under a key.
    pub open spec fn signed_field(self, key: Seq<char>) -> Option<i64> {
        match self.field(key) {
            Some(value) => value.signed(),
            None => None,
        }
    }

    /// The object with `value` under `key`; any other value unchanged.
    pub open spec fn with(self, key: Seq<char>, value: JsonView) -> JsonView {
        match self {
            JsonView::Object(entries) => JsonView::Object(entries.insert(key, value)),
            _ => self,
        }
    }

    /// The object with nothing under `key`; any other value unchanged.
    pub open spec fn without(self, key: Seq<char>) -> JsonView {
        match self {
            JsonView::Object(entries) => JsonView::Object(entries.remove(key)),
            _ => self,
        }
    }

    /// The object with no entry.
    pub open spec fn empty_object() -> JsonView {
        JsonView::Object(Map::empty())
    }
}

/// The model of an optional value.
pub open spec fn optional_view(json: Option<&Json>) -> Option<JsonView> {
    match json {
        Some(value) => Some(value@),
        None => None,
    }
}

/// The model of an optional text.
pub open spec fn optional_text(text: Option<&str>) -> Option<Seq<char>> {
    match text {
        Some(text) => Some(text@),
        None => None,
    }
}

/// An entry that stands at `at`, with no later entry under its key, decides what the key maps to.
proof fn lemma_last_entry(entries: Seq<(String, Json)>, at: int)
    requires
        0 <= at < entries.len(),
        forall|j: int| at < j < entries.len() ==> entries[j].0@ != entries[at].0@,
    ensures
        object_view(entries).contains_key(entries[at].0@),
        object_view(entries)[entries[at].0@] == json_view(entries[at].1),
    decreases entries.len(),
{
    if at < entries.len() - 1 {
        lemma_last_entry(entries.drop_last(), at);
    }
}

/// A key that no entry has maps to nothing.
proof fn lemma_no_entry(entries: Seq<(String, Json)>, key: Seq<char>)
    requires
        forall|j: int| 0 <= j < entries.len() ==> entries[j].0@ != key,
    ensures
        !object_view(entries).contains_key(key),
    decreases entries.len(),
{
    if entries.len() > 0 {
        lemma_no_entry(entries.drop_last(), key);
    }
}

/// Entries with equal keys and models stand for one map.
proof fn lemma_same_entries(left: Seq<(String, Json)>, right: Seq<(String, Json)>)
    requires
        left.len() == right.len(),
        forall|i: int|
            0 <= i < left.len() ==> left[i].0@ == right[i].0@ && json_view(left[i].1) == json_view(
                right[i].1,
            ),
    ensures
        object_view(left) == object_view(right),
    decreases left.len(),
{
    if left.len() > 0 {
        lemma_same_entries(left.drop_last(), right.drop_last());
    }
}

/// Without its key, a map does not depend on an entry that is taken out.
proof fn lemma_removed_entry(entries: Seq<(String, Json)>, at: int)
    requires
        0 <= at < entries.len(),
    ensures
        object_view(entries.remove(at)).remove(entries[at].0@) == object_view(entries).remove(
            entries[at].0@,
        ),
    decreases entries.len(),
{
    let key = entries[at].0@;
    if at < entries.len() - 1 {
        lemma_removed_entry(entries.drop_last(), at);
        let rest = entries.remove(at);
        let last = entries[entries.len() - 1];
        assert(rest.drop_last() =~= entries.drop_last().remove(at));
        assert(rest[rest.len() - 1] == last);
        let left = object_view(rest.drop_last());
        let right = object_view(entries.drop_last());
        assert(object_view(rest) == left.insert(last.0@, json_view(last.1)));
        assert(object_view(entries) == right.insert(last.0@, json_view(last.1)));
        assert(left.remove(key) == right.remove(key));
        if last.0@ == key {
            assert(object_view(rest).remove(key) =~= left.remove(key));
            assert(object_view(entries).remove(key) =~= right.remove(key));
        } else {
            assert(object_view(rest).remove(key) =~= left.remove(key).insert(
                last.0@,
                json_view(last.1),
            ));
            assert(object_view(entries).remove(key) =~= right.remove(key).insert(
                last.0@,
                json_view(last.1),
            ));
        }
    } else {
        assert(entries.remove(at) =~= entries.drop_last());
        assert(object_view(entries) == object_view(entries.drop_last()).insert(
            key,
            json_view(entries[at].1),
        ));
        assert(object_view(entries.remove(at)).remove(key) =~= object_view(entries).remove(key));
    }
}

impl Clone for JsonNumber {
    fn clone(&self) -> (copy: Self)
        ensures
            copy == *self,
    {
        match self {
            JsonNumber::Unsigned(n) => JsonNumber::Unsigned(*n),
            JsonNumber::Negative(n) => JsonNumber::Negative(*n),
            JsonNumber::Decimal(text) => JsonNumber::Decimal(text.clone()),
        }
    }
}

impl Clone for Json {
    fn clone(&self) -> (copy: Self)
        ensures
            copy@ == self@,
        decreases self,
    {
        match self {
            Json::Null => Json::Null,
            Json::Bool(b) => Json::Bool(*b),
            Json::Number(n) => Json::Number(n.clone()),
            Json::Text(text) => Json::Text(text.clone()),
            Json::Array(items) => {
                let mut copies: Vec<Json> = Vec::new();
                let mut i: usize = 0;
                while i < items.len()
                    invariant
                        i <= items.len(),
                        copies.len() == i,
                        *self == Json::Array(*items),
                        forall|j: int| 0 <= j < i ==> json_view(copies@[j]) == json_view(items@[j]),
                    decreases items.len() - i,
                {
                    assert(decreases_to!(*self => self->Array_0));
                    assert(decreases_to!(self->Array_0 => self->Array_0@));
                    assert(decreases_to!(items@ => items@[i as int]));
                    let copy: Json = items[i].clone();
                    copies.push(copy);
                    i = i + 1;
                }
                assert(array_view(copies@) =~= array_view(items@));
                Json::Array(copies)
            },
            Json::Object(entries) => {
                let mut copies: Vec<(String, Json)> = Vec::new();
                let mut i: usize = 0;
                while i < entries.len()
                    invariant
                        i <= entries.len(),
                        copies.len() == i,
                        *self == Json::Object(*entries),
                        forall|j: int|
                            0 <= j < i ==> copies@[j].0@ == entries@[j].0@ && json_view(copies@[j].1)
                                == json_view(entries@[j].1),
                    decreases entries.len() - i,
                {
                    let key: String = entries[i].0.clone();
                    assert(decreases_to!(*self => self->Object_0));
                    assert(decreases_to!(self->Object_0 => self->Object_0@));
                    assert(decreases_to!(entries@ => entries@[i as int]));
                    assert(decreases_to!(entries@[i as int] => entries@[i as int].1));
                    let copy: Json = entries[i].1.clone();
                    copies.push((key, copy));
                    i = i + 1;
                }
                proof {
                    lemma_same_entries(copies@, entries@);
                }
                Json::Object(copies)
            },
        }
    }
}

impl Json {
    /// An object with no entry.
    pub fn object() -> (json: Json)
        ensures
            json@ == JsonView::empty_object(),
    {
        Json::Object(Vec::new())
    }

    /// A text.
    pub fn text(text: &str) -> (json: Json)
        ensures
            json@ == JsonView::Text(text@),
    {
        Json::Text(text.to_owned())
    }

    /// A signed integer.
    pub fn integer(n: i64) -> (json: Json)
        ensures
            json@ == JsonView::Integer(n as int),
    {
        Json::Number(JsonNumber::Negative(n))
    }

    /// An unsigned integer.
    pub fn natural(n: u64) -> (json: Json)
        ensures
            json@ == JsonView::Integer(n as int),
    {
        Json::Number(JsonNumber::Unsigned(n))
    }

    /// The value of an object under a key.
    pub fn get(&self, key: &str) -> (value: Option<&Json>)
        ensures
            optional_view(value) == self@.field(key@),
    {
        match self {
            Json::Object(entries) => match last_entry(entries, key) {
                Some(at) => Some(&entries[at].1),
                None => None,
            },
            _ => None,
        }
    }

    /// The characters of a text.
    pub fn as_str(&self) -> (text: Option<&str>)
        ensures
            optional_text(text) == self@.text(),
    {
        match self {
            Json::Text(text) => Some(text.as_str()),
            _ => None,
        }
    }

    /// An integer of 64 bits with a sign.
    pub fn as_i64(&self) -> (n: Option<i64>)
        ensures
            n == self@.signed(),
    {
        match self {
            Json::Number(JsonNumber::Unsigned(n)) => if *n <= i64::MAX as u64 {
                Some(*n as i64)
            } else {
                None
            },
            Json::Number(JsonNumber::Negative(n)) => Some(*n),
            _ => None,
        }
    }

    /// An integer of 64 bits without a sign.
    pub fn as_u64(&self) -> (n: Option<u64>)
        ensures
            n == self@.unsigned(),
    {
        match self {
            Json::Number(JsonNumber::Unsigned(n)) => Some(*n),
            Json::Number(JsonNumber::Negative(n)) => if *n >= 0 {
                Some(*n as u64)
            } else {
                None
            },
            _ => None,
        }
    }

    /// Is this an object?
    pub fn is_object(&self) -> (b: bool)
        ensures
            b == self@ is Object,
    {
        match self {
            Json::Object(_) => true,
            _ => false,
        }
    }

    /// Is this null?
    pub fn is_null(&self) -> (b: bool)
        ensures
            b == self@ is Null,
    {
        match self {
            Json::Null => true,
            _ => false,
        }
    }

    /// The text of an object under a key.
    pub fn get_str(&self, key: &str) -> (text: Option<&str>)
        ensures
            optional_text(text) == self@.text_field(key@),
    {
        match self.get(key) {
            Some(value) => value.as_str(),
            None => None,
        }
    }

    /// The signed integer of an object under a key.
    pub fn get_i64(&self, key: &str) -> (n: Option<i64>)
        ensures
            n == self@.signed_field(key@),
    {
        match self.get(key) {
            Some(value) => value.as_i64(),
            None => None,
        }
    }

    /// Puts `value` under `key` of an object, in place of what stood there.
    pub fn set(&mut self, key: &str, value: Json)
        ensures
            final(self)@ == old(self)@.with(key@, value@),
    {
        self.remove(key);
        match self {
            Json::Object(entries) => {
                let ghost before = entries@;
                entries.push((key.to_owned(), value));
                assert(entries@.drop_last() =~= before);
                assert(object_view(entries@) =~= object_view(before).insert(key@, json_view(value)));
            },
            _ => {},
        }
        proof {
            if let JsonView::Object(entries) = old(self)@ {
                assert(entries.remove(key@).insert(key@, value@) =~= entries.insert(key@, value@));
            }
        }
    }

    /// The object with `value` under `key`.
    pub fn with(self, key: &str, value: Json) -> (json: Json)
        ensures
            json@ == self@.with(key@, value@),
    {
        let mut json: Json = self;
        json.set(key, value);
        json
    }

    /// Takes what stands under `key` out of an object.
    pub fn remove(&mut self, key: &str)
        ensures
            final(self)@ == old(self)@.without(key@),
    {
        match self {
            Json::Object(entries) => {
                let mut list: Vec<(String, Json)> = Vec::new();
                std::mem::swap(entries, &mut list);
                let ghost before = list@;
                let mut i: usize = 0;
                while i < list.len()
                    invariant
                        i <= list.len(),
                        forall|j: int| 0 <= j < i ==> list@[j].0@ != key@,
                        object_view(list@).remove(key@) == object_view(before).remove(key@),
                    decreases list.len() - i,
                {
                    if same_text(list[i].0.as_str(), key) {
                        proof {
                            lemma_removed_entry(list@, i as int);
                        }
                        list.remove(i);
                    } else {
                        i = i + 1;
                    }
                }
                proof {
                    lemma_no_entry(list@, key@);
                    assert(object_view(list@) =~= object_view(list@).remove(key@));
                }
                *entries = list;
            },
            _ => {},
        }
    }
}

/// The last entry under a key that a map has.
proof fn lemma_entry_of(entries: Seq<(String, Json)>, key: Seq<char>) -> (at: int)
    requires
        object_view(entries).contains_key(key),
    ensures
        0 <= at < entries.len(),
        entries[at].0@ == key,
        forall|j: int| at < j < entries.len() ==> entries[j].0@ != key,
    decreases entries.len(),
{
    let last = entries.len() - 1;
    if entries[last].0@ == key {
        last
    } else {
        let at = lemma_entry_of(entries.drop_last(), key);
        assert forall|j: int| at < j < entries.len() implies entries[j].0@ != key by {
            if j < last {
                assert(entries.drop_last()[j] == entries[j]);
            }
        }
        at
    }
}

/// Where the last entry under a key stands.
fn last_entry(entries: &Vec<(String, Json)>, key: &str) -> (at: Option<usize>)
    ensures
        match at {
            Some(at) => at < entries.len() && entries@[at as int].0@ == key@ && (forall|j: int|
                at < j < entries.len() ==> entries@[j].0@ != key@) && object_view(
                entries@,
            ).contains_key(key@) && object_view(entries@)[key@] == json_view(
                entries@[at as int].1,
            ),
            None => !object_view(entries@).contains_key(key@),
        },
{
    let mut i: usize = entries.len();
    while i > 0
        invariant
            i <= entries.len(),
            forall|j: int| i <= j < entries.len() ==> entries@[j].0@ != key@,
        decreases i,
    {
        i = i - 1;
        if same_text(entries[i].0.as_str(), key) {
            proof {
                lemma_last_entry(entries@, i as int);
            }
            return Some(i);
        }
    }
    proof {
        lemma_no_entry(entries@, key@);
    }
    None
}

fn same_number(left: &JsonNumber, right: &JsonNumber) -> (same: bool)
    ensures
        same == (number_view(*left) == number_view(*right)),
{
    match (left, right) {
        (JsonNumber::Unsigned(a), JsonNumber::Unsigned(b)) => *a == *b,
        (JsonNumber::Negative(a), JsonNumber::Negative(b)) => *a == *b,
        (JsonNumber::Unsigned(a), JsonNumber::Negative(b)) => *b >= 0 && *a == *b as u64,
        (JsonNumber::Negative(a), JsonNumber::Unsigned(b)) => *a >= 0 && *b == *a as u64,
        (JsonNumber::Decimal(a), JsonNumber::Decimal(b)) => same_text(a.as_str(), b.as_str()),
        _ => false,
    }
}

/// Does every key of the second entries stand among the first?
fn has_keys_of(left: &Vec<(String, Json)>, right: &Vec<(String, Json)>) -> (has: bool)
    ensures
        has == object_view(right@).dom().subset_of(object_view(left@).dom()),
{
    let mut i: usize = 0;
    while i < right.len()
        invariant
            i <= right.len(),
            forall|j: int| 0 <= j < i ==> object_view(left@).contains_key(#[trigger] right@[j].0@),
        decreases right.len() - i,
    {
        if last_entry(left, right[i].0.as_str()).is_none() {
            proof {
                let key = right@[i as int].0@;
                if !object_view(right@).contains_key(key) {
                    lemma_key_of(right@, i as int);
                }
                assert(object_view(right@).dom().contains(key));
            }
            return false;
        }
        i = i + 1;
    }
    proof {
        assert forall|key: Seq<char>|
            object_view(right@).dom().contains(key) implies object_view(left@).dom().contains(
            key,
        ) by {
            let at = lemma_entry_of(right@, key);
            assert(object_view(left@).contains_key(right@[at].0@));
        }
    }
    true
}

/// The key of an entry is a key of the map.
proof fn lemma_key_of(entries: Seq<(String, Json)>, at: int)
    requires
        0 <= at < entries.len(),
    ensures
        object_view(entries).contains_key(entries[at].0@),
    decreases entries.len(),
{
    if at < entries.len() - 1 {
        lemma_key_of(entries.drop_last(), at);
    }
}

impl Json {
    /// Are two values the same?
    pub fn same(&self, other: &Json) -> (same: bool)
        ensures
            same == (self@ == other@),
        decreases self,
    {
        match (self, other) {
            (Json::Null, Json::Null) => true,
            (Json::Bool(a), Json::Bool(b)) => *a == *b,
            (Json::Number(a), Json::Number(b)) => same_number(a, b),
            (Json::Text(a), Json::Text(b)) => same_text(a.as_str(), b.as_str()),
            (Json::Array(left), Json::Array(right)) => {
                if left.len() != right.len() {
                    assert(array_view(left@).len() != array_view(right@).len());
                    return false;
                }
                let mut i: usize = 0;
                while i < left.len()
                    invariant
                        i <= left.len() == right.len(),
                        *self == Json::Array(*left),
                        *other == Json::Array(*right),
                        forall|j: int| 0 <= j < i ==> json_view(left@[j]) == json_view(right@[j]),
                    decreases left.len() - i,
                {
                    assert(decreases_to!(*self => self->Array_0));
                    assert(decreases_to!(self->Array_0 => self->Array_0@));
                    assert(decreases_to!(left@ => left@[i as int]));
                    if !left[i].same(&right[i]) {
                        assert(array_view(left@)[i as int] != array_view(right@)[i as int]);
                        return false;
                    }
                    i = i + 1;
                }
                assert(array_view(left@) =~= array_view(right@));
                true
            },
            (Json::Object(left), Json::Object(right)) => {
                if !has_keys_of(left, right) {
                    return false;
                }
                let mut i: usize = 0;
                while i < left.len()
                    invariant
                        i <= left.len(),
                        *self == Json::Object(*left),
                        *other == Json::Object(*right),
                        object_view(right@).dom().subset_of(object_view(left@).dom()),
                        forall|j: int|
                            0 <= j < i ==> object_view(right@).contains_key(
                                (#[trigger] left@[j]).0@,
                            ) && object_view(right@)[left@[j].0@] == object_view(
                                left@,
                            )[left@[j].0@],
                    decreases left.len() - i,
                {
                    let key: &str = left[i].0.as_str();
                    let ghost name = left@[i as int].0@;
                    proof {
                        lemma_key_of(left@, i as int);
                    }
                    let at: usize = match last_entry(left, key) {
                        Some(at) => at,
                        None => i,
                    };
                    match last_entry(right, key) {
                        Some(there) => {
                            assert(decreases_to!(*self => self->Object_0));
                            assert(decreases_to!(self->Object_0 => self->Object_0@));
                            assert(decreases_to!(left@ => left@[at as int]));
                            assert(decreases_to!(left@[at as int] => left@[at as int].1));
                            if !left[at].1.same(&right[there].1) {
                                assert(object_view(left@)[name] != object_view(right@)[name]);
                                return false;
                            }
                        },
                        None => {
                            assert(object_view(left@).contains_key(name));
                            return false;
                        },
                    }
                    i = i + 1;
                }
                proof {
                    let a = object_view(left@);
                    let b = object_view(right@);
                    assert forall|key: Seq<char>| #[trigger]
                        a.dom().contains(key) implies b.dom().contains(key) && a[key]
                        == b[key] by {
                        let at = lemma_entry_of(left@, key);
                        assert(left@[at].0@ == key);
                    }
                    assert(a.dom() =~= b.dom());
                    assert(a =~= b);
                }
                true
            },
            _ => false,
        }
    }
}

/// A `serde_json` value, carried between parsing and rendering.
#[verifier::external_type_specification]
#[verifier::external_body]
pub struct ExValue(serde_json::Value);

/// What `serde_json::from_str` reads a text as; nothing where it reports an error.
pub uninterp spec fn parsed_json(text: Seq<char>) -> Option<JsonView>;

/// What `serde_json` writes for a value, without white space between tokens.
pub uninterp spec fn json_text(value: JsonView) -> Seq<char>;

/// Converts a `serde_json::Value`, variant by variant.
#[verifier::external_body]
fn from_value(value: Value) -> (json: Json)
{
    match value {
        Value::Null => Json::Null,
        Value::Bool(b) => Json::Bool(b),
        Value::Number(n) => Json::Number(match (n.as_u64(), n.as_i64()) {
            (Some(n), _) => JsonNumber::Unsigned(n),
            (None, Some(n)) => JsonNumber::Negative(n),
            (None, None) => JsonNumber::Decimal(n.to_string()),
        }),
        Value::String(s) => Json::Text(s),
        Value::Array(a) => Json::Array(a.into_iter().map(from_value).collect()),
        Value::Object(o) => Json::Object(o.into_iter().map(|(k, v)| (k, from_value(v))).collect()),
    }
}

/// Converts to a `serde_json::Value`, variant by variant. Of two entries with one key the later
/// stays.
#[verifier::external_body]
fn to_value(json: &Json) -> (value: Value)
{
    match json {
        Json::Null => Value::Null,
        Json::Bool(b) => Value::Bool(*b),
        Json::Number(JsonNumber::Unsigned(n)) => Value::from(*n),
        Json::Number(JsonNumber::Negative(n)) => Value::from(*n),
        Json::Number(JsonNumber::Decimal(d)) =>
            d.parse().ok().and_then(serde_json::Number::from_f64).map_or(Value::Null, Value::Number),
        Json::Text(s) => Value::String(s.clone()),
        Json::Array(a) => Value::Array(a.iter().map(to_value).collect()),
        Json::Object(o) => Value::Object(o.iter().map(|(k, v)| (k.clone(), to_value(v))).collect()),
    }
}

/// `serde_json::from_str`: the value that a text stands for, and nothing where the text is no JSON.
/// What the value is depends on the text alone.
#[verifier::external_body]
pub(crate) fn parse_json(text: &str) -> (json: Option<Json>)
    ensures
        (match json {
            Some(json) => Some(json@),
            None => None,
        }) == parsed_json(text@),
{
    serde_json::from_str::<Value>(text).ok().map(from_value)
}

/// `serde_json`'s compact rendering (`Value::to_string`): a function of the value alone. Control
/// characters are written as escapes, so the text has no line end.
#[verifier::external_body]
pub(crate) fn render_json(json: &Json) -> (text: String)
    ensures
        text@ == json_text(json@),
        forall|i: int| 0 <= i < text@.len() ==> text@[i] != '\n' && text@[i] != '\r',
{
    to_value(json).to_string()
}

}
