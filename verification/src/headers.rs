//! HTTP header maps of the `http` crate.
use crate::text::lower;
use http::{HeaderMap, HeaderName, HeaderValue};
use vstd::prelude::*;

verus! {

/// The header map of the `http` crate.
#[verifier::external_type_specification]
#[verifier::external_body]
#[verifier::reject_recursive_types(T)]
pub struct ExHeaderMap<T>(http::HeaderMap<T>);

/// A header value of the `http` crate.
#[verifier::external_type_specification]
#[verifier::external_body]
pub struct ExHeaderValue(http::HeaderValue);

/// What a header map holds: for each name, in lower case, its values in order.
pub uninterp spec fn header_entries(headers: HeaderMap<HeaderValue>) -> Map<Seq<char>, Seq<Seq<u8>>>;

/// The most names that a map may have for one more to be put in without a panic: below this
/// number no growth of `http`'s table reaches its limit, however the names fall together.
pub const MAX_HEADER_NAMES: u64 = 3276;

/// Can one more name be put in?
pub open spec fn has_room(headers: HeaderMap<HeaderValue>) -> bool {
    header_entries(headers).dom().finite() && header_entries(headers).dom().len()
        <= MAX_HEADER_NAMES
}

/// Are there this many names?
pub open spec fn has_names(entries: Map<Seq<char>, Seq<Seq<u8>>>, count: nat) -> bool {
    entries.dom().finite() && entries.dom().len() == count
}

/// A name that `http` takes as it stands: lower-case letters, digits and hyphens.
pub open spec fn plain_name(name: Seq<char>) -> bool {
    &&& 1 <= name.len() <= 64
    &&& forall|i: int|
        0 <= i < name.len() ==> ('a' <= #[trigger] name[i] && name[i] <= 'z') || ('0' <= name[i]
            && name[i] <= '9') || name[i] == '-'
}

/// A byte that a header value may hold.
pub open spec fn value_byte(b: u8) -> bool {
    (b >= 32 && b != 127) || b == 9
}

/// Bytes that make a header value.
pub open spec fn header_value(bytes: Seq<u8>) -> bool {
    forall|i: int| 0 <= i < bytes.len() ==> value_byte(#[trigger] bytes[i])
}

/// A byte that a header value read as text may hold.
pub open spec fn visible_byte(b: u8) -> bool {
    (32 <= b && b < 127) || b == 9
}

/// The text of a header value; nothing where a byte is no visible ASCII.
pub open spec fn value_text(bytes: Seq<u8>) -> Option<Seq<char>> {
    if forall|i: int| 0 <= i < bytes.len() ==> visible_byte(#[trigger] bytes[i]) {
        Some(Seq::new(bytes.len(), |i: int| bytes[i] as char))
    } else {
        None
    }
}

/// The text of the first value under a name.
pub open spec fn header_text(
    entries: Map<Seq<char>, Seq<Seq<u8>>>,
    name: Seq<char>,
) -> Option<Seq<char>> {
    if entries.contains_key(lower(name)) {
        value_text(entries[lower(name)][0])
    } else {
        None
    }
}

/// The contents of an empty map.
pub open spec fn no_entries() -> Map<Seq<char>, Seq<Seq<u8>>> {
    Map::empty()
}

/// `HeaderMap::new`: an empty map.
#[verifier::external_body]
pub(crate) fn new_headers() -> (headers: HeaderMap<HeaderValue>)
    ensures
        header_entries(headers) == no_entries(),
{
    HeaderMap::new()
}

/// `HeaderMap::clone`: a map with the same contents.
#[verifier::external_body]
pub(crate) fn copy_headers(headers: &HeaderMap<HeaderValue>) -> (copy: HeaderMap<HeaderValue>)
    ensures
        header_entries(copy) == header_entries(*headers),
{
    headers.clone()
}

/// `HeaderMap::get`: the bytes of the first value under a name, whose letters may be of either
/// case.
#[verifier::external_body]
pub(crate) fn first_value(headers: &HeaderMap<HeaderValue>, name: &str) -> (value: Option<Vec<u8>>)
    ensures
        match value {
            Some(value) => header_entries(*headers).contains_key(lower(name@))
                && header_entries(*headers)[lower(name@)].len() > 0
                && header_entries(*headers)[lower(name@)][0] == value@,
            None => !header_entries(*headers).contains_key(lower(name@)),
        },
{
    headers.get(name).map(|value| value.as_bytes().to_vec())
}

/// `HeaderMap::get_all`: the bytes of every value under a name, in order.
#[verifier::external_body]
pub(crate) fn all_values(headers: &HeaderMap<HeaderValue>, name: &str) -> (values: Vec<Vec<u8>>)
    ensures
        header_entries(*headers).contains_key(lower(name@)) <==> values.len() > 0,
        values.len() > 0 ==> header_entries(*headers)[lower(name@)] == Seq::new(
            values@.len(),
            |i: int| values@[i]@,
        ),
        forall|i: int| 0 <= i < values.len() ==> header_value(#[trigger] values@[i]@),
{
    headers.get_all(name).iter().map(|value| value.as_bytes().to_vec()).collect()
}

/// `HeaderMap::insert`: the value stands alone under the name.
#[verifier::external_body]
pub(crate) fn insert_value(headers: &mut HeaderMap<HeaderValue>, name: &str, value: &[u8])
    requires
        has_room(*old(headers)),
        plain_name(name@),
        header_value(value@),
    ensures
        header_entries(*final(headers)) == header_entries(*old(headers)).insert(
            name@,
            seq![value@],
        ),
{
    let name = HeaderName::from_bytes(name.as_bytes()).expect("plain header name");
    headers.insert(name, HeaderValue::from_bytes(value).expect("header value"));
}

/// `HeaderMap::append`: the value comes last under the name.
#[verifier::external_body]
pub(crate) fn append_value(headers: &mut HeaderMap<HeaderValue>, name: &str, value: &[u8])
    requires
        has_room(*old(headers)),
        plain_name(name@),
        header_value(value@),
    ensures
        header_entries(*final(headers)) == header_entries(*old(headers)).insert(
            name@,
            if header_entries(*old(headers)).contains_key(name@) {
                header_entries(*old(headers))[name@].push(value@)
            } else {
                seq![value@]
            },
        ),
{
    let name = HeaderName::from_bytes(name.as_bytes()).expect("plain header name");
    headers.append(name, HeaderValue::from_bytes(value).expect("header value"));
}

/// `HeaderMap::remove`: no value stays under the name.
#[verifier::external_body]
pub(crate) fn remove_name(headers: &mut HeaderMap<HeaderValue>, name: &str)
    ensures
        header_entries(*final(headers)) == header_entries(*old(headers)).remove(lower(name@)),
{
    headers.remove(name);
}

/// `HeaderMap::keys_len`: how many names there are, each counted once.
#[verifier::external_body]
fn count_names(headers: &HeaderMap<HeaderValue>) -> (count: usize)
    ensures
        has_names(header_entries(*headers), count as nat),
{
    headers.keys_len()
}

/// Can one more name be put in?
pub fn takes_one_more(headers: &HeaderMap<HeaderValue>) -> (room: bool)
    ensures
        room == has_room(*headers),
{
    count_names(headers) as u64 <= MAX_HEADER_NAMES
}

/// The text of a header value; nothing where a byte is no visible ASCII.
pub fn text_of_value(value: &Vec<u8>) -> (text: Option<String>)
    ensures
        (match text {
            Some(text) => Some(text@),
            None => None,
        }) == value_text(value@),
{
    let mut text: String = String::new();
    let mut i: usize = 0;
    while i < value.len()
        invariant
            i <= value.len(),
            text@ =~= Seq::new(i as nat, |j: int| value@[j] as char),
            forall|j: int| 0 <= j < i ==> visible_byte(#[trigger] value@[j]),
        decreases value.len() - i,
    {
        let b: u8 = value[i];
        if !((32 <= b && b < 127) || b == 9) {
            assert(!visible_byte(value@[i as int]));
            return None;
        }
        text.push(b as char);
        i = i + 1;
    }
    Some(text)
}

/// The text of the first value under a name.
pub fn header_str(headers: &HeaderMap<HeaderValue>, name: &str) -> (text: Option<String>)
    ensures
        (match text {
            Some(text) => Some(text@),
            None => None,
        }) == header_text(header_entries(*headers), name@),
{
    match first_value(headers, name) {
        Some(value) => text_of_value(&value),
        None => None,
    }
}

/// Do these bytes make a header value?
pub fn is_header_value(bytes: &[u8]) -> (ok: bool)
    ensures
        ok == header_value(bytes@),
{
    let mut i: usize = 0;
    while i < bytes.len()
        invariant
            i <= bytes.len(),
            forall|j: int| 0 <= j < i ==> value_byte(#[trigger] bytes@[j]),
        decreases bytes.len() - i,
    {
        let b: u8 = bytes[i];
        if !((b >= 32 && b != 127) || b == 9) {
            assert(!value_byte(bytes@[i as int]));
            return false;
        }
        i = i + 1;
    }
    true
}

}
