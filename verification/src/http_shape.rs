//! Which headers of an upstream answer a general client gets.
use crate::headers::{
    all_values, append_value, copy_headers, first_value, has_room, header_entries, header_value,
    insert_value, new_headers, plain_name, remove_name, text_of_value, value_text,
};
use crate::text::{chars_of, lower, lower_char, text_of, trim, trimmed};
use http::{HeaderMap, HeaderValue};
use vstd::prelude::*;

verus! {

/// The headers under one name alone.
pub open spec fn only(
    entries: Map<Seq<char>, Seq<Seq<u8>>>,
    name: Seq<char>,
) -> Map<Seq<char>, Seq<Seq<u8>>> {
    entries.restrict(set![name])
}

/// The headers that a general client gets: the content type and the cache control.
pub open spec fn openai_headers(entries: Map<Seq<char>, Seq<Seq<u8>>>) -> Map<
    Seq<char>,
    Seq<Seq<u8>>,
> {
    entries.restrict(set!["content-type"@, "cache-control"@])
}

/// A plain name has no capital letters.
pub(crate) proof fn lemma_plain_is_lower(name: Seq<char>)
    requires
        plain_name(name),
    ensures
        lower(name) == name,
{
    assert forall|i: int| 0 <= i < name.len() implies lower_char(#[trigger] name[i]) == name[i] by {}
    assert(lower(name) =~= name);
}

fn copy_header_if_present(
    source: &HeaderMap<HeaderValue>,
    dest: &mut HeaderMap<HeaderValue>,
    name: &str,
)
    requires
        plain_name(name@),
        has_room(*old(dest)),
        !header_entries(*old(dest)).contains_key(name@),
        header_entries(*old(dest)).dom().len() < 10,
    ensures
        header_entries(*final(dest)) == header_entries(*old(dest)).union_prefer_right(
            only(header_entries(*source), name@),
        ),
        header_entries(*final(dest)).dom().finite(),
        header_entries(*final(dest)).dom().len() <= header_entries(*old(dest)).dom().len() + 1,
{
    proof {
        lemma_plain_is_lower(name@);
    }
    let values: Vec<Vec<u8>> = all_values(source, name);
    let ghost start = header_entries(*dest);
    let ghost all = Seq::new(values@.len(), |i: int| values@[i]@);
    let mut i: usize = 0;
    while i < values.len()
        invariant
            i <= values.len(),
            plain_name(name@),
            all == Seq::new(values@.len(), |i: int| values@[i]@),
            !start.contains_key(name@),
            start.dom().finite(),
            start.dom().len() < 10,
            forall|j: int| 0 <= j < values.len() ==> header_value(#[trigger] values@[j]@),
            header_entries(*dest) == if i == 0 {
                start
            } else {
                start.insert(name@, all.take(i as int))
            },
        decreases values.len() - i,
    {
        proof {
            assert(has_room(*dest));
            assert(all.take(i + 1) =~= all.take(i as int).push(values@[i as int]@));
            assert(all.take(1) =~= seq![values@[0]@]);
        }
        append_value(dest, name, values[i].as_slice());
        proof {
            assert(header_entries(*dest) =~= start.insert(name@, all.take(i + 1)));
        }
        i = i + 1;
    }
    proof {
        assert(all.take(i as int) =~= all);
        assert(header_entries(*dest) =~= start.union_prefer_right(
            only(header_entries(*source), name@),
        ));
    }
}

/// The headers that a general client gets of an upstream answer.
pub fn shape_openai_http_headers(headers: HeaderMap<HeaderValue>) -> (shaped: HeaderMap<HeaderValue>)
    ensures
        header_entries(shaped) == openai_headers(header_entries(headers)),
        header_entries(shaped).dom().finite(),
        header_entries(shaped).dom().len() <= 2,
{
    proof {
        lemma_content_type();
        lemma_cache_control();
    }
    let mut filtered: HeaderMap<HeaderValue> = new_headers();
    copy_header_if_present(&headers, &mut filtered, "content-type");
    proof {
        lemma_names_differ();
    }
    copy_header_if_present(&headers, &mut filtered, "cache-control");
    proof {
        assert(header_entries(filtered) =~= openai_headers(header_entries(headers)));
    }
    filtered
}

/// `content-type` is a plain name.
pub(crate) proof fn lemma_content_type()
    ensures
        plain_name("content-type"@),
{
    reveal_strlit("content-type");
}

/// `cache-control` is a plain name.
pub(crate) proof fn lemma_cache_control()
    ensures
        plain_name("cache-control"@),
{
    reveal_strlit("cache-control");
}

/// The two names are not the same.
pub(crate) proof fn lemma_names_differ()
    ensures
        "content-type"@ != "cache-control"@,
{
    reveal_strlit("content-type");
    reveal_strlit("cache-control");
    assert("content-type"@.len() != "cache-control"@.len());
}

/// A name that concerns one connection alone, or the length of a body as it was sent on it.
pub open spec fn hop_by_hop(name: Seq<char>) -> bool {
    name == "connection"@ || name == "keep-alive"@ || name == "proxy-authenticate"@ || name
        == "proxy-authorization"@ || name == "te"@ || name == "trailer"@ || name
        == "transfer-encoding"@ || name == "upgrade"@ || name == "content-length"@
}

/// A name under which stands how much of a limit is used up.
pub open spec fn used_percent(name: Seq<char>) -> bool {
    name == "x-codex-primary-used-percent"@ || name == "x-codex-secondary-used-percent"@
}

/// The bytes of `0.0`.
pub open spec fn zero_percent() -> Seq<u8> {
    seq![48u8, 46u8, 48u8]
}

/// A piece of a list: what stands between two commas, or between a comma and an end.
pub open spec fn is_piece(text: Seq<char>, from: int, to: int) -> bool {
    &&& 0 <= from <= to <= text.len()
    &&& from == 0 || text[from - 1] == ','
    &&& to == text.len() || text[to] == ','
    &&& forall|i: int| from <= i < to ==> text[i] != ','
}

/// The name that a piece of a list stands for.
pub open spec fn piece_name(text: Seq<char>, from: int, to: int) -> Seq<char> {
    lower(trimmed(text.subrange(from, to)))
}

/// The names in a list that end before a place.
pub open spec fn names_before(text: Seq<char>, end: int) -> Set<Seq<char>> {
    Set::new(
        |name: Seq<char>|
            exists|from: int, to: int|
                #![trigger is_piece(text, from, to)]
                is_piece(text, from, to) && to < end && name == piece_name(text, from, to),
    )
}

/// The names in a list.
pub open spec fn listed(text: Seq<char>) -> Set<Seq<char>> {
    names_before(text, text.len() as int + 1)
}

/// The names in some lists.
pub open spec fn listed_in(values: Seq<Seq<u8>>) -> Set<Seq<char>> {
    Set::new(
        |name: Seq<char>|
            exists|i: int|
                0 <= i < values.len() && (match value_text(#[trigger] values[i]) {
                    Some(text) => listed(text).contains(name),
                    None => false,
                }),
    )
}

/// The names that the header `connection` lists.
pub open spec fn connection_names(entries: Map<Seq<char>, Seq<Seq<u8>>>) -> Set<Seq<char>> {
    if entries.contains_key("connection"@) {
        listed_in(entries["connection"@])
    } else {
        Set::empty()
    }
}

/// The headers of an upstream answer that a client gets: none that concern one connection alone,
/// and none that tell how much of a limit is used up.
pub open spec fn sanitized(entries: Map<Seq<char>, Seq<Seq<u8>>>) -> Map<
    Seq<char>,
    Seq<Seq<u8>>,
> {
    Map::new(
        |name: Seq<char>|
            entries.contains_key(name) && !hop_by_hop(name) && !connection_names(entries).contains(
                name,
            ),
        |name: Seq<char>|
            if used_percent(name) {
                seq![zero_percent()]
            } else {
                entries[name]
            },
    )
}

/// Removes the names that a list holds.
fn remove_listed(headers: &mut HeaderMap<HeaderValue>, text: &str)
    ensures
        header_entries(*final(headers)) == header_entries(*old(headers)).remove_keys(listed(text@)),
{
    let chars: Vec<char> = chars_of(text);
    let total: usize = chars.len();
    let ghost start = header_entries(*headers);
    let mut from: usize = 0;
    let mut at: usize = 0;
    assert(names_before(text@, 0) =~= Set::<Seq<char>>::empty());
    assert(start.remove_keys(names_before(text@, 0)) =~= start);
    loop
        invariant
            chars@ == text@,
            from <= at <= total == chars.len(),
            from == 0 || text@[from - 1] == ',',
            forall|i: int| from <= i < at ==> text@[i] != ',',
            start == header_entries(*old(headers)),
            header_entries(*headers) == start.remove_keys(names_before(text@, from as int)),
        decreases total - at, total - from,
    {
        if at < total && chars[at] != ',' {
            at = at + 1;
        } else {
            let piece: String = trim(text_of(&chars, from, at).as_str());
            let ghost name = piece_name(text@, from as int, at as int);
            remove_name(headers, piece.as_str());
            proof {
                lemma_next_piece(text@, from as int, at as int);
                assert(start.remove_keys(names_before(text@, from as int)).remove(name)
                    =~= start.remove_keys(names_before(text@, from as int).insert(name)));
            }
            if at == total {
                return;
            }
            at = at + 1;
            from = at;
        }
    }
}

/// One more piece is one more name.
proof fn lemma_next_piece(text: Seq<char>, from: int, to: int)
    requires
        is_piece(text, from, to),
    ensures
        names_before(text, to + 1) == names_before(text, from).insert(piece_name(text, from, to)),
{
    let name = piece_name(text, from, to);
    let after = names_before(text, to + 1);
    let before = names_before(text, from).insert(name);
    assert forall|n: Seq<char>| after.contains(n) == before.contains(n) by {
        if after.contains(n) {
            let (a, b) = choose|a: int, b: int|
                #![trigger is_piece(text, a, b)]
                is_piece(text, a, b) && b < to + 1 && n == piece_name(text, a, b);
            if b >= from {
                assert(b == to) by {
                    if b < to {
                        assert(text[b] == ',');
                    }
                }
                assert(a == from) by {
                    if a < from {
                        assert(text[from - 1] == ',');
                    }
                    if a > from {
                        assert(text[a - 1] == ',');
                    }
                }
            }
        }
        if names_before(text, from).contains(n) {
            let (a, b) = choose|a: int, b: int|
                #![trigger is_piece(text, a, b)]
                is_piece(text, a, b) && b < from && n == piece_name(text, a, b);
            assert(is_piece(text, a, b) && b < to + 1);
        }
        if n == name {
            assert(is_piece(text, from, to) && to < to + 1);
        }
    }
    assert(after =~= before);
}

/// Removes the names that the header `connection` lists.
fn remove_connection_names(headers: &mut HeaderMap<HeaderValue>, values: &Vec<Vec<u8>>)
    ensures
        header_entries(*final(headers)) == header_entries(*old(headers)).remove_keys(
            listed_in(Seq::new(values@.len(), |i: int| values@[i]@)),
        ),
{
    let ghost start = header_entries(*headers);
    let ghost all = Seq::new(values@.len(), |i: int| values@[i]@);
    let mut i: usize = 0;
    assert(listed_in(all.take(0)) =~= Set::<Seq<char>>::empty());
    assert(start.remove_keys(listed_in(all.take(0))) =~= start);
    while i < values.len()
        invariant
            i <= values.len(),
            all == Seq::new(values@.len(), |i: int| values@[i]@),
            header_entries(*headers) == start.remove_keys(listed_in(all.take(i as int))),
        decreases values.len() - i,
    {
        let ghost done = all.take(i as int);
        let ghost next = all.take(i + 1);
        let ghost value = values@[i as int]@;
        let ghost names = match value_text(value) {
            Some(text) => listed(text),
            None => Set::empty(),
        };
        if let Some(text) = text_of_value(&values[i]) {
            remove_listed(headers, text.as_str());
        }
        proof {
            assert(next =~= done.push(value));
            assert forall|name: Seq<char>|
                listed_in(next).contains(name) == (listed_in(done).contains(name)
                    || names.contains(name)) by {
                if listed_in(done).contains(name) {
                    let k = choose|k: int|
                        0 <= k < done.len() && (match value_text(#[trigger] done[k]) {
                            Some(text) => listed(text).contains(name),
                            None => false,
                        });
                    assert(next[k] == done[k]);
                }
                if names.contains(name) {
                    assert(next[i as int] == value);
                }
                if listed_in(next).contains(name) {
                    let k = choose|k: int|
                        0 <= k < next.len() && (match value_text(#[trigger] next[k]) {
                            Some(text) => listed(text).contains(name),
                            None => false,
                        });
                    if k < i {
                        assert(done[k] == next[k]);
                    }
                }
            }
            assert(header_entries(*headers) =~= start.remove_keys(listed_in(next)));
        }
        i = i + 1;
    }
    assert(all.take(i as int) =~= all);
}

fn remove_plain(headers: &mut HeaderMap<HeaderValue>, name: &str)
    requires
        plain_name(name@),
    ensures
        header_entries(*final(headers)) == header_entries(*old(headers)).remove(name@),
{
    proof {
        lemma_plain_is_lower(name@);
    }
    remove_name(headers, name);
}

/// The names that concern one connection alone are plain.
proof fn lemma_hop_by_hop_names()
    ensures
        plain_name("connection"@),
        plain_name("keep-alive"@),
        plain_name("proxy-authenticate"@),
        plain_name("proxy-authorization"@),
        plain_name("te"@),
        plain_name("trailer"@),
        plain_name("transfer-encoding"@),
        plain_name("upgrade"@),
        plain_name("content-length"@),
{
    reveal_strlit("connection");
    reveal_strlit("keep-alive");
    reveal_strlit("proxy-authenticate");
    reveal_strlit("proxy-authorization");
    reveal_strlit("te");
    reveal_strlit("trailer");
    reveal_strlit("transfer-encoding");
    reveal_strlit("upgrade");
    reveal_strlit("content-length");
}

fn remove_hop_by_hop(headers: &mut HeaderMap<HeaderValue>)
    ensures
        header_entries(*final(headers)) == header_entries(*old(headers)).remove_keys(
            Set::new(|name: Seq<char>| hop_by_hop(name)),
        ),
{
    proof {
        lemma_hop_by_hop_names();
    }
    remove_plain(headers, "connection");
    remove_plain(headers, "keep-alive");
    remove_plain(headers, "proxy-authenticate");
    remove_plain(headers, "proxy-authorization");
    remove_plain(headers, "te");
    remove_plain(headers, "trailer");
    remove_plain(headers, "transfer-encoding");
    remove_plain(headers, "upgrade");
    remove_plain(headers, "content-length");
    assert(header_entries(*headers) =~= header_entries(*old(headers)).remove_keys(
        Set::new(|name: Seq<char>| hop_by_hop(name)),
    ));
}

/// Puts a zero in place of what stands under a name, if anything does.
fn zero_if_present(headers: &mut HeaderMap<HeaderValue>, name: &str)
    requires
        has_room(*old(headers)),
        plain_name(name@),
    ensures
        has_room(*final(headers)),
        header_entries(*final(headers)) == (if header_entries(*old(headers)).contains_key(name@) {
            header_entries(*old(headers)).insert(name@, seq![zero_percent()])
        } else {
            header_entries(*old(headers))
        }),
{
    proof {
        lemma_plain_is_lower(name@);
    }
    if first_value(headers, name).is_some() {
        let zero: [u8; 3] = [48u8, 46u8, 48u8];
        assert(zero@ =~= zero_percent());
        insert_value(headers, name, &zero);
        assert(header_entries(*headers).dom() =~= header_entries(*old(headers)).dom());
    }
}

/// The headers of an upstream answer that a client gets.
pub fn sanitize_response_headers(headers: &HeaderMap<HeaderValue>) -> (kept: HeaderMap<HeaderValue>)
    requires
        has_room(*headers),
    ensures
        header_entries(kept) == sanitized(header_entries(*headers)),
        has_room(kept),
{
    let ghost entries = header_entries(*headers);
    proof {
        lemma_hop_by_hop_names();
        lemma_plain_is_lower("connection"@);
        reveal_strlit("x-codex-primary-used-percent");
        reveal_strlit("x-codex-secondary-used-percent");
    }
    let values: Vec<Vec<u8>> = all_values(headers, "connection");
    let ghost all = Seq::new(values@.len(), |i: int| values@[i]@);
    let mut kept: HeaderMap<HeaderValue> = copy_headers(headers);
    remove_hop_by_hop(&mut kept);
    remove_connection_names(&mut kept, &values);
    proof {
        if values.len() == 0 {
            assert(listed_in(all) =~= Set::<Seq<char>>::empty());
        }
        assert(listed_in(all) =~= connection_names(entries));
        assert(header_entries(kept).dom().subset_of(entries.dom()));
        vstd::set_lib::lemma_len_subset(header_entries(kept).dom(), entries.dom());
    }
    zero_if_present(&mut kept, "x-codex-primary-used-percent");
    zero_if_present(&mut kept, "x-codex-secondary-used-percent");
    assert(header_entries(kept) =~= sanitized(entries));
    kept
}

/// What a client gets of the headers of an answer is not changed by being shaped once more.
pub proof fn sanitized_twice(entries: Map<Seq<char>, Seq<Seq<u8>>>)
    ensures
        sanitized(sanitized(entries)) == sanitized(entries),
        openai_headers(openai_headers(entries)) == openai_headers(entries),
{
    assert(!sanitized(entries).contains_key("connection"@));
    assert(sanitized(sanitized(entries)) =~= sanitized(entries));
    assert(openai_headers(openai_headers(entries)) =~= openai_headers(entries));
}

}
