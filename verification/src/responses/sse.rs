//! The bytes of a stream of events.
use crate::text::{
    after_prefix, begins_with, chars_of, rest_behind, text_of, trim_start, trimmed_start,
};
use vstd::prelude::*;
use vstd::utf8::{decode_utf8, valid_utf8};

verus! {

/// Do bytes at the start of a line begin a field of an event?
#[derive(Debug, Clone, Copy, PartialEq, Eq, Structural)]
pub enum SseLineStartMatch {
    Full,
    Partial,
    Unmatched,
}

/// Do the bytes begin with these ASCII characters?
pub open spec fn has_prefix(bytes: Seq<u8>, prefix: Seq<char>) -> bool {
    prefix.len() <= bytes.len() && forall|i: int|
        0 <= i < prefix.len() ==> #[trigger] prefix[i] == bytes[i] as char
}

/// Are the bytes a beginning of these ASCII characters?
pub open spec fn is_beginning(bytes: Seq<u8>, prefix: Seq<char>) -> bool {
    bytes.len() <= prefix.len() && forall|i: int|
        0 <= i < bytes.len() ==> #[trigger] prefix[i] == bytes[i] as char
}

/// Do bytes at the start of a line begin a field of an event, or might they with more bytes?
pub open spec fn line_match(bytes: Seq<u8>) -> SseLineStartMatch {
    if has_prefix(bytes, "event:"@) || has_prefix(bytes, "data:"@) || has_prefix(bytes, "id:"@)
        || has_prefix(bytes, "retry:"@) || has_prefix(bytes, ":"@) {
        SseLineStartMatch::Full
    } else if is_beginning(bytes, "event:"@) || is_beginning(bytes, "data:"@) || is_beginning(
        bytes,
        "id:"@,
    ) || is_beginning(bytes, "retry:"@) || is_beginning(bytes, ":"@) {
        SseLineStartMatch::Partial
    } else {
        SseLineStartMatch::Unmatched
    }
}

/// How the bytes behind `from` stand to a prefix: do they begin with it, or are they a beginning
/// of it?
fn match_prefix(bytes: &[u8], from: usize, prefix: &str) -> (found: (bool, bool))
    requires
        from <= bytes.len(),
    ensures
        found.0 == has_prefix(bytes@.skip(from as int), prefix@),
        found.1 == is_beginning(bytes@.skip(from as int), prefix@),
{
    let chars: Vec<char> = chars_of(prefix);
    let total: usize = bytes.len();
    let ghost rest = bytes@.skip(from as int);
    let mut i: usize = 0;
    while i < chars.len() && i < total - from
        invariant
            i <= chars.len(),
            from <= total == bytes.len(),
            i <= total - from,
            chars@ == prefix@,
            rest == bytes@.skip(from as int),
            forall|j: int| 0 <= j < i ==> #[trigger] prefix@[j] == rest[j] as char,
        decreases chars.len() - i,
    {
        if chars[i] != bytes[from + i] as char {
            assert(rest[i as int] == bytes@[from + i]);
            assert(prefix@[i as int] != rest[i as int] as char);
            return (false, false);
        }
        i = i + 1;
    }
    (i == chars.len(), i == total - from)
}

/// Do the bytes behind `from` begin a field of an event?
pub fn match_line_start(bytes: &[u8], from: usize) -> (found: SseLineStartMatch)
    requires
        from <= bytes.len(),
    ensures
        found == line_match(bytes@.skip(from as int)),
{
    let event: (bool, bool) = match_prefix(bytes, from, "event:");
    let data: (bool, bool) = match_prefix(bytes, from, "data:");
    let id: (bool, bool) = match_prefix(bytes, from, "id:");
    let retry: (bool, bool) = match_prefix(bytes, from, "retry:");
    let comment: (bool, bool) = match_prefix(bytes, from, ":");
    if event.0 || data.0 || id.0 || retry.0 || comment.0 {
        SseLineStartMatch::Full
    } else if event.1 || data.1 || id.1 || retry.1 || comment.1 {
        SseLineStartMatch::Partial
    } else {
        SseLineStartMatch::Unmatched
    }
}

/// Do bytes at the start of a line begin a field of an event?
pub fn classify_sse_line_start(bytes: &[u8]) -> (found: SseLineStartMatch)
    ensures
        found == line_match(bytes@),
{
    assert(bytes@.skip(0) =~= bytes@);
    match_line_start(bytes, 0)
}

/// Does a line start behind these bytes?
pub open spec fn starts_line(line_start: bool, bytes: Seq<u8>) -> bool {
    if bytes.len() == 0 {
        line_start
    } else {
        bytes.last() == 10
    }
}

/// Does a line start behind these bytes?
pub fn line_start_after_bytes(line_start: bool, bytes: &[u8]) -> (start: bool)
    ensures
        start == starts_line(line_start, bytes@),
{
    let total: usize = bytes.len();
    if total == 0 {
        line_start
    } else {
        bytes[total - 1] == 10
    }
}

/// The length of the empty line that ends an event at `at`; zero where none stands there.
pub open spec fn boundary(buffer: Seq<u8>, at: int) -> int {
    if at + 1 < buffer.len() && buffer[at] == 10 && buffer[at + 1] == 10 {
        2
    } else if at + 3 < buffer.len() && buffer[at] == 13 && buffer[at + 1] == 10 && buffer[at + 2]
        == 13 && buffer[at + 3] == 10 {
        4
    } else {
        0
    }
}

/// Where the first event that ends behind `from` ends.
pub open spec fn event_end_from(buffer: Seq<u8>, from: int) -> Option<int>
    decreases buffer.len() - from,
{
    if from < 0 || from >= buffer.len() {
        None
    } else if boundary(buffer, from) > 0 {
        Some(from + boundary(buffer, from))
    } else {
        event_end_from(buffer, from + 1)
    }
}

/// Where the first event ends; nothing where none is complete.
pub open spec fn event_end(buffer: Seq<u8>) -> Option<int> {
    event_end_from(buffer, 0)
}

/// An event ends within the bytes and is not empty.
pub proof fn event_end_is_inside(buffer: Seq<u8>, from: int)
    requires
        0 <= from,
    ensures
        event_end_from(buffer, from) matches Some(end) ==> from < end <= buffer.len(),
    decreases buffer.len() - from,
{
    if from < buffer.len() && boundary(buffer, from) == 0 {
        event_end_is_inside(buffer, from + 1);
    }
}

/// Where the first event ends; nothing where none is complete.
pub fn find_sse_event_end(buffer: &[u8]) -> (end: Option<usize>)
    ensures
        match end {
            Some(end) => event_end(buffer@) == Some(end as int) && 0 < end <= buffer.len(),
            None => event_end(buffer@) is None,
        },
{
    let total: usize = buffer.len();
    let mut i: usize = 0;
    while i < total
        invariant
            i <= total == buffer.len(),
            event_end(buffer@) == event_end_from(buffer@, i as int),
        decreases total - i,
    {
        if total - i > 1 && buffer[i] == 10 && buffer[i + 1] == 10 {
            return Some(i + 2);
        }
        if total - i > 3 && buffer[i] == 13 && buffer[i + 1] == 10 && buffer[i + 2] == 13
            && buffer[i + 3] == 10 {
            return Some(i + 4);
        }
        i = i + 1;
    }
    None
}

/// A copy of the bytes from `from` to `to`.
pub fn copy_bytes(bytes: &[u8], from: usize, to: usize) -> (copy: Vec<u8>)
    requires
        from <= to <= bytes.len(),
    ensures
        copy@ == bytes@.subrange(from as int, to as int),
{
    let mut copy: Vec<u8> = Vec::new();
    let mut i: usize = from;
    while i < to
        invariant
            from <= i <= to <= bytes.len(),
            copy@ == bytes@.subrange(from as int, i as int),
        decreases to - i,
    {
        copy.push(bytes[i]);
        i = i + 1;
    }
    copy
}

/// Puts the bytes behind `from` at the end of a buffer.
pub fn push_bytes(buffer: &mut Vec<u8>, bytes: &[u8], from: usize)
    requires
        from <= bytes.len(),
    ensures
        final(buffer)@ == old(buffer)@ + bytes@.skip(from as int),
{
    let mut i: usize = from;
    let total: usize = bytes.len();
    while i < total
        invariant
            from <= i <= total == bytes.len(),
            buffer@ == old(buffer)@ + bytes@.subrange(from as int, i as int),
        decreases total - i,
    {
        buffer.push(bytes[i]);
        assert(bytes@.subrange(from as int, i + 1) =~= bytes@.subrange(from as int, i as int).push(
            bytes@[i as int],
        ));
        i = i + 1;
    }
    assert(bytes@.subrange(from as int, total as int) =~= bytes@.skip(from as int));
}

/// What `String::from_utf8_lossy` reads bytes as.
pub uninterp spec fn lossy_text(bytes: Seq<u8>) -> Seq<char>;

/// `String::from_utf8_lossy`: a text that depends on the bytes alone, and that they encode where
/// they are valid UTF-8.
#[verifier::external_body]
fn read_text(bytes: &[u8]) -> (text: String)
    ensures
        text@ == lossy_text(bytes@),
        valid_utf8(bytes@) ==> text@ == decode_utf8(bytes@),
{
    String::from_utf8_lossy(bytes).into_owned()
}

/// The name and the data of an event.
pub struct EventView {
    pub name: Option<Seq<char>>,
    pub data: Option<Seq<char>>,
}

/// The name and the data of an event.
#[derive(Debug, Clone, PartialEq, Eq)]
pub struct SseEvent {
    pub name: Option<String>,
    pub data: Option<String>,
}

impl View for SseEvent {
    type V = EventView;

    open spec fn view(&self) -> EventView {
        EventView {
            name: match self.name {
                Some(name) => Some(name@),
                None => None,
            },
            data: match self.data {
                Some(data) => Some(data@),
                None => None,
            },
        }
    }
}

/// A line without the carriage returns at its end.
pub open spec fn without_returns(line: Seq<char>) -> Seq<char>
    decreases line.len(),
{
    if line.len() > 0 && line.last() == '\r' {
        without_returns(line.drop_last())
    } else {
        line
    }
}

/// The place of the first line feed behind `from`; the length of the text where there is none.
pub open spec fn line_feed(text: Seq<char>, from: int) -> int
    decreases text.len() - from,
{
    if from < 0 || from >= text.len() {
        text.len() as int
    } else if text[from] == '\n' {
        from
    } else {
        line_feed(text, from + 1)
    }
}

/// An event to which a line is added: the last name counts, and the lines of data stand one under
/// the other.
pub open spec fn with_line(event: EventView, line: Seq<char>) -> EventView {
    EventView {
        name: if begins_with(line, "event:"@) {
            Some(trimmed_start(rest_behind(line, "event:"@)))
        } else {
            event.name
        },
        data: if begins_with(line, "data:"@) {
            let data = trimmed_start(rest_behind(line, "data:"@));
            match event.data {
                Some(before) => Some(before + "\n"@ + data),
                None => Some(data),
            }
        } else {
            event.data
        },
    }
}

/// The event that the lines behind `from` make of one that was begun.
pub open spec fn read_from(event: EventView, text: Seq<char>, from: int) -> EventView
    decreases text.len() + 1 - from,
{
    if from < 0 || from >= text.len() {
        event
    } else {
        proof {
            line_feed_is_inside(text, from);
        }
        let end = line_feed(text, from);
        read_from(with_line(event, without_returns(text.subrange(from, end))), text, end + 1)
    }
}

/// The event that a text stands for.
pub open spec fn event_of(text: Seq<char>) -> EventView {
    read_from(EventView { name: None, data: None }, text, 0)
}

/// A line ends within the text.
pub proof fn line_feed_is_inside(text: Seq<char>, from: int)
    requires
        0 <= from <= text.len(),
    ensures
        from <= line_feed(text, from) <= text.len(),
    decreases text.len() - from,
{
    if from < text.len() && text[from] != '\n' {
        line_feed_is_inside(text, from + 1);
    }
}

fn find_line_feed(chars: &Vec<char>, from: usize) -> (at: usize)
    requires
        from <= chars.len(),
    ensures
        at == line_feed(chars@, from as int),
        from <= at <= chars.len(),
{
    let mut at: usize = from;
    let total: usize = chars.len();
    while at < total && chars[at] != '\n'
        invariant
            from <= at <= total == chars.len(),
            line_feed(chars@, from as int) == line_feed(chars@, at as int),
        decreases total - at,
    {
        at = at + 1;
    }
    at
}

fn read_line(chars: &Vec<char>, from: usize, to: usize) -> (line: String)
    requires
        from <= to <= chars.len(),
    ensures
        line@ == without_returns(chars@.subrange(from as int, to as int)),
{
    let mut end: usize = to;
    while end > from && chars[end - 1] == '\r'
        invariant
            from <= end <= to <= chars.len(),
            without_returns(chars@.subrange(from as int, to as int)) == without_returns(
                chars@.subrange(from as int, end as int),
            ),
        decreases end,
    {
        assert(chars@.subrange(from as int, end as int).drop_last() =~= chars@.subrange(
            from as int,
            end - 1,
        ));
        end = end - 1;
    }
    assert(end > from ==> chars@.subrange(from as int, end as int).last() == chars@[end - 1]);
    text_of(chars, from, end)
}

fn add_line(event: SseEvent, line: &str) -> (added: SseEvent)
    ensures
        added@ == with_line(event@, line@),
{
    let mut added: SseEvent = event;
    if let Some(name) = after_prefix(line, "event:") {
        added.name = Some(trim_start(name.as_str()));
    }
    if let Some(rest) = after_prefix(line, "data:") {
        let data: String = trim_start(rest.as_str());
        added.data = match added.data {
            Some(before) => {
                let mut joined: String = before;
                joined.append("\n");
                joined.append(data.as_str());
                Some(joined)
            },
            None => Some(data),
        };
    }
    added
}

/// The event that a text stands for.
pub fn parse_event_text(text: &str) -> (event: SseEvent)
    ensures
        event@ == event_of(text@),
{
    let chars: Vec<char> = chars_of(text);
    let total: usize = chars.len();
    let mut event: SseEvent = SseEvent { name: None, data: None };
    let mut from: usize = 0;
    while from < total
        invariant
            from <= total == chars.len(),
            chars@ == text@,
            event_of(text@) == read_from(event@, text@, from as int),
        decreases total - from,
    {
        let end: usize = find_line_feed(&chars, from);
        let line: String = read_line(&chars, from, end);
        event = add_line(event, line.as_str());
        if end == total {
            assert(read_from(event@, text@, end + 1) == event@);
            return event;
        }
        from = end + 1;
    }
    event
}

/// The event that bytes stand for.
pub fn parse_event_bytes(bytes: &[u8]) -> (event: SseEvent)
    ensures
        event@ == event_of(lossy_text(bytes@)),
{
    parse_event_text(read_text(bytes).as_str())
}

}
