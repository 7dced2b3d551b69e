//! What holds of every stream of events.
use crate::json::JsonView;
use crate::models::ResponseShape;
use crate::responses::sse::{
    boundary, event_end, event_end_from, event_end_is_inside, has_prefix, is_beginning, line_match,
    starts_line, SseLineStartMatch,
};
use crate::responses::stream::{
    consumed, deciding, drained, events_start, observed, scanned, stand_in, SseView,
};
use crate::time::Timestamp;
use vstd::prelude::*;
use vstd::seq_lib::lemma_flatten_concat;

verus! {

/// The bytes of chunks, one behind the other.
pub open spec fn joined(output: Seq<Seq<u8>>) -> Seq<u8> {
    output.flatten()
}

proof fn lemma_joined(first: Seq<u8>, more: Seq<Seq<u8>>)
    ensures
        joined(seq![first] + more) == first + joined(more),
        joined(seq![first]) == first,
        joined(Seq::<Seq<u8>>::empty()) == Seq::<u8>::empty(),
{
    let all = seq![first] + more;
    assert(all.drop_first() =~= more);
    assert(seq![first].drop_first() =~= Seq::<Seq<u8>>::empty());
    seq![first].lemma_flatten_one_element();
}

proof fn lemma_drained_unchanged(state: SseView, shape: ResponseShape, now: Timestamp)
    requires
        state.terminal is None,
        drained(state, shape, now).0.terminal is None,
    ensures
        state.buffer == joined(drained(state, shape, now).1) + drained(state, shape, now).0.buffer,
    decreases state.buffer.len(),
{
    let (last, output) = drained(state, shape, now);
    match event_end(state.buffer) {
        None => {
            lemma_joined(Seq::empty(), Seq::empty());
            assert(Seq::<u8>::empty() + state.buffer =~= state.buffer);
        },
        Some(end) => {
            event_end_is_inside(state.buffer, 0);
            let rest = state.buffer.skip(end);
            let (after, chunk) = consumed(
                SseView { buffer: rest, ..state },
                state.buffer.take(end),
                shape,
                now,
            );
            assert(after.terminal is None);
            let next = SseView { buffer: rest, ..after };
            lemma_drained_unchanged(next, shape, now);
            let more = drained(next, shape, now).1;
            lemma_joined(chunk, more);
            assert(state.buffer =~= chunk + rest);
            assert(chunk + (joined(more) + last.buffer) =~= (chunk + joined(more)) + last.buffer);
        },
    }
}

proof fn lemma_events_start(line_start: bool, bytes: Seq<u8>, from: int)
    requires
        0 <= from <= bytes.len(),
    ensures
        from <= events_start(line_start, bytes, from) <= bytes.len(),
    decreases bytes.len() - from,
{
    if from < bytes.len() {
        lemma_events_start(line_start, bytes, from + 1);
    }
}

proof fn lemma_deciding(buffer: Seq<u8>, bytes: Seq<u8>, taken: int)
    requires
        0 <= taken <= bytes.len(),
    ensures
        taken <= deciding(buffer, bytes, taken) <= bytes.len(),
        taken < bytes.len() ==> taken < deciding(buffer, bytes, taken),
    decreases bytes.len() - taken,
{
    if taken < bytes.len() {
        lemma_deciding(buffer, bytes, taken + 1);
    }
}

proof fn lemma_scanned_unchanged(
    state: SseView,
    bytes: Seq<u8>,
    shape: ResponseShape,
    now: Timestamp,
)
    requires
        state.terminal is None,
        state.buffer.len() == 0,
        scanned(state, bytes, shape, now).0.terminal is None,
    ensures
        bytes == joined(scanned(state, bytes, shape, now).1) + scanned(
            state,
            bytes,
            shape,
            now,
        ).0.buffer,
{
    let at = events_start(state.line_start, bytes, 0);
    lemma_events_start(state.line_start, bytes, 0);
    let front = bytes.take(at);
    let rest = bytes.skip(at);
    assert(front + rest =~= bytes);
    assert(state.buffer + rest =~= rest);
    let passed: Seq<Seq<u8>> = if at > 0 {
        seq![front]
    } else {
        Seq::empty()
    };
    lemma_joined(front, Seq::empty());
    assert(joined(passed) =~= front);
    if at < bytes.len() && line_match(rest) == SseLineStartMatch::Full {
        let begun = SseView {
            line_start: starts_line(state.line_start, front),
            buffer: state.buffer + rest,
            sse_mode: true,
            ..state
        };
        lemma_drained_unchanged(begun, shape, now);
        let (after, more) = drained(begun, shape, now);
        lemma_flatten_concat(passed, more);
        assert(front + (joined(more) + after.buffer) =~= (front + joined(more)) + after.buffer);
    }
}

/// As long as a response has not ended, every byte of it is passed on as it came, in order, or
/// waits for more.
pub proof fn bytes_pass_unchanged(
    state: SseView,
    bytes: Seq<u8>,
    shape: ResponseShape,
    now: Timestamp,
)
    requires
        observed(state, bytes, shape, now).0.terminal is None,
    ensures
        state.buffer + bytes == joined(observed(state, bytes, shape, now).1) + observed(
            state,
            bytes,
            shape,
            now,
        ).0.buffer,
{
    lemma_joined(Seq::empty(), Seq::empty());
    assert(Seq::<u8>::empty() + state.buffer =~= state.buffer);
    if state.terminal is Some {
    } else if state.sse_mode {
        lemma_drained_unchanged(
            SseView { buffer: state.buffer + bytes, ..state },
            shape,
            now,
        );
    } else if bytes.len() == 0 {
        assert(state.buffer + bytes =~= state.buffer);
    } else if state.buffer.len() > 0 {
        let n = deciding(state.buffer, bytes, 0);
        lemma_deciding(state.buffer, bytes, 0);
        let front = state.buffer + bytes.take(n);
        assert(front + bytes.skip(n) =~= state.buffer + bytes);
        match line_match(front) {
            SseLineStartMatch::Full => {
                lemma_drained_unchanged(
                    SseView { sse_mode: true, buffer: state.buffer + bytes, ..state },
                    shape,
                    now,
                );
            },
            SseLineStartMatch::Partial => {
                lemma_decided(state.buffer, bytes, 0);
                assert(front =~= state.buffer + bytes);
                assert(Seq::<u8>::empty() + front =~= front);
            },
            SseLineStartMatch::Unmatched => {
                let passed = SseView {
                    buffer: Seq::empty(),
                    line_start: starts_line(state.line_start, front),
                    ..state
                };
                lemma_scanned_unchanged(passed, bytes.skip(n), shape, now);
                let (after, more) = scanned(passed, bytes.skip(n), shape, now);
                lemma_joined(front, more);
                assert(front + (joined(more) + after.buffer) =~= (front + joined(more))
                    + after.buffer);
            },
        }
    } else {
        lemma_scanned_unchanged(state, bytes, shape, now);
        assert(state.buffer + bytes =~= bytes);
    }
}

/// Where the bytes that were taken leave open whether they begin a field, all were taken.
proof fn lemma_decided(buffer: Seq<u8>, bytes: Seq<u8>, taken: int)
    requires
        0 <= taken <= bytes.len(),
        taken < bytes.len() ==> line_match(buffer + bytes.take(deciding(buffer, bytes, taken)))
            == SseLineStartMatch::Partial,
    ensures
        deciding(buffer, bytes, taken) == bytes.len(),
    decreases bytes.len() - taken,
{
    if taken < bytes.len() {
        if line_match(buffer + bytes.take(taken + 1)) == SseLineStartMatch::Partial {
            lemma_decided(buffer, bytes, taken + 1);
        }
    }
}

/// Where an event tells of an unusable account, nothing of what it says reaches a general client
/// but its number.
pub proof fn unusable_account_is_hidden(
    state: SseView,
    kind: Seq<char>,
    other_kind: Seq<char>,
    json: JsonView,
    other: JsonView,
    now: Timestamp,
    later: Timestamp,
)
    requires
        json.signed_field("sequence_number"@) == other.signed_field("sequence_number"@),
    ensures
        stand_in(state, ResponseShape::OpenAi, kind, json, now) == stand_in(
            state,
            ResponseShape::OpenAi,
            other_kind,
            other,
            later,
        ),
{
}

/// More bytes do not move the end of an event that was complete.
proof fn lemma_event_end_stays(buffer: Seq<u8>, more: Seq<u8>, from: int)
    requires
        0 <= from,
        event_end_from(buffer, from) is Some,
        forall|i: int| 0 <= i < from ==> boundary(buffer, i) == 0,
    ensures
        event_end_from(buffer + more, from) == event_end_from(buffer, from),
    decreases buffer.len() - from,
{
    let all = buffer + more;
    if boundary(buffer, from) > 0 {
        assert(boundary(all, from) == boundary(buffer, from));
    } else {
        lemma_event_end_stays(buffer, more, from + 1);
        event_end_is_inside(buffer, from + 1);
        lemma_no_boundary(buffer, more, from);
    }
}

/// Where an event ends behind a place, more bytes make no end at that place.
proof fn lemma_no_boundary(buffer: Seq<u8>, more: Seq<u8>, at: int)
    requires
        0 <= at,
        boundary(buffer, at) == 0,
        event_end_from(buffer, at + 1) is Some,
    ensures
        boundary(buffer + more, at) == 0,
{
    let all = buffer + more;
    let i = lemma_boundary_of_end(buffer, at + 1);
    assert(forall|j: int| 0 <= j < buffer.len() ==> all[j] == buffer[j]);
    if at + 3 >= buffer.len() {
        assert(boundary(buffer, i) == 2);
        assert(buffer[i] == 10 && buffer[i + 1] == 10);
        assert(i == at + 1 || i == at + 2);
    }
}

proof fn lemma_boundary_of_end(buffer: Seq<u8>, from: int) -> (at: int)
    requires
        0 <= from,
        event_end_from(buffer, from) is Some,
    ensures
        from <= at < buffer.len(),
        boundary(buffer, at) > 0,
    decreases buffer.len() - from,
{
    if boundary(buffer, from) > 0 {
        from
    } else {
        lemma_boundary_of_end(buffer, from + 1)
    }
}

/// Events are taken from a buffer in the same way whether more bytes come before or after.
proof fn lemma_drained_in_parts(
    state: SseView,
    more: Seq<u8>,
    shape: ResponseShape,
    now: Timestamp,
)
    requires
        state.terminal is None,
    ensures
        ({
            let whole = drained(SseView { buffer: state.buffer + more, ..state }, shape, now);
            let first = drained(state, shape, now);
            if first.0.terminal is Some {
                whole == first
            } else {
                let second = drained(
                    SseView { buffer: first.0.buffer + more, ..first.0 },
                    shape,
                    now,
                );
                whole == (second.0, first.1 + second.1)
            }
        }),
    decreases state.buffer.len(),
{
    let joint = SseView { buffer: state.buffer + more, ..state };
    let whole = drained(joint, shape, now);
    let first = drained(state, shape, now);
    match event_end(state.buffer) {
        None => {
            assert(Seq::<Seq<u8>>::empty() + whole.1 =~= whole.1);
        },
        Some(end) => {
            event_end_is_inside(state.buffer, 0);
            lemma_event_end_stays(state.buffer, more, 0);
            let rest = state.buffer.skip(end);
            assert(joint.buffer.take(end) =~= state.buffer.take(end));
            assert(joint.buffer.skip(end) =~= rest + more);
            let (after, chunk) = consumed(
                SseView { buffer: rest, ..state },
                state.buffer.take(end),
                shape,
                now,
            );
            let (joint_after, joint_chunk) = consumed(
                SseView { buffer: rest + more, ..state },
                state.buffer.take(end),
                shape,
                now,
            );
            lemma_consumed_apart(state, state.buffer.take(end), rest, rest + more, shape, now);
            if after.terminal is None {
                let next = SseView { buffer: rest, ..after };
                lemma_drained_in_parts(next, more, shape, now);
                let then = drained(next, shape, now);
                if then.0.terminal is None {
                    let second = drained(
                        SseView { buffer: then.0.buffer + more, ..then.0 },
                        shape,
                        now,
                    );
                    assert(seq![chunk] + (then.1 + second.1) =~= (seq![chunk] + then.1)
                        + second.1);
                }
            }
        },
    }
}

/// What an event says does not depend on the bytes that wait.
proof fn lemma_consumed_apart(
    state: SseView,
    bytes: Seq<u8>,
    rest: Seq<u8>,
    other: Seq<u8>,
    shape: ResponseShape,
    now: Timestamp,
)
    ensures
        ({
            let a = consumed(SseView { buffer: rest, ..state }, bytes, shape, now);
            let b = consumed(SseView { buffer: other, ..state }, bytes, shape, now);
            b.0 == (SseView { buffer: other, ..a.0 }) && a.1 == b.1
        }),
{
}

/// Bytes that begin a field, or that cannot, stay so with more bytes.
proof fn lemma_match_stays(bytes: Seq<u8>, more: Seq<u8>)
    ensures
        line_match(bytes) != SseLineStartMatch::Partial ==> line_match(bytes + more) == line_match(
            bytes,
        ),
        line_match(bytes + more) == SseLineStartMatch::Partial ==> line_match(bytes)
            == SseLineStartMatch::Partial,
{
    lemma_prefix_stays(bytes, more, "event:"@);
    lemma_prefix_stays(bytes, more, "data:"@);
    lemma_prefix_stays(bytes, more, "id:"@);
    lemma_prefix_stays(bytes, more, "retry:"@);
    lemma_prefix_stays(bytes, more, ":"@);
}

proof fn lemma_prefix_stays(bytes: Seq<u8>, more: Seq<u8>, prefix: Seq<char>)
    ensures
        has_prefix(bytes, prefix) ==> has_prefix(bytes + more, prefix),
        is_beginning(bytes + more, prefix) ==> is_beginning(bytes, prefix),
        has_prefix(bytes + more, prefix) ==> has_prefix(bytes, prefix) || is_beginning(
            bytes,
            prefix,
        ),
{
    let all = bytes + more;
    assert forall|i: int| 0 <= i < bytes.len() implies all[i] == bytes[i] by {}
    if is_beginning(all, prefix) {
        assert forall|i: int| 0 <= i < bytes.len() implies #[trigger] prefix[i]
            == bytes[i] as char by {
            assert(all[i] == bytes[i]);
        }
    }
    if has_prefix(all, prefix) && bytes.len() <= prefix.len() {
        assert forall|i: int| 0 <= i < bytes.len() implies #[trigger] prefix[i]
            == bytes[i] as char by {
            assert(all[i] == bytes[i]);
        }
    }
    if has_prefix(all, prefix) && bytes.len() > prefix.len() {
        assert forall|i: int| 0 <= i < prefix.len() implies #[trigger] prefix[i]
            == bytes[i] as char by {
            assert(all[i] == bytes[i]);
        }
    }
}

/// A beginning of a field holds no line feed.
proof fn lemma_partial_is_one_line(bytes: Seq<u8>)
    requires
        line_match(bytes) == SseLineStartMatch::Partial,
    ensures
        forall|i: int| 0 <= i < bytes.len() ==> bytes[i] != 10,
{
    reveal_strlit("event:");
    reveal_strlit("data:");
    reveal_strlit("id:");
    reveal_strlit("retry:");
    reveal_strlit(":");
    assert forall|i: int| 0 <= i < bytes.len() implies bytes[i] != 10 by {
        if bytes[i] == 10 {
            assert(bytes[i] as char == '\n');
            if is_beginning(bytes, "event:"@) {
                assert("event:"@[i] == bytes[i] as char);
            } else if is_beginning(bytes, "data:"@) {
                assert("data:"@[i] == bytes[i] as char);
            } else if is_beginning(bytes, "id:"@) {
                assert("id:"@[i] == bytes[i] as char);
            } else if is_beginning(bytes, "retry:"@) {
                assert("retry:"@[i] == bytes[i] as char);
            } else {
                assert(":"@[i] == bytes[i] as char);
            }
        }
    }
}

/// Where no line between two places begins a field, the search goes on at the second.
proof fn lemma_no_start_between(line_start: bool, bytes: Seq<u8>, from: int, to: int)
    requires
        0 <= from <= to <= bytes.len(),
        forall|i: int|
            from <= i < to ==> !(#[trigger] starts_line(line_start, bytes.take(i)) && line_match(
                bytes.skip(i),
            ) != SseLineStartMatch::Unmatched),
    ensures
        events_start(line_start, bytes, from) == events_start(line_start, bytes, to),
    decreases to - from,
{
    if from < to {
        assert(!(starts_line(line_start, bytes.take(from)) && line_match(bytes.skip(from))
            != SseLineStartMatch::Unmatched));
        lemma_no_start_between(line_start, bytes, from + 1, to);
    }
}

/// No line before the place that was found begins a field.
proof fn lemma_start_is_first(line_start: bool, bytes: Seq<u8>, from: int)
    requires
        0 <= from <= bytes.len(),
    ensures
        ({
            let at = events_start(line_start, bytes, from);
            &&& from <= at <= bytes.len()
            &&& forall|i: int|
                from <= i < at ==> !(#[trigger] starts_line(line_start, bytes.take(i))
                    && line_match(bytes.skip(i)) != SseLineStartMatch::Unmatched)
            &&& at < bytes.len() ==> starts_line(line_start, bytes.take(at)) && line_match(
                bytes.skip(at),
            ) != SseLineStartMatch::Unmatched
        }),
    decreases bytes.len() - from,
{
    if from < bytes.len() && !(starts_line(line_start, bytes.take(from)) && line_match(
        bytes.skip(from),
    ) != SseLineStartMatch::Unmatched) {
        lemma_start_is_first(line_start, bytes, from + 1);
    }
}

/// More bytes make no field begin before the place that was found.
proof fn lemma_start_stays(line_start: bool, bytes: Seq<u8>, more: Seq<u8>)
    ensures
        ({
            let at = events_start(line_start, bytes, 0);
            events_start(line_start, bytes + more, 0) == events_start(line_start, bytes + more, at)
        }),
{
    let at = events_start(line_start, bytes, 0);
    let all = bytes + more;
    lemma_start_is_first(line_start, bytes, 0);
    assert forall|i: int| 0 <= i < at implies !(#[trigger] starts_line(line_start, all.take(i))
        && line_match(all.skip(i)) != SseLineStartMatch::Unmatched) by {
        assert(all.take(i) =~= bytes.take(i));
        assert(all.skip(i) =~= bytes.skip(i) + more);
        lemma_match_stays(bytes.skip(i), more);
        assert(!(starts_line(line_start, bytes.take(i)) && line_match(bytes.skip(i))
            != SseLineStartMatch::Unmatched));
    }
    lemma_no_start_between(line_start, all, 0, at);
}

/// The search behind some bytes is a search in what follows them.
proof fn lemma_start_behind(line_start: bool, bytes: Seq<u8>, more: Seq<u8>, from: int)
    requires
        0 <= from <= more.len(),
    ensures
        events_start(line_start, bytes + more, bytes.len() + from) == bytes.len() + events_start(
            starts_line(line_start, bytes),
            more,
            from,
        ),
    decreases more.len() - from,
{
    if from < more.len() {
        let all = bytes + more;
        let at = bytes.len() + from;
        assert(all.take(at) =~= bytes + more.take(from));
        assert(all.skip(at) =~= more.skip(from));
        lemma_starts_line(line_start, bytes, more.take(from));
        lemma_start_behind(line_start, bytes, more, from + 1);
    }
}

proof fn lemma_starts_line(line_start: bool, bytes: Seq<u8>, more: Seq<u8>)
    ensures
        starts_line(line_start, bytes + more) == starts_line(starts_line(line_start, bytes), more),
{
    if more.len() == 0 {
        assert(bytes + more =~= bytes);
    } else {
        assert((bytes + more).last() == more.last());
    }
}

/// Two ways in which the same was passed on, and after which the same is known.
pub open spec fn alike(left: (SseView, Seq<Seq<u8>>), right: (SseView, Seq<Seq<u8>>)) -> bool {
    left.0 == right.0 && joined(left.1) == joined(right.1)
}

/// What is passed on in two steps.
pub open spec fn in_turn(first: (SseView, Seq<Seq<u8>>), second: (SseView, Seq<Seq<u8>>)) -> (
    SseView,
    Seq<Seq<u8>>,
) {
    (second.0, first.1 + second.1)
}

/// Bytes in which no field begins are passed on, and what follows them is scanned.
proof fn lemma_scan_behind(
    state: SseView,
    bytes: Seq<u8>,
    more: Seq<u8>,
    shape: ResponseShape,
    now: Timestamp,
)
    requires
        state.buffer.len() == 0,
        events_start(state.line_start, bytes + more, 0) == bytes.len() + events_start(
            starts_line(state.line_start, bytes),
            more,
            0,
        ),
    ensures
        ({
            let passed = SseView {
                line_start: starts_line(state.line_start, bytes),
                ..state
            };
            let whole = scanned(state, bytes + more, shape, now);
            let rest = scanned(passed, more, shape, now);
            whole.0 == rest.0 && joined(whole.1) == bytes + joined(rest.1)
        }),
{
    let passed = SseView { line_start: starts_line(state.line_start, bytes), ..state };
    let all = bytes + more;
    let k = events_start(passed.line_start, more, 0);
    lemma_events_start(passed.line_start, more, 0);
    let at = bytes.len() + k;
    assert(all.take(at) =~= bytes + more.take(k));
    assert(all.skip(at) =~= more.skip(k));
    lemma_starts_line(state.line_start, bytes, more.take(k));
    let front: Seq<Seq<u8>> = if at > 0 {
        seq![all.take(at)]
    } else {
        Seq::empty()
    };
    let front_rest: Seq<Seq<u8>> = if k > 0 {
        seq![more.take(k)]
    } else {
        Seq::empty()
    };
    lemma_joined(all.take(at), Seq::empty());
    lemma_joined(more.take(k), Seq::empty());
    assert(joined(front) =~= bytes + joined(front_rest));
    let begun = SseView {
        line_start: starts_line(passed.line_start, more.take(k)),
        buffer: passed.buffer + more.skip(k),
        sse_mode: true,
        ..passed
    };
    let after = drained(begun, shape, now).1;
    lemma_flatten_concat(front, after);
    lemma_flatten_concat(front_rest, after);
    assert(bytes + joined(front_rest) + joined(after) =~= bytes + (joined(front_rest) + joined(
        after,
    )));
}

proof fn lemma_drained_mode(state: SseView, shape: ResponseShape, now: Timestamp)
    ensures
        drained(state, shape, now).0.sse_mode == state.sse_mode,
    decreases state.buffer.len(),
{
    if let Some(end) = event_end(state.buffer) {
        event_end_is_inside(state.buffer, 0);
        let rest = state.buffer.skip(end);
        let (after, chunk) = consumed(
            SseView { buffer: rest, ..state },
            state.buffer.take(end),
            shape,
            now,
        );
        if after.terminal is None {
            lemma_drained_mode(SseView { buffer: rest, ..after }, shape, now);
        }
    }
}

/// Events that were begun go on in the same way whether the bytes come at once or in two parts.
proof fn lemma_events_in_parts(
    state: SseView,
    more: Seq<u8>,
    shape: ResponseShape,
    now: Timestamp,
)
    requires
        state.sse_mode,
        state.terminal is None,
    ensures
        ({
            let whole = drained(SseView { buffer: state.buffer + more, ..state }, shape, now);
            let first = drained(state, shape, now);
            whole == in_turn(first, observed(first.0, more, shape, now))
        }),
{
    lemma_drained_in_parts(state, more, shape, now);
    lemma_drained_mode(state, shape, now);
    let first = drained(state, shape, now);
    if first.0.terminal is Some {
        assert(first.1 + Seq::<Seq<u8>>::empty() =~= first.1);
    }
}

proof fn lemma_deciding_facts(buffer: Seq<u8>, bytes: Seq<u8>, taken: int)
    requires
        0 <= taken < bytes.len(),
        line_match(buffer + bytes.take(taken)) == SseLineStartMatch::Partial,
    ensures
        ({
            let n = deciding(buffer, bytes, taken);
            &&& taken < n <= bytes.len()
            &&& line_match(buffer + bytes.take(n - 1)) == SseLineStartMatch::Partial
            &&& line_match(buffer + bytes.take(n)) == SseLineStartMatch::Partial ==> n
                == bytes.len()
        }),
    decreases bytes.len() - taken,
{
    if line_match(buffer + bytes.take(taken + 1)) == SseLineStartMatch::Partial {
        if taken + 1 < bytes.len() {
            lemma_deciding_facts(buffer, bytes, taken + 1);
        }
    }
}

proof fn lemma_in_turn(first: (SseView, Seq<Seq<u8>>), second: (SseView, Seq<Seq<u8>>))
    ensures
        joined(in_turn(first, second).1) == joined(first.1) + joined(second.1),
{
    lemma_flatten_concat(first.1, second.1);
}

/// A beginning of a field waits behind bytes that were passed on.
spec fn waits(state: SseView, bytes: Seq<u8>, at: int) -> bool {
    &&& state.buffer.len() == 0
    &&& !state.sse_mode
    &&& state.terminal is None
    &&& at == events_start(state.line_start, bytes, 0)
    &&& 0 <= at < bytes.len()
    &&& starts_line(state.line_start, bytes.take(at))
    &&& line_match(bytes.skip(at)) == SseLineStartMatch::Partial
}

/// What is known where a beginning of a field waits.
spec fn waiting(state: SseView, bytes: Seq<u8>, at: int) -> SseView {
    SseView { line_start: true, buffer: bytes.skip(at), ..state }
}

proof fn lemma_waits(
    state: SseView,
    bytes: Seq<u8>,
    at: int,
    shape: ResponseShape,
    now: Timestamp,
)
    requires
        waits(state, bytes, at),
    ensures
        scanned(state, bytes, shape, now).0 == waiting(state, bytes, at),
        joined(scanned(state, bytes, shape, now).1) == bytes.take(at),
{
    assert(state.buffer + bytes.skip(at) =~= bytes.skip(at));
    lemma_joined(bytes.take(at), Seq::empty());
    assert(at == 0 ==> bytes.take(at) =~= Seq::<u8>::empty());
}

/// The bytes that wait turn out to begin a field.
proof fn lemma_waits_full(
    state: SseView,
    bytes: Seq<u8>,
    more: Seq<u8>,
    at: int,
    shape: ResponseShape,
    now: Timestamp,
)
    requires
        waits(state, bytes, at),
        line_match(bytes.skip(at) + more) == SseLineStartMatch::Full,
    ensures
        ({
            let open = SseView {
                sse_mode: true,
                buffer: bytes.skip(at) + more,
                ..waiting(state, bytes, at)
            };
            let whole = scanned(state, bytes + more, shape, now);
            whole.0 == drained(open, shape, now).0 && joined(whole.1) == bytes.take(at) + joined(
                drained(open, shape, now).1,
            )
        }),
{
    let all = bytes + more;
    lemma_start_stays(state.line_start, bytes, more);
    assert(all.take(at) =~= bytes.take(at));
    assert(all.skip(at) =~= bytes.skip(at) + more);
    assert(events_start(state.line_start, all, 0) == at);
    assert(state.buffer + all.skip(at) =~= bytes.skip(at) + more);
    let passed: Seq<Seq<u8>> = if at > 0 {
        seq![bytes.take(at)]
    } else {
        Seq::empty()
    };
    lemma_joined(bytes.take(at), Seq::empty());
    assert(joined(passed) =~= bytes.take(at));
    let open = SseView {
        sse_mode: true,
        buffer: bytes.skip(at) + more,
        ..waiting(state, bytes, at)
    };
    lemma_flatten_concat(passed, drained(open, shape, now).1);
}

/// The bytes that wait may still begin a field.
proof fn lemma_waits_partial(
    state: SseView,
    bytes: Seq<u8>,
    more: Seq<u8>,
    at: int,
    shape: ResponseShape,
    now: Timestamp,
)
    requires
        waits(state, bytes, at),
        line_match(bytes.skip(at) + more) == SseLineStartMatch::Partial,
    ensures
        ({
            let whole = scanned(state, bytes + more, shape, now);
            &&& whole.0 == (SseView {
                buffer: bytes.skip(at) + more,
                ..waiting(state, bytes, at)
            })
            &&& joined(whole.1) == bytes.take(at)
        }),
{
    let all = bytes + more;
    lemma_start_stays(state.line_start, bytes, more);
    assert(all.take(at) =~= bytes.take(at));
    assert(all.skip(at) =~= bytes.skip(at) + more);
    assert(events_start(state.line_start, all, 0) == at);
    lemma_waits(state, all, at, shape, now);
}

/// Where the bytes that wait turn out to begin no field, the search goes on behind them.
proof fn lemma_search_goes_on(
    line_start: bool,
    bytes: Seq<u8>,
    more: Seq<u8>,
    at: int,
    n: int,
)
    requires
        at == events_start(line_start, bytes, 0),
        0 <= at < bytes.len(),
        0 < n <= more.len(),
        line_match(bytes.skip(at) + more.take(n - 1)) == SseLineStartMatch::Partial,
        line_match(bytes.skip(at) + more.take(n)) == SseLineStartMatch::Unmatched,
    ensures
        events_start(line_start, bytes + more, 0) == bytes.len() + n + events_start(
            starts_line(line_start, bytes + more.take(n)),
            more.skip(n),
            0,
        ),
{
    let all = bytes + more;
    let head = bytes + more.take(n);
    let tail = more.skip(n);
    lemma_start_stays(line_start, bytes, more);
    assert(all =~= head + tail);
    let line = bytes.skip(at) + more.take(n - 1);
    lemma_partial_is_one_line(line);
    assert(all.skip(at) =~= (bytes.skip(at) + more.take(n)) + tail);
    lemma_match_stays(bytes.skip(at) + more.take(n), tail);
    assert forall|i: int| at <= i < head.len() implies !(#[trigger] starts_line(
        line_start,
        all.take(i),
    ) && line_match(all.skip(i)) != SseLineStartMatch::Unmatched) by {
        if i > at {
            assert(all.take(i).last() == line[i - 1 - at]);
        }
    }
    lemma_no_start_between(line_start, all, at, head.len() as int);
    lemma_start_behind(line_start, head, tail, 0);
}

/// What is known once the bytes that wait turned out to begin no field.
spec fn given_up(state: SseView, bytes: Seq<u8>, more: Seq<u8>, at: int, n: int) -> SseView {
    SseView {
        buffer: Seq::empty(),
        line_start: starts_line(true, bytes.skip(at) + more.take(n)),
        ..waiting(state, bytes, at)
    }
}

proof fn lemma_given_up(state: SseView, bytes: Seq<u8>, more: Seq<u8>, at: int, n: int)
    requires
        waits(state, bytes, at),
        0 < n <= more.len(),
    ensures
        given_up(state, bytes, more, at, n) == (SseView {
            line_start: starts_line(state.line_start, bytes + more.take(n)),
            ..state
        }),
        bytes + more.take(n) == bytes.take(at) + (bytes.skip(at) + more.take(n)),
        bytes + more == (bytes + more.take(n)) + more.skip(n),
{
    assert(bytes + more.take(n) =~= bytes.take(at) + (bytes.skip(at) + more.take(n)));
    assert(bytes + more =~= (bytes + more.take(n)) + more.skip(n));
    assert(state.buffer =~= Seq::<u8>::empty());
    assert((bytes + more.take(n)).last() == (bytes.skip(at) + more.take(n)).last());
}

proof fn lemma_grouped(a: Seq<u8>, b: Seq<u8>, c: Seq<u8>)
    ensures
        (a + b) + c == a + (b + c),
{
    assert((a + b) + c =~= a + (b + c));
}

/// A beginning that waits is decided in the same way as if all its bytes had come at once.
proof fn lemma_pending_in_parts(
    state: SseView,
    bytes: Seq<u8>,
    more: Seq<u8>,
    at: int,
    shape: ResponseShape,
    now: Timestamp,
)
    requires
        waits(state, bytes, at),
        more.len() > 0,
    ensures
        ({
            let first = scanned(state, bytes, shape, now);
            alike(
                scanned(state, bytes + more, shape, now),
                in_turn(first, observed(first.0, more, shape, now)),
            )
        }),
{
    let first = scanned(state, bytes, shape, now);
    let second = observed(first.0, more, shape, now);
    let begun = bytes.skip(at);
    lemma_waits(state, bytes, at, shape, now);
    lemma_in_turn(first, second);
    assert(begun + more.take(0) =~= begun);
    lemma_deciding_facts(begun, more, 0);
    let n = deciding(begun, more, 0);
    let front = begun + more.take(n);
    assert(front + more.skip(n) =~= begun + more);
    lemma_match_stays(front, more.skip(n));
    match line_match(front) {
        SseLineStartMatch::Full => {
            lemma_waits_full(state, bytes, more, at, shape, now);
        },
        SseLineStartMatch::Partial => {
            assert(more.take(n) =~= more);
            lemma_waits_partial(state, bytes, more, at, shape, now);
            lemma_joined(Seq::empty(), Seq::empty());
            assert(joined(first.1) + Seq::<u8>::empty() =~= joined(first.1));
        },
        SseLineStartMatch::Unmatched => {
            lemma_search_goes_on(state.line_start, bytes, more, at, n);
            lemma_given_up(state, bytes, more, at, n);
            lemma_scan_behind(state, bytes + more.take(n), more.skip(n), shape, now);
            let passed = given_up(state, bytes, more, at, n);
            let rest = scanned(passed, more.skip(n), shape, now).1;
            lemma_joined(front, rest);
            lemma_grouped(bytes.take(at), front, joined(rest));
        },
    }
}

/// Bytes before the first event are scanned in the same way whether they come at once or in two
/// parts.
proof fn lemma_scanned_in_parts(
    state: SseView,
    bytes: Seq<u8>,
    more: Seq<u8>,
    shape: ResponseShape,
    now: Timestamp,
)
    requires
        state.buffer.len() == 0,
        !state.sse_mode,
        state.terminal is None,
    ensures
        ({
            let first = scanned(state, bytes, shape, now);
            alike(
                scanned(state, bytes + more, shape, now),
                in_turn(first, observed(first.0, more, shape, now)),
            )
        }),
{
    let first = scanned(state, bytes, shape, now);
    let second = observed(first.0, more, shape, now);
    let at = events_start(state.line_start, bytes, 0);
    lemma_start_is_first(state.line_start, bytes, 0);
    lemma_in_turn(first, second);
    lemma_joined(bytes.take(at), Seq::empty());
    let passed: Seq<Seq<u8>> = if at > 0 {
        seq![bytes.take(at)]
    } else {
        Seq::empty()
    };
    assert(joined(passed) =~= bytes.take(at));
    if at < bytes.len() && line_match(bytes.skip(at)) == SseLineStartMatch::Full {
        let all = bytes + more;
        lemma_start_stays(state.line_start, bytes, more);
        assert(all.take(at) =~= bytes.take(at));
        assert(all.skip(at) =~= bytes.skip(at) + more);
        lemma_match_stays(bytes.skip(at), more);
        assert(events_start(state.line_start, all, 0) == at);
        let begun = SseView {
            line_start: starts_line(state.line_start, bytes.take(at)),
            buffer: state.buffer + bytes.skip(at),
            sse_mode: true,
            ..state
        };
        assert(state.buffer + all.skip(at) =~= begun.buffer + more);
        lemma_events_in_parts(begun, more, shape, now);
        let part = drained(begun, shape, now);
        let whole = drained(SseView { buffer: begun.buffer + more, ..begun }, shape, now);
        assert(first == (part.0, passed + part.1));
        assert(passed + (part.1 + second.1) =~= (passed + part.1) + second.1);
    } else if more.len() == 0 {
        assert(bytes + more =~= bytes);
        lemma_joined(Seq::empty(), Seq::empty());
        assert(first.1 + Seq::<Seq<u8>>::empty() =~= first.1);
    } else if at < bytes.len() {
        lemma_pending_in_parts(state, bytes, more, at, shape, now);
    } else {
        lemma_start_stays(state.line_start, bytes, more);
        lemma_start_behind(state.line_start, bytes, more, 0);
        lemma_scan_behind(state, bytes, more, shape, now);
        assert(bytes.take(at) =~= bytes);
        assert(bytes.skip(at) =~= Seq::<u8>::empty());
        assert(state.buffer + bytes.skip(at) =~= state.buffer);
        assert(first.0 == SseView {
            line_start: starts_line(state.line_start, bytes),
            ..state
        });
    }
}

/// What holds between two chunks: bytes that wait before the first event begin a field.
pub open spec fn between_chunks(state: SseView) -> bool {
    state.terminal is None && !state.sse_mode && state.buffer.len() > 0 ==> line_match(state.buffer)
        == SseLineStartMatch::Partial
}

/// Bytes that decide still decide with more bytes behind them; where none did, the search goes on
/// in these.
proof fn lemma_deciding_in_parts(buffer: Seq<u8>, bytes: Seq<u8>, more: Seq<u8>, taken: int)
    requires
        0 <= taken <= bytes.len(),
        line_match(buffer + bytes.take(taken)) == SseLineStartMatch::Partial,
    ensures
        ({
            let n = deciding(buffer, bytes, taken);
            if line_match(buffer + bytes.take(n)) != SseLineStartMatch::Partial {
                deciding(buffer, bytes + more, taken) == n
            } else {
                deciding(buffer, bytes + more, taken) == deciding(
                    buffer,
                    bytes + more,
                    bytes.len() as int,
                )
            }
        }),
    decreases bytes.len() - taken,
{
    if taken < bytes.len() {
        let all = bytes + more;
        assert(all.take(taken + 1) =~= bytes.take(taken + 1));
        if line_match(buffer + bytes.take(taken + 1)) == SseLineStartMatch::Partial {
            lemma_deciding_in_parts(buffer, bytes, more, taken + 1);
        }
    } else {
        assert(bytes.take(taken) =~= bytes);
    }
}

proof fn lemma_deciding_behind(buffer: Seq<u8>, bytes: Seq<u8>, more: Seq<u8>, taken: int)
    requires
        0 <= taken <= more.len(),
    ensures
        deciding(buffer, bytes + more, bytes.len() + taken) == bytes.len() + deciding(
            buffer + bytes,
            more,
            taken,
        ),
    decreases more.len() - taken,
{
    if taken < more.len() {
        let all = bytes + more;
        assert(buffer + all.take(bytes.len() + taken + 1) =~= (buffer + bytes) + more.take(
            taken + 1,
        ));
        lemma_deciding_behind(buffer, bytes, more, taken + 1);
    }
}

/// Bytes that leave a beginning open count as if they had come with it.
proof fn lemma_still_waiting(
    state: SseView,
    bytes: Seq<u8>,
    more: Seq<u8>,
    shape: ResponseShape,
    now: Timestamp,
)
    requires
        state.terminal is None,
        !state.sse_mode,
        state.buffer.len() > 0,
        bytes.len() > 0,
        line_match(state.buffer + bytes) == SseLineStartMatch::Partial,
        deciding(state.buffer, bytes + more, 0) == deciding(
            state.buffer,
            bytes + more,
            bytes.len() as int,
        ),
    ensures
        observed(state, bytes + more, shape, now) == observed(
            SseView { buffer: state.buffer + bytes, ..state },
            more,
            shape,
            now,
        ),
{
    let all = bytes + more;
    if more.len() == 0 {
        assert(all =~= bytes);
        assert(all.take(bytes.len() as int) =~= bytes);
    } else {
        lemma_deciding_behind(state.buffer, bytes, more, 0);
        let m = deciding(state.buffer + bytes, more, 0);
        lemma_deciding(state.buffer + bytes, more, 0);
        assert(state.buffer + all.take(bytes.len() + m) =~= (state.buffer + bytes) + more.take(m));
        assert(all.skip(bytes.len() + m) =~= more.skip(m));
        assert(state.buffer + all =~= (state.buffer + bytes) + more);
    }
}

/// Bytes behind a beginning that waits count in the same way whether they come at once or in two
/// parts.
proof fn lemma_waiting_in_parts(
    state: SseView,
    bytes: Seq<u8>,
    more: Seq<u8>,
    shape: ResponseShape,
    now: Timestamp,
)
    requires
        state.terminal is None,
        !state.sse_mode,
        state.buffer.len() > 0,
        bytes.len() > 0,
        line_match(state.buffer) == SseLineStartMatch::Partial,
    ensures
        ({
            let first = observed(state, bytes, shape, now);
            alike(
                observed(state, bytes + more, shape, now),
                in_turn(first, observed(first.0, more, shape, now)),
            )
        }),
{
    let first = observed(state, bytes, shape, now);
    let second = observed(first.0, more, shape, now);
    lemma_joined(Seq::empty(), Seq::empty());
    lemma_in_turn(first, second);
    let all = bytes + more;
    let n = deciding(state.buffer, bytes, 0);
    assert(state.buffer + bytes.take(0) =~= state.buffer);
    lemma_deciding_facts(state.buffer, bytes, 0);
    lemma_deciding_in_parts(state.buffer, bytes, more, 0);
    let front = state.buffer + bytes.take(n);
    assert(all.take(n) =~= bytes.take(n));
    match line_match(front) {
        SseLineStartMatch::Full => {
            assert(state.buffer + all =~= (state.buffer + bytes) + more);
            lemma_events_in_parts(
                SseView { sse_mode: true, buffer: state.buffer + bytes, ..state },
                more,
                shape,
                now,
            );
        },
        SseLineStartMatch::Partial => {
            assert(bytes.take(n) =~= bytes);
            assert(Seq::<u8>::empty() + joined(second.1) =~= joined(second.1));
            lemma_still_waiting(state, bytes, more, shape, now);
        },
        SseLineStartMatch::Unmatched => {
            let passed = SseView {
                buffer: Seq::empty(),
                line_start: starts_line(state.line_start, front),
                ..state
            };
            assert(all.skip(n) =~= bytes.skip(n) + more);
            lemma_scanned_in_parts(passed, bytes.skip(n), more, shape, now);
            let part = scanned(passed, bytes.skip(n), shape, now);
            let rest = scanned(passed, all.skip(n), shape, now);
            lemma_joined(front, part.1);
            lemma_joined(front, rest.1);
            lemma_in_turn(part, second);
            lemma_grouped(front, joined(part.1), joined(second.1));
        },
    }
}

/// How the bytes of a stream are cut into chunks changes nothing of what is passed on, nor of what
/// is known in the end.
pub proof fn chunks_do_not_matter(
    state: SseView,
    bytes: Seq<u8>,
    more: Seq<u8>,
    shape: ResponseShape,
    now: Timestamp,
)
    requires
        between_chunks(state),
    ensures
        ({
            let first = observed(state, bytes, shape, now);
            let second = observed(first.0, more, shape, now);
            let whole = observed(state, bytes + more, shape, now);
            whole.0 == second.0 && joined(whole.1) == joined(first.1) + joined(second.1)
        }),
{
    let first = observed(state, bytes, shape, now);
    let second = observed(first.0, more, shape, now);
    lemma_joined(Seq::empty(), Seq::empty());
    lemma_in_turn(first, second);
    if state.terminal is Some {
    } else if state.sse_mode {
        assert(state.buffer + (bytes + more) =~= (state.buffer + bytes) + more);
        lemma_events_in_parts(
            SseView { buffer: state.buffer + bytes, ..state },
            more,
            shape,
            now,
        );
    } else if bytes.len() == 0 {
        assert(bytes + more =~= more);
        assert(Seq::<u8>::empty() + joined(second.1) =~= joined(second.1));
    } else if state.buffer.len() == 0 {
        lemma_scanned_in_parts(state, bytes, more, shape, now);
    } else {
        lemma_waiting_in_parts(state, bytes, more, shape, now);
    }
}

/// What holds between two chunks holds after every chunk.
pub proof fn chunks_follow_each_other(
    state: SseView,
    bytes: Seq<u8>,
    shape: ResponseShape,
    now: Timestamp,
)
    requires
        between_chunks(state),
    ensures
        between_chunks(observed(state, bytes, shape, now).0),
{
    if state.terminal is None && !state.sse_mode && bytes.len() > 0 {
        let (passed, rest) = if state.buffer.len() > 0 {
            let n = deciding(state.buffer, bytes, 0);
            let front = state.buffer + bytes.take(n);
            (
                SseView {
                    buffer: Seq::empty(),
                    line_start: starts_line(state.line_start, front),
                    ..state
                },
                bytes.skip(n),
            )
        } else {
            (state, bytes)
        };
        lemma_scan_follows(passed, rest, shape, now);
        lemma_drained_mode(
            SseView { sse_mode: true, buffer: state.buffer + bytes, ..state },
            shape,
            now,
        );
    } else if state.sse_mode {
        lemma_drained_mode(SseView { buffer: state.buffer + bytes, ..state }, shape, now);
    }
}

proof fn lemma_scan_follows(
    state: SseView,
    bytes: Seq<u8>,
    shape: ResponseShape,
    now: Timestamp,
)
    requires
        state.buffer.len() == 0,
        !state.sse_mode,
    ensures
        between_chunks(scanned(state, bytes, shape, now).0),
{
    let at = events_start(state.line_start, bytes, 0);
    lemma_start_is_first(state.line_start, bytes, 0);
    assert(state.buffer + bytes.skip(at) =~= bytes.skip(at));
    lemma_drained_mode(
        SseView {
            line_start: starts_line(state.line_start, bytes.take(at)),
            buffer: state.buffer + bytes.skip(at),
            sse_mode: true,
            ..state
        },
        shape,
        now,
    );
}

}
