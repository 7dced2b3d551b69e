//! What an upstream error stands for.
use crate::classifier::{http_class, transport_class, FailureClass, TransportError};
use crate::error_semantics::{
    delay_of, header_delay, headers_delay, http_context, means, message_hint, owned_text,
    refresh_class, resets_delay, retry_view, rfc2822_instant, text_payload, AnalyzeErrorContext,
    PayloadView, RetryUnit, RetryView, UpstreamErrorSemantics,
};
use crate::headers::{header_entries, header_text};
use crate::json::optional_text;
use crate::responses::failure::{error_retry, http_retry};
use crate::text::{
    begins_with, decimal, has_text, lower, parsed_u64, stands_at, trimmed, trimmed_start,
};
use crate::text_laws::{
    missing_texts_have_nothing_behind, numbers_are_read_back, numbers_end_behind_their_digits,
    texts_are_cut_behind_the_first_place,
};
use crate::time::{in_calendar, Delay, Timestamp};
use http::{HeaderMap, HeaderValue};
use vstd::prelude::*;

verus! {

/// Does no code or type of an error say by itself what it stands for?
pub open spec fn says_nothing(payload: PayloadView) -> bool {
    &&& payload.error_type != Some("usage_limit_reached"@)
    &&& payload.error_type != Some("usage_not_included"@)
    &&& payload.code != Some("rate_limit_exceeded"@)
    &&& payload.code != Some("insufficient_quota"@)
    &&& payload.code != Some("websocket_connection_limit_reached"@)
    &&& payload.code != Some("server_is_overloaded"@)
    &&& payload.code != Some("slow_down"@)
    &&& payload.code != Some("invalid_prompt"@)
    &&& payload.code != Some("context_length_exceeded"@)
}

/// The text of a body that may be missing, in lower case.
pub open spec fn told(body: Option<Seq<char>>) -> Seq<char> {
    match body {
        Some(text) => lower(text),
        None => Seq::empty(),
    }
}

/// Does a text speak of a limit that was reached, or of a quota that is used up?
pub open spec fn speaks_of_limits(text: Seq<char>) -> bool {
    has_text(text, "rate limit"@) || has_text(text, "quota"@) || has_text(text, "credits"@)
        || has_text(text, "usage cap"@) || has_text(text, "limit reached"@)
}

proof fn lemma_codes()
    ensures
        "rate_limit_exceeded"@.len() == 19,
        "insufficient_quota"@.len() == 18,
        "websocket_connection_limit_reached"@.len() == 34,
        "server_is_overloaded"@.len() == 20,
        "slow_down"@.len() == 9,
        "invalid_prompt"@.len() == 14,
        "context_length_exceeded"@.len() == 23,
        "usage_limit_reached"@.len() == 19,
        "usage_not_included"@.len() == 18,
{
    reveal_strlit("rate_limit_exceeded");
    reveal_strlit("insufficient_quota");
    reveal_strlit("websocket_connection_limit_reached");
    reveal_strlit("server_is_overloaded");
    reveal_strlit("slow_down");
    reveal_strlit("invalid_prompt");
    reveal_strlit("context_length_exceeded");
    reveal_strlit("usage_limit_reached");
    reveal_strlit("usage_not_included");
}

/// Nothing stands in an empty text but the empty text.
proof fn lemma_nothing_told(needle: Seq<char>)
    requires
        needle.len() > 0,
    ensures
        !has_text(Seq::<char>::empty(), needle),
{
}

proof fn lemma_phrases()
    ensures
        !speaks_of_limits(Seq::empty()),
        !has_text(lower(Seq::empty()), "rate limit"@),
        !has_text(lower(Seq::empty()), "unusual activity"@),
        !has_text(lower(Seq::empty()), "arkose"@),
        !has_text(lower(Seq::empty()), "turnstile"@),
        lower(Seq::empty()) == Seq::<char>::empty(),
{
    reveal_strlit("rate limit");
    reveal_strlit("quota");
    reveal_strlit("credits");
    reveal_strlit("usage cap");
    reveal_strlit("limit reached");
    reveal_strlit("unusual activity");
    reveal_strlit("arkose");
    reveal_strlit("turnstile");
    assert(lower(Seq::empty()) =~= Seq::<char>::empty());
    assert("rate limit"@.len() == 10 && "quota"@.len() == 5 && "credits"@.len() == 7);
    assert("usage cap"@.len() == 9 && "limit reached"@.len() == 13);
    assert("unusual activity"@.len() == 16 && "arkose"@.len() == 6 && "turnstile"@.len() == 9);
    lemma_nothing_told("rate limit"@);
    lemma_nothing_told("quota"@);
    lemma_nothing_told("credits"@);
    lemma_nothing_told("usage cap"@);
    lemma_nothing_told("limit reached"@);
    lemma_nothing_told("unusual activity"@);
    lemma_nothing_told("arkose"@);
    lemma_nothing_told("turnstile"@);
}

/// Where nothing is said, no limit is spoken of and nothing is under suspicion.
pub proof fn silence_speaks_of_nothing()
    ensures
        says_nothing(text_payload(None)),
        !speaks_of_limits(told(None)),
        !has_text(told(None), "unusual activity"@),
        !has_text(told(None), "arkose"@),
        !has_text(told(None), "turnstile"@),
{
    lemma_phrases();
}

/// A status of 401 says that the access token was refused, whatever else the answer holds.
pub proof fn unauthorized_answers_refuse_the_token(
    body: Option<Seq<char>>,
    class: FailureClass,
    headers: Option<HeaderMap<HeaderValue>>,
    text: Option<String>,
)
    ensures
        http_class(401, body, class) == class,
        transport_class(TransportError::Http { status: 401, headers, body: text })
            == FailureClass::AccessTokenRejected,
{
}

/// An error of the upstream itself, a status from 500 to 599, is a failure that passes, unless the
/// answer names a code or a type of its own, or speaks of limits. The caller is not to blame.
pub proof fn server_errors_pass(status: u16, body: Option<Seq<char>>, class: FailureClass)
    requires
        500 <= status <= 599,
        says_nothing(text_payload(body)),
        !speaks_of_limits(told(body)),
    ensures
        http_class(status, body, class) == FailureClass::TemporaryFailure,
{
    lemma_phrases();
}

/// A status from 500 to 599 never blames the request by itself: only a code or a type in the answer
/// can.
pub proof fn server_errors_blame_no_request(
    status: u16,
    body: Option<Seq<char>>,
    class: FailureClass,
)
    requires
        500 <= status <= 599,
        says_nothing(text_payload(body)),
    ensures
        http_class(status, body, class) != FailureClass::RequestRejected,
        http_class(status, body, class) != FailureClass::InternalFailure,
        http_class(status, body, class) != FailureClass::RiskControlled,
{
}

/// A status of 429 is a limit on the rate of requests, unless the answer names a code or a type of
/// its own.
pub proof fn too_many_requests_are_limited(body: Option<Seq<char>>, class: FailureClass)
    requires
        says_nothing(text_payload(body)),
    ensures
        http_class(429, body, class) == FailureClass::RateLimited,
{
}

/// A refusal with 403 is under suspicion where the answer speaks of it, else it passes, unless it
/// speaks of limits. It never blames the request by itself.
pub proof fn forbidden_answers_are_told_apart(body: Option<Seq<char>>, class: FailureClass)
    requires
        says_nothing(text_payload(body)),
    ensures
        has_text(told(body), "unusual activity"@) || has_text(told(body), "arkose"@) || has_text(
            told(body),
            "turnstile"@,
        ) <==> http_class(403, body, class) == FailureClass::RiskControlled,
        http_class(403, body, class) != FailureClass::RiskControlled && !speaks_of_limits(told(body))
            ==> http_class(403, body, class) == FailureClass::TemporaryFailure,
        http_class(403, body, class) != FailureClass::RequestRejected,
{
    lemma_phrases();
}

/// An answer that speaks of a rate limit is one, whatever its status; one that speaks of a quota
/// and of no rate limit is that the quota is used up.
pub proof fn limits_are_told_by_words(status: u16, body: Option<Seq<char>>, class: FailureClass)
    requires
        status != 401,
        status != 403,
        says_nothing(text_payload(body)),
    ensures
        has_text(told(body), "rate limit"@) ==> http_class(status, body, class)
            == FailureClass::RateLimited,
        status != 429 && !has_text(told(body), "rate limit"@) && speaks_of_limits(told(body))
            ==> http_class(status, body, class) == FailureClass::QuotaExhausted,
        http_class(status, body, class) == FailureClass::RateLimited ==> status == 429 || has_text(
            told(body),
            "rate limit"@,
        ),
        http_class(status, body, class) == FailureClass::QuotaExhausted ==> speaks_of_limits(
            told(body),
        ),
{
    lemma_phrases();
}

/// Any other answer blames the request.
pub proof fn other_answers_blame_the_request(
    status: u16,
    body: Option<Seq<char>>,
    class: FailureClass,
)
    requires
        status != 401,
        status != 403,
        status != 429,
        status < 500 || status > 599,
        says_nothing(text_payload(body)),
        !speaks_of_limits(told(body)),
    ensures
        http_class(status, body, class) == FailureClass::RequestRejected,
{
    lemma_phrases();
}

/// What a code or a type says goes before status and words; only a status of 401 goes before it.
/// Of the two the type goes first.
pub proof fn codes_go_before_words(status: u16, body: Option<Seq<char>>, class: FailureClass)
    requires
        status != 401,
    ensures
        ({
            let payload = text_payload(body);
            let typed = payload.error_type == Some("usage_limit_reached"@) || payload.error_type
                == Some("usage_not_included"@);
            let found = http_class(status, body, class);
            &&& payload.error_type == Some("usage_limit_reached"@) ==> found
                == FailureClass::QuotaExhausted
            &&& payload.error_type == Some("usage_not_included"@) ==> found
                == FailureClass::RequestRejected
            &&& !typed && payload.code == Some("rate_limit_exceeded"@) ==> found
                == FailureClass::RateLimited
            &&& !typed && payload.code == Some("insufficient_quota"@) ==> found
                == FailureClass::QuotaExhausted
            &&& !typed && payload.code == Some("websocket_connection_limit_reached"@) ==> found
                == FailureClass::TemporaryFailure
            &&& !typed && payload.code == Some("server_is_overloaded"@) ==> found
                == FailureClass::TemporaryFailure
            &&& !typed && payload.code == Some("slow_down"@) ==> found
                == FailureClass::TemporaryFailure
            &&& !typed && payload.code == Some("invalid_prompt"@) ==> found
                == FailureClass::RequestRejected
            &&& !typed && payload.code == Some("context_length_exceeded"@) ==> found
                == FailureClass::RequestRejected
        }),
{
    lemma_codes();
    lemma_types_differ();
}

proof fn lemma_types_differ()
    ensures
        "usage_limit_reached"@ != "usage_not_included"@,
{
    lemma_codes();
}

/// Where there was no answer the failure passes, unless the request could not even be built, which
/// is for the gateway to mend.
pub proof fn silent_failures_pass(error: TransportError)
    ensures
        error is Timeout || error is Network || error is RetryLimit ==> transport_class(error)
            == FailureClass::TemporaryFailure,
        error is Build ==> transport_class(error) == FailureClass::InternalFailure,
{
}

/// No answer is taken for a loss of authorization, and only a request that could not be built for a
/// failure of the gateway.
pub proof fn answers_lose_no_account(error: TransportError)
    ensures
        transport_class(error) != FailureClass::AuthInvalid,
        transport_class(error) == FailureClass::InternalFailure <==> error is Build,
        transport_class(error) == FailureClass::AccessTokenRejected <==> (error matches
            TransportError::Http { status, headers: _, body: _ } && status == 401),
{
}

/// The fields of an error stand under `error` where the body has it, else in the body itself.
pub proof fn error_fields_are_found(text: Seq<char>)
    ensures
        crate::json::parsed_json(text) matches Some(json) ==> {
            let payload = text_payload(Some(text));
            let source = if json.field("error"@) is Some {
                json.field("error"@)->0
            } else {
                json
            };
            &&& payload.code == source.text_field("code"@)
            &&& payload.message == source.text_field("message"@)
            &&& payload.error_type == source.text_field("type"@)
            &&& payload.plan_type == source.text_field("plan_type"@)
            &&& payload.resets_at == source.signed_field("resets_at"@)
            &&& payload.resets_in_seconds == source.signed_field("resets_in_seconds"@)
        },
        crate::json::parsed_json(text) is None ==> says_nothing(text_payload(Some(text)))
            && text_payload(Some(text)).message is None && text_payload(Some(text)).resets_at is None
            && text_payload(Some(text)).resets_in_seconds is None,
{
}

/// A refused refresh costs the account its authorization exactly where the answer says that the
/// refresh token is of no use; no other failure of a refresh does.
pub proof fn useless_refresh_tokens_are_lost(class: FailureClass, body: Option<Seq<char>>)
    ensures
        ({
            let useless = has_text(told(body), "refresh_token_expired"@) || has_text(
                told(body),
                "invalid refresh token"@,
            ) || has_text(told(body), "could not validate your refresh token"@) || has_text(
                told(body),
                "\"invalid_grant\""@,
            );
            &&& class == FailureClass::RequestRejected && useless ==> refresh_class(class, body)
                == FailureClass::AuthInvalid
            &&& class != FailureClass::RequestRejected || !useless ==> refresh_class(class, body)
                == class
        }),
{
    reveal_strlit("refresh_token_expired");
    reveal_strlit("invalid refresh token");
    reveal_strlit("could not validate your refresh token");
    reveal_strlit("\"invalid_grant\"");
    assert("refresh_token_expired"@.len() == 21);
    assert("invalid refresh token"@.len() == 21);
    assert("could not validate your refresh token"@.len() == 37);
    assert("\"invalid_grant\""@.len() == 15);
    lemma_nothing_told("refresh_token_expired"@);
    lemma_nothing_told("invalid refresh token"@);
    lemma_nothing_told("could not validate your refresh token"@);
    lemma_nothing_told("\"invalid_grant\""@);
}

/// A number in the header is a number of seconds.
pub proof fn header_numbers_are_seconds(seconds: u64, now: Timestamp)
    ensures
        header_delay(decimal(seconds as nat), now) == Some(
            Delay { nanos: (seconds * 1_000_000_000) as u128 },
        ),
{
    numbers_are_read_back(seconds);
}

/// A date in the header is told as the time that is left until then, and a date that is over is
/// none. The later it is asked, the less is left.
pub proof fn header_dates_come_nearer(value: Seq<char>, now: Timestamp, later: Timestamp)
    requires
        parsed_u64(value) is None,
        rfc2822_instant(value) matches Some((_, nanos)) && nanos < 1_000_000_000,
        in_calendar(now),
        in_calendar(later),
        now.nanos <= later.nanos,
    ensures
        ({
            let (seconds, nanos) = rfc2822_instant(value)->0;
            let at = seconds * 1_000_000_000 + nanos;
            &&& header_delay(value, now) is Some <==> now.nanos <= at
            &&& header_delay(value, now) matches Some(delay) ==> now.nanos + delay.nanos == at
            &&& header_delay(value, later) matches Some(delay) ==> header_delay(value, now) is Some
                && header_delay(value, now)->0.nanos - delay.nanos == later.nanos - now.nanos
        }),
{
}

/// The header goes before the body, and the time at which a limit is lifted before words.
pub proof fn headers_go_before_bodies(
    headers: Option<&HeaderMap<HeaderValue>>,
    body: Option<Seq<char>>,
    now: Timestamp,
)
    ensures
        headers_delay(headers, now) matches Some(delay) ==> http_retry(headers, body, now) == Some(
            RetryView::Exact(delay),
        ),
        headers_delay(headers, now) is None ==> (resets_delay(text_payload(body), now) matches Some(
            delay,
        ) ==> http_retry(headers, body, now) == Some(RetryView::Exact(delay))),
        headers is None ==> headers_delay(headers, now) is None,
        headers_delay(headers, now) is None && resets_delay(text_payload(body), now) is None
            && text_payload(body).message is Some ==> http_retry(headers, body, now) == message_hint(
            text_payload(body).message->0,
        ),
        headers_delay(headers, now) is None && resets_delay(text_payload(body), now) is None
            && text_payload(body).message is None && body is Some ==> http_retry(headers, body, now)
            == message_hint(body->0),
        headers_delay(headers, now) is None && body is None ==> http_retry(headers, body, now) is None,
{
}

/// A limit is lifted at a time that the body names in seconds since the start of 1970, where that
/// is to come, else after a number of seconds, where that is positive.
pub proof fn limits_are_lifted_in_time(payload: PayloadView, now: Timestamp)
    requires
        in_calendar(now),
    ensures
        ({
            let present = now.nanos as int / 1_000_000_000int;
            let to_come = payload.resets_at is Some && payload.resets_at->0 > present;
            &&& to_come ==> resets_delay(payload, now) is Some && resets_delay(payload, now)->0.nanos
                == (payload.resets_at->0 - present) * 1_000_000_000
            &&& !to_come && payload.resets_in_seconds is Some && payload.resets_in_seconds->0 > 0
                ==> resets_delay(payload, now) is Some && resets_delay(payload, now)->0.nanos
                == payload.resets_in_seconds->0 * 1_000_000_000
            &&& !to_come && (payload.resets_in_seconds is None || payload.resets_in_seconds->0 <= 0)
                ==> resets_delay(payload, now) is None
        }),
{
}

/// A failure without an answer names no delay; one with an answer names that of the answer. A hint
/// in words counts for as much as it was read for, and a known delay needs no hint.
pub proof fn delays_come_from_answers(error: TransportError, hinted: Option<Delay>, now: Timestamp)
    ensures
        !(error is Http) ==> delay_of(error_retry(error, now), hinted) is None,
        error matches TransportError::Http { status: _, headers, body } ==> error_retry(error, now)
            == http_retry(
            match headers {
                Some(headers) => Some(&headers),
                None => None,
            },
            owned_text(body),
            now,
        ),
        forall|delay: Delay| #[trigger]
            delay_of(Some(RetryView::Exact(delay)), hinted) == Some(delay),
        forall|amount: Seq<char>, unit: RetryUnit| #[trigger]
            delay_of(Some(RetryView::Hint(amount, unit)), hinted) == hinted,
        delay_of(None, hinted) is None,
{
}

/// A message names a delay where a number stands behind the first `try again in`: that number, in
/// the unit that follows it, be it written in small or in capital letters.
pub proof fn delays_are_read_from_words(front: Seq<char>, amount: Seq<char>, unit: Seq<char>)
    requires
        amount.len() > 0,
        forall|i: int|
            0 <= i < amount.len() ==> ('0' <= #[trigger] amount[i] && amount[i] <= '9') || amount[i]
                == '.',
        unit.len() > 0 ==> !('0' <= unit[0] && unit[0] <= '9') && unit[0] != '.' && unit[0] != ' ',
        unit.len() > 0 ==> 'A' <= unit[0] && unit[0] <= 'z',
        forall|i: int|
            0 <= i < front.len() ==> !stands_at(
                lower(front + "try again in "@ + amount + unit),
                "try again in"@,
                i,
            ),
    ensures
        ({
            let hint = message_hint(front + "try again in "@ + amount + unit);
            let named = lower(unit);
            &&& hint is Some && hint->0 is Hint && hint->0->Hint_0 == amount
            &&& begins_with(named, "ms"@) ==> hint->0->Hint_1 == RetryUnit::Milliseconds
            &&& begins_with(named, "s"@) ==> hint->0->Hint_1 == RetryUnit::Seconds
            &&& begins_with(named, "min"@) ==> hint->0->Hint_1 == RetryUnit::Minutes
            &&& begins_with(named, "h"@) ==> hint->0->Hint_1 == RetryUnit::Hours
            &&& named == "m"@ ==> hint->0->Hint_1 == RetryUnit::Minutes
            &&& named.len() == 0 ==> hint->0->Hint_1 == RetryUnit::Seconds
        }),
{
    reveal_strlit("try again in ");
    reveal_strlit("try again in");
    let message = front + "try again in "@ + amount + unit;
    let back = seq![' '] + amount + lower(unit);
    assert(lower(message) =~= lower(front) + "try again in"@ + back);
    texts_are_cut_behind_the_first_place(lower(front), "try again in"@, back);
    let text = amount + lower(unit);
    assert(back.skip(1) =~= text);
    assert(text[0] == amount[0]);
    assert(trimmed_start(text) == text);
    assert(trimmed_start(back) == text) by {
        reveal_with_fuel(trimmed_start, 2);
    }
    numbers_end_behind_their_digits(amount, lower(unit));
    assert(text.take(amount.len() as int) =~= amount);
    let named = lower(unit);
    assert(text.skip(amount.len() as int) =~= named);
    assert(trimmed_start(named) == named);
    reveal_strlit("ms");
    reveal_strlit("s");
    reveal_strlit("min");
    reveal_strlit("h");
    reveal_strlit("m");
    reveal_strlit("millisecond");
    reveal_strlit("msec");
    lemma_first_letters(named);
}

proof fn lemma_first_letters(text: Seq<char>)
    ensures
        begins_with(text, "ms"@) <==> text.len() >= 2 && text[0] == 'm' && text[1] == 's',
        begins_with(text, "s"@) <==> text.len() >= 1 && text[0] == 's',
        begins_with(text, "h"@) <==> text.len() >= 1 && text[0] == 'h',
        begins_with(text, "m"@) <==> text.len() >= 1 && text[0] == 'm',
        begins_with(text, "min"@) ==> text.len() >= 3 && text[0] == 'm' && text[1] == 'i' && text[2]
            == 'n',
        begins_with(text, "msec"@) ==> text.len() >= 2 && text[0] == 'm' && text[1] == 's',
        begins_with(text, "millisecond"@) ==> text.len() >= 3 && text[0] == 'm' && text[1] == 'i'
            && text[2] == 'l',
{
    reveal_strlit("ms");
    reveal_strlit("s");
    reveal_strlit("min");
    reveal_strlit("h");
    reveal_strlit("m");
    reveal_strlit("millisecond");
    reveal_strlit("msec");
    assert forall|prefix: Seq<char>, i: int|
        #![trigger prefix[i], begins_with(text, prefix)]
        begins_with(text, prefix) && 0 <= i < prefix.len() implies text[i] == prefix[i] by {
        assert(text.subrange(0, prefix.len() as int)[i] == text[i]);
    }
    assert("ms"@.len() == 2 && "ms"@[0] == 'm' && "ms"@[1] == 's');
    assert("s"@.len() == 1 && "s"@[0] == 's');
    assert("h"@.len() == 1 && "h"@[0] == 'h');
    assert("m"@.len() == 1 && "m"@[0] == 'm');
    assert("min"@.len() == 3 && "min"@[0] == 'm' && "min"@[1] == 'i' && "min"@[2] == 'n');
    assert("msec"@.len() == 4 && "msec"@[0] == 'm' && "msec"@[1] == 's');
    assert("millisecond"@.len() == 11 && "millisecond"@[0] == 'm' && "millisecond"@[1] == 'i'
        && "millisecond"@[2] == 'l');
    if text.len() >= 2 {
        assert(text.subrange(0, 2) =~= seq![text[0], text[1]]);
        assert("ms"@ =~= seq!['m', 's']);
    }
    if text.len() >= 1 {
        assert(text.subrange(0, 1) =~= seq![text[0]]);
        assert("s"@ =~= seq!['s']);
        assert("h"@ =~= seq!['h']);
        assert("m"@ =~= seq!['m']);
    }
}

/// A message that does not say when to try again names no delay.
pub proof fn other_words_name_no_delay(message: Seq<char>)
    requires
        !has_text(lower(message), "try again in"@),
    ensures
        message_hint(message) is None,
{
    missing_texts_have_nothing_behind(lower(message), "try again in"@);
}

/// What is given of an error goes before what its body says, field by field, and so does a delay that
/// is given.
pub proof fn given_fields_go_before_the_body(
    semantics: UpstreamErrorSemantics,
    context: AnalyzeErrorContext<'_>,
    body: PayloadView,
    now: Timestamp,
)
    requires
        means(semantics, context, body, now),
    ensures
        ({
            let payload = semantics.payload@;
            &&& context.explicit_code matches Some(text) ==> payload.code == Some(text@)
            &&& context.explicit_code is None ==> payload.code == body.code
            &&& context.explicit_message matches Some(text) ==> payload.message == Some(text@)
            &&& context.explicit_message is None ==> payload.message == body.message
            &&& context.explicit_error_type matches Some(text) ==> payload.error_type == Some(text@)
            &&& context.explicit_error_type is None ==> payload.error_type == body.error_type
            &&& context.explicit_plan_type matches Some(text) ==> payload.plan_type == Some(text@)
            &&& context.explicit_plan_type is None ==> payload.plan_type == body.plan_type
            &&& context.explicit_resets_at is Some ==> payload.resets_at
                == context.explicit_resets_at
            &&& context.explicit_resets_at is None ==> payload.resets_at == body.resets_at
            &&& context.explicit_resets_in_seconds is Some ==> payload.resets_in_seconds
                == context.explicit_resets_in_seconds
            &&& context.explicit_resets_in_seconds is None ==> payload.resets_in_seconds
                == body.resets_in_seconds
        }),
        context.explicit_retry_after matches Some(delay) ==> retry_view(semantics.retry_after)
            == Some(RetryView::Exact(delay)),
        context.explicit_retry_after is None ==> (headers_delay(context.headers, now) matches Some(
            delay,
        ) ==> retry_view(semantics.retry_after) == Some(RetryView::Exact(delay))),
        context.explicit_retry_after is None && headers_delay(context.headers, now) is None ==> (
        resets_delay(semantics.payload@, now) matches Some(delay) ==> retry_view(
            semantics.retry_after,
        ) == Some(RetryView::Exact(delay))),
        context.explicit_retry_after is None && headers_delay(context.headers, now) is None
            && resets_delay(semantics.payload@, now) is None && !context.allow_message_retry_after
            ==> semantics.retry_after is None,
{
}

/// What an error means by its status: 401 what the caller makes of it, 429 a limit, an error of the
/// upstream one that passes, and any other that the request is at fault, unless a code, a type or
/// words tell otherwise.
pub proof fn meanings_go_by_status(
    semantics: UpstreamErrorSemantics,
    context: AnalyzeErrorContext<'_>,
    body: PayloadView,
    now: Timestamp,
)
    requires
        means(semantics, context, body, now),
    ensures
        ({
            let words = match context.body {
                Some(text) => lower(text@),
                None => match semantics.payload@.message {
                    Some(message) => lower(message),
                    None => Seq::empty(),
                },
            };
            let silent = says_nothing(semantics.payload@);
            let status = context.status;
            &&& status == 401 ==> semantics.failure == context.unauthorized_failure
            &&& silent && status == 429 ==> semantics.failure == FailureClass::RateLimited
            &&& silent && !speaks_of_limits(words) && 500 <= status <= 599 ==> semantics.failure
                == FailureClass::TemporaryFailure
            &&& silent && !speaks_of_limits(words) && status != 401 && status != 403 && status != 429
                && !(500 <= status <= 599) ==> semantics.failure == FailureClass::RequestRejected
        }),
{
    lemma_phrases();
}

/// An answer to a request means what its status, its body and its headers say: nothing is given
/// beside them.
pub proof fn answers_mean_what_they_say(
    semantics: UpstreamErrorSemantics,
    status: u16,
    headers: Option<&HeaderMap<HeaderValue>>,
    body: Option<&str>,
    class: FailureClass,
    now: Timestamp,
)
    requires
        means(
            semantics,
            http_context(status, headers, body, class),
            text_payload(optional_text(body)),
            now,
        ),
    ensures
        semantics.payload@ == text_payload(optional_text(body)),
        semantics.failure == http_class(status, optional_text(body), class),
        retry_view(semantics.retry_after) == http_retry(headers, optional_text(body), now),
{
}

/// A date within a leap second counts the second that it is in, unless the time of day has already
/// gone past it.
pub proof fn leap_seconds_are_counted(value: Seq<char>, now: Timestamp)
    requires
        parsed_u64(value) is None,
        rfc2822_instant(value) matches Some((_, nanos)) && nanos >= 1_000_000_000,
        in_calendar(now),
    ensures
        ({
            let (seconds, nanos) = rfc2822_instant(value)->0;
            let left = seconds * 1_000_000_000 + nanos - now.nanos;
            let passed = seconds as int % 86_400 < (now.nanos as int / 1_000_000_000) % 86_400;
            let counted = if passed {
                left - 1_000_000_000
            } else {
                left
            };
            &&& header_delay(value, now) is Some <==> counted >= 0
            &&& header_delay(value, now) matches Some(delay) ==> delay.nanos == counted
        }),
{
}

/// The delay of an answer is the one of its header `retry-after`, without the spaces around it.
pub proof fn answers_name_their_delay(headers: HeaderMap<HeaderValue>, now: Timestamp)
    ensures
        ({
            let said = header_text(header_entries(headers), "retry-after"@);
            &&& said is None ==> headers_delay(Some(&headers), now) is None
            &&& said is Some ==> headers_delay(Some(&headers), now) == header_delay(
                trimmed(said->0),
                now,
            )
        }),
{
}

}
