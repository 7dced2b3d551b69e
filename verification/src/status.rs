//! The names of HTTP statuses.
use crate::json::optional_text;
use crate::text::{decimal, decimal_text};
use vstd::prelude::*;

verus! {

/// What `http::StatusCode::canonical_reason` calls a status; nothing where it knows no name.
pub uninterp spec fn canonical_reason(status: u16) -> Option<Seq<char>>;

/// `http::StatusCode::canonical_reason`: the name of a status, which depends on its number alone. A
/// number that is no status has none.
#[verifier::external_body]
pub(crate) fn reason_of(status: u16) -> (reason: Option<&'static str>)
    ensures
        optional_text(reason) == canonical_reason(status),
{
    http::StatusCode::from_u16(status).ok().and_then(|status| status.canonical_reason())
}

/// The name of a status, or another text where it has none.
pub open spec fn reason_or(status: u16, other: Seq<char>) -> Seq<char> {
    match canonical_reason(status) {
        Some(reason) => reason,
        None => other,
    }
}

/// The name of a status, or another text where it has none.
pub fn name_or(status: u16, other: &str) -> (name: String)
    ensures
        name@ == reason_or(status, other@),
{
    match reason_of(status) {
        Some(reason) => reason.to_owned(),
        None => other.to_owned(),
    }
}

/// A status as it is shown: its number and its name.
pub open spec fn status_text(status: u16) -> Seq<char> {
    decimal(status as nat) + " "@ + reason_or(status, "<unknown status code>"@)
}

/// A status as it is shown: its number and its name.
pub fn render_status(status: u16) -> (text: String)
    ensures
        text@ == status_text(status),
{
    let mut text: String = decimal_text(status as u128);
    text.append(" ");
    text.append(name_or(status, "<unknown status code>").as_str());
    text
}

}
