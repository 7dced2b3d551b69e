//! What the routes for the operator decide.
use crate::accounts::INVALID_REFRESH_TOKEN_MESSAGE;
use crate::config::{policy_name, policy_named, problem_text, ConfigProblem, RoutingPolicy};
use crate::gateway_errors::{json_error, message_error, plain_json, GatewayResponse, ResponseBody};
use crate::headers::new_headers;
use crate::json::{Json, JsonView};
use vstd::prelude::*;

verus! {

/// The answer to an import without a refresh token.
pub fn empty_refresh_token_response() -> (response: GatewayResponse)
    ensures
        response@ == plain_json(400, message_error(INVALID_REFRESH_TOKEN_MESSAGE@)),
{
    json_error(400, INVALID_REFRESH_TOKEN_MESSAGE)
}

/// The status of an import: an account that was there before is no new one.
pub fn import_status(already_exists: bool) -> (status: u16)
    ensures
        status == if already_exists {
            200u16
        } else {
            201u16
        },
{
    if already_exists {
        200
    } else {
        201
    }
}

/// The answer to an import that failed: what went wrong inside is not told.
pub fn import_failure_response() -> (response: GatewayResponse)
    ensures
        response@ == plain_json(500, message_error("internal server error"@)),
{
    json_error(500, "internal server error")
}

/// What is said of an account that is not there.
pub open spec fn unknown_account_text(id: Seq<char>) -> Seq<char> {
    "unknown account `"@ + id + "`"@
}

/// The answer where an account is not there.
pub fn unknown_account_response(id: &str) -> (response: GatewayResponse)
    ensures
        response@ == plain_json(404, message_error(unknown_account_text(id@))),
{
    let mut message: String = "unknown account `".to_owned();
    message.append(id);
    message.append("`");
    json_error(404, message.as_str())
}

/// A routing policy as an object.
pub open spec fn policy_object(policy: RoutingPolicy) -> JsonView {
    JsonView::empty_object().with("routing_policy"@, JsonView::Text(policy_name(policy)))
}

/// The answer that names the routing policy.
pub fn routing_policy_response(policy: RoutingPolicy) -> (response: GatewayResponse)
    ensures
        response@ == plain_json(200, policy_object(policy)),
{
    GatewayResponse {
        status: 200,
        headers: new_headers(),
        body: ResponseBody::Json(
            Json::object().with("routing_policy", Json::text(policy.as_str())),
        ),
    }
}

/// The routing policy that the operator asks for, or the answer that refuses it.
pub fn requested_routing_policy(name: Option<&str>) -> (policy: Result<
    RoutingPolicy,
    GatewayResponse,
>)
    ensures
        match (name, policy) {
            (Some(name), Ok(policy)) => policy_named(name@) == Some(policy),
            (Some(name), Err(response)) => policy_named(name@) is None && response@ == plain_json(
                400,
                message_error(problem_text(ConfigProblem::UnsupportedPolicy(name@))),
            ),
            (None, Ok(_)) => false,
            (None, Err(response)) => response@ == plain_json(
                400,
                message_error("missing routing_policy"@),
            ),
        },
{
    match name {
        Some(name) => match RoutingPolicy::parse(name) {
            Ok(policy) => Ok(policy),
            Err(error) => Err(json_error(400, error.message().as_str())),
        },
        None => Err(json_error(400, "missing routing_policy")),
    }
}

}
