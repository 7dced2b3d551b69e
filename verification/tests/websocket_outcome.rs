use codaze::classifier::FailureClass;
use codaze::error_semantics::RetryAfter;
use codaze::responses::websocket::{
    outcome_after_client_delivery_failure, terminal_outcome_after_successful_delivery,
    WebsocketProxyOutcome,
};
use codaze::time::Delay;

fn quota_failure() -> WebsocketProxyOutcome {
    WebsocketProxyOutcome::Failed {
        failure: FailureClass::QuotaExhausted,
        retry_after: Some(RetryAfter::Exact(Delay::from_secs(77))),
        details: "The usage limit has been reached".to_string(),
    }
}

#[test]
fn outcome_after_client_delivery_failure_preserves_failed_outcome() {
    let failure = quota_failure();
    assert_eq!(outcome_after_client_delivery_failure(Some(failure.clone())), failure);
}

#[test]
fn outcome_after_client_delivery_failure_preserves_success_outcome() {
    assert_eq!(
        outcome_after_client_delivery_failure(Some(WebsocketProxyOutcome::Success)),
        WebsocketProxyOutcome::Success
    );
}

#[test]
fn terminal_outcome_after_successful_delivery_preserves_success() {
    assert_eq!(
        terminal_outcome_after_successful_delivery(Some(WebsocketProxyOutcome::Success)),
        Some(WebsocketProxyOutcome::Success)
    );
}

#[test]
fn terminal_outcome_after_successful_delivery_preserves_failure() {
    let failure = quota_failure();
    assert_eq!(
        terminal_outcome_after_successful_delivery(Some(failure.clone())),
        Some(failure)
    );
}

#[test]
fn terminal_outcome_after_successful_delivery_ignores_release_and_none() {
    assert_eq!(
        terminal_outcome_after_successful_delivery(Some(WebsocketProxyOutcome::Released)),
        None
    );
    assert_eq!(terminal_outcome_after_successful_delivery(None), None);
}
