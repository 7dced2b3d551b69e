use codaze::accounts::{
    AccountRecord, AccountStore, AccountView, BlockedReason, BlockedSource, RefreshedAccount,
    RoutingState,
};
use codaze::api::body_as_json;
use codaze::classifier::{FailureClass, TransportError};
use codaze::config::RoutingPolicy;
use codaze::failover::{
    advance_failover, apply_account_settlement, failed_event, on_decode_failure, on_unary_failure,
    refresh_failure_details, FailoverAction, FailoverEvent, FailoverFailure, FailoverRun,
    RefreshFailure, SuccessDisposition, UnaryRun,
};
use codaze::json::Json;
use codaze::time::{utc_now, Delay, Timestamp};
use http::HeaderMap;

fn in_minutes(minutes: i128) -> Timestamp {
    Timestamp { nanos: utc_now().nanos + minutes * 60 * 1_000_000_000 }
}

fn import(store: &mut AccountStore, token: &str) -> String {
    let plan = store.prepare_import_account(token.to_string(), None, None).expect("plan");
    store.apply_import_account_plan(plan).expect("import succeeds").account.id
}

fn record<'a>(store: &'a mut AccountStore, id: &str) -> &'a mut AccountRecord {
    let at = store.position(id).expect("record exists");
    &mut store.records[at]
}

fn view(store: &AccountStore, id: &str) -> AccountView {
    store.view(id).expect("view exists")
}

fn give_token(store: &mut AccountStore, id: &str, token: &str) {
    store
        .finish_refresh_success_without_persist(
            id,
            RefreshedAccount {
                access_token: token.to_string(),
                refresh_token: None,
                account_id: Some("acct".to_string()),
                plan_type: Some("plus".to_string()),
                email: None,
                access_token_expires_at: Some(in_minutes(30)),
            },
        )
        .expect("refresh success seeded");
}

fn seeded_pair() -> (AccountStore, [String; 2]) {
    let mut store = AccountStore::new("/accounts".to_string());
    let first = import(&mut store, "rt_123");
    let second = import(&mut store, "rt_456");
    give_token(&mut store, &first, "at_123");
    give_token(&mut store, &second, "at_456");
    (store, [first, second])
}

fn cold_store() -> (AccountStore, String) {
    let mut store = AccountStore::new("/accounts".to_string());
    let id = import(&mut store, "rt_123");
    (store, id)
}

fn http_error(status: u16, body: &str) -> TransportError {
    TransportError::Http { status, headers: None, body: Some(body.to_string()) }
}

/// Serves a request: `send` answers for each access token, `refresh` gives new ones.
fn serve<T>(
    store: &mut AccountStore,
    tried: &mut Vec<String>,
    disposition: SuccessDisposition,
    mut refresh: impl FnMut(&str) -> Result<String, RefreshFailure>,
    mut send: impl FnMut(&str) -> Result<T, TransportError>,
) -> Result<(String, T), FailoverFailure> {
    let mut run = FailoverRun::new();
    let mut event = FailoverEvent::Select;
    let mut served = None;
    loop {
        let action = advance_failover(
            store,
            tried,
            &mut run,
            event,
            RoutingPolicy::FillFirst,
            8,
            disposition,
        );
        event = match action {
            FailoverAction::Select => FailoverEvent::Select,
            FailoverAction::Prepare => FailoverEvent::Prepare,
            FailoverAction::Refresh(token) => match refresh(&token) {
                Ok(access_token) => {
                    let id = run.account_id.clone();
                    give_token(store, &id, &access_token);
                    FailoverEvent::Prepare
                }
                Err(error) => {
                    let id = run.account_id.clone();
                    let details = refresh_failure_details(&error);
                    let delay = match error.retry_after {
                        Some(codaze::error_semantics::RetryAfter::Exact(delay)) => Some(delay),
                        _ => None,
                    };
                    if let Some(plan) = store
                        .finish_refresh_failure(&id, error.class, delay, details)
                        .expect("account is known")
                    {
                        store.finish_auth_invalid_failure(&plan, None).expect("account is known");
                    }
                    FailoverEvent::RefreshFailed(error)
                }
            },
            FailoverAction::Send(account) => match send(&account.access_token) {
                Ok(answer) => {
                    served = Some(answer);
                    FailoverEvent::Succeeded
                }
                Err(error) => {
                    failed_event(error, "failed".to_string(), None).expect("delay is in range")
                }
            },
            FailoverAction::Answer(failure) => return Err(failure),
            FailoverAction::Done => return Ok((run.account_id, served.expect("an answer"))),
        };
    }
}

fn no_refresh(token: &str) -> Result<String, RefreshFailure> {
    panic!("no token is fetched for {token}")
}

/// Serves a request whose answer has to be JSON.
fn serve_json(
    store: &mut AccountStore,
    mut send: impl FnMut(&str) -> &'static str,
) -> Result<(u16, Json), FailoverFailure> {
    let mut tried = Vec::new();
    let mut run = UnaryRun::new();
    loop {
        let served = serve(store, &mut tried, SuccessDisposition::HoldUntilCaller, no_refresh, |token| {
            Ok::<_, TransportError>((200, send(token)))
        });
        match served {
            Ok((id, (status, body))) => match body_as_json(body.as_bytes()) {
                Ok(json) => {
                    store.mark_request_success(&id);
                    return Ok((status, json));
                }
                Err(details) => {
                    let settlement = on_decode_failure(&mut tried, &mut run, &id, details);
                    apply_account_settlement(store, &id, settlement, None);
                }
            },
            Err(failure) => return Err(on_unary_failure(run, &tried, failure)),
        }
    }
}

#[test]
fn app_refresh_quota_failure_applies_upstream_retry_after_to_account_state() {
    let (mut store, account_id) = cold_store();
    let before = utc_now();
    let failure = serve(
        &mut store,
        &mut Vec::new(),
        SuccessDisposition::HoldUntilCaller,
        |_| {
            Err(RefreshFailure {
                status: 502,
                body: r#"{"error":{"type":"usage_limit_reached","message":"The usage limit has been reached","resets_in_seconds":77}}"#
                    .to_string(),
                class: FailureClass::QuotaExhausted,
                retry_after: Some(codaze::error_semantics::RetryAfter::Exact(Delay::from_secs(77))),
            })
        },
        |_| Ok(()),
    )
    .expect_err("no account is left");
    assert!(matches!(failure, FailoverFailure::PoolBlocked(_)));

    let view = view(&store, &account_id);
    assert_eq!(view.routing_state, RoutingState::Cooldown);
    assert_eq!(view.blocked_reason, Some(BlockedReason::QuotaExhausted));
    assert_eq!(view.blocked_source, Some(BlockedSource::UpstreamRetryAfter));
    assert_eq!(view.in_flight_requests, 0);
    assert!(!view.refresh_in_flight);
    assert_eq!(
        view.last_error.as_deref(),
        Some(
            "refresh failed: status=502 Bad Gateway body={\"error\":{\"type\":\"usage_limit_reached\",\"message\":\"The usage limit has been reached\",\"resets_in_seconds\":77}}"
        )
    );
    let blocked_until = view.blocked_until.expect("blocked until");
    assert!(blocked_until.nanos >= before.nanos + 76 * 1_000_000_000);
    assert!(blocked_until.nanos <= before.nanos + 78 * 1_000_000_000);
}

#[test]
fn apply_refresh_failure_request_rejected_records_last_error_without_blocking() {
    let (mut store, account_id) = cold_store();
    let failure = serve(
        &mut store,
        &mut Vec::new(),
        SuccessDisposition::HoldUntilCaller,
        |_| {
            Err(RefreshFailure {
                status: 400,
                body: r#"{"error":{"code":"invalid_request_error","message":"bad refresh request"}}"#
                    .to_string(),
                class: FailureClass::RequestRejected,
                retry_after: None,
            })
        },
        |_| Ok(()),
    )
    .expect_err("the request is refused");
    assert!(matches!(failure, FailoverFailure::Refresh(_)));

    let view = view(&store, &account_id);
    assert_eq!(view.routing_state, RoutingState::Cold);
    assert!(view.blocked_reason.is_none());
    assert!(view.blocked_until.is_none());
    assert_eq!(view.in_flight_requests, 0);
    assert!(!view.refresh_in_flight);
    assert_eq!(
        view.last_error.as_deref(),
        Some(
            "refresh failed: status=400 Bad Request body={\"error\":{\"code\":\"invalid_request_error\",\"message\":\"bad refresh request\"}}"
        )
    );
}

#[test]
fn execute_unary_json_with_failover_decode_failure_marks_account_failed_and_retries() {
    let (mut store, ids) = seeded_pair();
    // The account with the smaller id is picked first.
    let first_account_id = ids.iter().min().expect("two accounts").clone();
    let second_account_id = ids.iter().max().expect("two accounts").clone();
    let bad = store.upstream_account(&first_account_id).expect("account").access_token;
    let (status, body) =
        serve_json(&mut store, |token| if token == bad { "not-json" } else { r#"{"ok":true}"# })
            .expect("second account succeeds");
    assert_eq!(status, 200);
    assert!(matches!(body.get("ok"), Some(Json::Bool(true))));

    let first = view(&store, &first_account_id);
    assert_eq!(first.routing_state, RoutingState::TemporarilyUnavailable);
    assert_eq!(first.in_flight_requests, 0);
    assert!(first.last_success_at.is_none());
    assert_eq!(first.last_error.as_deref(), Some("decode upstream json body"));

    let second = view(&store, &second_account_id);
    assert!(second.last_success_at.is_some());
    assert!(second.last_error.is_none());
    assert_eq!(second.in_flight_requests, 0);
}

#[test]
fn execute_unary_json_with_failover_all_bad_json_returns_bad_gateway() {
    let (mut store, _ids) = seeded_pair();
    let failure = serve_json(&mut store, |_| "not-json").expect_err("all answers are malformed");
    match failure {
        FailoverFailure::Internal { status, detail } => {
            assert_eq!(status, 502);
            assert_eq!(detail, "decode upstream json body");
        }
        other => panic!("unexpected failure: {other:?}"),
    }
}

#[test]
fn execute_with_failover_request_rejected_records_last_error_without_blocking() {
    let (mut store, account_id) = cold_store();
    give_token(&mut store, &account_id, "at_123");
    let failure = serve(
        &mut store,
        &mut Vec::new(),
        SuccessDisposition::HoldUntilCaller,
        no_refresh,
        |_| {
            Err::<(), _>(http_error(
                400,
                r#"{"error":{"code":"invalid_prompt","message":"bad prompt"}}"#,
            ))
        },
    )
    .expect_err("should fail");
    match failure {
        FailoverFailure::Transport(TransportError::Http { status, .. }) => assert_eq!(status, 400),
        other => panic!("unexpected failure: {other:?}"),
    }

    let view = view(&store, &account_id);
    assert_eq!(view.routing_state, RoutingState::Ready);
    assert!(view.blocked_reason.is_none());
    assert!(view.blocked_until.is_none());
    assert_eq!(view.in_flight_requests, 0);
    assert_eq!(
        view.last_error.as_deref(),
        Some(
            "RequestRejected: status=400 Bad Request body={\"error\":{\"code\":\"invalid_prompt\",\"message\":\"bad prompt\"}}"
        )
    );
}

#[test]
fn refused_access_tokens_are_fetched_anew_once() {
    let (mut store, account_id) = cold_store();
    give_token(&mut store, &account_id, "old");
    let mut fetched = 0;
    let (id, answer) = serve(
        &mut store,
        &mut Vec::new(),
        SuccessDisposition::ReleaseImmediately,
        |token| {
            assert_eq!(token, "rt_123");
            fetched += 1;
            Ok("new".to_string())
        },
        |token| if token == "new" { Ok(7) } else { Err(http_error(401, "no")) },
    )
    .expect("the new token is taken");
    assert_eq!((id.as_str(), answer, fetched), (account_id.as_str(), 7, 1));
    assert_eq!(view(&store, &account_id).in_flight_requests, 0);
    assert!(view(&store, &account_id).last_success_at.is_some());

    let mut fetched = 0;
    let mut sent = 0;
    let mut tried = Vec::new();
    let failure = serve(
        &mut store,
        &mut tried,
        SuccessDisposition::ReleaseImmediately,
        |_| {
            fetched += 1;
            Ok("newer".to_string())
        },
        |_| {
            sent += 1;
            Err::<(), _>(http_error(401, "no"))
        },
    )
    .expect_err("no token is taken");
    assert!(matches!(failure, FailoverFailure::PoolBlocked(_)));
    assert_eq!((fetched, sent), (1, 2));
    assert_eq!(tried, vec![account_id.clone()]);
    assert_eq!(view(&store, &account_id).in_flight_requests, 0);
}

#[test]
fn execute_with_failover_missing_access_token_after_selection_continues_failover() {
    let (mut store, account_ids) = seeded_pair();
    let selected_account_id = {
        let selection = store
            .select_account(RoutingPolicy::FillFirst, 8, &Vec::new())
            .expect("selection succeeds");
        store.release_selection(&selection.account_id);
        selection.account_id
    };
    let fallback_account_id = account_ids
        .iter()
        .find(|account_id| **account_id != selected_account_id)
        .expect("fallback account exists")
        .clone();
    let fallback_access_token =
        store.upstream_account(&fallback_account_id).expect("fallback upstream account").access_token;

    let mut run = FailoverRun::new();
    let mut tried = Vec::new();
    let mut event = FailoverEvent::Select;
    let mut value = None;
    loop {
        let action = advance_failover(
            &mut store,
            &mut tried,
            &mut run,
            event,
            RoutingPolicy::FillFirst,
            8,
            SuccessDisposition::ReleaseImmediately,
        );
        event = match action {
            FailoverAction::Select => FailoverEvent::Select,
            FailoverAction::Prepare => {
                if run.account_id == selected_account_id {
                    let selected = record(&mut store, &selected_account_id);
                    selected.access_token = None;
                    selected.access_token_expires_at = None;
                }
                FailoverEvent::Prepare
            }
            FailoverAction::Send(account) => {
                value = Some(if account.access_token == fallback_access_token {
                    "fallback"
                } else {
                    "unexpected"
                });
                FailoverEvent::Succeeded
            }
            FailoverAction::Done => break,
            other => panic!("unexpected action: {other:?}"),
        };
    }

    assert_eq!(run.account_id, fallback_account_id);
    assert_eq!(value, Some("fallback"));

    let selected = view(&store, &selected_account_id);
    assert_eq!(selected.in_flight_requests, 0);
    assert!(selected.last_success_at.is_none());
    let fallback = view(&store, &fallback_account_id);
    assert!(fallback.last_success_at.is_some());
    assert_eq!(fallback.in_flight_requests, 0);
}

#[test]
fn accounts_without_a_token_after_the_pick_are_passed_over() {
    let (mut store, ids) = seeded_pair();
    let first = ids.iter().min().expect("two accounts").clone();
    let other = ids.iter().max().expect("two accounts").clone();
    let mut run = FailoverRun::new();
    let mut tried = Vec::new();
    let policy = RoutingPolicy::FillFirst;
    let hold = SuccessDisposition::HoldUntilCaller;
    let picked =
        advance_failover(&mut store, &mut tried, &mut run, FailoverEvent::Select, policy, 8, hold);
    assert!(matches!(picked, FailoverAction::Prepare));
    assert_eq!(run.account_id, first);
    record(&mut store, &first).access_token = None;
    let next =
        advance_failover(&mut store, &mut tried, &mut run, FailoverEvent::Prepare, policy, 8, hold);
    assert!(matches!(next, FailoverAction::Select));
    assert_eq!(tried, vec![first.clone()]);
    assert_eq!(view(&store, &first).in_flight_requests, 0);
    advance_failover(&mut store, &mut tried, &mut run, FailoverEvent::Select, policy, 8, hold);
    assert_eq!(run.account_id, other);
    let lost = advance_failover(
        &mut store,
        &mut tried,
        &mut run,
        FailoverEvent::RefreshLost("disk full".to_string()),
        policy,
        8,
        hold,
    );
    assert!(matches!(lost, FailoverAction::Answer(FailoverFailure::Internal { status: 500, .. })));
    assert_eq!(view(&store, &other).in_flight_requests, 0);
}

#[test]
fn lost_accounts_are_left_for_others() {
    let (mut store, ids) = seeded_pair();
    let first = ids.iter().min().expect("two accounts").clone();
    let other = ids.iter().max().expect("two accounts").clone();
    record(&mut store, &first).access_token = None;
    let (id, _) = serve(
        &mut store,
        &mut Vec::new(),
        SuccessDisposition::ReleaseImmediately,
        |_| {
            Err(RefreshFailure {
                status: 401,
                body: "refresh_token_expired".to_string(),
                class: FailureClass::AuthInvalid,
                retry_after: None,
            })
        },
        |_| Ok(()),
    )
    .expect("the other account serves");
    assert_eq!(id, other);
    assert!(store.view(&first).is_err());
}

#[test]
fn failed_requests_carry_the_delay_that_the_answer_names() {
    let error = |retry_after: &str| {
        let mut headers = HeaderMap::new();
        headers.insert("retry-after", retry_after.parse().unwrap());
        TransportError::Http { status: 429, headers: Some(headers), body: None }
    };
    let delay = |error, hinted| match failed_event(error, String::new(), hinted) {
        Some(FailoverEvent::Failed { delay, .. }) => Some(delay),
        _ => None,
    };
    assert_eq!(delay(error("17"), None), Some(Some(Delay::from_secs(17))));
    assert_eq!(delay(error("17"), Some(Delay::from_secs(3))), Some(Some(Delay::from_secs(17))));
    assert_eq!(delay(error("18446744073709551615"), None), None);
    assert_eq!(delay(TransportError::Timeout, Some(Delay::from_secs(3))), Some(None));
    let words = TransportError::Http {
        status: 429,
        headers: None,
        body: Some("Please try again in 3s.".to_string()),
    };
    assert_eq!(delay(words, Some(Delay::from_secs(3))), Some(Some(Delay::from_secs(3))));
}
