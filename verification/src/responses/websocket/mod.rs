//! Responses over a websocket.
use crate::classifier::FailureClass;
use crate::error_semantics::{copy_retry, retry_view, RetryAfter, RetryView};
use vstd::prelude::*;

pub mod errors;
pub mod laws;
pub mod protocol;
pub mod proxy;
pub mod replies;

verus! {

/// Why a websocket is closed.
#[derive(Debug, Clone, PartialEq, Eq)]
pub struct CloseFrame {
    pub code: u16,
    pub reason: String,
}

/// A message on a websocket. A raw frame carries nothing that the gateway reads.
#[derive(Debug, Clone, PartialEq, Eq)]
pub enum WebsocketMessage {
    Text(String),
    Binary(Vec<u8>),
    Ping(Vec<u8>),
    Pong(Vec<u8>),
    Close(Option<CloseFrame>),
    Frame,
}

/// The model of a message.
pub enum MessageView {
    Text(Seq<char>),
    Binary(Seq<u8>),
    Ping(Seq<u8>),
    Pong(Seq<u8>),
    Close(Option<(u16, Seq<char>)>),
    Frame,
}

impl View for WebsocketMessage {
    type V = MessageView;

    open spec fn view(&self) -> MessageView {
        match *self {
            WebsocketMessage::Text(text) => MessageView::Text(text@),
            WebsocketMessage::Binary(bytes) => MessageView::Binary(bytes@),
            WebsocketMessage::Ping(bytes) => MessageView::Ping(bytes@),
            WebsocketMessage::Pong(bytes) => MessageView::Pong(bytes@),
            WebsocketMessage::Close(Some(frame)) => MessageView::Close(
                Some((frame.code, frame.reason@)),
            ),
            WebsocketMessage::Close(None) => MessageView::Close(None),
            WebsocketMessage::Frame => MessageView::Frame,
        }
    }
}

/// How a request over a websocket ended for the account that served it.
#[derive(Debug, Clone, PartialEq, Eq)]
pub enum WebsocketProxyOutcome {
    Success,
    Released,
    Failed { failure: FailureClass, retry_after: Option<RetryAfter>, details: String },
}

/// The model of an outcome.
pub enum OutcomeView {
    Success,
    Released,
    Failed { failure: FailureClass, retry_after: Option<RetryView>, details: Seq<char> },
}

impl View for WebsocketProxyOutcome {
    type V = OutcomeView;

    open spec fn view(&self) -> OutcomeView {
        match *self {
            WebsocketProxyOutcome::Success => OutcomeView::Success,
            WebsocketProxyOutcome::Released => OutcomeView::Released,
            WebsocketProxyOutcome::Failed { failure, retry_after, details } => OutcomeView::Failed {
                failure,
                retry_after: retry_view(retry_after),
                details: details@,
            },
        }
    }
}

fn copy_bytes(bytes: &Vec<u8>) -> (copy: Vec<u8>)
    ensures
        copy@ == bytes@,
{
    let mut copy: Vec<u8> = Vec::new();
    let mut i: usize = 0;
    while i < bytes.len()
        invariant
            i <= bytes.len(),
            copy@ == bytes@.take(i as int),
        decreases bytes.len() - i,
    {
        copy.push(bytes[i]);
        i = i + 1;
    }
    copy
}

/// A copy of a message.
pub fn copy_message(message: &WebsocketMessage) -> (copy: WebsocketMessage)
    ensures
        copy@ == message@,
{
    match message {
        WebsocketMessage::Text(text) => WebsocketMessage::Text(text.clone()),
        WebsocketMessage::Binary(bytes) => WebsocketMessage::Binary(copy_bytes(bytes)),
        WebsocketMessage::Ping(bytes) => WebsocketMessage::Ping(copy_bytes(bytes)),
        WebsocketMessage::Pong(bytes) => WebsocketMessage::Pong(copy_bytes(bytes)),
        WebsocketMessage::Close(Some(frame)) => WebsocketMessage::Close(
            Some(CloseFrame { code: frame.code, reason: frame.reason.clone() }),
        ),
        WebsocketMessage::Close(None) => WebsocketMessage::Close(None),
        WebsocketMessage::Frame => WebsocketMessage::Frame,
    }
}

/// The model of an optional outcome.
pub open spec fn optional_outcome(outcome: Option<WebsocketProxyOutcome>) -> Option<OutcomeView> {
    match outcome {
        Some(outcome) => Some(outcome@),
        None => None,
    }
}

/// A copy of an outcome.
pub fn copy_outcome(outcome: &WebsocketProxyOutcome) -> (copy: WebsocketProxyOutcome)
    ensures
        copy == *outcome,
{
    match outcome {
        WebsocketProxyOutcome::Success => WebsocketProxyOutcome::Success,
        WebsocketProxyOutcome::Released => WebsocketProxyOutcome::Released,
        WebsocketProxyOutcome::Failed { failure, retry_after, details } =>
            WebsocketProxyOutcome::Failed {
            failure: *failure,
            retry_after: copy_retry(retry_after),
            details: details.clone(),
        },
    }
}

/// The outcome where the client could not be reached: what was known before, else none.
pub fn outcome_after_client_delivery_failure(failure: Option<WebsocketProxyOutcome>) -> (outcome:
    WebsocketProxyOutcome)
    ensures
        outcome == match failure {
            Some(outcome) => outcome,
            None => WebsocketProxyOutcome::Released,
        },
{
    match failure {
        Some(outcome) => outcome,
        None => WebsocketProxyOutcome::Released,
    }
}

/// The outcome that a message which reached the client ends a request with.
pub fn terminal_outcome_after_successful_delivery(outcome: Option<WebsocketProxyOutcome>) -> (
    terminal: Option<WebsocketProxyOutcome>)
    ensures
        terminal == match outcome {
            Some(WebsocketProxyOutcome::Released) => None,
            _ => outcome,
        },
{
    match outcome {
        Some(WebsocketProxyOutcome::Released) => None,
        other => other,
    }
}

}
