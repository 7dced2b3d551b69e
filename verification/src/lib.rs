//! The decisions of a gateway that serves requests from a pool of upstream accounts.
//!
//! [`accounts`] holds the pool: which accounts are blocked and for how long, which of them a
//! request may use, and how the pool and the account files are made to agree. [`router`] picks an
//! account among several. [`failover`] goes from one account to the next until one serves a
//! request. [`error_semantics`] and [`classifier`] say what an upstream answer means for the
//! account, and [`gateway_errors`] and [`http_shape`] what a client gets to see of it. [`api`],
//! [`request_normalization`], [`fingerprint`] and [`models`] shape requests and answers.
//! [`responses`] watches over responses that come as a stream or through a websocket. [`admin`]
//! and [`config`] serve the operator.
//!
//! Files and sockets are left to the program around the library.
pub mod accounts;
pub mod admin;
pub mod answer_laws;
pub mod api;
pub mod classifier;
pub mod config;
pub mod config_laws;
pub mod error_laws;
pub mod error_semantics;
pub mod failover;
pub mod failover_laws;
pub mod fingerprint;
pub mod gateway_errors;
pub mod headers;
pub mod http_shape;
pub mod json;
pub mod models;
pub mod request_laws;
pub mod request_normalization;
pub mod responses;
pub mod router;
pub mod status;
pub mod text;
pub mod text_laws;
pub mod time;
