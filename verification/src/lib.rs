//! Request pipeline of a small blog backend: route rules, the authorisation
//! guard, access counting, the interceptor chain and the response envelope.

pub mod auth;
pub mod chain;
pub mod config;
pub mod controller;
pub mod counter;
pub mod envelope;
pub mod error;
pub mod logging;
pub mod route;
pub mod text;
