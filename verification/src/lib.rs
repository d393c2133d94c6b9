//! The decisions behind a supervisor daemon: its HTTP API, its raw TCP decrypt
//! protocol and the requests it relays, as functions from plain values to plain
//! values.

pub mod apple;
pub mod batch;
pub mod config;
pub mod decimal;
pub mod decrypt;
pub mod error;
pub mod health;
pub mod http;
pub mod json;
pub mod laws;
pub mod query;
pub mod routes;
pub mod text;
pub mod wire;
pub mod worker;
