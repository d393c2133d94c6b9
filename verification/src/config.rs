//! Where the daemon listens.

use vstd::prelude::*;
#[allow(unused_imports)]
use vstd::string::*;

use crate::decimal;
use crate::decimal::{parse_decimal, push_decimal};
use crate::http;

verus! {

pub const DEFAULT_HTTP_HOST: &'static str = "0.0.0.0";

pub const DEFAULT_HTTP_PORT: u16 = 80;

pub const DEFAULT_DECRYPT_HOST: &'static str = "0.0.0.0";

pub const DEFAULT_DECRYPT_PORT: u16 = 10020;

/// The value of a variable of the environment, where it is set and not empty.
pub open spec fn value_or(value: Option<Seq<char>>, fallback: Seq<char>) -> Seq<char> {
    match value {
        Some(v) if v.len() > 0 => v,
        _ => fallback,
    }
}

/// The port that a variable of the environment gives, where it is set to one
/// that can be bound.
pub open spec fn port_or(value: Option<Seq<char>>, fallback: u16) -> u16 {
    match value {
        Some(v) => match decimal::decimal_value(v) {
            Some(n) if 0 < n <= u16::MAX => n as u16,
            _ => fallback,
        },
        None => fallback,
    }
}

/// The address of a port of a host.
pub open spec fn address(host: Seq<char>, port: u16) -> Seq<char> {
    host + ":"@ + decimal::decimal_text(port as nat)
}

/// The value of a variable of the environment, or `fallback` where it is not set
/// or empty.
pub fn env_or(value: Option<String>, fallback: &str) -> (chosen: String)
    ensures
        chosen@ == value_or(http::optional_text(value), fallback@),
{
    match value {
        Some(v) => if v.as_str().is_empty() {
            fallback.to_owned()
        } else {
            v
        },
        None => fallback.to_owned(),
    }
}

/// The port that a variable of the environment gives, or `fallback` where it
/// gives none.
pub fn env_u16(value: Option<String>, fallback: u16) -> (port: u16)
    ensures
        port == port_or(http::optional_text(value), fallback),
{
    match value {
        Some(v) => match parse_decimal(v.as_str(), u16::MAX as u64) {
            Some(n) => if n > 0 {
                n as u16
            } else {
                fallback
            },
            None => fallback,
        },
        None => fallback,
    }
}

fn socket_address(host: &str, port: u16) -> (text: String)
    ensures
        text@ == address(host@, port),
{
    let mut text = host.to_owned();
    text.append(":");
    push_decimal(&mut text, port as u64);
    text
}

/// The address of the HTTP listener.
pub fn http_address(host: Option<String>, port: Option<String>) -> (text: String)
    ensures
        text@ == address(
            value_or(http::optional_text(host), DEFAULT_HTTP_HOST@),
            port_or(http::optional_text(port), DEFAULT_HTTP_PORT),
        ),
{
    socket_address(env_or(host, DEFAULT_HTTP_HOST).as_str(), env_u16(port, DEFAULT_HTTP_PORT))
}

/// The address of the decrypt listener.
pub fn decrypt_address(host: Option<String>, port: Option<String>) -> (text: String)
    ensures
        text@ == address(
            value_or(http::optional_text(host), DEFAULT_DECRYPT_HOST@),
            port_or(http::optional_text(port), DEFAULT_DECRYPT_PORT),
        ),
{
    socket_address(
        env_or(host, DEFAULT_DECRYPT_HOST).as_str(),
        env_u16(port, DEFAULT_DECRYPT_PORT),
    )
}

/// The daemon never listens on port zero.
pub proof fn ports_are_not_zero(value: Option<Seq<char>>)
    ensures
        port_or(value, DEFAULT_HTTP_PORT) > 0,
        port_or(value, DEFAULT_DECRYPT_PORT) > 0,
{
}

/// A port that is set in decimal is the one that is used.
pub proof fn set_ports_are_used(port: u16, fallback: u16)
    requires
        port > 0,
    ensures
        port_or(Some(decimal::decimal_text(port as nat)), fallback) == port,
{
    decimal::decimal_reads_back(port as nat);
}

} // verus!
