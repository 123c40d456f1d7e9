//! The record kept of each chat exchange.
use vstd::prelude::*;

use std::time::Duration;
use std::time::Instant;

use crate::chat::ChatSource;

verus! {

/// `std::time::Instant`, a moment of a monotonic clock.
#[verifier::external_type_specification]
#[verifier::external_body]
pub struct ExInstant(Instant);

/// `Instant::elapsed`: the time passed since `started`. It reads the clock, so nothing
/// is stated of the result.
#[verifier::external_body]
fn instant_elapsed(started: &Instant) -> (d: Duration) {
    started.elapsed()
}

/// `Duration::as_millis`: the whole milliseconds in `d`. `Duration` is opaque here, so
/// the result is left unstated beyond its type.
#[verifier::external_body]
fn duration_as_millis(d: &Duration) -> (ms: u128) {
    d.as_millis()
}

/// Who sent a chat request, and where.
pub struct ChatOrigin {
    pub user_id: u64,
    pub username: String,
    pub guild_id: Option<u64>,
    pub channel_id: u64,
}

/// One chat exchange as it is stored.
pub struct ChatLog {
    pub user_id: i64,
    pub username: String,
    pub guild_id: Option<i64>,
    pub channel_id: i64,
    pub source: &'static str,
    pub model: String,
    pub prompt: String,
    pub response: String,
    pub latency_ms: i32,
    pub success: bool,
    pub error_text: Option<String>,
}

/// An id as it is stored: the same 64 bits read as a signed number.
pub open spec fn stored_id(id: u64) -> i64 {
    id as i64
}

/// A latency in milliseconds as it is stored: capped at `i32::MAX`.
pub open spec fn stored_latency(millis: nat) -> int {
    if millis <= i32::MAX {
        millis as int
    } else {
        i32::MAX as int
    }
}

/// `millis` capped at `i32::MAX`.
pub fn clamp_latency_ms(millis: u128) -> (ms: i32)
    ensures
        ms == stored_latency(millis as nat),
{
    if millis <= i32::MAX as u128 {
        millis as i32
    } else {
        i32::MAX
    }
}

/// The milliseconds passed since `started`, capped at `i32::MAX`.
pub fn elapsed_ms(started: Instant) -> (ms: i32)
    ensures
        0 <= ms,
{
    let d = instant_elapsed(&started);
    clamp_latency_ms(duration_as_millis(&d))
}

/// The record of an exchange, with its latency already measured.
pub open spec fn is_log_of(
    log: ChatLog,
    origin: ChatOrigin,
    source: ChatSource,
    model: Seq<char>,
    prompt: Seq<char>,
    response: Seq<char>,
    error_text: Option<String>,
) -> bool {
    &&& log.user_id == stored_id(origin.user_id)
    &&& log.username@ == origin.username@
    &&& log.guild_id == match origin.guild_id {
        Some(g) => Some(stored_id(g)),
        None => None,
    }
    &&& log.channel_id == stored_id(origin.channel_id)
    &&& log.source@ == source.name()
    &&& log.model@ == model
    &&& log.prompt@ == prompt
    &&& log.response@ == response
    &&& log.success == (error_text is None)
    &&& log.error_text == error_text
}

/// The record of an exchange that took `latency_ms` milliseconds.
pub fn chat_log_from_parts(
    origin: &ChatOrigin,
    source: ChatSource,
    model: &str,
    prompt: &str,
    response: &str,
    latency_ms: i32,
    error_text: Option<String>,
) -> (log: ChatLog)
    ensures
        is_log_of(log, *origin, source, model@, prompt@, response@, error_text),
        log.latency_ms == latency_ms,
{
    let guild_id = match origin.guild_id {
        Some(g) => Some(g as i64),
        None => None,
    };
    let success = error_text.is_none();
    ChatLog {
        user_id: origin.user_id as i64,
        username: origin.username.clone(),
        guild_id,
        channel_id: origin.channel_id as i64,
        source: source.as_str(),
        model: model.to_owned(),
        prompt: prompt.to_owned(),
        response: response.to_owned(),
        latency_ms,
        success,
        error_text,
    }
}

/// The record of an exchange started by a message, timed from `started` until now.
pub fn from_message(
    msg: &ChatOrigin,
    source: ChatSource,
    model: &str,
    prompt: &str,
    response: &str,
    started: Instant,
    error_text: Option<String>,
) -> (log: ChatLog)
    ensures
        is_log_of(log, *msg, source, model@, prompt@, response@, error_text),
        log.latency_ms >= 0,
{
    let latency_ms = elapsed_ms(started);
    chat_log_from_parts(msg, source, model, prompt, response, latency_ms, error_text)
}

/// The record of an exchange started by a slash command, timed from `started` until now.
pub fn from_slash_context(
    ctx: &ChatOrigin,
    source: ChatSource,
    model: &str,
    prompt: &str,
    response: &str,
    started: Instant,
    error_text: Option<String>,
) -> (log: ChatLog)
    ensures
        is_log_of(log, *ctx, source, model@, prompt@, response@, error_text),
        log.latency_ms >= 0,
{
    let latency_ms = elapsed_ms(started);
    chat_log_from_parts(ctx, source, model, prompt, response, latency_ms, error_text)
}

} // verus!
