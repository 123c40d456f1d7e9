use std::time::Instant;

use craig::chat::{ChatReply, ChatSource};
use craig::chat_log::{chat_log_from_parts, clamp_latency_ms, elapsed_ms, from_message, from_slash_context, ChatOrigin};
use craig::dispatch::{
    decide_message, decide_unknown_command, fallback_error_text, format_location, guidance,
    guild_allowed, record_exchange, text_to_send, IncomingMessage, MessageAction, PrefixAction,
    FALLBACK_REPLY,
};

fn origin() -> ChatOrigin {
    ChatOrigin {
        user_id: 42,
        username: "ferris".to_string(),
        guild_id: Some(u64::MAX),
        channel_id: 7,
    }
}

fn message(content: &str, mentions: Vec<u64>, guild: Option<u64>) -> IncomingMessage {
    IncomingMessage {
        author_id: 42,
        author_is_bot: false,
        content: content.to_string(),
        mentioned_user_ids: mentions,
        guild_id: guild,
    }
}

const BOT: u64 = 1000;

fn chat_prompt(a: MessageAction) -> Option<String> {
    match a {
        MessageAction::Chat(p) => Some(p),
        _ => None,
    }
}

#[test]
fn latency_is_capped() {
    assert_eq!(clamp_latency_ms(0), 0);
    assert_eq!(clamp_latency_ms(1234), 1234);
    assert_eq!(clamp_latency_ms(i32::MAX as u128), i32::MAX);
    assert_eq!(clamp_latency_ms(i32::MAX as u128 + 1), i32::MAX);
    assert_eq!(clamp_latency_ms(u128::MAX), i32::MAX);
}

#[test]
fn elapsed_is_measured() {
    let started = Instant::now();
    std::hint::black_box(0);
    let ms = elapsed_ms(started);
    assert!(ms >= 0 && ms < 20_000);
}

#[test]
fn log_from_parts() {
    let log = chat_log_from_parts(&origin(), ChatSource::PrefixPrompt, "m", "p", "r", 12, None);
    assert_eq!(log.user_id, 42);
    assert_eq!(log.username, "ferris");
    assert_eq!(log.guild_id, Some(-1));
    assert_eq!(log.channel_id, 7);
    assert_eq!(log.source, "prefix");
    assert_eq!(log.model, "m");
    assert_eq!(log.prompt, "p");
    assert_eq!(log.response, "r");
    assert_eq!(log.latency_ms, 12);
    assert!(log.success);
    assert_eq!(log.error_text, None);
}

#[test]
fn log_failure_is_not_success() {
    let started = Instant::now();
    let log = from_message(&origin(), ChatSource::MentionMessage, "m", "p", "", started, Some("boom".to_string()));
    assert!(!log.success);
    assert_eq!(log.error_text, Some("boom".to_string()));
    assert_eq!(log.source, "mention");
    assert!(log.latency_ms >= 0);
    let log = from_slash_context(&origin(), ChatSource::SlashCommand, "m", "p", "ok", started, None);
    assert!(log.success);
    assert_eq!(log.source, "slash");
    assert_eq!(log.response, "ok");
}

#[test]
fn guild_rules() {
    assert!(guild_allowed(None, &vec![]));
    assert!(guild_allowed(Some(5), &vec![1, 5]));
    assert!(!guild_allowed(Some(6), &vec![1, 5]));
}

#[test]
fn message_mentioning_bot_chats() {
    let m = message("<@1000> tell me a joke", vec![BOT], Some(5));
    assert_eq!(chat_prompt(decide_message(&m, BOT, Some("!"), &vec![5])), Some("tell me a joke".to_string()));
}

#[test]
fn bot_messages_ignored() {
    let mut m = message("<@1000> hi", vec![BOT], None);
    m.author_is_bot = true;
    assert!(matches!(decide_message(&m, BOT, Some("!"), &vec![]), MessageAction::Ignore));
    let mut m = message("<@1000> hi", vec![BOT], None);
    m.author_id = BOT;
    assert!(matches!(decide_message(&m, BOT, Some("!"), &vec![]), MessageAction::Ignore));
}

#[test]
fn prefix_messages_ignored_by_mention_path() {
    let m = message("   !ask <@1000> hi", vec![BOT], None);
    assert!(matches!(decide_message(&m, BOT, Some("!"), &vec![]), MessageAction::Ignore));
    let m = message("<@1000> !ask", vec![BOT], None);
    assert_eq!(chat_prompt(decide_message(&m, BOT, Some("!"), &vec![])), Some("!ask".to_string()));
    let m = message("!ask <@1000> hi", vec![BOT], None);
    assert_eq!(chat_prompt(decide_message(&m, BOT, None, &vec![])), Some("!ask hi".to_string()));
}

#[test]
fn unmentioned_or_empty_ignored() {
    let m = message("hello", vec![7], None);
    assert!(matches!(decide_message(&m, BOT, Some("!"), &vec![]), MessageAction::Ignore));
    let m = message(" <@1000>  ", vec![BOT], None);
    assert!(matches!(decide_message(&m, BOT, Some("!"), &vec![]), MessageAction::Ignore));
}

#[test]
fn unallowed_guild_refused() {
    let m = message("<@1000> hi", vec![BOT], Some(9));
    assert!(matches!(decide_message(&m, BOT, Some("!"), &vec![5]), MessageAction::ReplyUnauthorized));
    let m = message("<@1000> hi", vec![BOT], None);
    assert!(matches!(decide_message(&m, BOT, Some("!"), &vec![5]), MessageAction::Chat(_)));
}

#[test]
fn unknown_command_decisions() {
    assert!(matches!(
        decide_unknown_command(Some("!"), "?", "hi", None, &vec![]),
        PrefixAction::NotOurPrefix
    ));
    assert!(matches!(decide_unknown_command(None, "!", "hi", None, &vec![]), PrefixAction::NotOurPrefix));
    match decide_unknown_command(Some("!"), "!", "   ", Some(1), &vec![1]) {
        PrefixAction::ReplyGuidance(t) => assert_eq!(t, "Type a message after `!` to chat with me."),
        _ => panic!("expected guidance"),
    }
    assert!(matches!(
        decide_unknown_command(Some("!"), "!", "hi", Some(2), &vec![1]),
        PrefixAction::ReplyUnauthorized
    ));
    match decide_unknown_command(Some("!"), "!", "  what now?  ", Some(1), &vec![1]) {
        PrefixAction::Chat(p) => assert_eq!(p, "what now?"),
        _ => panic!("expected chat"),
    }
    match decide_unknown_command(Some("!"), "!", "what now?", None, &vec![]) {
        PrefixAction::Chat(p) => assert_eq!(p, "what now?"),
        _ => panic!("expected chat"),
    }
}

#[test]
fn guidance_text() {
    assert_eq!(guidance("craig "), "Type a message after `craig ` to chat with me.");
}

#[test]
fn locations() {
    assert_eq!(format_location(None, 5), "DMs");
    assert_eq!(format_location(Some(123), 456), "(Guild: 123) | (Channel: 456)");
    assert_eq!(format_location(Some(0), u64::MAX), "(Guild: 0) | (Channel: 18446744073709551615)");
}

#[test]
fn fallback_errors() {
    assert_eq!(fallback_error_text("timeout", None), "timeout");
    assert_eq!(fallback_error_text("timeout", Some("403")), "timeout; fallback_send_failed: 403");
}

#[test]
fn exchange_records() {
    let reply: Result<ChatReply, String> = Ok(ChatReply { model_id: "m1".to_string(), content: "answer".to_string() });
    assert_eq!(text_to_send(&reply), "answer");
    let log = record_exchange(&origin(), ChatSource::MentionMessage, "default", "q", &reply, None, 5);
    assert_eq!(log.model, "m1");
    assert_eq!(log.response, "answer");
    assert!(log.success);
    let log = record_exchange(&origin(), ChatSource::MentionMessage, "default", "q", &reply, Some("send failed".to_string()), 5);
    assert!(!log.success);
    assert_eq!(log.error_text, Some("send failed".to_string()));

    let failed: Result<ChatReply, String> = Err("no model".to_string());
    assert_eq!(text_to_send(&failed), FALLBACK_REPLY);
    let log = record_exchange(&origin(), ChatSource::PrefixPrompt, "default", "q", &failed, Some("403".to_string()), 9);
    assert_eq!(log.model, "default");
    assert_eq!(log.response, "");
    assert!(!log.success);
    assert_eq!(log.error_text, Some("no model; fallback_send_failed: 403".to_string()));
    assert_eq!(log.latency_ms, 9);
}
