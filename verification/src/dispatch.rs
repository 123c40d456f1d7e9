//! What the bot does with incoming messages and with prefix messages that name no command.
use vstd::prelude::*;

use crate::chat::{extract_mention_prompt, mention_prompt, normalize_prefix_prompt, ChatReply};
use crate::chat_log::{chat_log_from_parts, is_log_of, ChatLog, ChatOrigin};
use crate::chat::ChatSource;
use crate::text::{
    chars_of, decimal, decimal_chars, has_prefix, is_collapsed, lemma_collapse_ws_is_collapsed,
    lemma_trim_idempotent, lemma_trim_shape, same_chars, starts_with, string_of, trim,
    trim_start, trim_start_index,
};

verus! {

/// The answer to a request from a server where the bot may not be used.
pub const UNAUTHORIZED_REPLY: &'static str = "This server is not allowed to use this bot.";

/// The answer sent when the AI model could not produce a reply.
pub const FALLBACK_REPLY: &'static str = "I couldn't process that right now. Please try again in a moment.";

/// A message seen by the bot.
pub struct IncomingMessage {
    pub author_id: u64,
    pub author_is_bot: bool,
    pub content: String,
    pub mentioned_user_ids: Vec<u64>,
    pub guild_id: Option<u64>,
}

/// What to do with a message.
pub enum MessageAction {
    Ignore,
    ReplyUnauthorized,
    Chat(String),
}

/// What to do with a message, over the views of its parts.
pub enum MessageDecision {
    Ignore,
    ReplyUnauthorized,
    Chat(Seq<char>),
}

impl View for MessageAction {
    type V = MessageDecision;

    open spec fn view(&self) -> MessageDecision {
        match self {
            MessageAction::Ignore => MessageDecision::Ignore,
            MessageAction::ReplyUnauthorized => MessageDecision::ReplyUnauthorized,
            MessageAction::Chat(p) => MessageDecision::Chat(p@),
        }
    }
}

/// Whether a request from `guild` (`None`: a direct message) may be served.
pub open spec fn guild_allowed_spec(guild: Option<u64>, allowed: Seq<u64>) -> bool {
    match guild {
        Some(g) => allowed.contains(g),
        None => true,
    }
}

/// Whether `v` holds `x`.
pub fn contains_id(v: &Vec<u64>, x: u64) -> (r: bool)
    ensures
        r == v@.contains(x),
{
    let n = v.len();
    let mut i: usize = 0;
    while i < n
        invariant
            n == v.len(),
            i <= n,
            forall|j: int| 0 <= j < i ==> v@[j] != x,
        decreases n - i,
    {
        if v[i] == x {
            assert(v@[i as int] == x);
            return true;
        }
        i += 1;
    }
    false
}

/// Whether a request from `guild` (`None`: a direct message) may be served.
pub fn guild_allowed(guild: Option<u64>, allowed_guilds: &Vec<u64>) -> (r: bool)
    ensures
        r == guild_allowed_spec(guild, allowed_guilds@),
        guild is None ==> r,
        guild matches Some(g) ==> (r <==> exists|i: int|
            0 <= i < allowed_guilds@.len() && allowed_guilds@[i] == g),
{
    match guild {
        Some(g) => contains_id(allowed_guilds, g),
        None => true,
    }
}

/// The view of an optional string.
pub open spec fn opt_view(s: Option<&str>) -> Option<Seq<char>> {
    match s {
        Some(p) => Some(p@),
        None => None,
    }
}

/// What to do with a message seen by the bot with id `bot_id`: ignore messages of bots
/// and of itself, messages that begin (after leading whitespace) with the command prefix,
/// messages that do not mention it and those with nothing but the mention; answer a
/// request from a server that is not allowed with the refusal; chat on the rest.
pub open spec fn message_decision(
    msg: IncomingMessage,
    bot_id: u64,
    prefix: Option<Seq<char>>,
    allowed: Seq<u64>,
) -> MessageDecision {
    let prompt = mention_prompt(msg.content@, bot_id);
    if msg.author_is_bot || msg.author_id == bot_id {
        MessageDecision::Ignore
    } else if prefix is Some && starts_with(trim_start(msg.content@), prefix->0) {
        MessageDecision::Ignore
    } else if !msg.mentioned_user_ids@.contains(bot_id) {
        MessageDecision::Ignore
    } else if prompt.len() == 0 {
        MessageDecision::Ignore
    } else if !guild_allowed_spec(msg.guild_id, allowed) {
        MessageDecision::ReplyUnauthorized
    } else {
        MessageDecision::Chat(prompt)
    }
}

/// What to do with a message seen by the bot with id `bot_id`, whose command prefix is
/// `prefix`, in the servers `allowed_guilds`.
pub fn decide_message(
    msg: &IncomingMessage,
    bot_id: u64,
    prefix: Option<&str>,
    allowed_guilds: &Vec<u64>,
) -> (a: MessageAction)
    ensures
        a@ == message_decision(*msg, bot_id, opt_view(prefix), allowed_guilds@),
        !msg.mentioned_user_ids@.contains(bot_id) ==> a is Ignore,
        a is ReplyUnauthorized ==> msg.mentioned_user_ids@.contains(bot_id) && (msg.guild_id matches Some(
            g,
        ) && !allowed_guilds@.contains(g)),
        a is Chat ==> msg.mentioned_user_ids@.contains(bot_id) && (msg.guild_id matches Some(g)
            ==> allowed_guilds@.contains(g)),
{
    if msg.author_is_bot || msg.author_id == bot_id {
        return MessageAction::Ignore;
    }
    if let Some(p) = prefix {
        let content = chars_of(msg.content.as_str());
        let start = trim_start_index(&content);
        let rest = slice_from(&content, start);
        if has_prefix(&rest, &chars_of(p)) {
            return MessageAction::Ignore;
        }
    }
    if !contains_id(&msg.mentioned_user_ids, bot_id) {
        return MessageAction::Ignore;
    }
    let prompt = match extract_mention_prompt(msg.content.as_str(), bot_id) {
        Some(p) => p,
        None => {
            return MessageAction::Ignore;
        },
    };
    if !guild_allowed(msg.guild_id, allowed_guilds) {
        return MessageAction::ReplyUnauthorized;
    }
    MessageAction::Chat(prompt)
}

/// The characters of `v` from index `start` on.
fn slice_from(v: &Vec<char>, start: usize) -> (r: Vec<char>)
    requires
        start <= v.len(),
    ensures
        r@ == v@.skip(start as int),
{
    let mut r: Vec<char> = Vec::new();
    let n = v.len();
    let mut i = start;
    while i < n
        invariant
            n == v.len(),
            start <= i <= n,
            r@ == v@.subrange(start as int, i as int),
        decreases n - i,
    {
        r.push(v[i]);
        assert(v@.subrange(start as int, i + 1) == v@.subrange(start as int, i as int).push(
            v@[i as int],
        ));
        i += 1;
    }
    assert(v@.skip(start as int) == v@.subrange(start as int, n as int));
    r
}

/// What to do with a prefix message whose command name is unknown.
pub enum PrefixAction {
    NotOurPrefix,
    ReplyGuidance(String),
    ReplyUnauthorized,
    Chat(String),
}

/// What to do with a prefix message whose command name is unknown, over views.
pub enum PrefixDecision {
    NotOurPrefix,
    ReplyGuidance(Seq<char>),
    ReplyUnauthorized,
    Chat(Seq<char>),
}

impl View for PrefixAction {
    type V = PrefixDecision;

    open spec fn view(&self) -> PrefixDecision {
        match self {
            PrefixAction::NotOurPrefix => PrefixDecision::NotOurPrefix,
            PrefixAction::ReplyGuidance(t) => PrefixDecision::ReplyGuidance(t@),
            PrefixAction::ReplyUnauthorized => PrefixDecision::ReplyUnauthorized,
            PrefixAction::Chat(p) => PrefixDecision::Chat(p@),
        }
    }
}

/// The hint sent for a prefix with nothing after it.
pub open spec fn guidance_text(prefix: Seq<char>) -> Seq<char> {
    "Type a message after `"@ + prefix + "` to chat with me."@
}

/// What to do with a message that begins with `prefix` and names no known command: a
/// prefix other than the configured one is only noted; with nothing after the prefix the
/// user gets a hint; a request from a server that is not allowed gets the refusal; the
/// rest, without surrounding whitespace, is a chat prompt.
pub open spec fn prefix_decision(
    configured_prefix: Option<Seq<char>>,
    prefix: Seq<char>,
    content: Seq<char>,
    guild: Option<u64>,
    allowed: Seq<u64>,
) -> PrefixDecision {
    if configured_prefix != Some(prefix) {
        PrefixDecision::NotOurPrefix
    } else if trim(content).len() == 0 {
        PrefixDecision::ReplyGuidance(guidance_text(prefix))
    } else if !guild_allowed_spec(guild, allowed) {
        PrefixDecision::ReplyUnauthorized
    } else {
        PrefixDecision::Chat(trim(content))
    }
}

/// The hint sent for a prefix with nothing after it.
pub fn guidance(prefix: &str) -> (t: String)
    ensures
        t@ == guidance_text(prefix@),
{
    let mut t = "Type a message after `".to_owned();
    t.append(prefix);
    t.append("` to chat with me.");
    t
}

/// What to do with a message that begins with `prefix`, whose text after the prefix is
/// `msg_content`, and that names no known command.
pub fn decide_unknown_command(
    configured_prefix: Option<&str>,
    prefix: &str,
    msg_content: &str,
    guild_id: Option<u64>,
    allowed_guilds: &Vec<u64>,
) -> (a: PrefixAction)
    ensures
        a@ == prefix_decision(
            opt_view(configured_prefix),
            prefix@,
            msg_content@,
            guild_id,
            allowed_guilds@,
        ),
{
    let ours = match configured_prefix {
        Some(c) => same_chars(&chars_of(c), &chars_of(prefix)),
        None => false,
    };
    if !ours {
        return PrefixAction::NotOurPrefix;
    }
    let prompt = match normalize_prefix_prompt(msg_content) {
        Some(p) => p,
        None => {
            return PrefixAction::ReplyGuidance(guidance(prefix));
        },
    };
    if !guild_allowed(guild_id, allowed_guilds) {
        return PrefixAction::ReplyUnauthorized;
    }
    PrefixAction::Chat(prompt.to_owned())
}

/// Where a request was made, as it is written in the logs.
pub open spec fn location_text(guild: Option<u64>, channel: u64) -> Seq<char> {
    match guild {
        Some(g) => "(Guild: "@ + decimal(g as nat) + ") | (Channel: "@ + decimal(channel as nat)
            + ")"@,
        None => "DMs"@,
    }
}

/// Where a request was made, as it is written in the logs.
pub fn format_location(guild_id: Option<u64>, channel_id: u64) -> (t: String)
    ensures
        t@ == location_text(guild_id, channel_id),
{
    match guild_id {
        Some(g) => {
            let mut t = "(Guild: ".to_owned();
            t.append(string_of(&decimal_chars(g as u128)).as_str());
            t.append(") | (Channel: ");
            t.append(string_of(&decimal_chars(channel_id as u128)).as_str());
            t.append(")");
            t
        },
        None => "DMs".to_owned(),
    }
}

/// The error recorded when the AI model failed: its error, and the error of sending the
/// fallback answer when that failed too.
pub open spec fn fallback_error_spec(error: Seq<char>, send_error: Option<Seq<char>>) -> Seq<
    char,
> {
    match send_error {
        Some(e) => error + "; fallback_send_failed: "@ + e,
        None => error,
    }
}

/// The error recorded when the AI model failed: its error, and the error of sending the
/// fallback answer when that failed too.
pub fn fallback_error_text(error: &str, send_error: Option<&str>) -> (t: String)
    ensures
        t@ == fallback_error_spec(error@, opt_view(send_error)),
{
    let mut t = error.to_owned();
    if let Some(e) = send_error {
        t.append("; fallback_send_failed: ");
        t.append(e);
    }
    t
}

/// The text sent back for a chat request: the reply of the model, or the fallback answer.
pub fn text_to_send(generated: &Result<ChatReply, String>) -> (t: &str)
    ensures
        t@ == match generated {
            Ok(reply) => reply.content@,
            Err(_) => FALLBACK_REPLY@,
        },
{
    match generated {
        Ok(reply) => reply.content.as_str(),
        Err(_) => FALLBACK_REPLY,
    }
}

/// The record of a chat exchange: for a reply, the model that gave it and its text, with
/// the sending error if there was one; for a failure, `model` and an empty response, with
/// the failure (and the error of the fallback answer, if that failed too).
pub fn record_exchange(
    origin: &ChatOrigin,
    source: ChatSource,
    model: &str,
    prompt: &str,
    generated: &Result<ChatReply, String>,
    send_error: Option<String>,
    latency_ms: i32,
) -> (log: ChatLog)
    ensures
        log.latency_ms == latency_ms,
        match generated {
            Ok(reply) => is_log_of(
                log,
                *origin,
                source,
                reply.model_id@,
                prompt@,
                reply.content@,
                send_error,
            ),
            Err(e) => {
                &&& is_log_of(log, *origin, source, model@, prompt@, Seq::empty(), log.error_text)
                &&& (log.error_text matches Some(t) && t@ == fallback_error_spec(
                    e@,
                    match send_error {
                        Some(s) => Some(s@),
                        None => None,
                    },
                ))
            },
        },
{
    match generated {
        Ok(reply) => chat_log_from_parts(
            origin,
            source,
            reply.model_id.as_str(),
            prompt,
            reply.content.as_str(),
            latency_ms,
            send_error,
        ),
        Err(e) => {
            let text = match &send_error {
                Some(s) => fallback_error_text(e.as_str(), Some(s.as_str())),
                None => fallback_error_text(e.as_str(), None),
            };
            proof {
                reveal_strlit("");
                assert(""@ =~= Seq::<char>::empty());
            }
            chat_log_from_parts(origin, source, model, prompt, "", latency_ms, Some(text))
        },
    }
}

/// A request from a server that is not allowed is never chatted on, whether it comes as
/// a mention or as a prefix message.
pub proof fn lemma_unallowed_guild_never_chats(
    msg: IncomingMessage,
    bot_id: u64,
    configured_prefix: Option<Seq<char>>,
    prefix: Seq<char>,
    allowed: Seq<u64>,
)
    requires
        !guild_allowed_spec(msg.guild_id, allowed),
    ensures
        !(message_decision(msg, bot_id, configured_prefix, allowed) is Chat),
        !(prefix_decision(configured_prefix, prefix, msg.content@, msg.guild_id, allowed) is Chat),
{
}

/// Direct messages are never refused: a message without a server is never answered with
/// the refusal.
pub proof fn lemma_direct_messages_never_refused(
    msg: IncomingMessage,
    bot_id: u64,
    configured_prefix: Option<Seq<char>>,
    prefix: Seq<char>,
    allowed: Seq<u64>,
)
    requires
        msg.guild_id is None,
    ensures
        !(message_decision(msg, bot_id, configured_prefix, allowed) is ReplyUnauthorized),
        !(prefix_decision(configured_prefix, prefix, msg.content@, msg.guild_id, allowed) is ReplyUnauthorized),
{
}

/// The bot never answers a bot, itself included.
pub proof fn lemma_bots_ignored(
    msg: IncomingMessage,
    bot_id: u64,
    prefix: Option<Seq<char>>,
    allowed: Seq<u64>,
)
    requires
        msg.author_is_bot || msg.author_id == bot_id,
    ensures
        message_decision(msg, bot_id, prefix, allowed) is Ignore,
{
}

/// A message that begins with the configured prefix is left to the prefix path: the
/// mention path never answers it, so no message is answered twice.
pub proof fn lemma_prefix_messages_left_to_commands(
    msg: IncomingMessage,
    bot_id: u64,
    prefix: Seq<char>,
    allowed: Seq<u64>,
)
    requires
        starts_with(trim_start(msg.content@), prefix),
    ensures
        message_decision(msg, bot_id, Some(prefix), allowed) is Ignore,
{
}

/// A prompt handed to the model from a mention is non-empty and in collapsed form: no
/// whitespace at either end, and words separated by single spaces.
pub proof fn lemma_mention_prompt_collapsed(
    msg: IncomingMessage,
    bot_id: u64,
    prefix: Option<Seq<char>>,
    allowed: Seq<u64>,
)
    ensures
        message_decision(msg, bot_id, prefix, allowed) matches MessageDecision::Chat(p) ==> p.len()
            > 0 && is_collapsed(p),
{
    lemma_collapse_ws_is_collapsed(
        crate::text::replace_all(
            crate::text::replace_all(msg.content@, crate::chat::user_mention(bot_id), seq![' ']),
            crate::chat::nickname_mention(bot_id),
            seq![' '],
        ),
    );
}

/// A prompt handed to the model from a prefix message is non-empty and has no whitespace
/// at either end, so reading it again as a prefix prompt gives it back unchanged.
pub proof fn lemma_prefix_prompt_trimmed(
    configured_prefix: Option<Seq<char>>,
    prefix: Seq<char>,
    content: Seq<char>,
    guild: Option<u64>,
    allowed: Seq<u64>,
)
    ensures
        prefix_decision(configured_prefix, prefix, content, guild, allowed) matches PrefixDecision::Chat(p)
            ==> {
            &&& p.len() > 0
            &&& !crate::text::is_ws(p[0])
            &&& !crate::text::is_ws(p.last())
            &&& trim(p) == p
        },
{
    lemma_trim_shape(content);
    lemma_trim_idempotent(content);
}

/// A prompt handed to the model from a mention holds no mention of the bot, in either form.
pub proof fn lemma_mention_chat_prompt_without_bot_mention(
    msg: IncomingMessage,
    bot_id: u64,
    prefix: Option<Seq<char>>,
    allowed: Seq<u64>,
)
    ensures
        message_decision(msg, bot_id, prefix, allowed) matches MessageDecision::Chat(p) ==> {
            &&& !crate::text::occurs(p, crate::chat::user_mention(bot_id))
            &&& !crate::text::occurs(p, crate::chat::nickname_mention(bot_id))
        },
{
    crate::chat::lemma_mention_prompt_has_no_mention(msg.content@, bot_id);
}

/// A message that does not mention the bot is ignored, whatever server it comes from;
/// the bot answers (with a chat or with the refusal) only messages that mention it, are
/// not from a bot, and leave a non-empty prompt once its mentions are taken out.
pub proof fn lemma_only_mentions_answered(
    msg: IncomingMessage,
    bot_id: u64,
    prefix: Option<Seq<char>>,
    allowed: Seq<u64>,
)
    ensures
        !msg.mentioned_user_ids@.contains(bot_id) ==> message_decision(
            msg,
            bot_id,
            prefix,
            allowed,
        ) is Ignore,
        !(message_decision(msg, bot_id, prefix, allowed) is Ignore) ==> {
            &&& msg.mentioned_user_ids@.contains(bot_id)
            &&& !msg.author_is_bot
            &&& msg.author_id != bot_id
            &&& mention_prompt(msg.content@, bot_id).len() > 0
        },
        message_decision(msg, bot_id, prefix, allowed) is ReplyUnauthorized ==> (msg.guild_id matches Some(
            g,
        ) && !allowed.contains(g)),
{
}

/// A server is allowed exactly when it is on the list, wherever it stands there; a direct
/// message is always allowed.
pub proof fn lemma_guild_allowed_membership(guild: Option<u64>, allowed: Seq<u64>)
    ensures
        guild is None ==> guild_allowed_spec(guild, allowed),
        forall|i: int| 0 <= i < allowed.len() ==> guild_allowed_spec(Some(#[trigger] allowed[i]), allowed),
        guild matches Some(g) ==> (guild_allowed_spec(guild, allowed) <==> exists|i: int|
            0 <= i < allowed.len() && allowed[i] == g),
{
    assert forall|i: int| 0 <= i < allowed.len() implies guild_allowed_spec(Some(#[trigger] allowed[i]), allowed) by {
        assert(allowed.contains(allowed[i]));
    }
}

} // verus!

