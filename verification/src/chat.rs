//! Chat messages: where a request came from, how prompts are read out of messages,
//! and how replies are cut to Discord's message size.
use vstd::prelude::*;

use crate::text::{
    all_ws, chars_of, collapse_whitespace, collapse_ws, decimal, decimal_chars, has_ws, is_ws,
    lemma_collapse_keeps_absent, lemma_collapse_keeps_word, lemma_decimal_digits,
    lemma_replace_absent_is_identity, lemma_replace_keeps_absent,
    lemma_replace_removes, occurs, push_char, replace_all, replace_chars, string_of, trim,
    trim_bounds,
};

verus! {

/// The most characters Discord accepts in one message.
pub const DISCORD_MESSAGE_CHAR_LIMIT: usize = 2000;

/// How a chat request reached the bot.
#[derive(Debug, Clone, Copy, PartialEq, Eq, Structural)]
pub enum ChatSource {
    SlashCommand,
    PrefixPrompt,
    MentionMessage,
}

impl ChatSource {
    /// The name under which the source is logged.
    pub open spec fn name(self) -> Seq<char> {
        match self {
            ChatSource::SlashCommand => "slash"@,
            ChatSource::PrefixPrompt => "prefix"@,
            ChatSource::MentionMessage => "mention"@,
        }
    }

    /// The name under which the source is logged.
    pub fn as_str(self) -> (s: &'static str)
        ensures
            s@ == self.name(),
    {
        match self {
            ChatSource::SlashCommand => "slash",
            ChatSource::PrefixPrompt => "prefix",
            ChatSource::MentionMessage => "mention",
        }
    }
}

/// Different sources are logged under different names.
pub proof fn lemma_source_names_distinct(a: ChatSource, b: ChatSource)
    requires
        a != b,
    ensures
        a.name() != b.name(),
{
    reveal_strlit("slash");
    reveal_strlit("prefix");
    reveal_strlit("mention");
    if a.name() == b.name() {
        assert(a.name().len() == b.name().len());
        assert(a.name()[0] == b.name()[0]);
    }
}

/// A reply of the AI model and the model that gave it.
pub struct ChatReply {
    pub model_id: String,
    pub content: String,
}

/// Which mentions in a sent message may notify their targets.
#[derive(Debug, Clone, Copy, PartialEq, Eq, Structural)]
pub struct AllowedMentions {
    pub all_users: bool,
    pub all_roles: bool,
    pub everyone: bool,
    pub replied_user: bool,
}

/// Mentions that notify nobody: no user, no role, no `@everyone`, not even the replied-to user.
pub fn no_ping_allowed_mentions() -> (m: AllowedMentions)
    ensures
        !m.all_users && !m.all_roles && !m.everyone && !m.replied_user,
{
    AllowedMentions { all_users: false, all_roles: false, everyone: false, replied_user: false }
}

/// The model that answers: the one asked for, else the default.
pub open spec fn reply_model_spec(requested: Option<Seq<char>>, default_model: Seq<char>) -> Seq<
    char,
> {
    match requested {
        Some(m) => m,
        None => default_model,
    }
}

/// The model that answers a chat request: the one asked for, else the default.
pub fn reply_model(requested: Option<&str>, default_model: &str) -> (m: String)
    ensures
        m@ == reply_model_spec(
            match requested {
                Some(r) => Some(r@),
                None => None,
            },
            default_model@,
        ),
{
    match requested {
        Some(r) => r.to_owned(),
        None => default_model.to_owned(),
    }
}

/// The prompt of a prefix message: its content without surrounding whitespace,
/// or `None` when nothing else is left.
pub fn normalize_prefix_prompt(content: &str) -> (r: Option<&str>)
    ensures
        r is Some <==> trim(content@).len() > 0,
        r matches Some(p) ==> p@ == trim(content@),
{
    let cs = chars_of(content);
    let (start, end) = trim_bounds(&cs);
    if start == end {
        None
    } else {
        Some(content.substring_char(start, end))
    }
}

/// `<@ID>`, the mention of user `id`.
pub open spec fn user_mention(id: u64) -> Seq<char> {
    seq!['<', '@'] + decimal(id as nat) + seq!['>']
}

/// `<@!ID>`, the nickname mention of user `id`.
pub open spec fn nickname_mention(id: u64) -> Seq<char> {
    seq!['<', '@', '!'] + decimal(id as nat) + seq!['>']
}

/// The prompt of a message that mentions the bot: both forms of the bot's mention
/// replaced by a space, then whitespace runs collapsed to single spaces and trimmed.
pub open spec fn mention_prompt(content: Seq<char>, bot_id: u64) -> Seq<char> {
    collapse_ws(
        replace_all(
            replace_all(content, user_mention(bot_id), seq![' ']),
            nickname_mention(bot_id),
            seq![' '],
        ),
    )
}

fn mention_token(bot_id: u64, nickname: bool) -> (t: Vec<char>)
    ensures
        t@ == if nickname {
            nickname_mention(bot_id)
        } else {
            user_mention(bot_id)
        },
{
    let mut t: Vec<char> = Vec::new();
    t.push('<');
    t.push('@');
    if nickname {
        t.push('!');
    }
    let digits = decimal_chars(bot_id as u128);
    crate::text::append_chars(&mut t, &digits);
    t.push('>');
    t
}

/// The prompt of a message that mentions the bot with id `bot_id`: the mentions of
/// the bot taken out and whitespace collapsed, or `None` when nothing is left.
pub fn extract_mention_prompt(content: &str, bot_id: u64) -> (r: Option<String>)
    ensures
        r is Some <==> mention_prompt(content@, bot_id).len() > 0,
        r matches Some(p) ==> p@ == mention_prompt(content@, bot_id),
{
    let cs = chars_of(content);
    let mut space: Vec<char> = Vec::new();
    space.push(' ');
    let plain = mention_token(bot_id, false);
    let nick = mention_token(bot_id, true);
    let once = replace_chars(&cs, &plain, &space);
    let twice = replace_chars(&once, &nick, &space);
    let prompt = collapse_whitespace(&twice);
    if prompt.len() == 0 {
        None
    } else {
        Some(string_of(&prompt))
    }
}

/// How many pieces of at most 2000 characters a text of `n` characters is cut into.
pub open spec fn chunk_count(n: nat) -> nat {
    if n == 0 {
        0
    } else {
        ((n - 1) / 2000 + 1) as nat
    }
}

/// Where piece `k` of a text of `n` characters ends.
pub open spec fn chunk_end(k: int, n: int) -> int {
    if (k + 1) * 2000 <= n {
        (k + 1) * 2000
    } else {
        n
    }
}

/// `s` cut into consecutive pieces of 2000 characters, the last one possibly shorter.
pub open spec fn chunks_of(s: Seq<char>) -> Seq<Seq<char>> {
    Seq::new(chunk_count(s.len()), |k: int| s.subrange(k * 2000, chunk_end(k, s.len() as int)))
}

/// The messages that carry `s`: its pieces of 2000 characters, or a single space
/// when `s` is empty.
pub open spec fn discord_chunks(s: Seq<char>) -> Seq<Seq<char>> {
    if s.len() == 0 {
        seq![seq![' ']]
    } else {
        chunks_of(s)
    }
}

/// `content` cut into messages of at most 2000 characters (a lone space for an empty text).
pub fn split_for_discord(content: &str) -> (chunks: Vec<String>)
    ensures
        chunks@.map_values(|c: String| c@) == discord_chunks(content@),
{
    let cs = chars_of(content);
    let n = cs.len();
    let mut chunks: Vec<String> = Vec::new();
    if n == 0 {
        let mut blank = String::new();
        push_char(&mut blank, ' ');
        chunks.push(blank);
        assert(chunks@.map_values(|c: String| c@) =~= discord_chunks(content@));
        return chunks;
    }
    let mut current = String::new();
    let mut len: usize = 0;
    let mut i: usize = 0;
    while i < n
        invariant
            n == cs.len(),
            cs@ == content@,
            i <= n,
            len == current@.len(),
            len <= 2000,
            i > 0 ==> len >= 1,
            chunks.len() * 2000 + len == i,
            current@ == cs@.subrange(chunks.len() * 2000, i as int),
            forall|k: int|
                0 <= k < chunks.len() ==> (#[trigger] chunks@[k])@ == cs@.subrange(
                    k * 2000,
                    (k + 1) * 2000,
                ),
        decreases n - i,
    {
        if len == DISCORD_MESSAGE_CHAR_LIMIT {
            chunks.push(current);
            current = String::new();
            len = 0;
        }
        push_char(&mut current, cs[i]);
        assert(current@ == cs@.subrange(chunks.len() * 2000, i + 1));
        len += 1;
        i += 1;
    }
    let ghost full = chunks.len();
    if len > 0 {
        chunks.push(current);
    }
    assert(chunks.len() == chunk_count(n as nat)) by {
        assert((n - 1) / 2000 == full) by (nonlinear_arith)
            requires
                full * 2000 + len == n,
                1 <= len <= 2000,
        ;
    }
    assert forall|k: int| 0 <= k < chunks.len() implies #[trigger] chunks@[k]@ == chunks_of(
        content@,
    )[k] by {
        if k < full {
            assert(chunk_end(k, n as int) == (k + 1) * 2000);
        } else {
            assert(chunk_end(k, n as int) == n);
        }
    }
    assert(chunks@.map_values(|c: String| c@) =~= discord_chunks(content@));
    chunks
}

/// Every message that carries a text holds between 1 and 2000 characters, and every
/// message but the last holds exactly 2000.
pub proof fn lemma_discord_chunks_sizes(s: Seq<char>)
    ensures
        forall|k: int|
            0 <= k < discord_chunks(s).len() ==> 1 <= (#[trigger] discord_chunks(s)[k]).len()
                <= 2000,
        forall|k: int|
            0 <= k < discord_chunks(s).len() - 1 ==> (#[trigger] discord_chunks(s)[k]).len()
                == 2000,
        discord_chunks(s).len() >= 1,
{
    let n = s.len();
    if n > 0 {
        let c = discord_chunks(s);
        assert forall|k: int| 0 <= k < c.len() implies 1 <= (#[trigger] c[k]).len() <= 2000 by {
            assert(k * 2000 <= n - 1) by (nonlinear_arith)
                requires
                    0 <= k < (n - 1) / 2000 + 1,
                    n >= 1,
            ;
        }
        assert forall|k: int| 0 <= k < c.len() - 1 implies (#[trigger] c[k]).len() == 2000 by {
            assert((k + 1) * 2000 <= n - 1) by (nonlinear_arith)
                requires
                    0 <= k + 1 < (n - 1) / 2000 + 1,
                    n >= 1,
            ;
        }
    }
}

proof fn lemma_chunks_of_rest(s: Seq<char>)
    requires
        s.len() > 2000,
    ensures
        chunks_of(s).drop_first() == chunks_of(s.skip(2000)),
        chunks_of(s)[0] == s.take(2000),
{
    let n = s.len() as int;
    assert(chunk_count((n - 2000) as nat) + 1 == chunk_count(n as nat)) by {
        assert((n - 2001) / 2000 + 1 == (n - 1) / 2000) by (nonlinear_arith)
            requires
                n > 2000,
        ;
    }
    let a = chunks_of(s).drop_first();
    let b = chunks_of(s.skip(2000));
    assert forall|k: int| 0 <= k < a.len() implies #[trigger] a[k] == b[k] by {
        assert(chunk_end(k + 1, n) == 2000 + chunk_end(k, n - 2000));
        assert(a[k] =~= b[k]);
    }
    assert(a =~= b);
}

/// The messages that carry a non-empty text, put back together, give the text.
pub proof fn lemma_discord_chunks_cover(s: Seq<char>)
    requires
        s.len() > 0,
    ensures
        discord_chunks(s).flatten() == s,
    decreases s.len(),
{
    let c = chunks_of(s);
    if s.len() <= 2000 {
        assert(chunk_count(s.len()) == 1);
        assert(c[0] =~= s);
        assert(c.drop_first() =~= Seq::<Seq<char>>::empty());
        assert(c.flatten() == c[0] + c.drop_first().flatten());
        assert(c.drop_first().flatten() =~= Seq::<char>::empty());
    } else {
        lemma_chunks_of_rest(s);
        lemma_discord_chunks_cover(s.skip(2000));
        assert(c.flatten() == c[0] + c.drop_first().flatten());
        assert(s =~= s.take(2000) + s.skip(2000));
    }
}

/// One message to send as (part of) a reply.
pub struct OutgoingMessage {
    pub content: String,
    pub reply_to_source: bool,
    pub allowed_mentions: AllowedMentions,
}

/// The messages that carry the reply `content`: its pieces in order, the first one sent
/// as a reply to the request, none of them notifying anybody.
pub fn plan_reply(content: &str) -> (plan: Vec<OutgoingMessage>)
    ensures
        plan.len() == discord_chunks(content@).len(),
        forall|k: int|
            0 <= k < plan.len() ==> {
                &&& (#[trigger] plan[k]).content@ == discord_chunks(content@)[k]
                &&& plan[k].reply_to_source == (k == 0)
                &&& !plan[k].allowed_mentions.all_users && !plan[k].allowed_mentions.all_roles
                &&& !plan[k].allowed_mentions.everyone && !plan[k].allowed_mentions.replied_user
            },
{
    let chunks = split_for_discord(content);
    let ghost views = chunks@.map_values(|c: String| c@);
    let mut plan: Vec<OutgoingMessage> = Vec::new();
    let n = chunks.len();
    let mut index: usize = 0;
    while index < n
        invariant
            n == chunks.len(),
            views == chunks@.map_values(|c: String| c@),
            plan.len() == index,
            index <= n,
            forall|k: int|
                0 <= k < plan.len() ==> {
                    &&& (#[trigger] plan[k]).content@ == views[k]
                    &&& plan[k].reply_to_source == (k == 0)
                    &&& !plan[k].allowed_mentions.all_users
                    &&& !plan[k].allowed_mentions.all_roles
                    &&& !plan[k].allowed_mentions.everyone
                    &&& !plan[k].allowed_mentions.replied_user
                },
        decreases n - index,
    {
        let chunk = chunks[index].clone();
        plan.push(
            OutgoingMessage {
                content: chunk,
                reply_to_source: index == 0,
                allowed_mentions: no_ping_allowed_mentions(),
            },
        );
        index += 1;
    }
    plan
}

proof fn lemma_mentions_have_no_ws(id: u64)
    ensures
        user_mention(id).len() > 0,
        nickname_mention(id).len() > 0,
        !has_ws(user_mention(id)),
        !has_ws(nickname_mention(id)),
{
    let d = decimal(id as nat);
    lemma_decimal_digits(id as nat);
    let u = user_mention(id);
    let k = nickname_mention(id);
    assert forall|i: int| 0 <= i < u.len() implies !is_ws(#[trigger] u[i]) by {
        if 2 <= i < 2 + d.len() {
            assert(u[i] == d[i - 2]);
        }
    }
    assert forall|i: int| 0 <= i < k.len() implies !is_ws(#[trigger] k[i]) by {
        if 3 <= i < 3 + d.len() {
            assert(k[i] == d[i - 3]);
        }
    }
}

/// The prompt read out of a message holds no mention of the bot, in either form.
pub proof fn lemma_mention_prompt_has_no_mention(content: Seq<char>, bot_id: u64)
    ensures
        !occurs(mention_prompt(content, bot_id), user_mention(bot_id)),
        !occurs(mention_prompt(content, bot_id), nickname_mention(bot_id)),
{
    let u = user_mention(bot_id);
    let k = nickname_mention(bot_id);
    let sp = seq![' '];
    assert(all_ws(sp));
    lemma_mentions_have_no_ws(bot_id);
    let once = replace_all(content, u, sp);
    let twice = replace_all(once, k, sp);
    lemma_replace_removes(content, u, sp);
    lemma_replace_keeps_absent(once, k, sp, u);
    lemma_replace_removes(once, k, sp);
    lemma_collapse_keeps_absent(twice, u);
    lemma_collapse_keeps_absent(twice, k);
}

/// A non-empty message text without whitespace and without a mention of the bot is the
/// prompt itself, every character kept (letters of any script included).
pub proof fn lemma_mention_prompt_keeps_plain_text(content: Seq<char>, bot_id: u64)
    requires
        content.len() > 0,
        !has_ws(content),
        !occurs(content, user_mention(bot_id)),
        !occurs(content, nickname_mention(bot_id)),
    ensures
        mention_prompt(content, bot_id) == content,
{
    lemma_mentions_have_no_ws(bot_id);
    lemma_replace_absent_is_identity(content, user_mention(bot_id), seq![' ']);
    lemma_replace_absent_is_identity(content, nickname_mention(bot_id), seq![' ']);
    lemma_collapse_keeps_word(content);
}

/// No CJK ideograph (U+4E00 to U+9FFF) is whitespace, so such characters are kept in a prompt.
pub proof fn lemma_ideographs_are_not_whitespace(c: char)
    requires
        0x4e00 <= (c as u32) <= 0x9fff,
    ensures
        !is_ws(c),
{
    crate::text::lemma_white_space_code_points(c);
}

} // verus!

