//! The replies of the bot's commands and who may run the owner-only ones.
use vstd::prelude::*;

use crate::dispatch::contains_id;
use crate::text::{decimal, decimal_chars, string_of};

verus! {

/// The answer to a user who is not an owner of the bot.
pub const OWNER_ONLY_REPLY: &'static str = "Only the bot owner can use this command.";

/// Where command changes apply.
#[derive(Debug, Clone, Copy, PartialEq, Eq, Structural)]
pub enum SyncScope {
    Guild,
    Global,
}

impl SyncScope {
    /// The name a user picks the scope by.
    pub open spec fn scope_name(self) -> Seq<char> {
        match self {
            SyncScope::Guild => "guild"@,
            SyncScope::Global => "global"@,
        }
    }

    /// The name a user picks the scope by.
    pub fn name(self) -> (n: &'static str)
        ensures
            n@ == self.scope_name(),
    {
        match self {
            SyncScope::Guild => "guild",
            SyncScope::Global => "global",
        }
    }
}

/// Whether `author` is one of the bot's `owners`.
pub fn is_owner(owners: &Vec<u64>, author: u64) -> (r: bool)
    ensures
        r == owners@.contains(author),
{
    contains_id(owners, author)
}

/// `n` written in decimal.
pub fn decimal_string(n: u128) -> (s: String)
    ensures
        s@ == decimal(n as nat),
{
    string_of(&decimal_chars(n))
}

/// The report of a sync of `synced_count` commands.
pub open spec fn sync_text(scope: SyncScope, synced_count: nat, guild_id: u64) -> Seq<char> {
    match scope {
        SyncScope::Guild => "Synced "@ + decimal(synced_count) + " commands to guild "@ + decimal(
            guild_id as nat,
        ) + "."@,
        SyncScope::Global => "Synced "@ + decimal(synced_count) + " commands globally."@,
    }
}

/// The report of a sync of `synced_count` commands to the development server
/// `guild_id` or to every server.
pub fn sync_report(scope: SyncScope, synced_count: usize, guild_id: u64) -> (t: String)
    ensures
        t@ == sync_text(scope, synced_count as nat, guild_id),
{
    let mut t = "Synced ".to_owned();
    t.append(decimal_string(synced_count as u128).as_str());
    match scope {
        SyncScope::Guild => {
            t.append(" commands to guild ");
            t.append(decimal_string(guild_id as u128).as_str());
            t.append(".");
        },
        SyncScope::Global => {
            t.append(" commands globally.");
        },
    }
    t
}

/// The report of removing the commands.
pub open spec fn unsync_text(scope: SyncScope, guild_id: u64) -> Seq<char> {
    match scope {
        SyncScope::Guild => "Removed all application commands from guild "@ + decimal(
            guild_id as nat,
        ) + "."@,
        SyncScope::Global => "Removed all global application commands."@,
    }
}

/// The report of removing the commands of the development server `guild_id` or of
/// every server.
pub fn unsync_report(scope: SyncScope, guild_id: u64) -> (t: String)
    ensures
        t@ == unsync_text(scope, guild_id),
{
    match scope {
        SyncScope::Guild => {
            let mut t = "Removed all application commands from guild ".to_owned();
            t.append(decimal_string(guild_id as u128).as_str());
            t.append(".");
            t
        },
        SyncScope::Global => "Removed all global application commands.".to_owned(),
    }
}

/// The answer to `ping`.
pub open spec fn ping_text(gateway_ms: nat, rest_ms: nat) -> Seq<char> {
    "pong!\nGateway ping: "@ + decimal(gateway_ms) + "ms\nREST ping: "@ + decimal(rest_ms) + "ms"@
}

/// The answer to `ping`, with the gateway and REST round trips in milliseconds.
pub fn ping_report(gateway_ms: u128, rest_ms: u128) -> (t: String)
    ensures
        t@ == ping_text(gateway_ms as nat, rest_ms as nat),
{
    let mut t = "pong!\nGateway ping: ".to_owned();
    t.append(decimal_string(gateway_ms).as_str());
    t.append("ms\nREST ping: ");
    t.append(decimal_string(rest_ms).as_str());
    t.append("ms");
    t
}

/// How a finished command is named in the logs: its prefix, then its name.
pub fn command_label(prefix: &str, command_name: &str) -> (t: String)
    ensures
        t@ == prefix@ + command_name@,
{
    let mut t = prefix.to_owned();
    t.append(command_name);
    t
}

} // verus!
