use craig::commands::{command_label, is_owner, ping_report, sync_report, unsync_report, SyncScope, OWNER_ONLY_REPLY};
use craig::config::{
    load_dotenv, parse_ai_config, parse_dev_guild_id, parse_prefix, AppConfig, ConfigError,
    DotenvStatus, EnvSnapshot, EnvVar,
};

fn s(v: &str) -> Option<String> {
    Some(v.to_string())
}

fn full_env() -> EnvSnapshot {
    EnvSnapshot {
        dotenv: DotenvStatus::Loaded,
        discord_token: s("token"),
        database_url: s("postgres://db"),
        prefix: s("!"),
        dev_guild_id: s("123456789"),
        model_access_key: s("key"),
        ai_model: None,
    }
}

fn message(r: Result<AppConfig, ConfigError>) -> String {
    match r {
        Ok(_) => "ok".to_string(),
        Err(e) => e.message(),
    }
}

#[test]
fn config_complete() {
    let c = AppConfig::from_env(full_env()).ok().unwrap();
    assert_eq!(c.token, "token");
    assert_eq!(c.database_url, "postgres://db");
    assert_eq!(c.prefix, "!");
    assert_eq!(c.dev_guild_id, 123456789);
    assert_eq!(c.ai.model_access_key, "key");
    assert_eq!(c.ai.default_model, "openai-gpt-oss-120b");
    let mut env = full_env();
    env.ai_model = s("llama3-8b-instruct");
    assert_eq!(AppConfig::from_env(env).ok().unwrap().ai.default_model, "llama3-8b-instruct");
}

#[test]
fn config_errors_in_order() {
    let mut env = full_env();
    env.dotenv = DotenvStatus::NotFound;
    env.discord_token = None;
    assert_eq!(message(AppConfig::from_env(env)), ".env file is required");

    let mut env = full_env();
    env.dotenv = DotenvStatus::Failed("bad line 3".to_string());
    assert_eq!(message(AppConfig::from_env(env)), "Failed to load .env: bad line 3");

    let mut env = full_env();
    env.discord_token = None;
    env.database_url = None;
    assert_eq!(message(AppConfig::from_env(env)), "Missing DISCORD_TOKEN in environment.");

    let mut env = full_env();
    env.database_url = None;
    env.prefix = None;
    assert_eq!(message(AppConfig::from_env(env)), "Missing DATABASE_URL in environment.");

    let mut env = full_env();
    env.prefix = None;
    assert_eq!(message(AppConfig::from_env(env)), "Missing PREFIX in environment.");

    let mut env = full_env();
    env.dev_guild_id = None;
    assert_eq!(message(AppConfig::from_env(env)), "Missing DEV_GUILD_ID in environment.");

    let mut env = full_env();
    env.dev_guild_id = s("abc");
    env.model_access_key = None;
    assert_eq!(message(AppConfig::from_env(env)), "DEV_GUILD_ID must be a valid u64 snowflake id");

    let mut env = full_env();
    env.model_access_key = None;
    assert_eq!(message(AppConfig::from_env(env)), "Missing DO_MODEL_ACCESS_KEY in environment.");
}

#[test]
fn dotenv_outcomes() {
    assert!(load_dotenv(&DotenvStatus::Loaded).is_ok());
    assert!(matches!(load_dotenv(&DotenvStatus::NotFound), Err(ConfigError::EnvFileRequired)));
    assert!(matches!(load_dotenv(&DotenvStatus::Failed("x".to_string())), Err(ConfigError::EnvFileFailed(_))));
}

#[test]
fn prefix_rules() {
    assert_eq!(parse_prefix(s("!")).ok(), s("!"));
    assert_eq!(parse_prefix(s("craig!")).ok(), s("craig!"));
    assert!(matches!(parse_prefix(None), Err(ConfigError::Missing(EnvVar::Prefix))));
    assert!(matches!(parse_prefix(s("")), Err(ConfigError::EmptyPrefix)));
    assert!(matches!(parse_prefix(s("  \t")), Err(ConfigError::EmptyPrefix)));
    assert!(matches!(parse_prefix(s("a b")), Err(ConfigError::PrefixHasWhitespace)));
    assert!(matches!(parse_prefix(s(" !")), Err(ConfigError::PrefixHasWhitespace)));
    assert_eq!(ConfigError::EmptyPrefix.message(), "PREFIX cannot be empty");
    assert_eq!(
        ConfigError::PrefixHasWhitespace.message(),
        "PREFIX must be a single prefix value without whitespace"
    );
}

#[test]
fn dev_guild_id_rules() {
    assert_eq!(parse_dev_guild_id(s("42")).ok(), Some(42));
    assert_eq!(parse_dev_guild_id(s("+42")).ok(), Some(42));
    assert_eq!(parse_dev_guild_id(s("18446744073709551615")).ok(), Some(u64::MAX));
    assert!(matches!(parse_dev_guild_id(s("18446744073709551616")), Err(ConfigError::InvalidDevGuildId)));
    assert!(matches!(parse_dev_guild_id(s("")), Err(ConfigError::InvalidDevGuildId)));
    assert!(matches!(parse_dev_guild_id(s("+")), Err(ConfigError::InvalidDevGuildId)));
    assert!(matches!(parse_dev_guild_id(s("-1")), Err(ConfigError::InvalidDevGuildId)));
    assert!(matches!(parse_dev_guild_id(s(" 1")), Err(ConfigError::InvalidDevGuildId)));
    assert!(matches!(parse_dev_guild_id(s("1٣")), Err(ConfigError::InvalidDevGuildId)));
    assert!(matches!(parse_dev_guild_id(None), Err(ConfigError::Missing(EnvVar::DevGuildId))));
    for raw in ["7", "+0012", "0001", "99999999999", "18446744073709551615", "18446744073709551616", "x1", "1x", ""] {
        assert_eq!(parse_dev_guild_id(s(raw)).ok(), raw.parse::<u64>().ok(), "{raw}");
    }
}

#[test]
fn ai_config_rules() {
    let c = parse_ai_config(s("k"), None).ok().unwrap();
    assert_eq!(c.model_access_key, "k");
    assert_eq!(c.default_model, "openai-gpt-oss-120b");
    let c = parse_ai_config(s("k"), s("other")).ok().unwrap();
    assert_eq!(c.default_model, "other");
    assert!(matches!(parse_ai_config(None, s("other")), Err(ConfigError::Missing(EnvVar::ModelAccessKey))));
}

#[test]
fn var_names() {
    assert_eq!(EnvVar::DiscordToken.name(), "DISCORD_TOKEN");
    assert_eq!(EnvVar::DatabaseUrl.name(), "DATABASE_URL");
    assert_eq!(EnvVar::ModelAccessKey.name(), "DO_MODEL_ACCESS_KEY");
}

#[test]
fn owner_rule() {
    assert!(is_owner(&vec![1, 2, 3], 2));
    assert!(!is_owner(&vec![1, 2, 3], 4));
    assert!(!is_owner(&vec![], 1));
    assert_eq!(OWNER_ONLY_REPLY, "Only the bot owner can use this command.");
}

#[test]
fn command_reports() {
    assert_eq!(sync_report(SyncScope::Guild, 4, 987), "Synced 4 commands to guild 987.");
    assert_eq!(sync_report(SyncScope::Global, 0, 987), "Synced 0 commands globally.");
    assert_eq!(unsync_report(SyncScope::Guild, 10), "Removed all application commands from guild 10.");
    assert_eq!(unsync_report(SyncScope::Global, 10), "Removed all global application commands.");
    assert_eq!(ping_report(45, 120), "pong!\nGateway ping: 45ms\nREST ping: 120ms");
    assert_eq!(command_label("!", "ping"), "!ping");
    assert_eq!(SyncScope::Guild.name(), "guild");
    assert_eq!(SyncScope::Global.name(), "global");
}
