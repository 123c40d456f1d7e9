//! The bot's settings, read from environment variables.
use vstd::prelude::*;

use crate::ai::DEFAULT_AI_MODEL;
use crate::text::{chars_of, contains_whitespace, has_ws, parse_u64, parse_u64_spec, trim, trim_bounds};

verus! {

/// The environment variables that must be set.
#[derive(Debug, Clone, Copy, PartialEq, Eq, Structural)]
pub enum EnvVar {
    DiscordToken,
    DatabaseUrl,
    Prefix,
    DevGuildId,
    ModelAccessKey,
}

impl EnvVar {
    /// The name of the variable.
    pub open spec fn var_name(self) -> Seq<char> {
        match self {
            EnvVar::DiscordToken => "DISCORD_TOKEN"@,
            EnvVar::DatabaseUrl => "DATABASE_URL"@,
            EnvVar::Prefix => "PREFIX"@,
            EnvVar::DevGuildId => "DEV_GUILD_ID"@,
            EnvVar::ModelAccessKey => "DO_MODEL_ACCESS_KEY"@,
        }
    }

    /// The name of the variable.
    pub fn name(self) -> (n: &'static str)
        ensures
            n@ == self.var_name(),
    {
        match self {
            EnvVar::DiscordToken => "DISCORD_TOKEN",
            EnvVar::DatabaseUrl => "DATABASE_URL",
            EnvVar::Prefix => "PREFIX",
            EnvVar::DevGuildId => "DEV_GUILD_ID",
            EnvVar::ModelAccessKey => "DO_MODEL_ACCESS_KEY",
        }
    }
}

/// What came of loading the `.env` file.
pub enum DotenvStatus {
    Loaded,
    NotFound,
    Failed(String),
}

/// Why the settings could not be read.
pub enum ConfigError {
    EnvFileRequired,
    EnvFileFailed(String),
    Missing(EnvVar),
    EmptyPrefix,
    PrefixHasWhitespace,
    InvalidDevGuildId,
}

/// Why the settings could not be read, over views.
pub enum ConfigErrorView {
    EnvFileRequired,
    EnvFileFailed(Seq<char>),
    Missing(EnvVar),
    EmptyPrefix,
    PrefixHasWhitespace,
    InvalidDevGuildId,
}

impl View for ConfigError {
    type V = ConfigErrorView;

    open spec fn view(&self) -> ConfigErrorView {
        match self {
            ConfigError::EnvFileRequired => ConfigErrorView::EnvFileRequired,
            ConfigError::EnvFileFailed(e) => ConfigErrorView::EnvFileFailed(e@),
            ConfigError::Missing(v) => ConfigErrorView::Missing(*v),
            ConfigError::EmptyPrefix => ConfigErrorView::EmptyPrefix,
            ConfigError::PrefixHasWhitespace => ConfigErrorView::PrefixHasWhitespace,
            ConfigError::InvalidDevGuildId => ConfigErrorView::InvalidDevGuildId,
        }
    }
}

/// The text of a settings error.
pub open spec fn error_text(e: ConfigErrorView) -> Seq<char> {
    match e {
        ConfigErrorView::EnvFileRequired => ".env file is required"@,
        ConfigErrorView::EnvFileFailed(m) => "Failed to load .env: "@ + m,
        ConfigErrorView::Missing(v) => "Missing "@ + v.var_name() + " in environment."@,
        ConfigErrorView::EmptyPrefix => "PREFIX cannot be empty"@,
        ConfigErrorView::PrefixHasWhitespace => "PREFIX must be a single prefix value without whitespace"@,
        ConfigErrorView::InvalidDevGuildId => "DEV_GUILD_ID must be a valid u64 snowflake id"@,
    }
}

impl ConfigError {
    /// The text of the error.
    pub fn message(&self) -> (m: String)
        ensures
            m@ == error_text(self@),
    {
        match self {
            ConfigError::EnvFileRequired => ".env file is required".to_owned(),
            ConfigError::EnvFileFailed(e) => {
                let mut m = "Failed to load .env: ".to_owned();
                m.append(e.as_str());
                m
            },
            ConfigError::Missing(v) => {
                let mut m = "Missing ".to_owned();
                m.append(v.name());
                m.append(" in environment.");
                m
            },
            ConfigError::EmptyPrefix => "PREFIX cannot be empty".to_owned(),
            ConfigError::PrefixHasWhitespace => {
                "PREFIX must be a single prefix value without whitespace".to_owned()
            },
            ConfigError::InvalidDevGuildId => {
                "DEV_GUILD_ID must be a valid u64 snowflake id".to_owned()
            },
        }
    }
}

/// Settings of the inference service.
pub struct AiConfig {
    pub model_access_key: String,
    pub default_model: String,
}

/// The bot's settings.
pub struct AppConfig {
    pub token: String,
    pub database_url: String,
    pub prefix: String,
    pub dev_guild_id: u64,
    pub ai: AiConfig,
}

/// The values read from the environment, with the outcome of loading `.env`.
pub struct EnvSnapshot {
    pub dotenv: DotenvStatus,
    pub discord_token: Option<String>,
    pub database_url: Option<String>,
    pub prefix: Option<String>,
    pub dev_guild_id: Option<String>,
    pub model_access_key: Option<String>,
    pub ai_model: Option<String>,
}

/// The settings, over views.
pub struct AppConfigView {
    pub token: Seq<char>,
    pub database_url: Seq<char>,
    pub prefix: Seq<char>,
    pub dev_guild_id: u64,
    pub model_access_key: Seq<char>,
    pub default_model: Seq<char>,
}

impl View for AppConfig {
    type V = AppConfigView;

    open spec fn view(&self) -> AppConfigView {
        AppConfigView {
            token: self.token@,
            database_url: self.database_url@,
            prefix: self.prefix@,
            dev_guild_id: self.dev_guild_id,
            model_access_key: self.ai.model_access_key@,
            default_model: self.ai.default_model@,
        }
    }
}

/// The view of an optional string.
pub open spec fn opt_string_view(s: Option<String>) -> Option<Seq<char>> {
    match s {
        Some(v) => Some(v@),
        None => None,
    }
}

/// What loading `.env` means for the settings: a missing file and an unreadable one are errors.
pub open spec fn dotenv_result(status: DotenvStatus) -> Option<ConfigErrorView> {
    match status {
        DotenvStatus::Loaded => None,
        DotenvStatus::NotFound => Some(ConfigErrorView::EnvFileRequired),
        DotenvStatus::Failed(e) => Some(ConfigErrorView::EnvFileFailed(e@)),
    }
}

/// The error of a prefix value, if it has one: missing, blank, or holding whitespace.
pub open spec fn prefix_error(raw: Option<Seq<char>>) -> Option<ConfigErrorView> {
    match raw {
        None => Some(ConfigErrorView::Missing(EnvVar::Prefix)),
        Some(p) => if trim(p).len() == 0 {
            Some(ConfigErrorView::EmptyPrefix)
        } else if has_ws(p) {
            Some(ConfigErrorView::PrefixHasWhitespace)
        } else {
            None
        },
    }
}

/// The error of a development server id, if it has one: missing, or not a `u64`.
pub open spec fn dev_guild_id_error(raw: Option<Seq<char>>) -> Option<ConfigErrorView> {
    match raw {
        None => Some(ConfigErrorView::Missing(EnvVar::DevGuildId)),
        Some(s) => if parse_u64_spec(s) is None {
            Some(ConfigErrorView::InvalidDevGuildId)
        } else {
            None
        },
    }
}

/// Whether `raw` is a development server id of value 0, which no server can have.
pub open spec fn is_zero_id(raw: Option<Seq<char>>) -> bool {
    raw matches Some(s) && parse_u64_spec(s) == Some(0u64)
}

/// Checks the outcome of loading `.env`.
pub fn load_dotenv(status: &DotenvStatus) -> (r: Result<(), ConfigError>)
    ensures
        match r {
            Ok(_) => dotenv_result(*status) is None,
            Err(e) => dotenv_result(*status) == Some(e@),
        },
{
    match status {
        DotenvStatus::Loaded => Ok(()),
        DotenvStatus::NotFound => Err(ConfigError::EnvFileRequired),
        DotenvStatus::Failed(e) => Err(ConfigError::EnvFileFailed(e.clone())),
    }
}

/// Checks a command prefix: it must be set, not blank, and free of whitespace.
pub fn parse_prefix(raw: Option<String>) -> (r: Result<String, ConfigError>)
    ensures
        match r {
            Ok(p) => prefix_error(opt_string_view(raw)) is None && raw == Some(p),
            Err(e) => prefix_error(opt_string_view(raw)) == Some(e@),
        },
{
    match raw {
        None => Err(ConfigError::Missing(EnvVar::Prefix)),
        Some(p) => {
            let cs = chars_of(p.as_str());
            let (start, end) = trim_bounds(&cs);
            if start == end {
                Err(ConfigError::EmptyPrefix)
            } else if contains_whitespace(&cs) {
                Err(ConfigError::PrefixHasWhitespace)
            } else {
                Ok(p)
            }
        },
    }
}

/// Reads the development server id: a `u64` written in decimal.
pub fn parse_dev_guild_id(raw: Option<String>) -> (r: Result<u64, ConfigError>)
    requires
        !is_zero_id(opt_string_view(raw)),
    ensures
        match r {
            Ok(id) => dev_guild_id_error(opt_string_view(raw)) is None && (raw matches Some(s)
                && parse_u64_spec(s@) == Some(id)),
            Err(e) => dev_guild_id_error(opt_string_view(raw)) == Some(e@),
        },
{
    match raw {
        None => Err(ConfigError::Missing(EnvVar::DevGuildId)),
        Some(s) => match parse_u64(&chars_of(s.as_str())) {
            Some(id) => Ok(id),
            None => Err(ConfigError::InvalidDevGuildId),
        },
    }
}

/// The settings of the inference service: the access key is required; the model
/// defaults to `openai-gpt-oss-120b`.
pub fn parse_ai_config(model_access_key: Option<String>, ai_model: Option<String>) -> (r: Result<
    AiConfig,
    ConfigError,
>)
    ensures
        match r {
            Ok(c) => model_access_key == Some(c.model_access_key) && c.default_model@ == match ai_model {
                Some(m) => m@,
                None => DEFAULT_AI_MODEL@,
            },
            Err(e) => model_access_key is None && e@ == ConfigErrorView::Missing(
                EnvVar::ModelAccessKey,
            ),
        },
{
    let key = match model_access_key {
        Some(k) => k,
        None => {
            return Err(ConfigError::Missing(EnvVar::ModelAccessKey));
        },
    };
    let default_model = match ai_model {
        Some(m) => m,
        None => DEFAULT_AI_MODEL.to_owned(),
    };
    Ok(AiConfig { model_access_key: key, default_model })
}

/// The first problem with the environment, in the order the settings are read, if any.
pub open spec fn first_config_error(env: EnvSnapshot) -> Option<ConfigErrorView> {
    if dotenv_result(env.dotenv) is Some {
        dotenv_result(env.dotenv)
    } else if env.discord_token is None {
        Some(ConfigErrorView::Missing(EnvVar::DiscordToken))
    } else if env.database_url is None {
        Some(ConfigErrorView::Missing(EnvVar::DatabaseUrl))
    } else if prefix_error(opt_string_view(env.prefix)) is Some {
        prefix_error(opt_string_view(env.prefix))
    } else if dev_guild_id_error(opt_string_view(env.dev_guild_id)) is Some {
        dev_guild_id_error(opt_string_view(env.dev_guild_id))
    } else if env.model_access_key is None {
        Some(ConfigErrorView::Missing(EnvVar::ModelAccessKey))
    } else {
        None
    }
}

/// Whether reading the settings reaches a development server id of 0.
pub open spec fn reaches_zero_id(env: EnvSnapshot) -> bool {
    &&& dotenv_result(env.dotenv) is None
    &&& env.discord_token is Some
    &&& env.database_url is Some
    &&& prefix_error(opt_string_view(env.prefix)) is None
    &&& is_zero_id(opt_string_view(env.dev_guild_id))
}

impl AppConfig {
    /// The settings in `env`: `.env` must have been loaded; `DISCORD_TOKEN`,
    /// `DATABASE_URL`, `PREFIX`, `DEV_GUILD_ID` and `DO_MODEL_ACCESS_KEY` must be set; the
    /// prefix must be a single word and the server id a `u64`; `AI_MODEL` is optional.
    /// The first problem found, in that order, is the error.
    pub fn from_env(env: EnvSnapshot) -> (r: Result<AppConfig, ConfigError>)
        requires
            !reaches_zero_id(env),
        ensures
            match r {
                Ok(c) => {
                    &&& first_config_error(env) is None
                    &&& env.discord_token == Some(c.token)
                    &&& env.database_url == Some(c.database_url)
                    &&& env.prefix == Some(c.prefix)
                    &&& (env.dev_guild_id matches Some(s) && parse_u64_spec(s@) == Some(
                        c.dev_guild_id,
                    ))
                    &&& env.model_access_key == Some(c.ai.model_access_key)
                    &&& c.ai.default_model@ == match env.ai_model {
                        Some(m) => m@,
                        None => DEFAULT_AI_MODEL@,
                    }
                },
                Err(e) => first_config_error(env) == Some(e@),
            },
    {
        let EnvSnapshot {
            dotenv,
            discord_token,
            database_url,
            prefix,
            dev_guild_id,
            model_access_key,
            ai_model,
        } = env;
        match load_dotenv(&dotenv) {
            Ok(()) => {},
            Err(e) => {
                return Err(e);
            },
        }
        let token = match discord_token {
            Some(t) => t,
            None => {
                return Err(ConfigError::Missing(EnvVar::DiscordToken));
            },
        };
        let database_url = match database_url {
            Some(u) => u,
            None => {
                return Err(ConfigError::Missing(EnvVar::DatabaseUrl));
            },
        };
        let prefix = match parse_prefix(prefix) {
            Ok(p) => p,
            Err(e) => {
                return Err(e);
            },
        };
        let dev_guild_id = match parse_dev_guild_id(dev_guild_id) {
            Ok(id) => id,
            Err(e) => {
                return Err(e);
            },
        };
        let ai = match parse_ai_config(model_access_key, ai_model) {
            Ok(a) => a,
            Err(e) => {
                return Err(e);
            },
        };
        Ok(AppConfig { token, database_url, prefix, dev_guild_id, ai })
    }
}

} // verus!
