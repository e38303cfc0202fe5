//! The settings the service starts with, settled once from the command line
//! and the environment before any request is served.
use crate::handle_errors::IntErrorKind;
use crate::number::{parse_u16, parse_u16_text};
use vstd::prelude::*;
use vstd::utf8::encode_utf8;

verus! {

/// The port the service listens on where `PORT` is not set.
pub const DEFAULT_PORT: u16 = 3030;

/// The settings of the service.
#[derive(Debug, PartialEq)]
pub struct Config {
    pub log_level: String,
    pub database_host: String,
    pub database_port: u16,
    pub database_name: String,
    pub database_user: String,
    pub database_password: String,
    pub port: u16,
}

/// The variables of the environment that the service reads, each `None`
/// where it is not set.
#[derive(Debug)]
pub struct Environment {
    /// `BAD_WORDS_API_KEY`, the key of the moderation service.
    pub bad_words_api_key: Option<String>,
    /// `PASETO_KEY`, the key that signs tokens.
    pub paseto_key: Option<String>,
    /// `PORT`
    pub port: Option<String>,
    /// `POSTGRES_USER`
    pub postgres_user: Option<String>,
    /// `POSTGRES_HOST`
    pub postgres_host: Option<String>,
    /// `POSTGRES_PORT`
    pub postgres_port: Option<String>,
    /// `POSTGRES_DB`
    pub postgres_db: Option<String>,
    /// `POSTGRES_PASSWORD`
    pub postgres_password: Option<String>,
}

/// A variable without which the service does not start.
#[derive(Debug, Clone, Copy, PartialEq, Eq, Structural)]
pub enum Variable {
    BadWordsApiKey,
    PasetoKey,
    PostgresPassword,
}

/// Why the settings could not be settled. Each of these ends the process
/// before it serves a request.
#[derive(Debug, Clone, Copy, PartialEq, Eq, Structural)]
pub enum ConfigError {
    /// A required variable is not set.
    Missing(Variable),
    /// `PORT` or `POSTGRES_PORT` is set but is no port number.
    ParseError(IntErrorKind),
}

/// The settings as plain values.
pub struct ConfigView {
    pub log_level: Seq<char>,
    pub database_host: Seq<char>,
    pub database_port: u16,
    pub database_name: Seq<char>,
    pub database_user: Seq<char>,
    pub database_password: Seq<char>,
    pub port: u16,
}

/// The environment as plain values.
pub struct EnvironmentView {
    pub bad_words_api_key: Option<Seq<char>>,
    pub paseto_key: Option<Seq<char>>,
    pub port: Option<Seq<char>>,
    pub postgres_user: Option<Seq<char>>,
    pub postgres_host: Option<Seq<char>>,
    pub postgres_port: Option<Seq<char>>,
    pub postgres_db: Option<Seq<char>>,
    pub postgres_password: Option<Seq<char>>,
}

/// The text of a variable, if it is set.
pub open spec fn text_of(value: Option<String>) -> Option<Seq<char>> {
    match value {
        Some(text) => Some(text@),
        None => None,
    }
}

impl View for Config {
    type V = ConfigView;

    open spec fn view(&self) -> ConfigView {
        ConfigView {
            log_level: self.log_level@,
            database_host: self.database_host@,
            database_port: self.database_port,
            database_name: self.database_name@,
            database_user: self.database_user@,
            database_password: self.database_password@,
            port: self.port,
        }
    }
}

impl View for Environment {
    type V = EnvironmentView;

    open spec fn view(&self) -> EnvironmentView {
        EnvironmentView {
            bad_words_api_key: text_of(self.bad_words_api_key),
            paseto_key: text_of(self.paseto_key),
            port: text_of(self.port),
            postgres_user: text_of(self.postgres_user),
            postgres_host: text_of(self.postgres_host),
            postgres_port: text_of(self.postgres_port),
            postgres_db: text_of(self.postgres_db),
            postgres_password: text_of(self.postgres_password),
        }
    }
}

/// The port that a variable asks for, `default` where it is not set.
pub open spec fn port_of(value: Option<Seq<char>>, default: u16) -> Result<u16, IntErrorKind> {
    match value {
        Some(text) => parse_u16_text(encode_utf8(text)),
        None => Ok(default),
    }
}

/// The value of a variable, `default` where it is not set.
pub open spec fn value_or(value: Option<Seq<char>>, default: Seq<char>) -> Seq<char> {
    match value {
        Some(text) => text,
        None => default,
    }
}

/// The settings that the command line `args` and the environment `env` give.
///
/// The two keys must be set. The port is `PORT`, or `DEFAULT_PORT` where that
/// is not set, whatever the command line says. The database's password comes
/// from the environment alone; its user, host, port and name come from the
/// environment and, where a variable is not set, from the command line. The
/// checks are made in this order, and the first that fails is reported.
pub open spec fn settled(args: ConfigView, env: EnvironmentView) -> Result<
    ConfigView,
    ConfigError,
> {
    if env.bad_words_api_key is None {
        Err(ConfigError::Missing(Variable::BadWordsApiKey))
    } else if env.paseto_key is None {
        Err(ConfigError::Missing(Variable::PasetoKey))
    } else {
        match port_of(env.port, DEFAULT_PORT) {
            Err(kind) => Err(ConfigError::ParseError(kind)),
            Ok(port) => if env.postgres_password is None {
                Err(ConfigError::Missing(Variable::PostgresPassword))
            } else {
                match port_of(env.postgres_port, args.database_port) {
                    Err(kind) => Err(ConfigError::ParseError(kind)),
                    Ok(database_port) => Ok(
                        ConfigView {
                            log_level: args.log_level,
                            database_host: value_or(env.postgres_host, args.database_host),
                            database_port,
                            database_name: value_or(env.postgres_db, args.database_name),
                            database_user: value_or(env.postgres_user, args.database_user),
                            database_password: env.postgres_password->0,
                            port,
                        },
                    ),
                }
            },
        }
    }
}

/// Returns the port that a variable asks for, `default` where it is not set.
fn read_port(value: &Option<String>, default: u16) -> (r: Result<u16, IntErrorKind>)
    ensures
        r == port_of(text_of(*value), default),
{
    match value {
        Some(text) => parse_u16(text.as_str()),
        None => Ok(default),
    }
}

/// Returns the value of a variable, `default` where it is not set.
fn or_default(value: Option<String>, default: String) -> (r: String)
    ensures
        r@ == value_or(text_of(value), default@),
{
    match value {
        Some(text) => text,
        None => default,
    }
}

impl Config {
    /// Settles the settings from the command line `args` and the environment
    /// `env`.
    pub fn new(args: Config, env: Environment) -> (r: Result<Config, ConfigError>)
        ensures
            match r {
                Ok(config) => settled(args@, env@) == Ok::<ConfigView, ConfigError>(config@),
                Err(error) => settled(args@, env@) == Err::<ConfigView, ConfigError>(error),
            },
    {
        if env.bad_words_api_key.is_none() {
            return Err(ConfigError::Missing(Variable::BadWordsApiKey));
        }
        if env.paseto_key.is_none() {
            return Err(ConfigError::Missing(Variable::PasetoKey));
        }
        let port: u16 = match read_port(&env.port, DEFAULT_PORT) {
            Ok(port) => port,
            Err(kind) => {
                return Err(ConfigError::ParseError(kind));
            },
        };
        let database_password: String = match env.postgres_password {
            Some(password) => password,
            None => {
                return Err(ConfigError::Missing(Variable::PostgresPassword));
            },
        };
        let database_port: u16 = match read_port(&env.postgres_port, args.database_port) {
            Ok(port) => port,
            Err(kind) => {
                return Err(ConfigError::ParseError(kind));
            },
        };
        Ok(
            Config {
                log_level: args.log_level,
                database_host: or_default(env.postgres_host, args.database_host),
                database_port,
                database_name: or_default(env.postgres_db, args.database_name),
                database_user: or_default(env.postgres_user, args.database_user),
                database_password,
                port,
            },
        )
    }
}

/// The service starts only where both keys and the database's password are
/// set, and then listens on the port that `PORT` spells, or on
/// `DEFAULT_PORT`.
pub proof fn lemma_settled_needs_keys(args: ConfigView, env: EnvironmentView)
    requires
        settled(args, env) is Ok,
    ensures
        env.bad_words_api_key is Some,
        env.paseto_key is Some,
        env.postgres_password is Some,
        port_of(env.port, DEFAULT_PORT) == Ok::<u16, IntErrorKind>(settled(args, env)->Ok_0.port),
{
}

} // verus!
