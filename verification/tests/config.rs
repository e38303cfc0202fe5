use rust_web_dev::config::{Config, ConfigError, Environment, Variable, DEFAULT_PORT};
use rust_web_dev::handle_errors::IntErrorKind;

fn args() -> Config {
    Config {
        log_level: "warn".to_string(),
        database_host: "localhost".to_string(),
        database_port: 5432,
        database_name: "rustwebdev".to_string(),
        database_user: "rustwebdev".to_string(),
        database_password: "rustwebdev".to_string(),
        port: 3030,
    }
}

fn some(text: &str) -> Option<String> {
    Some(text.to_string())
}

fn empty_env() -> Environment {
    Environment {
        bad_words_api_key: None,
        paseto_key: None,
        port: None,
        postgres_user: None,
        postgres_host: None,
        postgres_port: None,
        postgres_db: None,
        postgres_password: None,
    }
}

fn set_env() -> Environment {
    Environment {
        bad_words_api_key: some("yes"),
        paseto_key: some("yes"),
        port: None,
        postgres_user: some("user"),
        postgres_host: some("localhost"),
        postgres_port: some("5432"),
        postgres_db: some("rustwebdev"),
        postgres_password: some("pass"),
    }
}

#[test]
fn set_api_key() {
    let result = Config::new(args(), empty_env());

    assert!(result.is_err());

    let expected = Config {
        log_level: "warn".to_string(),
        port: 3030,
        database_user: "user".to_string(),
        database_password: "pass".to_string(),
        database_host: "localhost".to_string(),
        database_port: 5432,
        database_name: "rustwebdev".to_string(),
    };

    let config = Config::new(args(), set_env()).unwrap();

    assert_eq!(config, expected);
}

#[test]
fn missing_variables_are_reported_in_order() {
    let mut env = empty_env();
    env.port = some("x");
    env.postgres_port = some("x");
    assert_eq!(
        Config::new(args(), env).unwrap_err(),
        ConfigError::Missing(Variable::BadWordsApiKey)
    );

    let mut env = empty_env();
    env.bad_words_api_key = some("k");
    assert_eq!(
        Config::new(args(), env).unwrap_err(),
        ConfigError::Missing(Variable::PasetoKey)
    );

    let mut env = empty_env();
    env.bad_words_api_key = some("k");
    env.paseto_key = some("k");
    assert_eq!(
        Config::new(args(), env).unwrap_err(),
        ConfigError::Missing(Variable::PostgresPassword)
    );
}

#[test]
fn malformed_port_is_reported_before_a_missing_password() {
    let mut env = empty_env();
    env.bad_words_api_key = some("k");
    env.paseto_key = some("k");
    env.port = some("eighty");
    assert_eq!(
        Config::new(args(), env).unwrap_err(),
        ConfigError::ParseError(IntErrorKind::InvalidDigit)
    );
}

#[test]
fn malformed_database_port_is_reported_last() {
    let mut env = set_env();
    env.postgres_port = some("65536");
    assert_eq!(
        Config::new(args(), env).unwrap_err(),
        ConfigError::ParseError(IntErrorKind::PosOverflow)
    );
    let mut env = set_env();
    env.postgres_port = some("");
    assert_eq!(
        Config::new(args(), env).unwrap_err(),
        ConfigError::ParseError(IntErrorKind::Empty)
    );
}

#[test]
fn port_comes_from_the_environment_or_is_the_default() {
    let mut from_args = args();
    from_args.port = 8080;
    let config = Config::new(from_args, set_env()).unwrap();
    assert_eq!(config.port, DEFAULT_PORT);
    assert_eq!(DEFAULT_PORT, 3030);

    let mut env = set_env();
    env.port = some("8081");
    assert_eq!(Config::new(args(), env).unwrap().port, 8081);
}

#[test]
fn command_line_fills_in_what_the_environment_leaves_out() {
    let mut env = empty_env();
    env.bad_words_api_key = some("k");
    env.paseto_key = some("k");
    env.postgres_password = some("from env");
    let mut from_args = args();
    from_args.log_level = "debug".to_string();
    from_args.database_host = "db.example".to_string();
    from_args.database_port = 6543;
    from_args.database_name = "qa".to_string();
    from_args.database_user = "svc".to_string();
    from_args.database_password = "from args".to_string();
    let expected = Config {
        log_level: "debug".to_string(),
        database_host: "db.example".to_string(),
        database_port: 6543,
        database_name: "qa".to_string(),
        database_user: "svc".to_string(),
        database_password: "from env".to_string(),
        port: 3030,
    };
    assert_eq!(Config::new(from_args, env).unwrap(), expected);
}

#[test]
fn environment_wins_over_the_command_line() {
    let mut env = set_env();
    env.postgres_user = some("env user");
    env.postgres_host = some("env host");
    env.postgres_port = some("+1");
    env.postgres_db = some("env db");
    let config = Config::new(args(), env).unwrap();
    assert_eq!(config.database_user, "env user");
    assert_eq!(config.database_host, "env host");
    assert_eq!(config.database_port, 1);
    assert_eq!(config.database_name, "env db");
    assert_eq!(config.log_level, "warn");
}
