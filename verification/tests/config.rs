use livepeer_payout_bot::config::{parse_url_list, validate_database_url, Config, ConfigError, EnvVars};

fn env(pairs: &[(&str, &str)]) -> EnvVars {
    EnvVars {
        entries: pairs.iter().map(|(k, v)| (k.to_string(), v.to_string())).collect(),
    }
}

fn minimal() -> Vec<(&'static str, &'static str)> {
    vec![
        ("EXPLORER_BASE_URL", "https://livepeer-network-api.cloudspe.com"),
        ("DISCORD_WEBHOOK_URL", "https://discord.com/api/webhooks/a"),
        ("DATABASE_URL", "sqlite://./livepeer-payout-bot.db"),
    ]
}

#[test]
fn parses_single_webhook_url() {
    let urls = parse_url_list("DISCORD_WEBHOOK_URL", "https://discord.com/api/webhooks/a")
        .ok()
        .expect("single URL parses");
    assert_eq!(urls.len(), 1);
    assert_eq!(urls[0].as_str(), "https://discord.com/api/webhooks/a");
}

#[test]
fn parses_comma_separated_webhook_urls_trimming_and_skipping_blanks() {
    let urls = parse_url_list(
        "DISCORD_WEBHOOK_URL",
        " https://discord.com/api/webhooks/a , https://discord.com/api/webhooks/b ,",
    )
    .ok()
    .expect("multiple URLs parse");
    assert_eq!(urls.len(), 2);
    assert_eq!(urls[0].as_str(), "https://discord.com/api/webhooks/a");
    assert_eq!(urls[1].as_str(), "https://discord.com/api/webhooks/b");
}

#[test]
fn empty_or_blank_webhook_list_is_missing() {
    assert!(parse_url_list("DISCORD_WEBHOOK_URL", "").is_err());
    assert!(parse_url_list("DISCORD_WEBHOOK_URL", "  , ,").is_err());
}

#[test]
fn invalid_webhook_url_is_rejected() {
    assert!(parse_url_list("DISCORD_WEBHOOK_URL", "not a url").is_err());
    assert!(parse_url_list(
        "DISCORD_WEBHOOK_URL",
        "https://discord.com/api/webhooks/a, not-a-url"
    )
    .is_err());
}

#[test]
fn allows_relative_sqlite_path_outside_container() {
    assert!(validate_database_url("sqlite://./livepeer-payout-bot.db", false).is_ok());
}

#[test]
fn rejects_relative_sqlite_path_inside_container() {
    let err = match validate_database_url("sqlite://./livepeer-payout-bot.db", true) {
        Err(e) => e,
        Ok(()) => panic!("relative SQLite path should be rejected in containers"),
    };
    assert_eq!(err.to_string(), "invalid value for DATABASE_URL: containerized deploys must use an absolute SQLite path such as `sqlite:///data/livepeer-payout-bot.db`; relative paths like `sqlite://./livepeer-payout-bot.db` are ephemeral inside the container");
}

#[test]
fn allows_absolute_sqlite_path_inside_container() {
    assert!(validate_database_url("sqlite:///data/livepeer-payout-bot.db", true).is_ok());
}

#[test]
fn in_memory_database_is_allowed_inside_container() {
    assert!(validate_database_url("sqlite::memory:", true).is_ok());
    assert!(validate_database_url("postgres://db/bot", true).is_ok());
}

#[test]
fn blank_list_reports_the_variable_as_missing() {
    let err = parse_url_list("DISCORD_WEBHOOK_URL", " , ").err().unwrap();
    assert!(matches!(err, ConfigError::Missing("DISCORD_WEBHOOK_URL")));
    assert_eq!(err.to_string(), "missing required env var: DISCORD_WEBHOOK_URL");
}

#[test]
fn first_bad_url_is_reported() {
    let err = parse_url_list("DISCORD_WEBHOOK_URL", "https://a.example, not a url, also bad")
        .err()
        .unwrap();
    match err {
        ConfigError::Invalid { var, reason } => {
            assert_eq!(var, "DISCORD_WEBHOOK_URL");
            assert_eq!(reason, url::Url::parse("not a url").unwrap_err().to_string());
        }
        _ => panic!("expected an invalid value"),
    }
}

#[test]
fn defaults_apply_when_variables_are_unset() {
    let cfg = Config::from_vars(&env(&minimal()), false).ok().expect("minimal config reads");
    assert_eq!(cfg.explorer_base_url, "https://livepeer-network-api.cloudspe.com/");
    assert_eq!(cfg.discord_webhook_urls, vec!["https://discord.com/api/webhooks/a".to_string()]);
    assert_eq!(cfg.database_url, "sqlite://./livepeer-payout-bot.db");
    assert_eq!(cfg.event_poll_interval_secs, 60);
    assert_eq!(cfg.digest_window_secs, 900);
    assert_eq!(cfg.digest_fetch_limit, 500);
    assert!(cfg.webhook_post_enabled);
    assert_eq!(cfg.summary_poll_interval_secs, 3600);
    assert_eq!(cfg.summary_readiness.settle_daily_secs, 21600);
    assert_eq!(cfg.summary_readiness.settle_weekly_secs, 43200);
    assert_eq!(cfg.summary_readiness.settle_monthly_secs, 86400);
    assert_eq!(cfg.summary_readiness.max_defer_secs, 172800);
    assert_eq!(cfg.reward_poll_interval_secs, 60);
    assert_eq!(cfg.delegator_poll_interval_secs, 60);
    assert_eq!(cfg.subscriber_digest_interval_secs, 900);
    assert_eq!(cfg.http_timeout_secs, 30);
    assert_eq!(cfg.cut_change_poll_interval_secs, 60);
    assert_eq!(cfg.user_agent, "livepeer-payout-bot/0.1");
    assert_eq!(cfg.metrics_bind, None);
    assert!(cfg.commands.is_none());
    assert!(cfg.reward_watch.is_none());
}

#[test]
fn missing_explorer_url_is_the_first_error() {
    let err = Config::from_vars(&env(&[("DATABASE_URL", "sqlite::memory:")]), false).err().unwrap();
    assert_eq!(err.to_string(), "missing required env var: EXPLORER_BASE_URL");
}

#[test]
fn container_check_applies_to_the_database_url() {
    let err = Config::from_vars(&env(&minimal()), true).err().unwrap();
    assert!(err.to_string().starts_with("invalid value for DATABASE_URL: containerized deploys"));
}

#[test]
fn boolean_values_are_trimmed_and_case_insensitive() {
    let mut vars = minimal();
    vars.push(("WEBHOOK_POST_ENABLED", "  OFF "));
    let cfg = Config::from_vars(&env(&vars), false).ok().unwrap();
    assert!(!cfg.webhook_post_enabled);

    let mut vars = minimal();
    vars.push(("WEBHOOK_POST_ENABLED", ""));
    let cfg = Config::from_vars(&env(&vars), false).ok().unwrap();
    assert!(!cfg.webhook_post_enabled);

    let mut vars = minimal();
    vars.push(("WEBHOOK_POST_ENABLED", "Maybe"));
    let err = Config::from_vars(&env(&vars), false).err().unwrap();
    assert_eq!(err.to_string(), "invalid value for WEBHOOK_POST_ENABLED: expected boolean, got `maybe`");
}

#[test]
fn bad_number_reports_the_parse_error() {
    let mut vars = minimal();
    vars.push(("DIGEST_WINDOW_SECS", "-5"));
    let err = Config::from_vars(&env(&vars), false).err().unwrap();
    let expected = format!(
        "invalid value for DIGEST_WINDOW_SECS: {}",
        "-5".parse::<u64>().unwrap_err()
    );
    assert_eq!(err.to_string(), expected);
}

#[test]
fn commands_settings_are_read_when_enabled() {
    let mut vars = minimal();
    vars.push(("COMMANDS_ENABLED", "yes"));
    vars.push(("DISCORD_BOT_TOKEN", "SECRET-REDACTED"));
    vars.push(("DISCORD_APPLICATION_ID", "1234"));
    vars.push(("USER_AGENT", "custom/1"));
    let cfg = Config::from_vars(&env(&vars), false).ok().unwrap();
    let commands = cfg.commands.expect("commands enabled");
    assert_eq!(commands.bot_token, "SECRET-REDACTED");
    assert_eq!(commands.application_id, 1234);
    assert_eq!(commands.guild_id, None);
    assert_eq!(commands.max_subscriptions_per_user, 25);
    assert_eq!(commands.dm_failure_auto_unsub, 3);
    assert_eq!(cfg.user_agent, "custom/1");
    let watch = cfg.reward_watch.expect("the watch is on by default");
    assert_eq!(watch.poll_interval_secs, 60);
    assert_eq!(watch.first_alert_pct, 25);
    assert_eq!(watch.realert_step_pct, 10);
    assert_eq!(watch.digest_pct, 90);
    assert_eq!(watch.round_length_blocks, 6377);

    let mut vars = minimal();
    vars.push(("COMMANDS_ENABLED", "1"));
    let err = Config::from_vars(&env(&vars), false).err().unwrap();
    assert_eq!(err.to_string(), "missing required env var: DISCORD_BOT_TOKEN");
}

#[test]
fn blank_guild_id_is_invalid() {
    let mut vars = minimal();
    vars.push(("COMMANDS_ENABLED", "on"));
    vars.push(("DISCORD_BOT_TOKEN", "SECRET-REDACTED"));
    vars.push(("DISCORD_APPLICATION_ID", "1234"));
    vars.push(("DISCORD_GUILD_ID", "   "));
    let err = Config::from_vars(&env(&vars), false).err().unwrap();
    assert_eq!(err.to_string(), "invalid value for DISCORD_GUILD_ID: invalid digit found in string");

    let mut vars = minimal();
    vars.push(("COMMANDS_ENABLED", "on"));
    vars.push(("DISCORD_BOT_TOKEN", "SECRET-REDACTED"));
    vars.push(("DISCORD_APPLICATION_ID", "1234"));
    vars.push(("DISCORD_GUILD_ID", ""));
    let err = Config::from_vars(&env(&vars), false).err().unwrap();
    assert_eq!(err.to_string(), "invalid value for DISCORD_GUILD_ID: cannot parse integer from empty string");
}

fn commands_vars() -> Vec<(&'static str, &'static str)> {
    let mut vars = minimal();
    vars.push(("COMMANDS_ENABLED", "true"));
    vars.push(("DISCORD_BOT_TOKEN", "SECRET-REDACTED"));
    vars.push(("DISCORD_APPLICATION_ID", "1234"));
    vars
}

#[test]
fn reward_watch_can_be_disabled_or_tuned() {
    let mut vars = commands_vars();
    vars.push(("REWARD_WATCH_ENABLED", "false"));
    vars.push(("REWARD_WATCH_DIGEST_PCT", "not read"));
    let cfg = Config::from_vars(&env(&vars), false).ok().unwrap();
    assert!(cfg.commands.is_some());
    assert!(cfg.reward_watch.is_none());

    let mut vars = commands_vars();
    vars.push(("REWARD_WATCH_FIRST_ALERT_PCT", "50"));
    vars.push(("METRICS_BIND", "0.0.0.0:9300"));
    let cfg = Config::from_vars(&env(&vars), false).ok().unwrap();
    assert_eq!(cfg.reward_watch.unwrap().first_alert_pct, 50);
    assert_eq!(cfg.metrics_bind.as_deref(), Some("0.0.0.0:9300"));

    let mut vars = commands_vars();
    vars.push(("REWARD_WATCH_REALERT_STEP_PCT", "0"));
    let err = Config::from_vars(&env(&vars), false).err().unwrap();
    assert_eq!(
        err.to_string(),
        "invalid value for REWARD_WATCH_REALERT_STEP_PCT: expected a percentage from 1 to 100, got 0"
    );
}

#[test]
fn numeric_settings_are_parsed() {
    let mut vars = commands_vars();
    vars.push(("DIGEST_FETCH_LIMIT", "250"));
    vars.push(("DM_FAILURE_AUTO_UNSUB", "-1"));
    vars.push(("MAX_SUBSCRIPTIONS_PER_USER", "+7"));
    vars.push(("DISCORD_GUILD_ID", "987654321"));
    let cfg = Config::from_vars(&env(&vars), false).ok().unwrap();
    assert_eq!(cfg.digest_fetch_limit, 250);
    let commands = cfg.commands.unwrap();
    assert_eq!(commands.dm_failure_auto_unsub, -1);
    assert_eq!(commands.max_subscriptions_per_user, 7);
    assert_eq!(commands.guild_id, Some(987654321));

    let mut vars = commands_vars();
    vars.push(("MAX_SUBSCRIPTIONS_PER_USER", "5000000000"));
    let err = Config::from_vars(&env(&vars), false).err().unwrap();
    let expected = format!(
        "invalid value for MAX_SUBSCRIPTIONS_PER_USER: {}",
        "5000000000".parse::<u32>().unwrap_err()
    );
    assert_eq!(err.to_string(), expected);
}
