use rust_commit_tracker::{Config, ConfigError};

fn config_with_webhook(url: &str) -> Config {
    let mut config = Config::default();
    config.discord.webhook_url = url.to_string();
    config
}

fn config_with_color(color: &str) -> Config {
    let mut config = Config::default();
    config.appearance.embed_color = color.to_string();
    config
}

#[test]
fn default_values() {
    let config = Config::default();
    assert_eq!(config.discord.webhook_url, "REPLACE_WITH_YOUR_DISCORD_WEBHOOK_URL");
    assert_eq!(config.discord.bot_name, "Rust Commit Tracker");
    assert_eq!(config.discord.bot_avatar_url, "https://i.imgur.com/on47Qk9.png");
    assert_eq!(config.monitoring.commits_url, "https://commits.facepunch.com/?format=json");
    assert_eq!(config.monitoring.check_interval_secs, 50);
    assert_eq!(config.appearance.embed_color, "#CD412B");
    assert_eq!(config.appearance.footer_icon_url, "https://i.imgur.com/on47Qk9.png");
    assert_eq!(config.database.url, "sqlite:commits.db");
    assert_eq!(config.database.cleanup_keep_last, 1000);
}

#[test]
fn default_config_is_not_configured() {
    assert_eq!(Config::default().validate(), Err(ConfigError::WebhookNotConfigured));
}

#[test]
fn blank_webhook_is_not_configured() {
    assert_eq!(config_with_webhook("").validate(), Err(ConfigError::WebhookNotConfigured));
    assert_eq!(config_with_webhook("  \t\n").validate(), Err(ConfigError::WebhookNotConfigured));
    assert_eq!(
        config_with_webhook("\u{a0}\u{2003}\u{3000}").validate(),
        Err(ConfigError::WebhookNotConfigured)
    );
}

#[test]
fn foreign_webhook_is_invalid() {
    assert_eq!(
        config_with_webhook("https://example.com/hook").validate(),
        Err(ConfigError::InvalidWebhookFormat { got: "https://example.com/hook".to_string() })
    );
    assert_eq!(
        config_with_webhook("http://discord.com/api/webhooks/1/x").validate(),
        Err(ConfigError::InvalidWebhookFormat {
            got: "http://discord.com/api/webhooks/1/x".to_string()
        })
    );
    assert_eq!(
        config_with_webhook(" https://discord.com/api/webhooks/1/x").validate(),
        Err(ConfigError::InvalidWebhookFormat {
            got: " https://discord.com/api/webhooks/1/x".to_string()
        })
    );
}

#[test]
fn discord_webhooks_are_valid() {
    assert_eq!(config_with_webhook("https://discord.com/api/webhooks/123/abc").validate(), Ok(()));
    assert_eq!(
        config_with_webhook("https://discordapp.com/api/webhooks/123/abc").validate(),
        Ok(())
    );
    assert_eq!(config_with_webhook("https://discord.com/api/webhooks/").validate(), Ok(()));
}

#[test]
fn error_messages() {
    assert_eq!(
        ConfigError::WebhookNotConfigured.message(),
        "❌ Discord webhook URL not configured!\nPlease edit 'config.toml' and set a valid Discord webhook URL.\nYou can get one from your Discord server settings → Integrations → Webhooks"
    );
    assert_eq!(
        ConfigError::InvalidWebhookFormat { got: "ftp://x".to_string() }.message(),
        "❌ Invalid Discord webhook URL format!\nExpected: https://discord.com/api/webhooks/...\nGot: ftp://x"
    );
    assert_eq!(ConfigError::Malformed { detail: "bad".to_string() }.message(), "bad");
}

#[test]
fn color_with_and_without_hash() {
    assert_eq!(Config::default().rust_color(), 0xCD412B);
    assert_eq!(config_with_color("CD412B").rust_color(), 0xCD412B);
    assert_eq!(config_with_color("#ff0000").rust_color(), 0xFF0000);
    assert_eq!(config_with_color("#0").rust_color(), 0);
    assert_eq!(config_with_color("#FFFFFFFF").rust_color(), 0xFFFF_FFFF);
    assert_eq!(config_with_color("#00000000000000aB").rust_color(), 0xAB);
    assert_eq!(config_with_color("#+1f").rust_color(), 0x1F);
}

#[test]
fn unreadable_color_falls_back() {
    assert_eq!(config_with_color("").rust_color(), 0xCD412B);
    assert_eq!(config_with_color("#").rust_color(), 0xCD412B);
    assert_eq!(config_with_color("#+").rust_color(), 0xCD412B);
    assert_eq!(config_with_color("#-1").rust_color(), 0xCD412B);
    assert_eq!(config_with_color("##123456").rust_color(), 0xCD412B);
    assert_eq!(config_with_color("#12345G").rust_color(), 0xCD412B);
    assert_eq!(config_with_color(" #123456").rust_color(), 0xCD412B);
    assert_eq!(config_with_color("#100000000").rust_color(), 0xCD412B);
    assert_eq!(config_with_color("#é").rust_color(), 0xCD412B);
}

#[test]
fn color_agrees_with_std_parsing() {
    for text in ["1", "+7", "-7", "++7", "abcdef", "ABCDEF", "ffffffff", "100000000", "0x10", "१"] {
        let expected = u32::from_str_radix(text, 16).unwrap_or(0xCD412B);
        assert_eq!(config_with_color(text).rust_color(), expected, "{}", text);
        let with_hash = format!("#{}", text);
        assert_eq!(config_with_color(&with_hash).rust_color(), expected, "{}", with_hash);
    }
}

#[test]
fn missing_field_messages() {
    assert!(Config::lacks_field("TOML parse error at line 1, column 1\nmissing field `database`\n"));
    assert!(Config::lacks_field("missing field"));
    assert!(!Config::lacks_field("invalid type: string \"x\", expected u64"));
    assert!(!Config::lacks_field("missing  field"));
    assert!(!Config::lacks_field(""));
}

#[test]
fn clone_keeps_every_field() {
    let mut config = Config::default();
    config.database.cleanup_keep_last = 5;
    config.monitoring.check_interval_secs = 9;
    let copy = config.clone();
    assert_eq!(copy, config);
}

#[test]
fn found_configuration_is_validated() {
    let good = config_with_webhook("https://discord.com/api/webhooks/1/x");
    assert_eq!(
        Config::load_or_create(Some(good.clone())),
        Ok(rust_commit_tracker::Setup::Ready(good))
    );
    assert_eq!(
        Config::load_or_create(Some(Config::default())),
        Err(ConfigError::WebhookNotConfigured)
    );
    assert_eq!(
        Config::load_or_create(Some(config_with_webhook("nope"))),
        Err(ConfigError::InvalidWebhookFormat { got: "nope".to_string() })
    );
}

#[test]
fn without_a_file_the_defaults_are_to_be_written() {
    assert_eq!(
        Config::load_or_create(None),
        Ok(rust_commit_tracker::Setup::FirstRun(Config::default()))
    );
}
