//! The configuration: its sections, the values a fresh installation starts
//! with, and the rules a loaded configuration has to pass.

use crate::text::{
    blank, chars_of, color_body, contains, is_blank, occurs_in, parse_hex, parse_hex_from,
    same_text, starts_with,
};
use vstd::prelude::*;
use vstd::string::*;

verus! {

/// Name of the file that holds the configuration.
pub const CONFIG_FILE: &'static str = "config.toml";

/// The accent colour used where the configured one cannot be read.
pub const DEFAULT_COLOR: u32 = 0xCD412B;

/// Slack above the retention count before the ledger is trimmed.
pub const CLEANUP_MARGIN: i64 = 100;

#[derive(Debug, PartialEq, Eq)]
pub struct DiscordConfig {
    pub webhook_url: String,
    pub bot_name: String,
    pub bot_avatar_url: String,
}

#[derive(Debug, PartialEq, Eq)]
pub struct MonitoringConfig {
    pub commits_url: String,
    pub check_interval_secs: u64,
}

#[derive(Debug, PartialEq, Eq)]
pub struct AppearanceConfig {
    pub embed_color: String,
    pub footer_icon_url: String,
}

#[derive(Debug, PartialEq, Eq)]
pub struct DatabaseConfig {
    pub url: String,
    pub cleanup_keep_last: i64,
}

#[derive(Debug, PartialEq, Eq)]
pub struct Config {
    pub discord: DiscordConfig,
    pub monitoring: MonitoringConfig,
    pub appearance: AppearanceConfig,
    pub database: DatabaseConfig,
}

pub struct DiscordConfigView {
    pub webhook_url: Seq<char>,
    pub bot_name: Seq<char>,
    pub bot_avatar_url: Seq<char>,
}

pub struct MonitoringConfigView {
    pub commits_url: Seq<char>,
    pub check_interval_secs: u64,
}

pub struct AppearanceConfigView {
    pub embed_color: Seq<char>,
    pub footer_icon_url: Seq<char>,
}

pub struct DatabaseConfigView {
    pub url: Seq<char>,
    pub cleanup_keep_last: i64,
}

pub struct ConfigView {
    pub discord: DiscordConfigView,
    pub monitoring: MonitoringConfigView,
    pub appearance: AppearanceConfigView,
    pub database: DatabaseConfigView,
}

impl View for DiscordConfig {
    type V = DiscordConfigView;

    open spec fn view(&self) -> DiscordConfigView {
        DiscordConfigView {
            webhook_url: self.webhook_url@,
            bot_name: self.bot_name@,
            bot_avatar_url: self.bot_avatar_url@,
        }
    }
}

impl View for MonitoringConfig {
    type V = MonitoringConfigView;

    open spec fn view(&self) -> MonitoringConfigView {
        MonitoringConfigView {
            commits_url: self.commits_url@,
            check_interval_secs: self.check_interval_secs,
        }
    }
}

impl View for AppearanceConfig {
    type V = AppearanceConfigView;

    open spec fn view(&self) -> AppearanceConfigView {
        AppearanceConfigView {
            embed_color: self.embed_color@,
            footer_icon_url: self.footer_icon_url@,
        }
    }
}

impl View for DatabaseConfig {
    type V = DatabaseConfigView;

    open spec fn view(&self) -> DatabaseConfigView {
        DatabaseConfigView { url: self.url@, cleanup_keep_last: self.cleanup_keep_last }
    }
}

impl View for Config {
    type V = ConfigView;

    open spec fn view(&self) -> ConfigView {
        ConfigView {
            discord: self.discord@,
            monitoring: self.monitoring@,
            appearance: self.appearance@,
            database: self.database@,
        }
    }
}

impl Clone for DiscordConfig {
    fn clone(&self) -> (r: Self)
        ensures
            r == *self,
    {
        DiscordConfig {
            webhook_url: self.webhook_url.clone(),
            bot_name: self.bot_name.clone(),
            bot_avatar_url: self.bot_avatar_url.clone(),
        }
    }
}

impl Clone for MonitoringConfig {
    fn clone(&self) -> (r: Self)
        ensures
            r == *self,
    {
        MonitoringConfig {
            commits_url: self.commits_url.clone(),
            check_interval_secs: self.check_interval_secs,
        }
    }
}

impl Clone for AppearanceConfig {
    fn clone(&self) -> (r: Self)
        ensures
            r == *self,
    {
        AppearanceConfig {
            embed_color: self.embed_color.clone(),
            footer_icon_url: self.footer_icon_url.clone(),
        }
    }
}

impl Clone for DatabaseConfig {
    fn clone(&self) -> (r: Self)
        ensures
            r == *self,
    {
        DatabaseConfig { url: self.url.clone(), cleanup_keep_last: self.cleanup_keep_last }
    }
}

impl Clone for Config {
    fn clone(&self) -> (r: Self)
        ensures
            r == *self,
    {
        Config {
            discord: self.discord.clone(),
            monitoring: self.monitoring.clone(),
            appearance: self.appearance.clone(),
            database: self.database.clone(),
        }
    }
}

/// Why a configuration is refused.
#[derive(Debug, PartialEq, Eq)]
pub enum ConfigError {
    /// The webhook address is still the placeholder, or blank.
    WebhookNotConfigured,
    /// The webhook address does not begin as a Discord webhook does.
    InvalidWebhookFormat { got: String },
    /// The configuration file is no TOML document.
    Malformed { detail: String },
}

pub enum ConfigErrorView {
    WebhookNotConfigured,
    InvalidWebhookFormat { got: Seq<char> },
    Malformed { detail: Seq<char> },
}

impl View for ConfigError {
    type V = ConfigErrorView;

    open spec fn view(&self) -> ConfigErrorView {
        match self {
            ConfigError::WebhookNotConfigured => ConfigErrorView::WebhookNotConfigured,
            ConfigError::InvalidWebhookFormat { got } => ConfigErrorView::InvalidWebhookFormat {
                got: got@,
            },
            ConfigError::Malformed { detail } => ConfigErrorView::Malformed { detail: detail@ },
        }
    }
}

/// What an error says to the operator.
pub open spec fn error_text(e: ConfigErrorView) -> Seq<char> {
    match e {
        ConfigErrorView::WebhookNotConfigured =>
            "❌ Discord webhook URL not configured!\nPlease edit 'config.toml' and set a valid Discord webhook URL.\nYou can get one from your Discord server settings → Integrations → Webhooks"@,
        ConfigErrorView::InvalidWebhookFormat { got } =>
            "❌ Invalid Discord webhook URL format!\nExpected: https://discord.com/api/webhooks/...\nGot: "@
                + got,
        ConfigErrorView::Malformed { detail } => detail,
    }
}

impl ConfigError {
    /// The error in words.
    pub fn message(&self) -> (r: String)
        ensures
            r@ == error_text(self@),
    {
        match self {
            ConfigError::WebhookNotConfigured => String::from_str(
                "❌ Discord webhook URL not configured!\nPlease edit 'config.toml' and set a valid Discord webhook URL.\nYou can get one from your Discord server settings → Integrations → Webhooks",
            ),
            ConfigError::InvalidWebhookFormat { got } => {
                let mut out = String::from_str(
                    "❌ Invalid Discord webhook URL format!\nExpected: https://discord.com/api/webhooks/...\nGot: ",
                );
                out.append(got.as_str());
                out
            },
            ConfigError::Malformed { detail } => detail.clone(),
        }
    }
}

/// What to run with, given what the configuration file held.
#[derive(Debug, PartialEq, Eq)]
pub enum Setup {
    /// The file held a configuration that passes the rules: run with it.
    Ready(Config),
    /// There was no file: write these defaults to it, have the operator
    /// edit them, and load again.
    FirstRun(Config),
}

/// The webhook address that a fresh configuration file holds.
pub open spec fn placeholder_webhook_url() -> Seq<char> {
    "REPLACE_WITH_YOUR_DISCORD_WEBHOOK_URL"@
}

/// Whether the webhook address was never filled in.
pub open spec fn webhook_unset(url: Seq<char>) -> bool {
    url == placeholder_webhook_url() || blank(url)
}

/// Whether the address begins as a Discord webhook does.
pub open spec fn webhook_well_formed(url: Seq<char>) -> bool {
    "https://discord.com/api/webhooks/"@.is_prefix_of(url)
        || "https://discordapp.com/api/webhooks/"@.is_prefix_of(url)
}

/// The verdict on a configuration: the first rule it breaks, if any.
pub open spec fn verdict(c: ConfigView) -> Result<(), ConfigErrorView> {
    if webhook_unset(c.discord.webhook_url) {
        Err(ConfigErrorView::WebhookNotConfigured)
    } else if !webhook_well_formed(c.discord.webhook_url) {
        Err(ConfigErrorView::InvalidWebhookFormat { got: c.discord.webhook_url })
    } else {
        Ok(())
    }
}

/// The colour that `s` writes: hexadecimal digits, after a `#` or bare; the
/// default colour where they cannot be read.
pub open spec fn color_of(s: Seq<char>) -> u32 {
    match parse_hex(color_body(s)) {
        Some(v) => v,
        None => DEFAULT_COLOR,
    }
}

/// The configuration of a fresh installation.
pub open spec fn default_config() -> ConfigView {
    ConfigView {
        discord: DiscordConfigView {
            webhook_url: placeholder_webhook_url(),
            bot_name: "Rust Commit Tracker"@,
            bot_avatar_url: "https://i.imgur.com/on47Qk9.png"@,
        },
        monitoring: MonitoringConfigView {
            commits_url: "https://commits.facepunch.com/?format=json"@,
            check_interval_secs: 50,
        },
        appearance: AppearanceConfigView {
            embed_color: "#CD412B"@,
            footer_icon_url: "https://i.imgur.com/on47Qk9.png"@,
        },
        database: DatabaseConfigView { url: "sqlite:commits.db"@, cleanup_keep_last: 1000 },
    }
}

impl Config {
    /// Holds the configuration to the rules it has to pass before the tracker
    /// runs, and names the first that it breaks.
    pub fn validate(&self) -> (r: Result<(), ConfigError>)
        ensures
            match r {
                Ok(()) => verdict(self@) is Ok,
                Err(e) => verdict(self@) == Err::<(), ConfigErrorView>(e@),
            },
    {
        let url = self.discord.webhook_url.as_str();
        if same_text(url, "REPLACE_WITH_YOUR_DISCORD_WEBHOOK_URL") || is_blank(url) {
            return Err(ConfigError::WebhookNotConfigured);
        }
        if !starts_with(url, "https://discord.com/api/webhooks/") && !starts_with(
            url,
            "https://discordapp.com/api/webhooks/",
        ) {
            return Err(ConfigError::InvalidWebhookFormat { got: self.discord.webhook_url.clone() });
        }
        Ok(())
    }

    /// Decides how to come by the configuration, given what the
    /// configuration file held, `None` standing for no file: a configuration
    /// that was found is validated and, where it passes, is the one to run
    /// with; where none was found, the defaults are to be written out first.
    pub fn load_or_create(found: Option<Config>) -> (r: Result<Setup, ConfigError>)
        ensures
            match found {
                Some(config) => match r {
                    Ok(Setup::Ready(ready)) => verdict(config@) is Ok && ready == config,
                    Ok(Setup::FirstRun(_)) => false,
                    Err(e) => verdict(config@) == Err::<(), ConfigErrorView>(e@),
                },
                None => match r {
                    Ok(Setup::FirstRun(defaults)) => defaults@ == default_config(),
                    _ => false,
                },
            },
    {
        match found {
            Some(config) => match config.validate() {
                Ok(_) => Ok(Setup::Ready(config)),
                Err(e) => Err(e),
            },
            None => Ok(Setup::FirstRun(Config::default())),
        }
    }

    /// The accent colour as a number.
    pub fn rust_color(&self) -> (c: u32)
        ensures
            c == color_of(self.appearance.embed_color@),
    {
        let text = chars_of(self.appearance.embed_color.as_str());
        let from: usize = if text.len() > 0 && text[0] == '#' {
            1
        } else {
            0
        };
        assert(text@.skip(from as int) == color_body(self.appearance.embed_color@));
        match parse_hex_from(&text, from) {
            Some(v) => v,
            None => DEFAULT_COLOR,
        }
    }

    /// Whether the message of a failed parse says that a field is missing, so
    /// that the file is to be completed from the defaults.
    pub fn lacks_field(parse_error: &str) -> (b: bool)
        ensures
            b == occurs_in("missing field"@, parse_error@),
    {
        contains(parse_error, "missing field")
    }
}

impl Default for Config {
    fn default() -> (r: Self)
        ensures
            r@ == default_config(),
    {
        Config {
            discord: DiscordConfig {
                webhook_url: String::from_str("REPLACE_WITH_YOUR_DISCORD_WEBHOOK_URL"),
                bot_name: String::from_str("Rust Commit Tracker"),
                bot_avatar_url: String::from_str("https://i.imgur.com/on47Qk9.png"),
            },
            monitoring: MonitoringConfig {
                commits_url: String::from_str("https://commits.facepunch.com/?format=json"),
                check_interval_secs: 50,
            },
            appearance: AppearanceConfig {
                embed_color: String::from_str("#CD412B"),
                footer_icon_url: String::from_str("https://i.imgur.com/on47Qk9.png"),
            },
            database: DatabaseConfig {
                url: String::from_str("sqlite:commits.db"),
                cleanup_keep_last: 1000,
            },
        }
    }
}

} // verus!
