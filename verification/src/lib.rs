//! Sans-I/O core of a commit feed tracker: the delivery ledger, the
//! poll-dedupe-notify cycle as a state machine, the webhook payload and the
//! configuration rules. The caller performs the network and storage work and
//! feeds the outcomes back in.

pub mod clock;
pub mod commit;
pub mod config;
pub mod config_file;
pub mod cycle;
pub mod embed;
pub mod ledger;
pub mod notifier;
pub mod scraper;
pub mod text;
pub mod tracker;

pub use commit::{CommitInfo, CommitUser, CommitsResponse};
pub use config::{
    AppearanceConfig, Config, ConfigError, DatabaseConfig, DiscordConfig, MonitoringConfig, Setup,
};
pub use cycle::CycleReport;
pub use embed::{DiscordEmbed, EmbedAuthor, EmbedData, EmbedField, EmbedFooter};
pub use ledger::{Database, LedgerEntry, StorageError};
pub use notifier::{DiscordNotifier, NotifyError};
pub use scraper::{CommitResult, CommitScraper, FetchError};
pub use tracker::{Action, CommitTracker, CycleError, Event, Phase};
