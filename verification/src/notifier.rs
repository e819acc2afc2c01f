//! Rendering a commit as a webhook message, and reading the webhook's answer.

use crate::clock::now_rfc3339;
use crate::commit::link_of;
use crate::config::{color_of, Config, ConfigView};
use crate::embed::{
    DiscordEmbed, DiscordEmbedView, EmbedAuthor, EmbedAuthorView, EmbedData, EmbedDataView,
    EmbedField, EmbedFieldView, EmbedFooter, EmbedFooterView,
};
use crate::scraper::{CommitResult, CommitResultView};
use crate::text::{append_decimal, append_grouped, decimal, grouped};
use vstd::prelude::*;
use vstd::string::*;

verus! {

/// Why a notification did not go out.
#[derive(Debug, PartialEq, Eq)]
pub enum NotifyError {
    /// The webhook could not be reached.
    Transport(String),
    /// The webhook answered with a status outside 200..=299.
    Rejected { status: u16 },
}

pub enum NotifyErrorView {
    Transport(Seq<char>),
    Rejected { status: u16 },
}

impl View for NotifyError {
    type V = NotifyErrorView;

    open spec fn view(&self) -> NotifyErrorView {
        match self {
            NotifyError::Transport(detail) => NotifyErrorView::Transport(detail@),
            NotifyError::Rejected { status } => NotifyErrorView::Rejected { status: *status },
        }
    }
}

/// What a notification error says to the operator.
pub open spec fn notify_error_text(e: NotifyErrorView) -> Seq<char> {
    match e {
        NotifyErrorView::Transport(detail) => detail,
        NotifyErrorView::Rejected { status } => "Discord webhook failed with status: "@ + decimal(
            status as nat,
        ),
    }
}

impl NotifyError {
    /// The error in words.
    pub fn message(&self) -> (r: String)
        ensures
            r@ == notify_error_text(self@),
    {
        match self {
            NotifyError::Transport(detail) => detail.clone(),
            NotifyError::Rejected { status } => {
                let mut out = String::from_str("Discord webhook failed with status: ");
                append_decimal(&mut out, *status as u64);
                out
            },
        }
    }
}

/// The rank of a commit counted from the oldest, given its position counted
/// from the newest: `total - position + 1`, where that is a number of 32 bits.
pub open spec fn rank_from_oldest(total: u32, position: u32) -> Option<u32> {
    if position <= total && total - position + 1 <= u32::MAX {
        Some((total - position + 1) as u32)
    } else {
        None
    }
}

/// The footer line: the bot's name and, where the commit has a rank, which
/// commit of how many this is.
pub open spec fn footer_text(bot_name: Seq<char>, total: u32, position: u32) -> Seq<char> {
    match rank_from_oldest(total, position) {
        Some(rank) => bot_name + " • Commit "@ + grouped(rank as nat) + " of "@ + grouped(
            total as nat,
        ),
        None => bot_name,
    }
}

/// One field of the embed, shown in line with its neighbours.
pub open spec fn inline_field(name: Seq<char>, value: Seq<char>) -> EmbedFieldView {
    EmbedFieldView { name, value, inline: true }
}

/// The message that announces `result` under `config`, stamped `timestamp`.
pub open spec fn embed_of(
    config: ConfigView,
    result: CommitResultView,
    timestamp: Seq<char>,
) -> DiscordEmbedView {
    let commit = result.commit;
    DiscordEmbedView {
        embeds: seq![
            EmbedDataView {
                title: "🔧 New Rust Commit"@,
                description: "```\n"@ + commit.message + "\n```"@,
                color: color_of(config.appearance.embed_color),
                author: EmbedAuthorView {
                    name: commit.user.name,
                    url: config.monitoring.commits_url,
                    icon_url: commit.user.avatar,
                },
                fields: seq![
                    inline_field("📁 Repository"@, "`"@ + commit.repo + "`"@),
                    inline_field("🌿 Branch"@, "`"@ + commit.branch + "`"@),
                    inline_field(
                        "🔗 Changeset"@,
                        "[`"@ + commit.changeset + "`]("@ + link_of(commit.id) + ")"@,
                    ),
                ],
                footer: EmbedFooterView {
                    text: footer_text(
                        config.discord.bot_name,
                        result.total_commits,
                        result.position,
                    ),
                    icon_url: config.discord.bot_avatar_url,
                },
                timestamp,
            },
        ],
    }
}

/// Whether an HTTP status reports success.
pub open spec fn status_is_success(status: u16) -> bool {
    200 <= status < 300
}

/// `left`, `middle` and `right` in one string.
fn wrap(left: &str, middle: &str, right: &str) -> (r: String)
    ensures
        r@ == left@ + middle@ + right@,
{
    let mut out = String::from_str(left);
    out.append(middle);
    out.append(right);
    out
}

fn field(name: &str, value: String) -> (r: EmbedField)
    ensures
        r@ == inline_field(name@, value@),
{
    EmbedField { name: String::from_str(name), value, inline: true }
}

/// Renders commits as webhook messages.
#[derive(Debug)]
pub struct DiscordNotifier {
    config: Config,
}

impl DiscordNotifier {
    /// The configuration that the messages are rendered under.
    pub closed spec fn config(&self) -> ConfigView {
        self.config@
    }

    pub fn new(config: Config) -> (r: Self)
        ensures
            r.config() == config@,
    {
        DiscordNotifier { config }
    }

    /// The address that the messages are to be posted to.
    pub fn webhook_url(&self) -> (r: &str)
        ensures
            r@ == self.config().discord.webhook_url,
    {
        self.config.discord.webhook_url.as_str()
    }

    /// The message that announces `result`, stamped with the current time.
    /// Everything but the stamp is fixed by the arguments.
    pub fn build_embed(&self, result: &CommitResult) -> (r: DiscordEmbed)
        ensures
            r@.embeds.len() == 1,
            r@ == embed_of(self.config(), result@, r@.embeds[0].timestamp),
    {
        let stamp = now_rfc3339();
        self.build_embed_at(result, stamp)
    }

    /// The message that announces `result`, stamped `timestamp`.
    pub fn build_embed_at(&self, result: &CommitResult, timestamp: String) -> (r: DiscordEmbed)
        ensures
            r@ == embed_of(self.config(), result@, timestamp@),
    {
        let commit = &result.commit;
        let link = commit.link();
        let mut changeset = wrap("[`", commit.changeset.as_str(), "`](");
        changeset.append(link.as_str());
        changeset.append(")");
        let mut fields: Vec<EmbedField> = Vec::new();
        fields.push(field("📁 Repository", wrap("`", commit.repo.as_str(), "`")));
        fields.push(field("🌿 Branch", wrap("`", commit.branch.as_str(), "`")));
        fields.push(field("🔗 Changeset", changeset));
        let data = EmbedData {
            title: String::from_str("🔧 New Rust Commit"),
            description: wrap("```\n", commit.message.as_str(), "\n```"),
            color: self.config.rust_color(),
            author: EmbedAuthor {
                name: String::from_str(commit.author()),
                url: self.config.monitoring.commits_url.clone(),
                icon_url: String::from_str(commit.avatar_url()),
            },
            fields,
            footer: EmbedFooter {
                text: self.footer(result.total_commits, result.position),
                icon_url: self.config.discord.bot_avatar_url.clone(),
            },
            timestamp,
        };
        let ghost want = embed_of(self.config(), result@, timestamp@);
        assert(data@.fields =~= want.embeds[0].fields);
        assert(data@ == want.embeds[0]);
        let mut embeds: Vec<EmbedData> = Vec::new();
        embeds.push(data);
        let r = DiscordEmbed { embeds };
        assert(r@.embeds =~= want.embeds);
        r
    }

    /// The footer line for a commit at `position` of `total`.
    fn footer(&self, total: u32, position: u32) -> (r: String)
        ensures
            r@ == footer_text(self.config().discord.bot_name, total, position),
    {
        let mut out = self.config.discord.bot_name.clone();
        if position <= total && total - position < u32::MAX {
            let rank: u32 = total - position + 1;
            out.append(" • Commit ");
            append_grouped(&mut out, rank as u64);
            out.append(" of ");
            append_grouped(&mut out, total as u64);
        }
        out
    }

    /// `num` in decimal, with a comma between each group of three digits.
    pub fn format_number(&self, num: u32) -> (r: String)
        ensures
            r@ == grouped(num as nat),
    {
        let mut out = String::new();
        append_grouped(&mut out, num as u64);
        assert(out@ =~= grouped(num as nat));
        out
    }

    /// What the webhook's answer means: delivered where the status reports
    /// success, rejected with that status otherwise.
    pub fn delivery_outcome(status: u16) -> (r: Result<(), NotifyError>)
        ensures
            status_is_success(status) ==> r == Ok::<(), NotifyError>(()),
            !status_is_success(status) ==> r == Err::<(), NotifyError>(
                NotifyError::Rejected { status },
            ),
    {
        if 200 <= status && status < 300 {
            Ok(())
        } else {
            Err(NotifyError::Rejected { status })
        }
    }
}

} // verus!
