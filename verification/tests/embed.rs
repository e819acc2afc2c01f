use rust_commit_tracker::{
    CommitInfo, CommitResult, CommitUser, Config, DiscordNotifier, NotifyError,
};

fn embed_result(total: u32, position: u32) -> CommitResult {
    CommitResult {
        commit: CommitInfo {
            id: 4242,
            repo: "rust_reboot".to_string(),
            branch: "main/naval".to_string(),
            changeset: "98765".to_string(),
            created: "2024-01-01T00:00:00".to_string(),
            likes: 0,
            dislikes: 0,
            message: "Boats float\nagain".to_string(),
            user: CommitUser {
                name: "Helk".to_string(),
                avatar: "https://example.com/helk.png".to_string(),
            },
        },
        total_commits: total,
        position,
    }
}

fn embed_notifier() -> DiscordNotifier {
    let mut config = Config::default();
    config.discord.webhook_url = "https://discord.com/api/webhooks/1/token".to_string();
    config.discord.bot_name = "Tracker".to_string();
    config.discord.bot_avatar_url = "https://example.com/bot.png".to_string();
    config.appearance.embed_color = "#00FF7F".to_string();
    config.appearance.footer_icon_url = "https://example.com/unused.png".to_string();
    config.monitoring.commits_url = "https://commits.example/?format=json".to_string();
    DiscordNotifier::new(config)
}

#[test]
fn embed_fields_are_rendered() {
    let embed = embed_notifier()
        .build_embed_at(&embed_result(123456, 1), "2024-05-06T07:08:09+00:00".to_string());
    assert_eq!(embed.embeds.len(), 1);
    let data = &embed.embeds[0];
    assert_eq!(data.title, "🔧 New Rust Commit");
    assert_eq!(data.description, "```\nBoats float\nagain\n```");
    assert_eq!(data.color, 0x00FF7F);
    assert_eq!(data.author.name, "Helk");
    assert_eq!(data.author.url, "https://commits.example/?format=json");
    assert_eq!(data.author.icon_url, "https://example.com/helk.png");
    assert_eq!(data.fields.len(), 3);
    assert_eq!(data.fields[0].name, "📁 Repository");
    assert_eq!(data.fields[0].value, "`rust_reboot`");
    assert!(data.fields[0].inline);
    assert_eq!(data.fields[1].name, "🌿 Branch");
    assert_eq!(data.fields[1].value, "`main/naval`");
    assert!(data.fields[1].inline);
    assert_eq!(data.fields[2].name, "🔗 Changeset");
    assert_eq!(data.fields[2].value, "[`98765`](https://commits.facepunch.com/4242)");
    assert!(data.fields[2].inline);
    assert_eq!(data.footer.text, "Tracker • Commit 123,456 of 123,456");
    assert_eq!(data.footer.icon_url, "https://example.com/bot.png");
    assert_eq!(data.timestamp, "2024-05-06T07:08:09+00:00");
}

#[test]
fn footer_counts_from_the_oldest() {
    let notifier = embed_notifier();
    let embed = notifier.build_embed_at(&embed_result(1000, 3), String::new());
    assert_eq!(embed.embeds[0].footer.text, "Tracker • Commit 998 of 1,000");
    let embed = notifier.build_embed_at(&embed_result(5, 5), String::new());
    assert_eq!(embed.embeds[0].footer.text, "Tracker • Commit 1 of 5");
    let embed = notifier.build_embed_at(&embed_result(4294967295, 1), String::new());
    assert_eq!(embed.embeds[0].footer.text, "Tracker • Commit 4,294,967,295 of 4,294,967,295");
    let embed = notifier.build_embed_at(&embed_result(7, 0), String::new());
    assert_eq!(embed.embeds[0].footer.text, "Tracker • Commit 8 of 7");
}

#[test]
fn footer_without_a_rank() {
    let notifier = embed_notifier();
    let embed = notifier.build_embed_at(&embed_result(0, 1), String::new());
    assert_eq!(embed.embeds[0].footer.text, "Tracker");
    let embed = notifier.build_embed_at(&embed_result(10, 11), String::new());
    assert_eq!(embed.embeds[0].footer.text, "Tracker");
    let embed = notifier.build_embed_at(&embed_result(4294967295, 0), String::new());
    assert_eq!(embed.embeds[0].footer.text, "Tracker");
}

#[test]
fn embed_is_stamped_with_the_current_time() {
    let notifier = embed_notifier();
    let result = embed_result(10, 1);
    let embed = notifier.build_embed(&result);
    let stamp = embed.embeds[0].timestamp.clone();
    assert!(stamp.len() >= 20, "{}", stamp);
    assert_eq!(&stamp[4..5], "-");
    assert_eq!(&stamp[10..11], "T");
    assert_eq!(embed, notifier.build_embed_at(&result, stamp));
}

#[test]
fn unreadable_color_gives_the_default() {
    let mut config = Config::default();
    config.appearance.embed_color = "orange".to_string();
    let embed = DiscordNotifier::new(config).build_embed_at(&embed_result(1, 1), String::new());
    assert_eq!(embed.embeds[0].color, 0xCD412B);
}

#[test]
fn numbers_are_grouped_by_thousands() {
    let notifier = embed_notifier();
    assert_eq!(notifier.format_number(0), "0");
    assert_eq!(notifier.format_number(7), "7");
    assert_eq!(notifier.format_number(999), "999");
    assert_eq!(notifier.format_number(1000), "1,000");
    assert_eq!(notifier.format_number(1001), "1,001");
    assert_eq!(notifier.format_number(12345), "12,345");
    assert_eq!(notifier.format_number(100000), "100,000");
    assert_eq!(notifier.format_number(1234567), "1,234,567");
    assert_eq!(notifier.format_number(1000000000), "1,000,000,000");
    assert_eq!(notifier.format_number(u32::MAX), "4,294,967,295");
}

#[test]
fn webhook_address_comes_from_the_configuration() {
    assert_eq!(embed_notifier().webhook_url(), "https://discord.com/api/webhooks/1/token");
}

#[test]
fn success_statuses_deliver() {
    assert_eq!(DiscordNotifier::delivery_outcome(200), Ok(()));
    assert_eq!(DiscordNotifier::delivery_outcome(204), Ok(()));
    assert_eq!(DiscordNotifier::delivery_outcome(299), Ok(()));
}

#[test]
fn other_statuses_are_rejections() {
    assert_eq!(DiscordNotifier::delivery_outcome(199), Err(NotifyError::Rejected { status: 199 }));
    assert_eq!(DiscordNotifier::delivery_outcome(300), Err(NotifyError::Rejected { status: 300 }));
    assert_eq!(DiscordNotifier::delivery_outcome(404), Err(NotifyError::Rejected { status: 404 }));
    assert_eq!(DiscordNotifier::delivery_outcome(429), Err(NotifyError::Rejected { status: 429 }));
    assert_eq!(DiscordNotifier::delivery_outcome(0), Err(NotifyError::Rejected { status: 0 }));
}

#[test]
fn notify_error_messages() {
    assert_eq!(
        NotifyError::Rejected { status: 404 }.message(),
        "Discord webhook failed with status: 404"
    );
    assert_eq!(NotifyError::Transport("connection reset".to_string()).message(), "connection reset");
}
