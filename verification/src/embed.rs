//! The message that is posted to the webhook.

use vstd::prelude::*;
use vstd::string::*;

verus! {

/// The body of a webhook post: a list of embeds.
#[derive(Debug, PartialEq, Eq)]
pub struct DiscordEmbed {
    pub embeds: Vec<EmbedData>,
}

/// One embed: a titled card with an author block, fields and a footer.
#[derive(Debug, PartialEq, Eq)]
pub struct EmbedData {
    pub title: String,
    pub description: String,
    pub color: u32,
    pub author: EmbedAuthor,
    pub fields: Vec<EmbedField>,
    pub footer: EmbedFooter,
    pub timestamp: String,
}

#[derive(Debug, PartialEq, Eq)]
pub struct EmbedAuthor {
    pub name: String,
    pub url: String,
    pub icon_url: String,
}

#[derive(Debug, PartialEq, Eq)]
pub struct EmbedField {
    pub name: String,
    pub value: String,
    pub inline: bool,
}

#[derive(Debug, PartialEq, Eq)]
pub struct EmbedFooter {
    pub text: String,
    pub icon_url: String,
}

pub struct DiscordEmbedView {
    pub embeds: Seq<EmbedDataView>,
}

pub struct EmbedDataView {
    pub title: Seq<char>,
    pub description: Seq<char>,
    pub color: u32,
    pub author: EmbedAuthorView,
    pub fields: Seq<EmbedFieldView>,
    pub footer: EmbedFooterView,
    pub timestamp: Seq<char>,
}

pub struct EmbedAuthorView {
    pub name: Seq<char>,
    pub url: Seq<char>,
    pub icon_url: Seq<char>,
}

pub struct EmbedFieldView {
    pub name: Seq<char>,
    pub value: Seq<char>,
    pub inline: bool,
}

pub struct EmbedFooterView {
    pub text: Seq<char>,
    pub icon_url: Seq<char>,
}

impl View for EmbedAuthor {
    type V = EmbedAuthorView;

    open spec fn view(&self) -> EmbedAuthorView {
        EmbedAuthorView { name: self.name@, url: self.url@, icon_url: self.icon_url@ }
    }
}

impl View for EmbedField {
    type V = EmbedFieldView;

    open spec fn view(&self) -> EmbedFieldView {
        EmbedFieldView { name: self.name@, value: self.value@, inline: self.inline }
    }
}

impl View for EmbedFooter {
    type V = EmbedFooterView;

    open spec fn view(&self) -> EmbedFooterView {
        EmbedFooterView { text: self.text@, icon_url: self.icon_url@ }
    }
}

impl View for EmbedData {
    type V = EmbedDataView;

    open spec fn view(&self) -> EmbedDataView {
        EmbedDataView {
            title: self.title@,
            description: self.description@,
            color: self.color,
            author: self.author@,
            fields: self.fields@.map_values(|f: EmbedField| f@),
            footer: self.footer@,
            timestamp: self.timestamp@,
        }
    }
}

impl View for DiscordEmbed {
    type V = DiscordEmbedView;

    open spec fn view(&self) -> DiscordEmbedView {
        DiscordEmbedView { embeds: self.embeds@.map_values(|e: EmbedData| e@) }
    }
}

} // verus!
