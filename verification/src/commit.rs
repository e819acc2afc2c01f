//! What the commit feed reports.

use crate::text::{append_signed_decimal, signed_decimal};
use vstd::prelude::*;
use vstd::string::*;

verus! {

/// Who made a commit.
#[derive(Debug, PartialEq, Eq)]
pub struct CommitUser {
    pub name: String,
    pub avatar: String,
}

/// One commit as the feed lists it.
#[derive(Debug, PartialEq, Eq)]
pub struct CommitInfo {
    pub id: i32,
    pub repo: String,
    pub branch: String,
    pub changeset: String,
    pub created: String,
    pub likes: u32,
    pub dislikes: u32,
    pub message: String,
    pub user: CommitUser,
}

/// One page of the feed: the newest commits first, and how many there are in all.
#[derive(Debug, PartialEq, Eq)]
pub struct CommitsResponse {
    pub total: u32,
    pub skip: u32,
    pub take: u32,
    pub results: Vec<CommitInfo>,
}

pub struct CommitUserView {
    pub name: Seq<char>,
    pub avatar: Seq<char>,
}

pub struct CommitInfoView {
    pub id: i32,
    pub repo: Seq<char>,
    pub branch: Seq<char>,
    pub changeset: Seq<char>,
    pub created: Seq<char>,
    pub likes: u32,
    pub dislikes: u32,
    pub message: Seq<char>,
    pub user: CommitUserView,
}

pub struct CommitsResponseView {
    pub total: u32,
    pub skip: u32,
    pub take: u32,
    pub results: Seq<CommitInfoView>,
}

impl View for CommitUser {
    type V = CommitUserView;

    open spec fn view(&self) -> CommitUserView {
        CommitUserView { name: self.name@, avatar: self.avatar@ }
    }
}

impl View for CommitInfo {
    type V = CommitInfoView;

    open spec fn view(&self) -> CommitInfoView {
        CommitInfoView {
            id: self.id,
            repo: self.repo@,
            branch: self.branch@,
            changeset: self.changeset@,
            created: self.created@,
            likes: self.likes,
            dislikes: self.dislikes,
            message: self.message@,
            user: self.user@,
        }
    }
}

impl View for CommitsResponse {
    type V = CommitsResponseView;

    open spec fn view(&self) -> CommitsResponseView {
        CommitsResponseView {
            total: self.total,
            skip: self.skip,
            take: self.take,
            results: self.results@.map_values(|c: CommitInfo| c@),
        }
    }
}

impl Clone for CommitUser {
    fn clone(&self) -> (r: Self)
        ensures
            r == *self,
    {
        CommitUser { name: self.name.clone(), avatar: self.avatar.clone() }
    }
}

impl Clone for CommitInfo {
    fn clone(&self) -> (r: Self)
        ensures
            r == *self,
    {
        CommitInfo {
            id: self.id,
            repo: self.repo.clone(),
            branch: self.branch.clone(),
            changeset: self.changeset.clone(),
            created: self.created.clone(),
            likes: self.likes,
            dislikes: self.dislikes,
            message: self.message.clone(),
            user: self.user.clone(),
        }
    }
}

/// The address of the page that shows the commit numbered `id`.
pub open spec fn link_of(id: i32) -> Seq<char> {
    "https://commits.facepunch.com/"@ + signed_decimal(id as int)
}

impl CommitInfo {
    /// The address of the page that shows this commit.
    pub fn link(&self) -> (r: String)
        ensures
            r@ == link_of(self.id),
    {
        let mut out = String::from_str("https://commits.facepunch.com/");
        append_signed_decimal(&mut out, self.id as i64);
        out
    }

    /// The address of the author's picture.
    pub fn avatar_url(&self) -> (r: &str)
        ensures
            r@ == self.user.avatar@,
    {
        self.user.avatar.as_str()
    }

    /// The author's display name.
    pub fn author(&self) -> (r: &str)
        ensures
            r@ == self.user.name@,
    {
        self.user.name.as_str()
    }
}

} // verus!
