//! Picking the latest commit out of what the feed answered.

use crate::commit::{CommitInfo, CommitInfoView, CommitsResponse};
use vstd::prelude::*;
use vstd::string::*;

verus! {

/// The latest commit together with its place in the feed.
#[derive(Debug, PartialEq, Eq)]
pub struct CommitResult {
    pub commit: CommitInfo,
    pub total_commits: u32,
    /// Position in the feed's list; 1 is the latest.
    pub position: u32,
}

pub struct CommitResultView {
    pub commit: CommitInfoView,
    pub total_commits: u32,
    pub position: u32,
}

impl View for CommitResult {
    type V = CommitResultView;

    open spec fn view(&self) -> CommitResultView {
        CommitResultView {
            commit: self.commit@,
            total_commits: self.total_commits,
            position: self.position,
        }
    }
}

impl Clone for CommitResult {
    fn clone(&self) -> (r: Self)
        ensures
            r == *self,
    {
        CommitResult {
            commit: self.commit.clone(),
            total_commits: self.total_commits,
            position: self.position,
        }
    }
}

/// Why the feed gave no commit.
#[derive(Debug, PartialEq, Eq)]
pub enum FetchError {
    /// The feed could not be reached.
    Unreachable(String),
    /// The feed answered with something that is no list of commits.
    Malformed(String),
    /// The feed answered with an empty list.
    NoCommits,
}

pub enum FetchErrorView {
    Unreachable(Seq<char>),
    Malformed(Seq<char>),
    NoCommits,
}

impl View for FetchError {
    type V = FetchErrorView;

    open spec fn view(&self) -> FetchErrorView {
        match self {
            FetchError::Unreachable(detail) => FetchErrorView::Unreachable(detail@),
            FetchError::Malformed(detail) => FetchErrorView::Malformed(detail@),
            FetchError::NoCommits => FetchErrorView::NoCommits,
        }
    }
}

/// What a fetch error says to the operator.
pub open spec fn fetch_error_text(e: FetchErrorView) -> Seq<char> {
    match e {
        FetchErrorView::Unreachable(detail) => detail,
        FetchErrorView::Malformed(detail) => detail,
        FetchErrorView::NoCommits => "No commits found in response"@,
    }
}

impl FetchError {
    /// The error in words.
    pub fn message(&self) -> (r: String)
        ensures
            r@ == fetch_error_text(self@),
    {
        match self {
            FetchError::Unreachable(detail) => detail.clone(),
            FetchError::Malformed(detail) => detail.clone(),
            FetchError::NoCommits => String::from_str("No commits found in response"),
        }
    }
}

/// Reads the feed's answers.
#[derive(Debug)]
pub struct CommitScraper {}

impl CommitScraper {
    pub fn new() -> (r: Self) {
        CommitScraper {  }
    }

    /// The latest commit of one page of the feed: the first of the list, at
    /// position 1. An empty list is an error.
    pub fn fetch_latest_commit(&self, response: CommitsResponse) -> (r: Result<
        CommitResult,
        FetchError,
    >)
        ensures
            response.results@.len() == 0 ==> r == Err::<CommitResult, FetchError>(
                FetchError::NoCommits,
            ),
            response.results@.len() > 0 ==> r == Ok::<CommitResult, FetchError>(
                CommitResult {
                    commit: response.results@[0],
                    total_commits: response.total,
                    position: 1,
                },
            ),
    {
        let total: u32 = response.total;
        let mut results = response.results;
        if results.len() == 0 {
            return Err(FetchError::NoCommits);
        }
        let commit = results.swap_remove(0);
        Ok(CommitResult { commit, total_commits: total, position: 1 })
    }
}

impl Default for CommitScraper {
    fn default() -> (r: Self) {
        CommitScraper::new()
    }
}

} // verus!
