//! The response to `PullRequestByNumber`.

use vstd::prelude::*;

verus! {

pub struct ResponseData {
    pub node: Option<PullRequestByNumberNode>,
}

/// The node the query asked for: a repository, or a node of another type.
pub enum PullRequestByNumberNode {
    Repository(PullRequestByNumberRepository),
    Other,
}

pub struct PullRequestByNumberRepository {
    pub pull_request: Option<PullRequestByNumberPullRequest>,
}

pub struct PullRequestByNumberPullRequest {
    pub id: String,
}

} // verus!
