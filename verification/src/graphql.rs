//! The GitHub GraphQL operations the app sends, and the parts of their responses
//! that the automerge decisions read.

pub mod check_permission;
pub mod pull_request_by_number;
pub mod pull_request_query;

use vstd::prelude::*;

use pull_request_query::{ActorProps, ActorPropsOn};

verus! {

/// Query: everything the automerge rules need to know about a pull request.
pub struct PullRequestQuery;

/// Mutation: remove a pull request from the merge queue.
pub struct DequeuePullRequest;

/// Mutation: add a pull request to the merge queue.
pub struct EnqueuePullRequest;

/// Mutation: turn off GitHub's automerge on a pull request.
pub struct DisableAutomerge;

/// Mutation: turn on GitHub's automerge on a pull request.
pub struct EnableAutomerge;

/// Mutation: merge a pull request right away.
pub struct MergePullRequest;

/// Query: the permission a user has on a repository.
pub struct CheckPermission;

/// Mutation: comment on an issue or pull request.
pub struct AddComment;

/// Query: the node id of a pull request given its repository and number.
pub struct PullRequestByNumber;

/// Mutation: approve a pull request with a review.
pub struct Approve;

/// Mutation: dismiss a review.
pub struct DismissReview;

/// The node id of an actor, whatever kind of account it is.
pub open spec fn spec_actor_id(actor: ActorProps) -> Seq<char> {
    match actor.on {
        ActorPropsOn::Bot(id) => id@,
        ActorPropsOn::EnterpriseUserAccount(id) => id@,
        ActorPropsOn::Mannequin(id) => id@,
        ActorPropsOn::Organization(id) => id@,
        ActorPropsOn::User(id) => id@,
    }
}

/// The node id of an actor.
pub fn actor_id(actor: &ActorProps) -> (r: &str)
    ensures
        r@ == spec_actor_id(*actor),
{
    match &actor.on {
        ActorPropsOn::Bot(x) => x.as_str(),
        ActorPropsOn::EnterpriseUserAccount(x) => x.as_str(),
        ActorPropsOn::Mannequin(x) => x.as_str(),
        ActorPropsOn::Organization(x) => x.as_str(),
        ActorPropsOn::User(x) => x.as_str(),
    }
}

} // verus!
