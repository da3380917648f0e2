//! Pull request events.

use vstd::prelude::*;

use crate::config::{spec_has_possible_rule, AppConfig};
use crate::utils::rules::{classify_user, is_dependabot_account, Author, UserType};

verus! {

/// What happened to a pull request.
#[derive(Clone, Copy, PartialEq, Eq, Debug, Structural)]
pub enum PullRequestAction {
    Opened,
    Edited,
    Reopened,
    Synchronize,
    ReadyForReview,
    /// any other action
    Other,
}

/// The actions after which the pull request's eligibility may have changed.
pub open spec fn action_may_change_eligibility(action: PullRequestAction) -> bool {
    action != PullRequestAction::Other
}

/// Whether a pull request event asks for an automerge update: the action may change the
/// pull request's eligibility, the event names the repository, and some rule may apply
/// to the repository and the pull request's author.
pub open spec fn spec_pr_event_triggers_update(
    rules: Seq<crate::config::AutomergeRule>,
    action: PullRequestAction,
    repo_full_name: Option<Seq<char>>,
    author: Author,
) -> bool {
    &&& action_may_change_eligibility(action)
    &&& repo_full_name matches Some(repo) && spec_has_possible_rule(
        rules,
        repo,
        if is_dependabot_account(author) {
            UserType::Dependabot
        } else {
            UserType::Unknown
        },
    )
}

/// Whether a pull request event asks for an automerge update of the pull request.
pub fn pr_event_triggers_update(
    config: &AppConfig,
    action: PullRequestAction,
    repo_full_name: Option<&str>,
    author: &Author,
) -> (r: bool)
    ensures
        r == spec_pr_event_triggers_update(
            config.rules@,
            action,
            match repo_full_name {
                Some(n) => Some(n@),
                None => None,
            },
            *author,
        ),
{
    // action types we care about
    if !matches!(
        action,
        PullRequestAction::ReadyForReview | PullRequestAction::Opened | PullRequestAction::Reopened
            | PullRequestAction::Synchronize | PullRequestAction::Edited
    ) {
        return false;
    }
    // check if the repo is in our config - if not, quit immediately
    match repo_full_name {
        Some(repo) => config.has_possible_rule(repo, classify_user(author)),
        None => false,
    }
}

} // verus!
