//! The basic form of the automerge rules:
//! it neither needs nor looks at the check runs of a pull request's last commit, and an
//! absent dependency group or update type matches no listed name.

use vstd::prelude::*;

pub use crate::utils::rules::{classify_user, Author, EligibleResult, UserType};

use crate::config::{AppConfig, DependabotRule};
use crate::dependabot::DependabotCommit;
use crate::graphql::pull_request_query::{ActorProps, PullRequestQueryNodeOnPullRequest, ResponseData};
use crate::utils::rules::{eligibility, eligibility_fits, spec_dependabot_failure, spec_eligibility};

verus! {

/// Decides, by the basic form of the rules, whether a pull request may be merged
/// automatically, and by which rule. Entry `i` of `commit_metadata` is the metadata
/// parsed from the message of the commit at index `i` of the pull request.
pub fn check_automerge_eligibility<'a>(
    config: &'a AppConfig,
    response: &ResponseData,
    commit_metadata: &Vec<Option<DependabotCommit>>,
) -> (r: EligibleResult<'a>)
    requires
        eligibility_fits(config.rules@, *response, commit_metadata@, true),
    ensures
        r@ == spec_eligibility(config.rules@, *response, commit_metadata@, true),
{
    match eligibility(config, response, commit_metadata, true) {
        Some(r) => r,
        None => {
            proof {
                assert(false);
            }
            EligibleResult::NoRuleFound(Vec::new())
        },
    }
}

/// The basic form of the eligibility check on every input: `None` exactly where the
/// changed lines of a pull request that a tried rule limits pass `u64::MAX`, the check's
/// result on all other inputs.
pub fn try_check_automerge_eligibility<'a>(
    config: &'a AppConfig,
    response: &ResponseData,
    commit_metadata: &Vec<Option<DependabotCommit>>,
) -> (r: Option<EligibleResult<'a>>)
    ensures
        r is None <==> !eligibility_fits(config.rules@, *response, commit_metadata@, true),
        r matches Some(x) ==> x@ == spec_eligibility(config.rules@, *response, commit_metadata@, true),
{
    eligibility(config, response, commit_metadata, true)
}

/// Why the pull request does not match the dependabot rule by the basic form of the
/// rules, if it does not. Entry `i` of `commit_metadata` is the metadata parsed from the
/// message of the commit at index `i`.
pub fn match_dependabot_rule(
    rule: &DependabotRule,
    pull_request: &PullRequestQueryNodeOnPullRequest,
    pr_author: &ActorProps,
    commit_metadata: &Vec<Option<DependabotCommit>>,
) -> (r: Option<&'static str>)
    ensures
        match r {
            Some(m) => spec_dependabot_failure(*rule, *pull_request, *pr_author, commit_metadata@, true)
                == Some(m@),
            None => spec_dependabot_failure(*rule, *pull_request, *pr_author, commit_metadata@, true) is None,
        },
{
    crate::utils::rules::match_dependabot_rule(rule, pull_request, pr_author, commit_metadata, true)
}

} // verus!
