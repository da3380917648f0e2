//! The basic form of the automerge update, which leaves reviews alone.

use vstd::prelude::*;

use crate::config::AutomergeRule;
use crate::graphql::pull_request_query::ResponseData;
use crate::utils::automerge::{action_view, spec_automerge_plan, AutomergeAction};

verus! {

/// The steps that bring a pull request in line with the outcome of the rules, without
/// approving or dismissing reviews: `rule` is the rule that matched, if one did.
pub fn update_automerge(response: &ResponseData, rule: Option<&AutomergeRule>) -> (r: Vec<AutomergeAction>)
    ensures
        r@.map_values(|a: AutomergeAction| action_view(a)) == spec_automerge_plan(
            *response,
            match rule {
                Some(x) => Some(*x),
                None => None,
            },
            false,
        ),
{
    crate::utils::automerge::update_automerge(response, rule, false)
}

} // verus!
