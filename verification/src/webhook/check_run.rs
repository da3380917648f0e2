//! Check run events.

use vstd::prelude::*;

use crate::utils::pull_request::PullRequestIdentifier;

verus! {

/// The pull requests that a check run event concerns: those with the given numbers in
/// the repository with node id `repo_id`, in order.
pub fn check_run_pull_requests(repo_id: &str, numbers: &Vec<u64>) -> (r: Vec<PullRequestIdentifier>)
    ensures
        r@.len() == numbers@.len(),
        forall|i: int| 0 <= i < numbers@.len() ==> (#[trigger] r@[i])@ == (repo_id@, numbers@[i]),
{
    let mut out: Vec<PullRequestIdentifier> = Vec::new();
    let n = numbers.len();
    let mut i: usize = 0;
    while i < n
        invariant
            n == numbers@.len(),
            i <= n,
            out@.len() == i,
            forall|j: int| 0 <= j < i ==> (#[trigger] out@[j])@ == (repo_id@, numbers@[j]),
        decreases n - i,
    {
        out.push(PullRequestIdentifier { repository_id: repo_id.to_owned(), pull_request_number: numbers[i] });
        i = i + 1;
    }
    out
}

} // verus!
