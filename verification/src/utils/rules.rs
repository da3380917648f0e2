use vstd::prelude::*;

use crate::config::{
    contains_name, names_contain, spec_glob_matches, AppConfig, AutomergeRule, CheckRules,
    DependabotRule,
};
use crate::dependabot::{DependabotCommit, UpdatedDependency};
use crate::graphql::pull_request_query::{
    ActorProps, CheckConclusionState, CheckRun, CheckStatusState, CheckSuite, Commit,
    CommitNode, FileNode, GitSignatureState, PatchStatus, PullRequestQueryNode,
    PullRequestQueryNodeOnPullRequest, PullRequestState, ResponseData,
};
use crate::graphql::{actor_id, spec_actor_id};
use crate::text::str_eq;

verus! {

/// The kind of account that opened a pull request.
#[derive(Clone, Copy, PartialEq, Eq, Debug, Structural)]
pub enum UserType {
    Dependabot,
    Unknown,
}

/// The account that opened a pull request, as a webhook payload names it.
pub struct Author {
    pub login: String,
    pub id: u64,
    pub node_id: String,
    pub user_type: String,
}

/// The account is dependabot's: its login, numeric id, node id and type are all
/// dependabot's.
pub open spec fn is_dependabot_account(user: Author) -> bool {
    &&& user.login@ == "dependabot[bot]"@
    &&& user.id == 49_699_333
    &&& user.node_id@ == "MDM6Qm90NDk2OTkzMzM="@
    &&& user.user_type@ == "Bot"@
}

/// Classifies the account that opened a pull request: dependabot's account, or any
/// other account (an account that only takes dependabot's login is not dependabot).
pub fn classify_user(user: &Author) -> (r: UserType)
    ensures
        r == (if is_dependabot_account(*user) {
            UserType::Dependabot
        } else {
            UserType::Unknown
        }),
{
    if str_eq(user.login.as_str(), "dependabot[bot]") && user.id == 49_699_333 && str_eq(
        user.node_id.as_str(),
        "MDM6Qm90NDk2OTkzMzM=",
    ) && str_eq(user.user_type.as_str(), "Bot") {
        UserType::Dependabot
    } else {
        UserType::Unknown
    }
}

#[verifier::external_type_specification]
#[verifier::external_body]
pub struct ExSmallBitVec(smallbitvec::SmallBitVec);

/// The bits held by a bit vector, in order.
pub uninterp spec fn bit_vec_bits(v: smallbitvec::SmallBitVec) -> Seq<bool>;

/// `SmallBitVec::from_elem`: a vector of `len` bits, each `val`. It panics when `len`
/// is within a word of `usize::MAX`, which `requires` leaves out.
#[verifier::external_body]
fn bit_vec_from_elem(len: usize, val: bool) -> (r: smallbitvec::SmallBitVec)
    requires
        len + 64 <= usize::MAX,
    ensures
        bit_vec_bits(r) == Seq::new(len as nat, |_i: int| val),
{
    smallbitvec::SmallBitVec::from_elem(len, val)
}

/// `SmallBitVec::set`: sets bit `n` to `val`; it panics when `n` is out of bounds.
#[verifier::external_body]
fn bit_vec_set(v: &mut smallbitvec::SmallBitVec, n: usize, val: bool)
    requires
        n < bit_vec_bits(*old(v)).len(),
    ensures
        bit_vec_bits(*final(v)) == bit_vec_bits(*old(v)).update(n as int, val),
{
    v.set(n, val)
}

/// `SmallBitVec::all_true`: whether every bit is set.
#[verifier::external_body]
fn bit_vec_all_true(v: &smallbitvec::SmallBitVec) -> (r: bool)
    ensures
        r == (forall|i: int| 0 <= i < bit_vec_bits(*v).len() ==> bit_vec_bits(*v)[i]),
{
    v.all_true()
}

/// The runs that are present in a list of optional runs, in order.
pub open spec fn present_runs(runs: Seq<Option<CheckRun>>) -> Seq<CheckRun>
    decreases runs.len(),
{
    if runs.len() == 0 {
        Seq::empty()
    } else {
        let rest = present_runs(runs.drop_last());
        match runs.last() {
            Some(r) => rest.push(r),
            None => rest,
        }
    }
}

/// The runs of one check suite.
pub open spec fn suite_runs(suite: Option<CheckSuite>) -> Seq<CheckRun> {
    match suite {
        Some(s) => match s.check_runs {
            Some(cr) => match cr.nodes {
                Some(nodes) => present_runs(nodes@),
                None => Seq::empty(),
            },
            None => Seq::empty(),
        },
        None => Seq::empty(),
    }
}

/// The runs of all check suites, suite by suite.
pub open spec fn all_runs(suites: Seq<Option<CheckSuite>>) -> Seq<CheckRun>
    decreases suites.len(),
{
    if suites.len() == 0 {
        Seq::empty()
    } else {
        all_runs(suites.drop_last()) + suite_runs(suites.last())
    }
}

pub open spec fn run_completed(r: CheckRun) -> bool {
    r.status is COMPLETED
}

/// A completed run that succeeded.
pub open spec fn run_passed(r: CheckRun) -> bool {
    run_completed(r) && r.conclusion matches Some(CheckConclusionState::SUCCESS)
}

/// A completed run whose conclusion is neither success nor stale, skipped or neutral.
pub open spec fn run_failed(r: CheckRun) -> bool {
    run_completed(r) && match r.conclusion {
        Some(CheckConclusionState::SUCCESS) => false,
        Some(CheckConclusionState::STALE) => false,
        Some(CheckConclusionState::SKIPPED) => false,
        Some(CheckConclusionState::NEUTRAL) => false,
        Some(_) => true,
        None => false,
    }
}

/// A run that has not completed, or completed without a conclusion.
pub open spec fn run_pending(r: CheckRun) -> bool {
    !run_completed(r) || r.conclusion is None
}

pub open spec fn count_passed(runs: Seq<CheckRun>) -> nat
    decreases runs.len(),
{
    if runs.len() == 0 {
        0
    } else {
        count_passed(runs.drop_last()) + if run_passed(runs.last()) {
            1nat
        } else {
            0nat
        }
    }
}

pub open spec fn count_failed(runs: Seq<CheckRun>) -> nat
    decreases runs.len(),
{
    if runs.len() == 0 {
        0
    } else {
        count_failed(runs.drop_last()) + if run_failed(runs.last()) {
            1nat
        } else {
            0nat
        }
    }
}

pub open spec fn count_pending(runs: Seq<CheckRun>) -> nat
    decreases runs.len(),
{
    if runs.len() == 0 {
        0
    } else {
        count_pending(runs.drop_last()) + if run_pending(runs.last()) {
            1nat
        } else {
            0nat
        }
    }
}

/// The first index in `names` at or after `i` that holds `name`.
pub open spec fn first_name_index_from(names: Seq<String>, name: Seq<char>, i: int) -> Option<int>
    decreases names.len() - i,
{
    if i < 0 || i >= names.len() {
        None
    } else if names[i]@ == name {
        Some(i)
    } else {
        first_name_index_from(names, name, i + 1)
    }
}

pub open spec fn first_name_index(names: Seq<String>, name: Seq<char>) -> Option<int> {
    first_name_index_from(names, name, 0)
}

/// Required check `k` is marked as passed: some passed run carries a name whose first
/// place in the list of required checks is `k`.
pub open spec fn required_check_passed(runs: Seq<CheckRun>, required: Seq<String>, k: int) -> bool {
    exists|j: int|
        0 <= j < runs.len() && run_passed(#[trigger] runs[j]) && first_name_index(
            required,
            runs[j].name@,
        ) == Some(k)
}

/// The counts of passed, failed and pending runs among `runs`, and which required
/// checks passed.
pub struct CheckSummary {
    /// number of checks that passed
    passed: u8,
    /// number of checks that failed
    failed: u8,
    /// number of checks still pending
    pending: u8,
    /// a bitfield with a boolean value for each configured required check
    ///
    /// to verify whether a given required check passed, read from the same index as the check held
    /// in the `required_checks` array
    required: smallbitvec::SmallBitVec,
}

impl CheckSummary {
    /// The summary counts and marks the runs `runs` against `required`.
    pub closed spec fn summarizes(self, runs: Seq<CheckRun>, required: Seq<String>) -> bool {
        &&& self.passed == count_passed(runs)
        &&& self.failed == count_failed(runs)
        &&& self.pending == count_pending(runs)
        &&& bit_vec_bits(self.required).len() == required.len()
        &&& forall|k: int|
            0 <= k < required.len() ==> bit_vec_bits(self.required)[k]
                == required_check_passed(runs, required, k)
    }
}

fn first_name_index_exec(names: &Vec<String>, name: &str) -> (r: Option<usize>)
    ensures
        r matches Some(k) ==> first_name_index(names@, name@) == Some(k as int),
        r is None ==> first_name_index(names@, name@) is None,
{
    let n = names.len();
    let mut i: usize = 0;
    while i < n
        invariant
            n == names@.len(),
            i <= n,
            first_name_index(names@, name@) == first_name_index_from(names@, name@, i as int),
        decreases n - i,
    {
        if str_eq(names[i].as_str(), name) {
            return Some(i);
        }
        i = i + 1;
    }
    None
}

proof fn lemma_first_name_index_from_bounds(names: Seq<String>, name: Seq<char>, i: int)
    ensures
        first_name_index_from(names, name, i) matches Some(k) ==> i <= k < names.len()
            && names[k]@ == name,
    decreases names.len() - i,
{
    if i < 0 || i >= names.len() {
    } else if names[i]@ == name {
    } else {
        lemma_first_name_index_from_bounds(names, name, i + 1);
    }
}

/// The passed, failed and pending runs each number at most 255, so that each count fits
/// the byte that holds it.
pub open spec fn counts_fit(runs: Seq<CheckRun>) -> bool {
    &&& count_passed(runs) <= 255
    &&& count_failed(runs) <= 255
    &&& count_pending(runs) <= 255
}

/// Each count of `a` is at most the same count of `b`.
spec fn counts_le(a: Seq<CheckRun>, b: Seq<CheckRun>) -> bool {
    &&& count_passed(a) <= count_passed(b)
    &&& count_failed(a) <= count_failed(b)
    &&& count_pending(a) <= count_pending(b)
}

proof fn lemma_counts_concat(a: Seq<CheckRun>, b: Seq<CheckRun>)
    ensures
        count_passed(a + b) == count_passed(a) + count_passed(b),
        count_failed(a + b) == count_failed(a) + count_failed(b),
        count_pending(a + b) == count_pending(a) + count_pending(b),
    decreases b.len(),
{
    if b.len() == 0 {
        assert(a + b =~= a);
    } else {
        lemma_counts_concat(a, b.drop_last());
        assert((a + b).drop_last() =~= a + b.drop_last());
        assert((a + b).last() == b.last());
    }
}

proof fn lemma_all_runs_counts_mono(suites: Seq<Option<CheckSuite>>, n: int)
    requires
        0 <= n <= suites.len(),
    ensures
        counts_le(all_runs(suites.take(n)), all_runs(suites)),
    decreases suites.len(),
{
    if n == suites.len() {
        assert(suites.take(n) =~= suites);
    } else {
        lemma_all_runs_counts_mono(suites.drop_last(), n);
        assert(suites.drop_last().take(n) =~= suites.take(n));
        lemma_counts_concat(all_runs(suites.drop_last()), suite_runs(suites.last()));
    }
}

proof fn lemma_present_runs_counts_mono(runs: Seq<Option<CheckRun>>, n: int)
    requires
        0 <= n <= runs.len(),
    ensures
        counts_le(present_runs(runs.take(n)), present_runs(runs)),
    decreases runs.len(),
{
    if n == runs.len() {
        assert(runs.take(n) =~= runs);
    } else {
        lemma_present_runs_counts_mono(runs.drop_last(), n);
        assert(runs.drop_last().take(n) =~= runs.take(n));
        let p = present_runs(runs.drop_last());
        if let Some(r) = runs.last() {
            assert(p.push(r).drop_last() =~= p);
        }
    }
}

/// The runs seen so far while the runs of suite `i` are walked are counted at most as
/// often as the runs of all suites.
proof fn lemma_seen_counts(
    suites: Seq<Option<CheckSuite>>,
    i: int,
    base: Seq<CheckRun>,
    nodes: Seq<Option<CheckRun>>,
    j: int,
)
    requires
        0 <= i < suites.len(),
        0 <= j <= nodes.len(),
        base + present_runs(nodes) == all_runs(suites.take(i + 1)),
    ensures
        counts_le(base + present_runs(nodes.take(j)), all_runs(suites)),
{
    lemma_counts_concat(base, present_runs(nodes.take(j)));
    lemma_counts_concat(base, present_runs(nodes));
    lemma_present_runs_counts_mono(nodes, j);
    lemma_all_runs_counts_mono(suites, i + 1);
}

/// Counts the passed, failed and pending runs of all check suites and marks which
/// required checks passed; `None` where a count would pass 255, the largest a byte holds.
fn summarize_checks(suites: &Vec<Option<CheckSuite>>, required_checks: &Vec<String>) -> (r: Option<
    CheckSummary,
>)
    requires
        required_checks@.len() + 64 <= usize::MAX,
    ensures
        r is None <==> !counts_fit(all_runs(suites@)),
        r matches Some(s) ==> s.summarizes(all_runs(suites@), required_checks@),
{
    let mut summary = CheckSummary {
        passed: 0,
        failed: 0,
        pending: 0,
        required: bit_vec_from_elem(required_checks.len(), false),
    };
    let ghost mut seen: Seq<CheckRun> = Seq::empty();
    let ns = suites.len();
    let mut i: usize = 0;
    while i < ns
        invariant
            ns == suites@.len(),
            i <= ns,
            seen == all_runs(suites@.take(i as int)),
            summary.summarizes(seen, required_checks@),
        decreases ns - i,
    {
        proof {
            assert(suites@.take(i + 1).drop_last() =~= suites@.take(i as int));
            lemma_all_runs_prefix(suites@, i + 1);
        }
        if let Some(suite) = &suites[i] {
            if let Some(check_runs) = &suite.check_runs {
                if let Some(nodes) = &check_runs.nodes {
                    let nr = nodes.len();
                    let mut j: usize = 0;
                    let ghost base = seen;
                    assert(nodes@.take(0) =~= Seq::<Option<CheckRun>>::empty());
                    assert(base + present_runs(nodes@.take(0)) =~= base);
                    while j < nr
                        invariant
                            nr == nodes@.len(),
                            j <= nr,
                            i < ns,
                            ns == suites@.len(),
                            base + present_runs(nodes@) == all_runs(suites@.take(i + 1)),
                            seen == base + present_runs(nodes@.take(j as int)),
                            summary.summarizes(seen, required_checks@),
                        decreases nr - j,
                    {
                        proof {
                            assert(nodes@.take(j + 1).drop_last() =~= nodes@.take(j as int));
                            lemma_present_runs_prefix(nodes@, j + 1);
                        }
                        if let Some(run) = &nodes[j] {
                            let ghost before = seen;
                            proof {
                                seen = seen.push(*run);
                                assert(seen.drop_last() =~= before);
                                assert(seen =~= base + present_runs(nodes@.take(j + 1)));
                                lemma_seen_counts(suites@, i as int, base, nodes@, j + 1);
                            }
                            if matches!(run.status, CheckStatusState::COMPLETED) {
                                match &run.conclusion {
                                    None => {
                                        if summary.pending == 255 {
                                            return None;
                                        }
                                        summary.pending = summary.pending + 1;
                                    },
                                    Some(CheckConclusionState::SUCCESS) => {
                                        if summary.passed == 255 {
                                            return None;
                                        }
                                        summary.passed = summary.passed + 1;
                                        if let Some(index) = first_name_index_exec(
                                            required_checks,
                                            run.name.as_str(),
                                        ) {
                                            proof {
                                                lemma_first_name_index_from_bounds(
                                                    required_checks@,
                                                    run.name@,
                                                    0,
                                                );
                                            }
                                            bit_vec_set(&mut summary.required, index, true);
                                        }
                                    },
                                    Some(CheckConclusionState::STALE)
                                    | Some(CheckConclusionState::SKIPPED)
                                    | Some(CheckConclusionState::NEUTRAL) => {},
                                    Some(_) => {
                                        if summary.failed == 255 {
                                            return None;
                                        }
                                        summary.failed = summary.failed + 1;
                                    },
                                }
                            } else {
                                if summary.pending == 255 {
                                    return None;
                                }
                                summary.pending = summary.pending + 1;
                            }
                            proof {
                                assert forall|k: int| 0 <= k < required_checks@.len() implies
                                    bit_vec_bits(summary.required)[k] == required_check_passed(
                                    seen,
                                    required_checks@,
                                    k,
                                ) by {
                                    if required_check_passed(before, required_checks@, k) {
                                        let w = choose|w: int|
                                            0 <= w < before.len() && run_passed(
                                                #[trigger] before[w],
                                            ) && first_name_index(required_checks@, before[w].name@)
                                                == Some(k);
                                        assert(seen[w] == before[w]);
                                    }
                                    if required_check_passed(seen, required_checks@, k) {
                                        let w = choose|w: int|
                                            0 <= w < seen.len() && run_passed(#[trigger] seen[w])
                                                && first_name_index(required_checks@, seen[w].name@)
                                                == Some(k);
                                        if w < before.len() {
                                            assert(before[w] == seen[w]);
                                        }
                                    }
                                }
                            }
                        }
                        j = j + 1;
                    }
                    assert(nodes@.take(nr as int) =~= nodes@);
                }
            }
        }
        i = i + 1;
    }
    assert(suites@.take(ns as int) =~= suites@);
    Some(summary)
}

proof fn lemma_all_runs_prefix(suites: Seq<Option<CheckSuite>>, n: int)
    requires
        0 < n <= suites.len(),
    ensures
        all_runs(suites.take(n)) == all_runs(suites.take(n - 1)) + suite_runs(suites[n - 1]),
{
    assert(suites.take(n).drop_last() =~= suites.take(n - 1));
}

proof fn lemma_present_runs_prefix(runs: Seq<Option<CheckRun>>, n: int)
    requires
        0 < n <= runs.len(),
    ensures
        present_runs(runs.take(n)) == match runs[n - 1] {
            Some(r) => present_runs(runs.take(n - 1)).push(r),
            None => present_runs(runs.take(n - 1)),
        },
{
    assert(runs.take(n).drop_last() =~= runs.take(n - 1));
}

} // verus!

verus! {

pub const PR_NOT_FOUND: &'static str = "PR not found???";
pub const PR_NOT_OPEN: &'static str = "PR is not open";
pub const PR_NO_AUTHOR: &'static str = "PR has no author";
pub const PR_NO_COMMITS: &'static str = "PR has no commits";
pub const PR_TOO_MANY_COMMITS: &'static str = "PR more than 100 commits";
pub const PR_COMMITS_MISSING: &'static str = "Some commits could not be fetched";
pub const PR_NO_DIFF: &'static str = "Could not diff PR";
pub const PR_NO_CHANGES: &'static str = "PR has no changes";
pub const PR_TOO_MANY_FILES: &'static str = "PR changes more than 100 files";
pub const PR_FILES_MISSING: &'static str = "Some file diffs could not be fetched";
pub const PR_NOT_MODIFIED: &'static str = "Some file changes are of a different type than MODIFIED";
pub const PR_NO_CHECKS: &'static str = "Failed to fetch last commit's checks";

pub const RULE_BRANCH: &'static str = "Ineligible PR base branch";
pub const RULE_COMMITS: &'static str = "Too many commits";
pub const RULE_FILES: &'static str = "Too many changed files";
pub const RULE_LINES: &'static str = "Too many changes";
pub const RULE_PATHS: &'static str = "PR changes file outside of allowed paths";
pub const RULE_NO_SUITES: &'static str = "Could not fetch check suite data";
pub const RULE_PENDING: &'static str = "Too many pending checks";
pub const RULE_FAILED: &'static str = "Too many failed checks";
pub const RULE_PASSED: &'static str = "Not enough passed checks";
pub const RULE_REQUIRED: &'static str = "Required checks are still pending or have failed";
pub const RULE_NOT_BOT: &'static str = "Not authored by a bot configured for automerge";

pub const BOT_NOT_REAL: &'static str = "Not a real dependabot PR";
pub const BOT_NOT_AUTHOR: &'static str = "One of the commits was not authored by dependabot";
pub const BOT_NO_METADATA: &'static str = "Could not deserialize the metadata block of one of dependabot's commits";
pub const BOT_NAME: &'static str = "A dependency from outside of the allowed dependency names list was updated";
pub const BOT_GROUP: &'static str = "A dependency from outside of the allowed dependency groups list was updated";
pub const BOT_TYPE: &'static str = "A dependency from outside of the allowed dependency types list was updated";
pub const BOT_UPDATE_TYPE: &'static str = "One of the update types was outside of the allowed list";

/// The node id of dependabot's account.
pub const DEPENDABOT_NODE_ID: &'static str = "MDM6Qm90NDk2OTkzMzM=";

/// A list whose every entry is present.
pub open spec fn all_present<T>(nodes: Seq<Option<T>>) -> bool {
    forall|i: int| 0 <= i < nodes.len() ==> (#[trigger] nodes[i]) is Some
}

/// A connection that was fetched completely: its list exists and holds every entry.
pub open spec fn nodes_complete<T>(nodes: Option<Vec<Option<T>>>) -> bool {
    nodes matches Some(v) && all_present(v@)
}

pub open spec fn commit_nodes(pr: PullRequestQueryNodeOnPullRequest) -> Seq<Option<CommitNode>> {
    match pr.commits.nodes {
        Some(v) => v@,
        None => Seq::empty(),
    }
}

pub open spec fn file_nodes(pr: PullRequestQueryNodeOnPullRequest) -> Seq<Option<FileNode>> {
    match pr.files {
        Some(f) => match f.nodes {
            Some(v) => v@,
            None => Seq::empty(),
        },
        None => Seq::empty(),
    }
}

pub open spec fn files_total(pr: PullRequestQueryNodeOnPullRequest) -> int {
    match pr.files {
        Some(f) => f.total_count as int,
        None => 0,
    }
}

/// The check suites of the pull request's last commit, when they were fetched.
pub open spec fn last_commit_suites(pr: PullRequestQueryNodeOnPullRequest) -> Option<
    Seq<Option<CheckSuite>>,
> {
    match pr.checks.nodes {
        Some(v) => if v@.len() > 0 {
            match v@[0] {
                Some(node) => match node.commit.check_suites {
                    Some(cs) => match cs.nodes {
                        Some(s) => Some(s@),
                        None => None,
                    },
                    None => None,
                },
                None => None,
            }
        } else {
            None
        },
        None => None,
    }
}

/// The pull request's last commit was fetched.
pub open spec fn has_last_commit(pr: PullRequestQueryNodeOnPullRequest) -> bool {
    pr.checks.nodes matches Some(v) && v@.len() > 0 && v@[0] is Some
}

/// The first hardcoded check that the pull request fails, if any. A pull request must
/// be open, have an author, have between 1 and 100 commits and between 1 and 100
/// changed files, all fetched, change files only by modifying them, and its last
/// commit must have been fetched.
pub open spec fn pr_hard_check_failure(pr: PullRequestQueryNodeOnPullRequest, basic: bool) -> Option<Seq<char>> {
    if !(pr.state is OPEN) {
        Some(PR_NOT_OPEN@)
    } else if pr.author is None {
        Some(PR_NO_AUTHOR@)
    } else if pr.commits.total_count <= 0 {
        Some(PR_NO_COMMITS@)
    } else if pr.commits.total_count > 100 {
        Some(PR_TOO_MANY_COMMITS@)
    } else if !nodes_complete(pr.commits.nodes) {
        Some(PR_COMMITS_MISSING@)
    } else if pr.files is None {
        Some(PR_NO_DIFF@)
    } else if files_total(pr) <= 0 {
        Some(PR_NO_CHANGES@)
    } else if files_total(pr) > 100 {
        Some(PR_TOO_MANY_FILES@)
    } else if !nodes_complete(pr.files.unwrap().nodes) {
        Some(PR_FILES_MISSING@)
    } else if exists|i: int|
        0 <= i < file_nodes(pr).len() && !((#[trigger] file_nodes(pr)[i]).unwrap().change_type is MODIFIED) {
        Some(PR_NOT_MODIFIED@)
    } else if !basic && !has_last_commit(pr) {
        Some(PR_NO_CHECKS@)
    } else {
        None
    }
}

/// The first hardcoded check that the response fails, if any.
pub open spec fn hard_check_failure(response: ResponseData, basic: bool) -> Option<Seq<char>> {
    match response.node {
        Some(PullRequestQueryNode::PullRequest(pr)) => pr_hard_check_failure(pr, basic),
        _ => Some(PR_NOT_FOUND@),
    }
}

pub open spec fn abs(x: i64) -> int {
    if x < 0 {
        -x
    } else {
        x as int
    }
}

/// Every changed file is admitted by one of the patterns.
pub open spec fn files_allowed(pr: PullRequestQueryNodeOnPullRequest, paths: Seq<crate::config::Glob>) -> bool {
    forall|i: int|
        0 <= i < file_nodes(pr).len() ==> (#[trigger] file_nodes(pr)[i] matches Some(f)
            ==> exists|j: int| 0 <= j < paths.len() && spec_glob_matches(#[trigger] paths[j]@, f.path@))
}

/// The rule lists the pull request's repository.
pub open spec fn rule_applies(rule: AutomergeRule, pr: PullRequestQueryNodeOnPullRequest) -> bool {
    names_contain(rule.repositories@, pr.repository.name_with_owner@)
}

pub open spec fn branch_fails(rule: AutomergeRule, pr: PullRequestQueryNodeOnPullRequest) -> bool {
    rule.branches matches Some(b) && !names_contain(b@, pr.base_ref_name@)
}

pub open spec fn commits_fail(rule: AutomergeRule, pr: PullRequestQueryNodeOnPullRequest) -> bool {
    rule.max_commits matches Some(m) && pr.commits.total_count > m
}

pub open spec fn files_fail(rule: AutomergeRule, pr: PullRequestQueryNodeOnPullRequest) -> bool {
    rule.max_files matches Some(m) && files_total(pr) > m
}

pub open spec fn lines_fail(rule: AutomergeRule, pr: PullRequestQueryNodeOnPullRequest) -> bool {
    rule.max_changed_lines matches Some(m) && abs(pr.additions) + abs(pr.deletions) > m
}

pub open spec fn paths_fail(rule: AutomergeRule, pr: PullRequestQueryNodeOnPullRequest) -> bool {
    rule.allowed_paths matches Some(p) && !files_allowed(pr, p@)
}

/// The first restriction of the rule on the pull request's size and place that the
/// pull request fails, if any.
pub open spec fn rule_filter_failure(rule: AutomergeRule, pr: PullRequestQueryNodeOnPullRequest) -> Option<Seq<char>> {
    if branch_fails(rule, pr) {
        Some(RULE_BRANCH@)
    } else if commits_fail(rule, pr) {
        Some(RULE_COMMITS@)
    } else if files_fail(rule, pr) {
        Some(RULE_FILES@)
    } else if lines_fail(rule, pr) {
        Some(RULE_LINES@)
    } else if paths_fail(rule, pr) {
        Some(RULE_PATHS@)
    } else {
        None
    }
}

pub open spec fn message_if(cond: bool, m: Seq<char>) -> Seq<Seq<char>> {
    if cond {
        seq![m]
    } else {
        Seq::empty()
    }
}

/// All required checks passed.
pub open spec fn all_required_passed(runs: Seq<CheckRun>, required: Seq<String>) -> bool {
    forall|k: int| 0 <= k < required.len() ==> required_check_passed(runs, required, k)
}

/// The failures of the check runs against the rule's check restrictions, in order.
pub open spec fn check_failures(cr: CheckRules, runs: Seq<CheckRun>) -> Seq<Seq<char>> {
    message_if(cr.max_pending matches Some(m) && count_pending(runs) > m, RULE_PENDING@)
        + message_if(cr.max_failed matches Some(m) && count_failed(runs) > m, RULE_FAILED@)
        + message_if(cr.min_passed matches Some(m) && count_passed(runs) < m, RULE_PASSED@)
        + message_if(!all_required_passed(runs, cr.required@), RULE_REQUIRED@)
}

pub open spec fn opt_str_is(o: Option<String>, s: Seq<char>) -> bool {
    o matches Some(x) && x@ == s
}

/// The commit was authored by dependabot, committed by GitHub and carries a valid
/// signature that GitHub made.
pub open spec fn commit_authored_by_dependabot(c: Commit) -> bool {
    &&& c.author matches Some(a) && opt_str_is(
        a.email,
        "49699333+dependabot[bot]@users.noreply.github.com"@,
    ) && opt_str_is(a.name, "dependabot[bot]"@)
    &&& c.committer matches Some(m) && opt_str_is(m.email, "noreply@github.com"@) && opt_str_is(
        m.name,
        "GitHub"@,
    )
    &&& c.signature matches Some(s) && s.is_valid && s.state is VALID && s.was_signed_by_git_hub
        && (s.signer matches Some(g) && g.login@ == "web-flow"@ && g.id@ == "MDQ6VXNlcjE5ODY0NDQ3"@)
}

/// An absent optional name compares as the empty name.
pub open spec fn name_or_empty(o: Option<String>) -> Seq<char> {
    match o {
        Some(x) => x@,
        None => Seq::empty(),
    }
}

/// A list entry admits an optional dependency group or update type. A null entry admits
/// an absent value. In the full rules an absent entry or value compares as the empty name;
/// in the basic rules they compare as they are.
pub open spec fn entry_admits(entry: Option<String>, value: Option<String>, basic: bool) -> bool {
    if basic {
        name_view(entry) == name_view(value)
    } else {
        name_or_empty(entry) == name_or_empty(value)
    }
}

/// Some entry of the list admits the optional dependency group or update type.
pub open spec fn group_listed(names: Seq<Option<String>>, value: Option<String>, basic: bool) -> bool {
    exists|i: int| 0 <= i < names.len() && entry_admits(#[trigger] names[i], value, basic)
}

/// The first restriction of the dependabot rule that an updated dependency breaks.
pub open spec fn update_failure(rule: DependabotRule, u: UpdatedDependency, basic: bool) -> Option<Seq<char>> {
    if rule.dependency_names matches Some(ns) && !names_contain(ns@, u.dependency_name@) {
        Some(BOT_NAME@)
    } else if rule.dependency_groups matches Some(gs) && !group_listed(gs@, u.dependency_group, basic) {
        Some(BOT_GROUP@)
    } else if rule.dependency_types matches Some(ts) && !names_contain(ts@, u.dependency_type@) {
        Some(BOT_TYPE@)
    } else if rule.update_types matches Some(ts) && !group_listed(ts@, u.update_type, basic) {
        Some(BOT_UPDATE_TYPE@)
    } else {
        None
    }
}

pub open spec fn updates_failure_from(rule: DependabotRule, ups: Seq<UpdatedDependency>, j: int, basic: bool) -> Option<Seq<char>>
    decreases ups.len() - j,
{
    if j < 0 || j >= ups.len() {
        None
    } else {
        match update_failure(rule, ups[j], basic) {
            Some(f) => Some(f),
            None => updates_failure_from(rule, ups, j + 1, basic),
        }
    }
}

/// The metadata of the commit at index `i`; commits without metadata have none.
pub open spec fn metadata_at(md: Seq<Option<DependabotCommit>>, i: int) -> Option<DependabotCommit> {
    if 0 <= i < md.len() {
        md[i]
    } else {
        None
    }
}

pub open spec fn commit_failure(rule: DependabotRule, c: Commit, md: Option<DependabotCommit>, basic: bool) -> Option<Seq<char>> {
    if !commit_authored_by_dependabot(c) {
        Some(BOT_NOT_AUTHOR@)
    } else {
        match md {
            None => Some(BOT_NO_METADATA@),
            Some(m) => updates_failure_from(rule, m.updated_dependencies@, 0, basic),
        }
    }
}

pub open spec fn commits_failure_from(
    rule: DependabotRule,
    nodes: Seq<Option<CommitNode>>,
    md: Seq<Option<DependabotCommit>>,
    i: int, basic: bool,
) -> Option<Seq<char>>
    decreases nodes.len() - i,
{
    if i < 0 || i >= nodes.len() {
        None
    } else {
        match nodes[i] {
            None => commits_failure_from(rule, nodes, md, i + 1, basic),
            Some(n) => match commit_failure(rule, n.commit, metadata_at(md, i), basic) {
                Some(f) => Some(f),
                None => commits_failure_from(rule, nodes, md, i + 1, basic),
            },
        }
    }
}

/// Why the pull request does not match the dependabot rule, if it does not: the author
/// must be dependabot's account, and every commit must be authored by dependabot, carry
/// metadata, and update only dependencies that the rule admits. `md[i]` is the metadata
/// parsed from the message of commit `i`.
pub open spec fn spec_dependabot_failure(
    rule: DependabotRule,
    pr: PullRequestQueryNodeOnPullRequest,
    author: ActorProps,
    md: Seq<Option<DependabotCommit>>, basic: bool,
) -> Option<Seq<char>> {
    if spec_actor_id(author) != DEPENDABOT_NODE_ID@ {
        Some(BOT_NOT_REAL@)
    } else {
        commits_failure_from(rule, commit_nodes(pr), md, 0, basic)
    }
}

/// What happens to one rule while the rules are tried.
pub enum RuleOutcome {
    /// the rule does not list the repository
    Skipped,
    /// the rule does not match, for these reasons
    Failed(Seq<Seq<char>>),
    /// the rule matches
    Found,
}

pub open spec fn dependabot_step(
    rule: AutomergeRule,
    pr: PullRequestQueryNodeOnPullRequest,
    md: Seq<Option<DependabotCommit>>, basic: bool,
) -> RuleOutcome {
    let author = pr.author.unwrap();
    if rule.dependabot is Some && author.login@ == "dependabot"@ {
        match spec_dependabot_failure(rule.dependabot.unwrap(), pr, author, md, basic) {
            Some(f) => RuleOutcome::Failed(seq![f]),
            None => RuleOutcome::Found,
        }
    } else {
        RuleOutcome::Failed(seq![RULE_NOT_BOT@])
    }
}

/// The outcome of one rule for a pull request that passed the hardcoded checks.
///
/// The rule is skipped where it does not list the repository. It fails at the first of
/// its restrictions (base branch, commits, files, changed lines, paths) that the pull
/// request breaks. In the full rules its check-run limits come next: a rule whose limits
/// (`max_pending`, `max_failed`, `min_passed`, `required`) are broken fails with all of
/// them, since those limits say which pull requests the rule admits and a matched rule is
/// one that no fail reason is recorded for. Last, the rule matches only a dependabot pull
/// request that its dependabot restrictions admit.
pub open spec fn rule_outcome(
    rule: AutomergeRule,
    pr: PullRequestQueryNodeOnPullRequest,
    md: Seq<Option<DependabotCommit>>, basic: bool,
) -> RuleOutcome {
    if !rule_applies(rule, pr) {
        RuleOutcome::Skipped
    } else {
        match rule_filter_failure(rule, pr) {
            Some(m) => RuleOutcome::Failed(seq![m]),
            None => match if basic { None } else { rule.checks } {
                Some(cr) => match last_commit_suites(pr) {
                    None => RuleOutcome::Failed(seq![RULE_NO_SUITES@]),
                    Some(suites) => if check_failures(cr, all_runs(suites)).len() > 0 {
                        RuleOutcome::Failed(check_failures(cr, all_runs(suites)))
                    } else {
                        dependabot_step(rule, pr, md, basic)
                    },
                },
                None => dependabot_step(rule, pr, md, basic),
            },
        }
    }
}

pub open spec fn name_view(name: Option<String>) -> Option<Seq<char>> {
    match name {
        Some(n) => Some(n@),
        None => None,
    }
}

/// The failure entries that one rule adds to the list.
pub open spec fn rule_entries(
    rule: AutomergeRule,
    pr: PullRequestQueryNodeOnPullRequest,
    md: Seq<Option<DependabotCommit>>, basic: bool,
) -> Seq<(Option<Seq<char>>, Seq<char>)> {
    match rule_outcome(rule, pr, md, basic) {
        RuleOutcome::Failed(ms) => ms.map_values(|m: Seq<char>| (name_view(rule.name), m)),
        _ => Seq::empty(),
    }
}

/// The failure entries of the first `n` rules.
pub open spec fn failures_upto(
    rules: Seq<AutomergeRule>,
    pr: PullRequestQueryNodeOnPullRequest,
    md: Seq<Option<DependabotCommit>>,
    n: int, basic: bool,
) -> Seq<(Option<Seq<char>>, Seq<char>)>
    decreases n,
{
    if n <= 0 {
        Seq::empty()
    } else {
        failures_upto(rules, pr, md, n - 1, basic) + rule_entries(rules[n - 1], pr, md, basic)
    }
}

/// The index of the first of the first `n` rules that matches.
pub open spec fn found_upto(
    rules: Seq<AutomergeRule>,
    pr: PullRequestQueryNodeOnPullRequest,
    md: Seq<Option<DependabotCommit>>,
    n: int, basic: bool,
) -> Option<int>
    decreases n,
{
    if n <= 0 {
        None
    } else {
        match found_upto(rules, pr, md, n - 1, basic) {
            Some(k) => Some(k),
            None => if rule_outcome(rules[n - 1], pr, md, basic) is Found {
                Some(n - 1)
            } else {
                None
            },
        }
    }
}

/// The outcome of the eligibility check.
pub enum EligibleView {
    FailedHardChecks(Seq<char>),
    FoundRule(AutomergeRule),
    NoRuleFound(Seq<(Option<Seq<char>>, Seq<char>)>),
}

pub open spec fn the_pr(response: ResponseData) -> PullRequestQueryNodeOnPullRequest {
    match response.node {
        Some(PullRequestQueryNode::PullRequest(pr)) => pr,
        _ => arbitrary(),
    }
}

/// Whether a pull request may be merged automatically: the first hardcoded check it
/// fails; or else the first rule, in order, that it matches; or else, for every rule
/// that lists its repository, why the rule does not match.
pub open spec fn spec_eligibility(
    rules: Seq<AutomergeRule>,
    response: ResponseData,
    md: Seq<Option<DependabotCommit>>, basic: bool,
) -> EligibleView {
    match hard_check_failure(response, basic) {
        Some(m) => EligibleView::FailedHardChecks(m),
        None => {
            let pr = the_pr(response);
            match found_upto(rules, pr, md, rules.len() as int, basic) {
                Some(i) => EligibleView::FoundRule(rules[i]),
                None => EligibleView::NoRuleFound(failures_upto(rules, pr, md, rules.len() as int, basic)),
            }
        },
    }
}

/// The rule is tried and passes its restrictions up to the one on changed lines.
pub open spec fn reaches_lines_check(rule: AutomergeRule, pr: PullRequestQueryNodeOnPullRequest) -> bool {
    rule_applies(rule, pr) && !branch_fails(rule, pr) && !commits_fail(rule, pr) && !files_fail(rule, pr)
}

/// The bounds that the counters need for one rule that is tried: the changed lines of a
/// pull request that the rule limits fit in a `u64`, and the passed, failed and pending
/// check runs that the rule counts each number at most 255 (each count is a byte).
pub open spec fn rule_fits(rule: AutomergeRule, pr: PullRequestQueryNodeOnPullRequest, basic: bool) -> bool {
    &&& (reaches_lines_check(rule, pr) && rule.max_changed_lines is Some ==> abs(pr.additions)
        + abs(pr.deletions) <= u64::MAX)
    &&& (!basic && rule_applies(rule, pr) && rule_filter_failure(rule, pr) is None
        && rule.checks is Some && last_commit_suites(pr) is Some ==> {
        &&& counts_fit(all_runs(last_commit_suites(pr).unwrap()))
        &&& rule.checks.unwrap().required@.len() + 64 <= usize::MAX
    })
}

/// The bounds that the counters need, for every rule that the check tries.
pub open spec fn eligibility_fits(
    rules: Seq<AutomergeRule>,
    response: ResponseData,
    md: Seq<Option<DependabotCommit>>, basic: bool,
) -> bool {
    hard_check_failure(response, basic) is None ==> forall|i: int|
        0 <= i < rules.len() && found_upto(rules, the_pr(response), md, i, basic) is None ==> rule_fits(
            #[trigger] rules[i],
            the_pr(response), basic,
        )
}

/// The result of the eligibility check.
pub enum EligibleResult<'a> {
    /// failed a hardcoded check - fail reason
    FailedHardChecks(&'static str),
    /// successfully matched a rule - rule name
    FoundRule(&'a AutomergeRule),
    /// no rules matched - list of rule - fail reason, must match repository name to appear
    NoRuleFound(Vec<(Option<String>, &'static str)>),
}

pub open spec fn entry_view(e: (Option<String>, &'static str)) -> (Option<Seq<char>>, Seq<char>) {
    (name_view(e.0), e.1@)
}

impl<'a> View for EligibleResult<'a> {
    type V = EligibleView;

    open spec fn view(&self) -> EligibleView {
        match *self {
            EligibleResult::FailedHardChecks(m) => EligibleView::FailedHardChecks(m@),
            EligibleResult::FoundRule(r) => EligibleView::FoundRule(*r),
            EligibleResult::NoRuleFound(v) => EligibleView::NoRuleFound(
                v@.map_values(|e: (Option<String>, &'static str)| entry_view(e)),
            ),
        }
    }
}

impl<'a> EligibleResult<'a> {
    /// The rule that matched, if one did.
    pub fn ok(&self) -> (r: Option<&'a AutomergeRule>)
        ensures
            match *self {
                EligibleResult::FoundRule(x) => r == Some(x),
                _ => r is None,
            },
    {
        match self {
            Self::FoundRule(x) => Some(x),
            _ => None,
        }
    }
}

} // verus!

verus! {

fn opt_str_is_exec(o: &Option<String>, s: &str) -> (r: bool)
    ensures
        r == opt_str_is(*o, s@),
{
    match o {
        Some(x) => str_eq(x.as_str(), s),
        None => false,
    }
}

fn all_present_exec<T>(v: &Vec<Option<T>>) -> (r: bool)
    ensures
        r == all_present(v@),
{
    let n = v.len();
    let mut i: usize = 0;
    while i < n
        invariant
            n == v@.len(),
            i <= n,
            forall|j: int| 0 <= j < i ==> (#[trigger] v@[j]) is Some,
        decreases n - i,
    {
        if v[i].is_none() {
            return false;
        }
        i = i + 1;
    }
    true
}

fn nodes_complete_exec<T>(nodes: &Option<Vec<Option<T>>>) -> (r: bool)
    ensures
        r == nodes_complete(*nodes),
{
    match nodes {
        Some(v) => all_present_exec(v),
        None => false,
    }
}

/// The first hardcoded check that the pull request fails, if any.
#[verifier::loop_isolation(false)]
fn pr_hard_checks(pr: &PullRequestQueryNodeOnPullRequest, basic: bool) -> (r: Option<&'static str>)
    ensures
        match r {
            Some(m) => pr_hard_check_failure(*pr, basic) == Some(m@),
            None => pr_hard_check_failure(*pr, basic) is None,
        },
{
    if !matches!(pr.state, PullRequestState::OPEN) {
        return Some(PR_NOT_OPEN);
    }
    if pr.author.is_none() {
        return Some(PR_NO_AUTHOR);
    }
    if pr.commits.total_count <= 0 {
        return Some(PR_NO_COMMITS);
    }
    if pr.commits.total_count > 100 {
        return Some(PR_TOO_MANY_COMMITS);
    }
    if !nodes_complete_exec(&pr.commits.nodes) {
        return Some(PR_COMMITS_MISSING);
    }
    let files = match &pr.files {
        Some(f) => f,
        None => {
            return Some(PR_NO_DIFF);
        },
    };
    if files.total_count <= 0 {
        return Some(PR_NO_CHANGES);
    }
    if files.total_count > 100 {
        return Some(PR_TOO_MANY_FILES);
    }
    let nodes = match &files.nodes {
        Some(v) => v,
        None => {
            return Some(PR_FILES_MISSING);
        },
    };
    if !all_present_exec(nodes) {
        return Some(PR_FILES_MISSING);
    }
    let n = nodes.len();
    let mut i: usize = 0;
    while i < n
        invariant
            n == nodes@.len(),
            i <= n,
            nodes@ == file_nodes(*pr),
            all_present(nodes@),
            forall|j: int| 0 <= j < i ==> (#[trigger] nodes@[j]).unwrap().change_type is MODIFIED,
        decreases n - i,
    {
        match &nodes[i] {
            Some(f) => {
                if !matches!(f.change_type, PatchStatus::MODIFIED) {
                    assert(!(file_nodes(*pr)[i as int].unwrap().change_type is MODIFIED));
                    assert(exists|k: int|
                        0 <= k < file_nodes(*pr).len() && !((#[trigger] file_nodes(*pr)[k]).unwrap().change_type is MODIFIED));
                    return Some(PR_NOT_MODIFIED);
                }
            },
            None => {},
        }
        i = i + 1;
    }
    let has_last = match &pr.checks.nodes {
        Some(v) => v.len() > 0 && v[0].is_some(),
        None => false,
    };
    if !basic && !has_last {
        return Some(PR_NO_CHECKS);
    }
    None
}

fn abs_u64(x: i64) -> (r: u64)
    ensures
        r == abs(x),
{
    if x < 0 {
        let y: i128 = -(x as i128);
        y as u64
    } else {
        x as u64
    }
}

/// Whether one of the patterns admits the path.
fn any_glob_matches(paths: &Vec<crate::config::Glob>, path: &str) -> (r: bool)
    ensures
        r == exists|j: int| 0 <= j < paths@.len() && spec_glob_matches(#[trigger] paths@[j]@, path@),
{
    let np = paths.len();
    let mut j: usize = 0;
    while j < np
        invariant
            np == paths@.len(),
            j <= np,
            forall|q: int| 0 <= q < j ==> !spec_glob_matches(#[trigger] paths@[q]@, path@),
        decreases np - j,
    {
        if paths[j].matches(path) {
            return true;
        }
        j = j + 1;
    }
    false
}

/// Whether every changed file is admitted by one of the patterns.
fn files_allowed_exec(
    pr: &PullRequestQueryNodeOnPullRequest,
    nodes: &Vec<Option<FileNode>>,
    paths: &Vec<crate::config::Glob>,
) -> (r: bool)
    requires
        nodes@ == file_nodes(*pr),
    ensures
        r == files_allowed(*pr, paths@),
{
    let n = nodes.len();
    let mut i: usize = 0;
    while i < n
        invariant
            n == nodes@.len(),
            i <= n,
            nodes@ == file_nodes(*pr),
            forall|k: int|
                0 <= k < i ==> (#[trigger] nodes@[k] matches Some(f) ==> exists|j: int|
                    0 <= j < paths@.len() && spec_glob_matches(#[trigger] paths@[j]@, f.path@)),
        decreases n - i,
    {
        if let Some(file) = &nodes[i] {
            if !any_glob_matches(paths, file.path.as_str()) {
                assert(!(nodes@[i as int] matches Some(f) ==> exists|j: int|
                    0 <= j < paths@.len() && spec_glob_matches(#[trigger] paths@[j]@, f.path@)));
                return false;
            }
        }
        i = i + 1;
    }
    true
}


fn commit_authored_by_dependabot_exec(c: &Commit) -> (r: bool)
    ensures
        r == commit_authored_by_dependabot(*c),
{
    let author_ok = match &c.author {
        Some(a) => opt_str_is_exec(&a.email, "49699333+dependabot[bot]@users.noreply.github.com")
            && opt_str_is_exec(&a.name, "dependabot[bot]"),
        None => false,
    };
    let committer_ok = match &c.committer {
        Some(m) => opt_str_is_exec(&m.email, "noreply@github.com") && opt_str_is_exec(
            &m.name,
            "GitHub",
        ),
        None => false,
    };
    let signature_ok = match &c.signature {
        Some(s) => s.is_valid && matches!(s.state, GitSignatureState::VALID)
            && s.was_signed_by_git_hub && match &s.signer {
            Some(g) => str_eq(g.login.as_str(), "web-flow") && str_eq(
                g.id.as_str(),
                "MDQ6VXNlcjE5ODY0NDQ3",
            ),
            None => false,
        },
        None => false,
    };
    author_ok && committer_ok && signature_ok
}

fn name_or_empty_exec(o: &Option<String>) -> (r: &str)
    ensures
        r@ == name_or_empty(*o),
{
    match o {
        Some(x) => x.as_str(),
        None => {
            proof {
                reveal_strlit("");
            }
            ""
        },
    }
}

fn entry_admits_exec(entry: &Option<String>, value: &Option<String>, basic: bool) -> (r: bool)
    ensures
        r == entry_admits(*entry, *value, basic),
{
    if basic {
        match (entry, value) {
            (Some(e), Some(v)) => str_eq(e.as_str(), v.as_str()),
            (None, None) => true,
            _ => false,
        }
    } else {
        str_eq(name_or_empty_exec(entry), name_or_empty_exec(value))
    }
}

fn group_listed_exec(names: &Vec<Option<String>>, value: &Option<String>, basic: bool) -> (r: bool)
    ensures
        r == group_listed(names@, *value, basic),
{
    let n = names.len();
    let mut i: usize = 0;
    while i < n
        invariant
            n == names@.len(),
            i <= n,
            forall|j: int| 0 <= j < i ==> !entry_admits(#[trigger] names@[j], *value, basic),
        decreases n - i,
    {
        if entry_admits_exec(&names[i], value, basic) {
            return true;
        }
        i = i + 1;
    }
    false
}

/// The first restriction of the dependabot rule that an updated dependency breaks.
fn update_failure_exec(rule: &DependabotRule, u: &UpdatedDependency, basic: bool) -> (r: Option<&'static str>)
    ensures
        match r {
            Some(m) => update_failure(*rule, *u, basic) == Some(m@),
            None => update_failure(*rule, *u, basic) is None,
        },
{
    if let Some(names) = &rule.dependency_names {
        if !contains_name(names, u.dependency_name.as_str()) {
            return Some(BOT_NAME);
        }
    }
    if let Some(groups) = &rule.dependency_groups {
        if !group_listed_exec(groups, &u.dependency_group, basic) {
            return Some(BOT_GROUP);
        }
    }
    if let Some(types) = &rule.dependency_types {
        if !contains_name(types, u.dependency_type.as_str()) {
            return Some(BOT_TYPE);
        }
    }
    if let Some(types) = &rule.update_types {
        if !group_listed_exec(types, &u.update_type, basic) {
            return Some(BOT_UPDATE_TYPE);
        }
    }
    None
}

/// Why the pull request does not match the dependabot rule, if it does not. Entry `i`
/// of `commit_metadata` is the metadata parsed from the message of the commit at index
/// `i`; a commit without an entry has no metadata.
#[verifier::loop_isolation(false)]
pub fn match_dependabot_rule(
    rule: &DependabotRule,
    pull_request: &PullRequestQueryNodeOnPullRequest,
    pr_author: &ActorProps,
    commit_metadata: &Vec<Option<DependabotCommit>>, basic: bool,
) -> (r: Option<&'static str>)
    ensures
        match r {
            Some(m) => spec_dependabot_failure(*rule, *pull_request, *pr_author, commit_metadata@, basic)
                == Some(m@),
            None => spec_dependabot_failure(*rule, *pull_request, *pr_author, commit_metadata@, basic) is None,
        },
{
    // check id
    if !str_eq(actor_id(pr_author), DEPENDABOT_NODE_ID) {
        return Some(BOT_NOT_REAL);
    }
    let nodes = match &pull_request.commits.nodes {
        Some(v) => v,
        None => {
            return None;
        },
    };
    let ghost md = commit_metadata@;
    let n = nodes.len();
    let mut i: usize = 0;
    while i < n
        invariant
            n == nodes@.len(),
            i <= n,
            nodes@ == commit_nodes(*pull_request),
            md == commit_metadata@,
            commits_failure_from(*rule, nodes@, md, 0, basic) == commits_failure_from(
                *rule,
                nodes@,
                md,
                i as int, basic,
            ),
        decreases n - i,
    {
        if let Some(node) = &nodes[i] {
            let commit = &node.commit;
            if !commit_authored_by_dependabot_exec(commit) {
                return Some(BOT_NOT_AUTHOR);
            }
            let metadata = if i < commit_metadata.len() {
                &commit_metadata[i]
            } else {
                &None
            };
            assert(*metadata == metadata_at(md, i as int));
            match metadata {
                None => {
                    return Some(BOT_NO_METADATA);
                },
                Some(m) => {
                    let ups = &m.updated_dependencies;
                    let nu = ups.len();
                    let mut j: usize = 0;
                    while j < nu
                        invariant
                            nu == ups@.len(),
                            j <= nu,
                            updates_failure_from(*rule, ups@, 0, basic) == updates_failure_from(
                                *rule,
                                ups@,
                                j as int, basic,
                            ),
                        decreases nu - j,
                    {
                        if let Some(f) = update_failure_exec(rule, &ups[j], basic) {
                            return Some(f);
                        }
                        j = j + 1;
                    }
                },
            }
        }
        i = i + 1;
    }
    None
}

/// What happens to one rule while the rules are tried.
enum RuleResult {
    Skipped,
    Failed(Vec<&'static str>),
    Found,
    /// a counter would overflow
    Overflow,
}

spec fn rule_result_matches(r: RuleResult, o: RuleOutcome) -> bool {
    match r {
        RuleResult::Skipped => o is Skipped,
        RuleResult::Found => o is Found,
        RuleResult::Overflow => false,
        RuleResult::Failed(v) => o matches RuleOutcome::Failed(ms) && v@.len() == ms.len() && forall|
            k: int,
        | 0 <= k < ms.len() ==> (#[trigger] v@[k])@ == ms[k],
    }
}

/// The outcome of the dependabot part of a rule.
fn dependabot_step_exec(
    rule: &AutomergeRule,
    pr: &PullRequestQueryNodeOnPullRequest,
    author: &ActorProps,
    commit_metadata: &Vec<Option<DependabotCommit>>, basic: bool,
) -> (r: RuleResult)
    requires
        pr.author == Some(*author),
    ensures
        rule_result_matches(r, dependabot_step(*rule, *pr, commit_metadata@, basic)),
{
    if let Some(dependabot) = &rule.dependabot {
        if str_eq(author.login.as_str(), "dependabot") {
            match match_dependabot_rule(dependabot, pr, author, commit_metadata, basic) {
                Some(f) => {
                    return RuleResult::Failed(vec![f]);
                },
                None => {
                    return RuleResult::Found;
                },
            }
        }
    }
    RuleResult::Failed(vec![RULE_NOT_BOT])
}


/// The outcome of one rule for a pull request that passed the hardcoded checks.
fn evaluate_rule(
    rule: &AutomergeRule,
    pr: &PullRequestQueryNodeOnPullRequest,
    author: &ActorProps,
    commit_metadata: &Vec<Option<DependabotCommit>>, basic: bool,
) -> (r: RuleResult)
    requires
        pr_hard_check_failure(*pr, basic) is None,
        pr.author == Some(*author),
    ensures
        r is Overflow <==> !rule_fits(*rule, *pr, basic),
        !(r is Overflow) ==> rule_result_matches(r, rule_outcome(*rule, *pr, commit_metadata@, basic)),
{
    if !contains_name(&rule.repositories, pr.repository.name_with_owner.as_str()) {
        return RuleResult::Skipped;
    }
    if let Some(branches) = &rule.branches {
        if !contains_name(branches, pr.base_ref_name.as_str()) {
            return RuleResult::Failed(vec![RULE_BRANCH]);
        }
    }
    if let Some(max_commits) = rule.max_commits {
        if pr.commits.total_count > max_commits as i64 {
            return RuleResult::Failed(vec![RULE_COMMITS]);
        }
    }
    let files = match &pr.files {
        Some(f) => f,
        None => {
            return RuleResult::Skipped;
        },
    };
    if let Some(max_files) = rule.max_files {
        if files.total_count > max_files as i64 {
            return RuleResult::Failed(vec![RULE_FILES]);
        }
    }
    if let Some(max_lines) = rule.max_changed_lines {
        let added = abs_u64(pr.additions);
        let deleted = abs_u64(pr.deletions);
        if added > u64::MAX - deleted {
            return RuleResult::Overflow;
        }
        if added + deleted > max_lines {
            return RuleResult::Failed(vec![RULE_LINES]);
        }
    }
    if let Some(allowed_paths) = &rule.allowed_paths {
        let nodes = match &files.nodes {
            Some(v) => v,
            None => {
                return RuleResult::Skipped;
            },
        };
        if !files_allowed_exec(pr, nodes, allowed_paths) {
            return RuleResult::Failed(vec![RULE_PATHS]);
        }
    }
    assert(rule_filter_failure(*rule, *pr) is None);
    let checks = if basic {
        &None
    } else {
        &rule.checks
    };
    match checks {
        Some(check_rules) => {
            let suites = match &pr.checks.nodes {
                Some(v) => if v.len() > 0 {
                    match &v[0] {
                        Some(node) => match &node.commit.check_suites {
                            Some(cs) => cs.nodes.as_ref(),
                            None => None,
                        },
                        None => None,
                    }
                } else {
                    None
                },
                None => None,
            };
            match suites {
                None => RuleResult::Failed(vec![RULE_NO_SUITES]),
                Some(suites) => {
                    if check_rules.required.len() > usize::MAX - 64 {
                        return RuleResult::Overflow;
                    }
                    let summary = match summarize_checks(suites, &check_rules.required) {
                        Some(summary) => summary,
                        None => {
                            return RuleResult::Overflow;
                        },
                    };
                    let ghost runs = all_runs(suites@);
                    let mut prior: Vec<&'static str> = Vec::new();
                    let ghost mut prior_view: Seq<Seq<char>> = Seq::empty();
                    if let Some(max) = check_rules.max_pending {
                        if summary.pending > max {
                            prior.push(RULE_PENDING);
                        }
                    }
                    proof {
                        prior_view = message_if(
                            check_rules.max_pending matches Some(m) && count_pending(runs) > m,
                            RULE_PENDING@,
                        );
                        assert(summary.summarizes(runs, check_rules.required@));
                        assert(prior@.len() == prior_view.len());
                        assert(forall|k: int| 0 <= k < prior_view.len() ==> (#[trigger] prior@[k])@ == prior_view[k]);
                    }
                    let ghost v1 = prior_view;
                    if let Some(max) = check_rules.max_failed {
                        if summary.failed > max {
                            prior.push(RULE_FAILED);
                        }
                    }
                    proof {
                        prior_view = prior_view + message_if(
                            check_rules.max_failed matches Some(m) && count_failed(runs) > m,
                            RULE_FAILED@,
                        );
                        assert(prior@.len() == prior_view.len());
                        assert(forall|k: int| 0 <= k < prior_view.len() ==> (#[trigger] prior@[k])@ == prior_view[k]);
                    }
                    if let Some(min) = check_rules.min_passed {
                        if summary.passed < min {
                            prior.push(RULE_PASSED);
                        }
                    }
                    proof {
                        prior_view = prior_view + message_if(
                            check_rules.min_passed matches Some(m) && count_passed(runs) < m,
                            RULE_PASSED@,
                        );
                        assert(prior@.len() == prior_view.len());
                        assert(forall|k: int| 0 <= k < prior_view.len() ==> (#[trigger] prior@[k])@ == prior_view[k]);
                    }
                    let all_passed = bit_vec_all_true(&summary.required);
                    proof {
                        if all_passed {
                            assert forall|k: int| 0 <= k < check_rules.required@.len() implies required_check_passed(runs, check_rules.required@, k) by {
                                assert(bit_vec_bits(summary.required)[k]);
                            }
                        } else {
                            let k = choose|k: int| 0 <= k < bit_vec_bits(summary.required).len() && !bit_vec_bits(summary.required)[k];
                            assert(!required_check_passed(runs, check_rules.required@, k));
                        }
                        assert(all_passed == all_required_passed(runs, check_rules.required@));
                    }
                    if !all_passed {
                        prior.push(RULE_REQUIRED);
                    }
                    proof {
                        prior_view = prior_view + message_if(
                            !all_required_passed(runs, check_rules.required@),
                            RULE_REQUIRED@,
                        );
                        assert(prior_view =~= check_failures(*check_rules, runs));
                        assert(prior@.len() == prior_view.len());
                        assert(forall|k: int| 0 <= k < prior_view.len() ==> (#[trigger] prior@[k])@ == prior_view[k]);
                    }
                    if prior.len() > 0 {
                        // a rule whose check-run limits are broken does not match
                        return RuleResult::Failed(prior);
                    }
                    dependabot_step_exec(rule, pr, author, commit_metadata, basic)
                },
            }
        },
        None => dependabot_step_exec(rule, pr, author, commit_metadata, basic),
    }
}


/// Once a rule is found among the first `n` rules, the same rule is the one found
/// among more rules.
pub proof fn lemma_found_upto_stable(
    rules: Seq<AutomergeRule>,
    pr: PullRequestQueryNodeOnPullRequest,
    md: Seq<Option<DependabotCommit>>,
    n: int,
    m: int, basic: bool,
)
    requires
        0 <= n <= m,
        found_upto(rules, pr, md, n, basic) is Some,
    ensures
        found_upto(rules, pr, md, m, basic) == found_upto(rules, pr, md, n, basic),
    decreases m - n,
{
    if m > n {
        lemma_found_upto_stable(rules, pr, md, n, m - 1, basic);
    }
}

fn clone_name(name: &Option<String>) -> (r: Option<String>)
    ensures
        name_view(r) == name_view(*name),
{
    match name {
        Some(n) => Some(n.clone()),
        None => None,
    }
}

/// The eligibility check, in its full form or in the basic form that neither
/// needs nor looks at the check runs of the last commit, and reads an absent dependency
/// group or update type as matching no listed name.
pub(crate) fn eligibility<'a>(
    config: &'a AppConfig,
    response: &ResponseData,
    commit_metadata: &Vec<Option<DependabotCommit>>,
    basic: bool,
) -> (r: Option<EligibleResult<'a>>)
    ensures
        r is None <==> !eligibility_fits(config.rules@, *response, commit_metadata@, basic),
        r matches Some(x) ==> x@ == spec_eligibility(config.rules@, *response, commit_metadata@, basic),
{
    let pull_request = match &response.node {
        Some(PullRequestQueryNode::PullRequest(pr)) => pr,
        _ => {
            return Some(EligibleResult::FailedHardChecks(PR_NOT_FOUND));
        },
    };
    if let Some(msg) = pr_hard_checks(pull_request, basic) {
        return Some(EligibleResult::FailedHardChecks(msg));
    }
    let pr_author = match &pull_request.author {
        Some(a) => a,
        None => {
            return Some(EligibleResult::FailedHardChecks(PR_NO_AUTHOR));
        },
    };
    let ghost rules = config.rules@;
    let ghost pr = *pull_request;
    let ghost md = commit_metadata@;
    let mut failures: Vec<(Option<String>, &'static str)> = Vec::new();
    let n = config.rules.len();
    let mut i: usize = 0;
    while i < n
        invariant
            n == rules.len(),
            rules == config.rules@,
            md == commit_metadata@,
            pr == *pull_request,
            pr == the_pr(*response),
            hard_check_failure(*response, basic) is None,
            pr_hard_check_failure(pr, basic) is None,
            pr.author == Some(*pr_author),
            i <= n,
            forall|j: int| 0 <= j < i ==> rule_fits(#[trigger] rules[j], pr, basic),
            found_upto(rules, pr, md, i as int, basic) is None,
            failures@.len() == failures_upto(rules, pr, md, i as int, basic).len(),
            forall|k: int|
                0 <= k < failures@.len() ==> entry_view(#[trigger] failures@[k]) == failures_upto(
                    rules,
                    pr,
                    md,
                    i as int, basic,
                )[k],
        decreases n - i,
    {
        let rule = &config.rules[i];
        match evaluate_rule(rule, pull_request, pr_author, commit_metadata, basic) {
            RuleResult::Overflow => {
                assert(!eligibility_fits(rules, *response, md, basic));
                return None;
            },
            RuleResult::Found => {
                proof {
                    assert(found_upto(rules, pr, md, i + 1, basic) == Some(i as int));
                    lemma_found_upto_stable(rules, pr, md, i + 1, n as int, basic);
                    assert forall|j: int| 0 <= j < rules.len() && found_upto(rules, pr, md, j, basic) is None implies rule_fits(#[trigger] rules[j], pr, basic) by {
                        if j > i {
                            lemma_found_upto_stable(rules, pr, md, i + 1, j, basic);
                        }
                    }
                }
                return Some(EligibleResult::FoundRule(rule));
            },
            RuleResult::Skipped => {
                assert(rule_entries(rules[i as int], pr, md, basic) =~= Seq::empty());
                assert(failures_upto(rules, pr, md, i + 1, basic) =~= failures_upto(rules, pr, md, i as int, basic));
            },
            RuleResult::Failed(msgs) => {
                let ghost before = failures@;
                let ghost entries = rule_entries(rules[i as int], pr, md, basic);
                let nm = msgs.len();
                let mut j: usize = 0;
                while j < nm
                    invariant
                        nm == msgs@.len(),
                        nm == entries.len(),
                        j <= nm,
                        rule == &config.rules[i as int],
                        forall|q: int| 0 <= q < nm ==> (name_view(rule.name), (#[trigger] msgs@[q])@) == entries[q],
                        failures@.len() == before.len() + j,
                        forall|k: int| 0 <= k < before.len() ==> #[trigger] failures@[k] == before[k],
                        forall|k: int| 0 <= k < j ==> entry_view(#[trigger] failures@[before.len() + k]) == entries[k],
                    decreases nm - j,
                {
                    let name = clone_name(&rule.name);
                    failures.push((name, msgs[j]));
                    j = j + 1;
                }
                proof {
                    let target = failures_upto(rules, pr, md, i + 1, basic);
                    assert(target =~= failures_upto(rules, pr, md, i as int, basic) + entries);
                    assert forall|k: int| 0 <= k < failures@.len() implies entry_view(#[trigger] failures@[k]) == target[k] by {
                        if k >= before.len() {
                            assert(entry_view(failures@[before.len() + (k - before.len())]) == entries[k - before.len()]);
                        }
                    }
                }
            },
        }
        i = i + 1;
    }
    proof {
        let target = failures_upto(rules, pr, md, n as int, basic);
        assert(failures@.map_values(|e: (Option<String>, &'static str)| entry_view(e)) =~= target);
    }
    Some(EligibleResult::NoRuleFound(failures))
}


proof fn lemma_found_upto_found(
    rules: Seq<AutomergeRule>,
    pr: PullRequestQueryNodeOnPullRequest,
    md: Seq<Option<DependabotCommit>>,
    n: int, basic: bool,
)
    ensures
        found_upto(rules, pr, md, n, basic) matches Some(i) ==> 0 <= i < n && rule_outcome(
            rules[i],
            pr,
            md, basic,
        ) is Found,
    decreases n,
{
    if n > 0 {
        lemma_found_upto_found(rules, pr, md, n - 1, basic);
    }
}

/// What a rule that matched guarantees of the pull request.
pub open spec fn matched_rule_guarantees(
    rule: AutomergeRule,
    pr: PullRequestQueryNodeOnPullRequest,
) -> bool {
    &&& pr.state is OPEN
    &&& 1 <= pr.commits.total_count <= 100
    &&& nodes_complete(pr.commits.nodes)
    &&& 1 <= files_total(pr) <= 100
    &&& forall|i: int|
        0 <= i < file_nodes(pr).len() ==> ((#[trigger] file_nodes(pr)[i]) matches Some(f)
            && f.change_type is MODIFIED)
    &&& rule_applies(rule, pr)
    &&& rule_filter_failure(rule, pr) is None
    &&& rule.dependabot is Some
    &&& pr.author matches Some(a) && a.login@ == "dependabot"@ && spec_actor_id(a)
        == DEPENDABOT_NODE_ID@
    &&& forall|i: int|
        0 <= i < commit_nodes(pr).len() ==> ((#[trigger] commit_nodes(pr)[i]) matches Some(c)
            && commit_authored_by_dependabot(c.commit))
}

proof fn lemma_commits_failure_none(
    rule: DependabotRule,
    nodes: Seq<Option<CommitNode>>,
    md: Seq<Option<DependabotCommit>>,
    i: int, basic: bool,
)
    requires
        0 <= i,
        commits_failure_from(rule, nodes, md, i, basic) is None,
    ensures
        forall|k: int|
            i <= k < nodes.len() ==> (#[trigger] nodes[k] matches Some(c)
                ==> commit_authored_by_dependabot(c.commit)),
    decreases nodes.len() - i,
{
    if i < nodes.len() {
        lemma_commits_failure_none(rule, nodes, md, i + 1, basic);
    }
}

/// A pull request is found eligible only by a rule that lists its repository, lets
/// dependabot's pull requests through, and whose every restriction the pull request
/// meets: it is open, has between 1 and 100 commits and between 1 and 100 changed files,
/// changes files only by modifying them, was opened by dependabot's account, and every
/// commit was authored by dependabot and signed by GitHub. Where the rule limits the
/// check runs of the last commit (in the full rules), none of its limits is broken.
pub proof fn lemma_found_rule_guarantees(
    rules: Seq<AutomergeRule>,
    response: ResponseData,
    md: Seq<Option<DependabotCommit>>, basic: bool,
)
    requires
        spec_eligibility(rules, response, md, basic) is FoundRule,
    ensures
        matched_rule_guarantees(
            spec_eligibility(rules, response, md, basic)->FoundRule_0,
            the_pr(response),
        ),
        !basic ==> ((spec_eligibility(rules, response, md, basic)->FoundRule_0).checks matches Some(cr)
            ==> (last_commit_suites(the_pr(response)) matches Some(suites)
            && check_failures(cr, all_runs(suites)).len() == 0)),
{
    let pr = the_pr(response);
    lemma_found_upto_found(rules, pr, md, rules.len() as int, basic);
    let i = found_upto(rules, pr, md, rules.len() as int, basic).unwrap();
    let rule = rules[i];
    assert(rule_outcome(rule, pr, md, basic) is Found);
    let author = pr.author.unwrap();
    assert(spec_dependabot_failure(rule.dependabot.unwrap(), pr, author, md, basic) is None);
    lemma_commits_failure_none(rule.dependabot.unwrap(), commit_nodes(pr), md, 0, basic);
}

/// Whenever the full check finds a rule for a pull request, the early check on the
/// pull request's repository and a dependabot author already says that a rule is
/// possible.
pub proof fn lemma_found_rule_was_possible(
    rules: Seq<AutomergeRule>,
    response: ResponseData,
    md: Seq<Option<DependabotCommit>>, basic: bool,
)
    requires
        spec_eligibility(rules, response, md, basic) is FoundRule,
    ensures
        crate::config::spec_has_possible_rule(
            rules,
            the_pr(response).repository.name_with_owner@,
            UserType::Dependabot,
        ),
{
    let pr = the_pr(response);
    lemma_found_upto_found(rules, pr, md, rules.len() as int, basic);
    let i = found_upto(rules, pr, md, rules.len() as int, basic).unwrap();
    assert(rule_outcome(rules[i], pr, md, basic) is Found);
    assert(names_contain(rules[i].repositories@, pr.repository.name_with_owner@));
}


/// A list of names is widened: the new list is absent (no restriction), or both lists
/// are present and the new one holds every name of the old one.
pub open spec fn names_widened(old: Option<Vec<String>>, new: Option<Vec<String>>) -> bool {
    ||| new is None
    ||| (old matches Some(o) && new matches Some(n) && forall|i: int|
        0 <= i < o@.len() ==> names_contain(n@, (#[trigger] o@[i])@))
}

/// A list of optional names is widened: the new list is absent, or both are present and
/// the new one holds every entry of the old one, null entries included.
pub open spec fn entries_widened(old: Option<Vec<Option<String>>>, new: Option<Vec<Option<String>>>) -> bool {
    ||| new is None
    ||| (old matches Some(o) && new matches Some(n) && forall|i: int|
        0 <= i < o@.len() ==> exists|j: int| 0 <= j < n@.len() && name_view(#[trigger] n@[j]) == name_view(
            #[trigger] o@[i],
        ))
}

/// The dependabot rule `relaxed` admits at least what `rule` admits: each of its four
/// lists is absent or a superset of the corresponding list of `rule`.
pub open spec fn dependabot_rule_relaxes(relaxed: DependabotRule, rule: DependabotRule) -> bool {
    &&& names_widened(rule.dependency_names, relaxed.dependency_names)
    &&& entries_widened(rule.dependency_groups, relaxed.dependency_groups)
    &&& names_widened(rule.dependency_types, relaxed.dependency_types)
    &&& entries_widened(rule.update_types, relaxed.update_types)
}

proof fn lemma_names_widened(old: Option<Vec<String>>, new: Option<Vec<String>>, name: Seq<char>)
    requires
        names_widened(old, new),
        old matches Some(o) ==> names_contain(o@, name),
        new is Some ==> old is Some,
    ensures
        new matches Some(n) ==> names_contain(n@, name),
{
    if new is Some {
        let o = old.unwrap()@;
        let i = choose|i: int| 0 <= i < o.len() && #[trigger] o[i]@ == name;
        assert(names_contain(new.unwrap()@, o[i]@));
    }
}

proof fn lemma_entries_widened(
    old: Option<Vec<Option<String>>>,
    new: Option<Vec<Option<String>>>,
    value: Option<String>,
    basic: bool,
)
    requires
        entries_widened(old, new),
        old matches Some(o) ==> group_listed(o@, value, basic),
    ensures
        new matches Some(n) ==> group_listed(n@, value, basic),
{
    if new is Some {
        let o = old.unwrap()@;
        let n = new.unwrap()@;
        let i = choose|i: int| 0 <= i < o.len() && entry_admits(#[trigger] o[i], value, basic);
        let j = choose|j: int| 0 <= j < n.len() && name_view(#[trigger] n[j]) == name_view(o[i]);
        assert(name_or_empty(n[j]) == name_or_empty(o[i]));
        assert(entry_admits(n[j], value, basic));
    }
}

proof fn lemma_update_relaxed(relaxed: DependabotRule, rule: DependabotRule, u: UpdatedDependency, basic: bool)
    requires
        dependabot_rule_relaxes(relaxed, rule),
        update_failure(rule, u, basic) is None,
    ensures
        update_failure(relaxed, u, basic) is None,
{
    if relaxed.dependency_names is Some {
        lemma_names_widened(rule.dependency_names, relaxed.dependency_names, u.dependency_name@);
    }
    lemma_entries_widened(rule.dependency_groups, relaxed.dependency_groups, u.dependency_group, basic);
    if relaxed.dependency_types is Some {
        lemma_names_widened(rule.dependency_types, relaxed.dependency_types, u.dependency_type@);
    }
    lemma_entries_widened(rule.update_types, relaxed.update_types, u.update_type, basic);
}

proof fn lemma_updates_relaxed(
    relaxed: DependabotRule,
    rule: DependabotRule,
    ups: Seq<UpdatedDependency>,
    j: int,
    basic: bool,
)
    requires
        dependabot_rule_relaxes(relaxed, rule),
        updates_failure_from(rule, ups, j, basic) is None,
    ensures
        updates_failure_from(relaxed, ups, j, basic) is None,
    decreases ups.len() - j,
{
    if 0 <= j < ups.len() {
        lemma_update_relaxed(relaxed, rule, ups[j], basic);
        lemma_updates_relaxed(relaxed, rule, ups, j + 1, basic);
    }
}

proof fn lemma_commits_relaxed(
    relaxed: DependabotRule,
    rule: DependabotRule,
    nodes: Seq<Option<CommitNode>>,
    md: Seq<Option<DependabotCommit>>,
    i: int,
    basic: bool,
)
    requires
        dependabot_rule_relaxes(relaxed, rule),
        commits_failure_from(rule, nodes, md, i, basic) is None,
    ensures
        commits_failure_from(relaxed, nodes, md, i, basic) is None,
    decreases nodes.len() - i,
{
    if 0 <= i < nodes.len() {
        if let Some(n) = nodes[i] {
            if let Some(m) = metadata_at(md, i) {
                if commit_authored_by_dependabot(n.commit) {
                    lemma_updates_relaxed(relaxed, rule, m.updated_dependencies@, 0, basic);
                }
            }
        }
        lemma_commits_relaxed(relaxed, rule, nodes, md, i + 1, basic);
    }
}

/// Relaxing a dependabot rule never loses a match: where a pull request meets a
/// dependabot rule, it meets every rule whose lists are absent or supersets of the
/// rule's lists.
pub proof fn lemma_relaxed_dependabot_rule_still_matches(
    relaxed: DependabotRule,
    rule: DependabotRule,
    pr: PullRequestQueryNodeOnPullRequest,
    author: ActorProps,
    md: Seq<Option<DependabotCommit>>,
    basic: bool,
)
    requires
        dependabot_rule_relaxes(relaxed, rule),
        spec_dependabot_failure(rule, pr, author, md, basic) is None,
    ensures
        spec_dependabot_failure(relaxed, pr, author, md, basic) is None,
{
    lemma_commits_relaxed(relaxed, rule, commit_nodes(pr), md, 0, basic);
}

/// Some rule among the first `n` lists the pull request's repository and has the name
/// `name`.
pub open spec fn named_by_listing_rule(
    rules: Seq<AutomergeRule>,
    pr: PullRequestQueryNodeOnPullRequest,
    n: int,
    name: Option<Seq<char>>,
) -> bool {
    exists|i: int| 0 <= i < n && rule_applies(#[trigger] rules[i], pr) && name_view(rules[i].name) == name
}

proof fn lemma_failures_upto_listing(
    rules: Seq<AutomergeRule>,
    pr: PullRequestQueryNodeOnPullRequest,
    md: Seq<Option<DependabotCommit>>,
    n: int, basic: bool,
)
    requires
        0 <= n <= rules.len(),
    ensures
        forall|k: int| 0 <= k < failures_upto(rules, pr, md, n, basic).len()
            ==> named_by_listing_rule(rules, pr, n, (#[trigger] failures_upto(rules, pr, md, n, basic)[k]).0),
        (forall|i: int| 0 <= i < n ==> !rule_applies(#[trigger] rules[i], pr))
            ==> failures_upto(rules, pr, md, n, basic).len() == 0,
    decreases n,
{
    if n > 0 {
        lemma_failures_upto_listing(rules, pr, md, n - 1, basic);
        let prev = failures_upto(rules, pr, md, n - 1, basic);
        let es = rule_entries(rules[n - 1], pr, md, basic);
        let all = failures_upto(rules, pr, md, n, basic);
        assert(all == prev + es);
        assert forall|k: int| 0 <= k < all.len() implies named_by_listing_rule(rules, pr, n, (#[trigger] all[k]).0) by {
            if k < prev.len() {
                assert(all[k] == prev[k]);
                assert(named_by_listing_rule(rules, pr, n - 1, prev[k].0));
                let i = choose|i: int| 0 <= i < n - 1 && rule_applies(#[trigger] rules[i], pr)
                    && name_view(rules[i].name) == prev[k].0;
                assert(rule_applies(rules[i], pr) && name_view(rules[i].name) == all[k].0);
            } else {
                assert(all[k] == es[k - prev.len()]);
                assert(rule_outcome(rules[n - 1], pr, md, basic) is Failed);
                assert(rule_applies(rules[n - 1], pr));
                assert(es[k - prev.len()].0 == name_view(rules[n - 1].name));
            }
        }
        if forall|i: int| 0 <= i < n ==> !rule_applies(#[trigger] rules[i], pr) {
            assert(!rule_applies(rules[n - 1], pr));
            assert(es.len() == 0);
        }
    }
}

/// The list of failures that comes with a pull request that no rule matched names only
/// rules that list the pull request's repository; where no rule lists it, the list is
/// empty.
pub proof fn lemma_failures_name_listing_rules(
    rules: Seq<AutomergeRule>,
    response: ResponseData,
    md: Seq<Option<DependabotCommit>>, basic: bool,
)
    requires
        spec_eligibility(rules, response, md, basic) is NoRuleFound,
    ensures
        forall|k: int| 0 <= k < spec_eligibility(rules, response, md, basic)->NoRuleFound_0.len()
            ==> named_by_listing_rule(
                rules,
                the_pr(response),
                rules.len() as int,
                (#[trigger] spec_eligibility(rules, response, md, basic)->NoRuleFound_0[k]).0,
            ),
        (forall|i: int| 0 <= i < rules.len() ==> !rule_applies(#[trigger] rules[i], the_pr(response)))
            ==> spec_eligibility(rules, response, md, basic)->NoRuleFound_0.len() == 0,
{
    lemma_failures_upto_listing(rules, the_pr(response), md, rules.len() as int, basic);
}

/// Decides whether a pull request may be merged automatically, and by which rule.
///
/// The hardcoded checks come first; then the rules are tried in order, and the first
/// rule that the pull request matches is returned. Where none matches, the result lists,
/// for each rule that names the pull request's repository, why it did not match. Entry
/// `i` of `commit_metadata` is the metadata parsed from the message of the commit at
/// index `i` of the pull request.
pub fn check_automerge_eligibility<'a>(
    config: &'a AppConfig,
    response: &ResponseData,
    commit_metadata: &Vec<Option<DependabotCommit>>,
) -> (r: EligibleResult<'a>)
    requires
        eligibility_fits(config.rules@, *response, commit_metadata@, false),
    ensures
        r@ == spec_eligibility(config.rules@, *response, commit_metadata@, false),
{
    match eligibility(config, response, commit_metadata, false) {
        Some(r) => r,
        None => {
            proof {
                assert(false);
            }
            EligibleResult::NoRuleFound(Vec::new())
        },
    }
}

/// The eligibility check on every input: `None` exactly where a count overflows (the
/// changed lines of a pull request that a tried rule limits pass `u64::MAX`, or the
/// passed, failed or pending check runs that a tried rule counts pass 255), the check's
/// result on all other inputs.
pub fn try_check_automerge_eligibility<'a>(
    config: &'a AppConfig,
    response: &ResponseData,
    commit_metadata: &Vec<Option<DependabotCommit>>,
) -> (r: Option<EligibleResult<'a>>)
    ensures
        r is None <==> !eligibility_fits(config.rules@, *response, commit_metadata@, false),
        r matches Some(x) ==> x@ == spec_eligibility(config.rules@, *response, commit_metadata@, false),
{
    eligibility(config, response, commit_metadata, false)
}


/// A list entry matches an optional dependency group or update type, case by case: a
/// null entry matches an absent value, a name matches the same name, and in the full
/// rules a null entry and an empty name stand for each other.
pub open spec fn entry_matches_value(entry: Option<String>, value: Option<String>, basic: bool) -> bool {
    ||| (entry is None && value is None)
    ||| (entry matches Some(e) && value matches Some(v) && e@ == v@)
    ||| (value matches Some(v) && v@.len() == 0 && !basic && entry is None)
    ||| (entry matches Some(e) && e@.len() == 0 && !basic && value is None)
}

/// Some entry of the list matches the optional value.
pub open spec fn listed_by_some_entry(entries: Seq<Option<String>>, value: Option<String>, basic: bool) -> bool {
    exists|k: int| 0 <= k < entries.len() && #[trigger] entry_matches_value(entries[k], value, basic)
}

/// An updated dependency meets every list of the dependabot rule that is present: its
/// name, group, type and update type are each listed.
pub open spec fn update_meets_rule(rule: DependabotRule, u: UpdatedDependency, basic: bool) -> bool {
    &&& (rule.dependency_names matches Some(ns) ==> exists|k: int|
        0 <= k < ns@.len() && (#[trigger] ns@[k])@ == u.dependency_name@)
    &&& (rule.dependency_groups matches Some(gs) ==> listed_by_some_entry(gs@, u.dependency_group, basic))
    &&& (rule.dependency_types matches Some(ts) ==> exists|k: int|
        0 <= k < ts@.len() && (#[trigger] ts@[k])@ == u.dependency_type@)
    &&& (rule.update_types matches Some(us) ==> listed_by_some_entry(us@, u.update_type, basic))
}

proof fn lemma_entry_admits_cases(entry: Option<String>, value: Option<String>, basic: bool)
    ensures
        entry_admits(entry, value, basic) <==> entry_matches_value(entry, value, basic),
{
    match (entry, value) {
        (Some(e), None) => {
            if e@.len() == 0 {
                assert(e@ =~= Seq::<char>::empty());
            }
        },
        (None, Some(v)) => {
            if v@.len() == 0 {
                assert(v@ =~= Seq::<char>::empty());
            }
        },
        _ => {},
    }
}

proof fn lemma_group_listed_cases(entries: Seq<Option<String>>, value: Option<String>, basic: bool)
    ensures
        group_listed(entries, value, basic) <==> listed_by_some_entry(entries, value, basic),
{
    if group_listed(entries, value, basic) {
        let k = choose|k: int| 0 <= k < entries.len() && entry_admits(#[trigger] entries[k], value, basic);
        lemma_entry_admits_cases(entries[k], value, basic);
    }
    if listed_by_some_entry(entries, value, basic) {
        let k = choose|k: int| 0 <= k < entries.len() && entry_matches_value(#[trigger] entries[k], value, basic);
        lemma_entry_admits_cases(entries[k], value, basic);
    }
}

proof fn lemma_update_failure_cases(rule: DependabotRule, u: UpdatedDependency, basic: bool)
    ensures
        update_failure(rule, u, basic) is None <==> update_meets_rule(rule, u, basic),
{
    if let Some(gs) = rule.dependency_groups {
        lemma_group_listed_cases(gs@, u.dependency_group, basic);
    }
    if let Some(us) = rule.update_types {
        lemma_group_listed_cases(us@, u.update_type, basic);
    }
}

proof fn lemma_updates_failure_cases(rule: DependabotRule, ups: Seq<UpdatedDependency>, j: int, basic: bool)
    requires
        0 <= j,
    ensures
        updates_failure_from(rule, ups, j, basic) is None <==> forall|k: int|
            j <= k < ups.len() ==> update_meets_rule(rule, #[trigger] ups[k], basic),
    decreases ups.len() - j,
{
    if j < ups.len() {
        lemma_update_failure_cases(rule, ups[j], basic);
        lemma_updates_failure_cases(rule, ups, j + 1, basic);
    }
}

/// The commit at index `i` meets the dependabot rule: it was authored by dependabot and
/// signed by GitHub, its metadata was read, and every dependency it updates meets the
/// rule.
pub open spec fn commit_meets_rule(
    rule: DependabotRule,
    c: Commit,
    md: Seq<Option<DependabotCommit>>,
    i: int,
    basic: bool,
) -> bool {
    &&& commit_authored_by_dependabot(c)
    &&& i < md.len()
    &&& md[i] matches Some(m)
    &&& forall|k: int| 0 <= k < m.updated_dependencies@.len() ==> update_meets_rule(
        rule,
        #[trigger] m.updated_dependencies@[k],
        basic,
    )
}

proof fn lemma_commits_failure_cases(
    rule: DependabotRule,
    nodes: Seq<Option<CommitNode>>,
    md: Seq<Option<DependabotCommit>>,
    i: int,
    basic: bool,
)
    requires
        0 <= i,
    ensures
        commits_failure_from(rule, nodes, md, i, basic) is None <==> forall|k: int|
            i <= k < nodes.len() ==> (#[trigger] nodes[k] matches Some(n) ==> commit_meets_rule(
                rule,
                n.commit,
                md,
                k,
                basic,
            )),
    decreases nodes.len() - i,
{
    if i < nodes.len() {
        lemma_commits_failure_cases(rule, nodes, md, i + 1, basic);
        if let Some(n) = nodes[i] {
            if let Some(m) = metadata_at(md, i) {
                lemma_updates_failure_cases(rule, m.updated_dependencies@, 0, basic);
            }
        }
    }
}

/// A pull request meets a dependabot rule exactly when its author is dependabot's
/// account and every fetched commit was authored by dependabot and signed by GitHub, has
/// metadata, and updates only dependencies that meet every present list of the rule:
/// each updated name, group, type and update type is listed, where a null entry admits
/// an absent group or update type and nothing else (in the full rules an empty name
/// stands for a null entry and the other way round). Every updated dependency of every
/// commit is checked.
pub proof fn lemma_dependabot_rule_checks_every_update(
    rule: DependabotRule,
    pr: PullRequestQueryNodeOnPullRequest,
    author: ActorProps,
    md: Seq<Option<DependabotCommit>>,
    basic: bool,
)
    ensures
        spec_dependabot_failure(rule, pr, author, md, basic) is None <==> {
            &&& spec_actor_id(author) == DEPENDABOT_NODE_ID@
            &&& forall|i: int|
                0 <= i < commit_nodes(pr).len() ==> (#[trigger] commit_nodes(pr)[i] matches Some(n)
                    ==> commit_meets_rule(rule, n.commit, md, i, basic))
        },
{
    lemma_commits_failure_cases(rule, commit_nodes(pr), md, 0, basic);
}

/// A changed file matched by one of the patterns.
pub open spec fn file_matched_by(p: Seq<crate::config::Glob>, file: FileNode) -> bool {
    exists|j: int| 0 <= j < p.len() && spec_glob_matches(#[trigger] p[j]@, file.path@)
}

/// A rule with allowed paths matches only a pull request whose every changed file, at
/// every position of the fetched list of files, is matched by one of the rule's
/// patterns.
pub proof fn lemma_found_rule_admits_every_changed_file(
    rules: Seq<AutomergeRule>,
    response: ResponseData,
    md: Seq<Option<DependabotCommit>>,
    basic: bool,
)
    requires
        spec_eligibility(rules, response, md, basic) is FoundRule,
    ensures
        (spec_eligibility(rules, response, md, basic)->FoundRule_0).allowed_paths matches Some(p) ==> (
        the_pr(response).files matches Some(f) && f.nodes matches Some(ns) && forall|i: int|
            0 <= i < ns@.len() ==> (#[trigger] ns@[i] matches Some(file) && file_matched_by(p@, file))),
{
    lemma_found_rule_guarantees(rules, response, md, basic);
    let pr = the_pr(response);
    let rule = spec_eligibility(rules, response, md, basic)->FoundRule_0;
    assert(hard_check_failure(response, basic) is None);
    if let Some(p) = rule.allowed_paths {
        assert(!paths_fail(rule, pr));
        let ns = pr.files.unwrap().nodes.unwrap();
        assert forall|i: int| 0 <= i < ns@.len() implies (#[trigger] ns@[i] matches Some(file) && file_matched_by(p@, file)) by {
            assert(file_nodes(pr)[i] == ns@[i]);
        }
    }
}

/// A conclusion that counts a completed run as failed: any but success, neutral,
/// skipped and stale.
pub open spec fn conclusion_is_failure(c: CheckConclusionState) -> bool {
    match c {
        CheckConclusionState::SUCCESS => false,
        CheckConclusionState::NEUTRAL => false,
        CheckConclusionState::SKIPPED => false,
        CheckConclusionState::STALE => false,
        CheckConclusionState::ACTION_REQUIRED => true,
        CheckConclusionState::CANCELLED => true,
        CheckConclusionState::FAILURE => true,
        CheckConclusionState::STARTUP_FAILURE => true,
        CheckConclusionState::TIMED_OUT => true,
        CheckConclusionState::Other(_) => true,
    }
}

/// Completed runs with a failing conclusion.
pub open spec fn failing_run() -> spec_fn(CheckRun) -> bool {
    |r: CheckRun| r.status is COMPLETED && (r.conclusion matches Some(c) && conclusion_is_failure(c))
}

/// Completed runs that succeeded.
pub open spec fn succeeded_run() -> spec_fn(CheckRun) -> bool {
    |r: CheckRun| r.status is COMPLETED && r.conclusion matches Some(CheckConclusionState::SUCCESS)
}

/// Runs that have not completed, or completed without a conclusion.
pub open spec fn unfinished_run() -> spec_fn(CheckRun) -> bool {
    |r: CheckRun| !(r.status is COMPLETED) || r.conclusion is None
}

/// The counts of a check summary: the passed runs are the completed successful ones,
/// the failed runs the completed ones with a failing conclusion (neutral, skipped and
/// stale runs count neither way), and the pending runs those not completed or without
/// a conclusion.
pub proof fn lemma_check_counts(runs: Seq<CheckRun>)
    ensures
        count_passed(runs) == runs.filter(succeeded_run()).len(),
        count_failed(runs) == runs.filter(failing_run()).len(),
        count_pending(runs) == runs.filter(unfinished_run()).len(),
    decreases runs.len(),
{
    reveal(Seq::filter);
    if runs.len() > 0 {
        lemma_check_counts(runs.drop_last());
    }
}

/// In the full rules, a rule that limits the check runs of the last commit matches only
/// where those runs were fetched and meet every limit: at most `max_pending` runs not
/// completed or without a conclusion, at most `max_failed` completed runs with a failing
/// conclusion, at least `min_passed` completed successful runs, and a completed
/// successful run for every required check name.
pub proof fn lemma_found_rule_meets_check_limits(
    rules: Seq<AutomergeRule>,
    response: ResponseData,
    md: Seq<Option<DependabotCommit>>,
)
    requires
        spec_eligibility(rules, response, md, false) is FoundRule,
    ensures
        (spec_eligibility(rules, response, md, false)->FoundRule_0).checks matches Some(cr) ==> (
        last_commit_suites(the_pr(response)) matches Some(suites) && {
            let runs = all_runs(suites);
            &&& (cr.max_pending matches Some(m) ==> runs.filter(unfinished_run()).len() <= m)
            &&& (cr.max_failed matches Some(m) ==> runs.filter(failing_run()).len() <= m)
            &&& (cr.min_passed matches Some(m) ==> runs.filter(succeeded_run()).len() >= m)
            &&& forall|k: int| 0 <= k < cr.required@.len() ==> exists|w: int|
                0 <= w < runs.len() && succeeded_run()(#[trigger] runs[w]) && runs[w].name@
                    == (#[trigger] cr.required@[k])@
        }),
{
    lemma_found_rule_guarantees(rules, response, md, false);
    let rule = spec_eligibility(rules, response, md, false)->FoundRule_0;
    if let Some(cr) = rule.checks {
        let suites = last_commit_suites(the_pr(response)).unwrap();
        let runs = all_runs(suites);
        lemma_check_counts(runs);
        let fs = check_failures(cr, runs);
        assert(fs.len() == 0);
        assert(all_required_passed(runs, cr.required@));
        assert forall|k: int| 0 <= k < cr.required@.len() implies exists|w: int|
            0 <= w < runs.len() && succeeded_run()(#[trigger] runs[w]) && runs[w].name@
                == (#[trigger] cr.required@[k])@ by {
            assert(required_check_passed(runs, cr.required@, k));
            let w = choose|w: int|
                0 <= w < runs.len() && run_passed(#[trigger] runs[w]) && first_name_index(
                    cr.required@,
                    runs[w].name@,
                ) == Some(k);
            lemma_first_name_index_from_bounds(cr.required@, runs[w].name@, 0);
            assert(succeeded_run()(runs[w]));
        }
    }
}

/// The allowed-paths restriction of a rule fails exactly where some fetched changed
/// file, at any position of the list, is matched by none of the rule's patterns.
pub proof fn lemma_paths_restriction_exact(rule: AutomergeRule, pr: PullRequestQueryNodeOnPullRequest)
    requires
        rule.allowed_paths is Some,
        pr.files matches Some(f) && f.nodes is Some,
    ensures
        paths_fail(rule, pr) <==> exists|i: int|
            0 <= i < pr.files.unwrap().nodes.unwrap()@.len() && ((#[trigger] pr.files.unwrap().nodes.unwrap()@[i]) matches Some(file)
                && !file_matched_by(rule.allowed_paths.unwrap()@, file)),
{
    let ns = pr.files.unwrap().nodes.unwrap()@;
    assert(file_nodes(pr) == ns);
    if paths_fail(rule, pr) {
        let i = choose|i: int| 0 <= i < file_nodes(pr).len() && !(#[trigger] file_nodes(pr)[i] matches Some(f)
            ==> exists|j: int| 0 <= j < rule.allowed_paths.unwrap()@.len() && spec_glob_matches(
                #[trigger] rule.allowed_paths.unwrap()@[j]@,
                f.path@,
            ));
        assert(ns[i] matches Some(file) && !file_matched_by(rule.allowed_paths.unwrap()@, file));
        assert(file_nodes(pr)[i] == ns[i]);
    }
}

} // verus!
