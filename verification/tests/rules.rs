use automerge_bot::config::{
    AppConfig, AutomergeRule, CheckRules, ConfigMergeMethod, DependabotRule, Glob,
};
use automerge_bot::dependabot::{DependabotCommit, UpdatedDependency};
use automerge_bot::graphql::actor_id;
use automerge_bot::graphql::pull_request_query::{
    ActorProps, ActorPropsOn, CheckConclusionState, CheckRun, CheckRuns, CheckStatusState,
    CheckSuite, CheckSuites, Checks, ChecksCommit, ChecksNode, Commit, CommitNode, Commits,
    FileNode, Files, GitActor, GitSignature, GitSignatureState, PatchStatus, PullRequestQueryNode,
    PullRequestQueryNodeOnPullRequest, PullRequestState, Repository, ResponseData, Signer, Viewer,
};
use automerge_bot::rules as basic;
use automerge_bot::utils::rules::{
    check_automerge_eligibility, classify_user, match_dependabot_rule, try_check_automerge_eligibility, Author,
    EligibleResult, UserType,
};

const REPO: &str = "owner/repo";

fn some(s: &str) -> Option<String> {
    Some(s.to_string())
}

fn dependabot_actor() -> ActorProps {
    ActorProps { login: "dependabot".into(), on: ActorPropsOn::Bot("MDM6Qm90NDk2OTkzMzM=".into()) }
}

fn dependabot_commit(message: &str) -> Option<CommitNode> {
    Some(CommitNode {
        commit: Commit {
            author: Some(GitActor {
                email: some("49699333+dependabot[bot]@users.noreply.github.com"),
                name: some("dependabot[bot]"),
            }),
            committer: Some(GitActor { email: some("noreply@github.com"), name: some("GitHub") }),
            signature: Some(GitSignature {
                is_valid: true,
                state: GitSignatureState::VALID,
                was_signed_by_git_hub: true,
                signer: Some(Signer { login: "web-flow".into(), id: "MDQ6VXNlcjE5ODY0NDQ3".into() }),
            }),
            message: message.into(),
        },
    })
}

fn run(name: &str, status: CheckStatusState, conclusion: Option<CheckConclusionState>) -> Option<CheckRun> {
    Some(CheckRun { name: name.into(), status, conclusion })
}

fn pull_request(commits: usize, files: usize) -> PullRequestQueryNodeOnPullRequest {
    PullRequestQueryNodeOnPullRequest {
        id: "PR_1".into(),
        state: PullRequestState::OPEN,
        author: Some(dependabot_actor()),
        commits: Commits {
            total_count: commits as i64,
            nodes: Some((0..commits).map(|_| dependabot_commit("Bump x")).collect()),
        },
        files: Some(Files {
            total_count: files as i64,
            nodes: Some(
                (0..files)
                    .map(|i| Some(FileNode { path: format!("Cargo{i}.lock"), change_type: PatchStatus::MODIFIED }))
                    .collect(),
            ),
        }),
        repository: Repository { name_with_owner: REPO.into() },
        base_ref_name: "main".into(),
        head_ref_oid: "abc".into(),
        additions: 3,
        deletions: 2,
        checks: Checks {
            nodes: Some(vec![Some(ChecksNode {
                commit: ChecksCommit {
                    check_suites: Some(CheckSuites {
                        nodes: Some(vec![Some(CheckSuite {
                            check_runs: Some(CheckRuns {
                                nodes: Some(vec![
                                    run("build", CheckStatusState::COMPLETED, Some(CheckConclusionState::SUCCESS)),
                                    run("lint", CheckStatusState::COMPLETED, Some(CheckConclusionState::FAILURE)),
                                    run("docs", CheckStatusState::IN_PROGRESS, None),
                                    run("skip", CheckStatusState::COMPLETED, Some(CheckConclusionState::SKIPPED)),
                                ]),
                            }),
                        })]),
                    }),
                },
            })]),
        },
        reviews: None,
        auto_merge_request: None,
        merge_queue_entry: None,
    }
}

fn response(pr: PullRequestQueryNodeOnPullRequest) -> ResponseData {
    ResponseData {
        node: Some(PullRequestQueryNode::PullRequest(pr)),
        viewer: Viewer { login: "app[bot]".into(), id: "BOT_APP".into() },
    }
}

fn open_rule(name: Option<&str>) -> AutomergeRule {
    AutomergeRule {
        name: name.map(|n| n.to_string()),
        repositories: vec![REPO.to_string()],
        merge_method: ConfigMergeMethod::AutoSquash,
        branches: None,
        allowed_paths: None,
        max_commits: None,
        max_files: None,
        max_changed_lines: None,
        dependabot: Some(DependabotRule {
            dependency_names: None,
            dependency_groups: None,
            dependency_types: None,
            update_types: None,
        }),
        checks: None,
        autoapprove: false,
    }
}

fn update(name: &str, dep_type: &str, update_type: Option<&str>, group: Option<&str>) -> UpdatedDependency {
    UpdatedDependency {
        dependency_name: name.into(),
        dependency_type: dep_type.into(),
        update_type: update_type.map(|s| s.to_string()),
        dependency_group: group.map(|s| s.to_string()),
    }
}

fn metadata(n: usize, updates: fn() -> Vec<UpdatedDependency>) -> Vec<Option<DependabotCommit>> {
    (0..n).map(|_| Some(DependabotCommit { updated_dependencies: updates() })).collect()
}

fn serde_patch() -> Vec<UpdatedDependency> {
    vec![update("serde", "direct:production", Some("version-update:semver-patch"), None)]
}

fn config(rules: Vec<AutomergeRule>) -> AppConfig {
    AppConfig { webhook_secret: "secret".into(), rules }
}

fn hard_failure(r: &EligibleResult) -> Option<&'static str> {
    match r {
        EligibleResult::FailedHardChecks(m) => Some(m),
        _ => None,
    }
}

fn failures(r: &EligibleResult) -> Vec<(Option<String>, &'static str)> {
    match r {
        EligibleResult::NoRuleFound(f) => f.clone(),
        _ => panic!("expected no rule to be found"),
    }
}

#[test]
fn dependabot_pr_matches_rule() {
    let cfg = config(vec![open_rule(Some("deps"))]);
    let resp = response(pull_request(2, 1));
    let r = check_automerge_eligibility(&cfg, &resp, &metadata(2, serde_patch));
    let found = r.ok().expect("a rule should match");
    assert_eq!(found.name.as_deref(), Some("deps"));
    assert!(cfg.has_possible_rule(REPO, UserType::Dependabot));
}

#[test]
fn first_matching_rule_wins() {
    let mut other = open_rule(Some("other-repo"));
    other.repositories = vec!["x/y".into()];
    let cfg = config(vec![other, open_rule(Some("first")), open_rule(Some("second"))]);
    let resp = response(pull_request(1, 1));
    let r = check_automerge_eligibility(&cfg, &resp, &metadata(1, serde_patch));
    assert_eq!(r.ok().unwrap().name.as_deref(), Some("first"));
}

#[test]
fn missing_pr_fails_hard_check() {
    let cfg = config(vec![open_rule(None)]);
    let resp = ResponseData { node: None, viewer: Viewer { login: "a".into(), id: "b".into() } };
    let r = check_automerge_eligibility(&cfg, &resp, &vec![]);
    assert_eq!(hard_failure(&r), Some("PR not found???"));
    assert!(r.ok().is_none());
    let other = ResponseData { node: Some(PullRequestQueryNode::Other), viewer: Viewer { login: "a".into(), id: "b".into() } };
    assert_eq!(hard_failure(&check_automerge_eligibility(&cfg, &other, &vec![])), Some("PR not found???"));
}

#[test]
fn hard_checks_in_order() {
    let cfg = config(vec![open_rule(None)]);
    let md = metadata(1, serde_patch);
    let check = |pr: PullRequestQueryNodeOnPullRequest| {
        hard_failure(&check_automerge_eligibility(&cfg, &response(pr), &md))
    };
    let mut pr = pull_request(1, 1);
    pr.state = PullRequestState::MERGED;
    assert_eq!(check(pr), Some("PR is not open"));
    let mut pr = pull_request(1, 1);
    pr.author = None;
    assert_eq!(check(pr), Some("PR has no author"));
    let pr = pull_request(0, 1);
    assert_eq!(check(pr), Some("PR has no commits"));
    let pr = pull_request(101, 1);
    assert_eq!(check(pr), Some("PR more than 100 commits"));
    let mut pr = pull_request(2, 1);
    pr.commits.nodes.as_mut().unwrap()[1] = None;
    assert_eq!(check(pr), Some("Some commits could not be fetched"));
    let mut pr = pull_request(1, 1);
    pr.commits.nodes = None;
    assert_eq!(check(pr), Some("Some commits could not be fetched"));
    let mut pr = pull_request(1, 1);
    pr.files = None;
    assert_eq!(check(pr), Some("Could not diff PR"));
    let pr = pull_request(1, 0);
    assert_eq!(check(pr), Some("PR has no changes"));
    let pr = pull_request(1, 101);
    assert_eq!(check(pr), Some("PR changes more than 100 files"));
    let mut pr = pull_request(1, 2);
    pr.files.as_mut().unwrap().nodes.as_mut().unwrap()[0] = None;
    assert_eq!(check(pr), Some("Some file diffs could not be fetched"));
    let mut pr = pull_request(1, 2);
    pr.files.as_mut().unwrap().nodes.as_mut().unwrap()[1].as_mut().unwrap().change_type = PatchStatus::ADDED;
    assert_eq!(check(pr), Some("Some file changes are of a different type than MODIFIED"));
    let mut pr = pull_request(1, 1);
    pr.checks.nodes = Some(vec![]);
    assert_eq!(check(pr), Some("Failed to fetch last commit's checks"));
    let mut pr = pull_request(1, 1);
    pr.checks.nodes = Some(vec![None]);
    assert_eq!(check(pr), Some("Failed to fetch last commit's checks"));
}

#[test]
fn hundred_commits_and_files_are_allowed() {
    let cfg = config(vec![open_rule(None)]);
    let resp = response(pull_request(100, 100));
    let r = check_automerge_eligibility(&cfg, &resp, &metadata(100, serde_patch));
    assert!(r.ok().is_some());
}

#[test]
fn rule_restrictions_are_reported() {
    let md = metadata(3, serde_patch);
    let resp = response(pull_request(3, 2));
    let mut branch = open_rule(Some("branch"));
    branch.branches = Some(vec!["release".into()]);
    let mut commits = open_rule(Some("commits"));
    commits.max_commits = Some(2);
    let mut files = open_rule(Some("files"));
    files.max_files = Some(1);
    let mut lines = open_rule(Some("lines"));
    lines.max_changed_lines = Some(4);
    let mut paths = open_rule(None);
    paths.allowed_paths = Some(vec![Glob::new("/Cargo0.lock").unwrap()]);
    let mut other = open_rule(Some("other"));
    other.repositories = vec!["x/y".into()];
    let cfg = config(vec![branch, commits, files, lines, other, paths]);
    let r = check_automerge_eligibility(&cfg, &resp, &md);
    assert_eq!(
        failures(&r),
        vec![
            (some("branch"), "Ineligible PR base branch"),
            (some("commits"), "Too many commits"),
            (some("files"), "Too many changed files"),
            (some("lines"), "Too many changes"),
            (None, "PR changes file outside of allowed paths"),
        ]
    );
}

#[test]
fn limits_at_the_boundary_pass() {
    let md = metadata(3, serde_patch);
    let resp = response(pull_request(3, 2));
    let mut rule = open_rule(Some("edge"));
    rule.branches = Some(vec!["dev".into(), "main".into()]);
    rule.max_commits = Some(3);
    rule.max_files = Some(2);
    rule.max_changed_lines = Some(5);
    rule.allowed_paths = Some(vec![Glob::new("/Cargo*.lock").unwrap()]);
    let cfg = config(vec![rule]);
    assert!(check_automerge_eligibility(&cfg, &resp, &md).ok().is_some());
}

#[test]
fn negative_line_counts_count_by_magnitude() {
    let mut pr = pull_request(1, 1);
    pr.additions = -3;
    pr.deletions = -3;
    let mut rule = open_rule(None);
    rule.max_changed_lines = Some(5);
    let cfg = config(vec![rule]);
    let r = check_automerge_eligibility(&cfg, &response(pr), &metadata(1, serde_patch));
    assert_eq!(failures(&r), vec![(None, "Too many changes")]);
}

#[test]
fn overflowing_line_count_is_refused() {
    let mut pr = pull_request(1, 1);
    pr.additions = i64::MIN;
    pr.deletions = i64::MIN;
    let mut rule = open_rule(None);
    rule.max_changed_lines = Some(5);
    let cfg = config(vec![rule]);
    assert!(try_check_automerge_eligibility(&cfg, &response(pr), &metadata(1, serde_patch)).is_none());
    let mut pr = pull_request(1, 1);
    pr.additions = i64::MIN;
    pr.deletions = i64::MAX;
    let mut rule = open_rule(None);
    rule.max_changed_lines = Some(5);
    let cfg = config(vec![rule]);
    let r = try_check_automerge_eligibility(&cfg, &response(pr), &metadata(1, serde_patch)).unwrap();
    assert_eq!(failures(&r), vec![(None, "Too many changes")]);
}

#[test]
fn non_dependabot_author_is_not_matched() {
    let mut pr = pull_request(1, 1);
    pr.author = Some(ActorProps { login: "someone".into(), on: ActorPropsOn::User("U_1".into()) });
    let cfg = config(vec![open_rule(Some("deps"))]);
    let r = check_automerge_eligibility(&cfg, &response(pr), &metadata(1, serde_patch));
    assert_eq!(failures(&r), vec![(some("deps"), "Not authored by a bot configured for automerge")]);
    let mut no_bot = open_rule(None);
    no_bot.dependabot = None;
    let cfg = config(vec![no_bot]);
    let r = check_automerge_eligibility(&cfg, &response(pull_request(1, 1)), &metadata(1, serde_patch));
    assert_eq!(failures(&r), vec![(None, "Not authored by a bot configured for automerge")]);
}

#[test]
fn fake_dependabot_is_not_matched() {
    let mut pr = pull_request(1, 1);
    pr.author = Some(ActorProps { login: "dependabot".into(), on: ActorPropsOn::User("U_1".into()) });
    let cfg = config(vec![open_rule(None)]);
    let r = check_automerge_eligibility(&cfg, &response(pr), &metadata(1, serde_patch));
    assert_eq!(failures(&r), vec![(None, "Not a real dependabot PR")]);
}

#[test]
fn commits_must_come_from_dependabot() {
    let cfg = config(vec![open_rule(None)]);
    let md = metadata(1, serde_patch);
    let mut pr = pull_request(1, 1);
    pr.commits.nodes.as_mut().unwrap()[0].as_mut().unwrap().commit.committer = None;
    let r = check_automerge_eligibility(&cfg, &response(pr), &md);
    assert_eq!(failures(&r), vec![(None, "One of the commits was not authored by dependabot")]);
    let mut pr = pull_request(1, 1);
    pr.commits.nodes.as_mut().unwrap()[0].as_mut().unwrap().commit.signature.as_mut().unwrap().state =
        GitSignatureState::UNVERIFIED_EMAIL;
    let r = check_automerge_eligibility(&cfg, &response(pr), &md);
    assert_eq!(failures(&r), vec![(None, "One of the commits was not authored by dependabot")]);
}

#[test]
fn commits_need_metadata() {
    let cfg = config(vec![open_rule(None)]);
    let r = check_automerge_eligibility(&cfg, &response(pull_request(2, 1)), &metadata(1, serde_patch));
    assert_eq!(
        failures(&r),
        vec![(None, "Could not deserialize the metadata block of one of dependabot's commits")]
    );
}

#[test]
fn dependency_restrictions_are_checked() {
    let md = metadata(1, serde_patch);
    let resp = response(pull_request(1, 1));
    let with = |f: fn(&mut DependabotRule)| {
        let mut rule = open_rule(None);
        f(rule.dependabot.as_mut().unwrap());
        config(vec![rule])
    };
    let cfg = with(|d| d.dependency_names = Some(vec!["tokio".into()]));
    assert_eq!(
        failures(&check_automerge_eligibility(&cfg, &resp, &md)),
        vec![(None, "A dependency from outside of the allowed dependency names list was updated")]
    );
    let cfg = with(|d| d.dependency_groups = Some(vec![some("rust")]));
    assert_eq!(
        failures(&check_automerge_eligibility(&cfg, &resp, &md)),
        vec![(None, "A dependency from outside of the allowed dependency groups list was updated")]
    );
    let cfg = with(|d| d.dependency_types = Some(vec!["direct:development".into()]));
    assert_eq!(
        failures(&check_automerge_eligibility(&cfg, &resp, &md)),
        vec![(None, "A dependency from outside of the allowed dependency types list was updated")]
    );
    let cfg = with(|d| d.update_types = Some(vec![some("version-update:semver-minor")]));
    assert_eq!(
        failures(&check_automerge_eligibility(&cfg, &resp, &md)),
        vec![(None, "One of the update types was outside of the allowed list")]
    );
    let cfg = with(|d| {
        d.dependency_names = Some(vec!["serde".into()]);
        d.dependency_groups = Some(vec![some("")]);
        d.dependency_types = Some(vec!["direct:production".into()]);
        d.update_types = Some(vec![some("version-update:semver-patch")]);
    });
    assert!(check_automerge_eligibility(&cfg, &resp, &md).ok().is_some());
}

#[test]
fn basic_rules_need_a_group_to_list() {
    let md = metadata(1, serde_patch);
    let resp = response(pull_request(1, 1));
    let mut rule = open_rule(None);
    rule.dependabot.as_mut().unwrap().dependency_groups = Some(vec![some("")]);
    let cfg = config(vec![rule]);
    assert!(check_automerge_eligibility(&cfg, &resp, &md).ok().is_some());
    assert_eq!(
        failures(&basic::check_automerge_eligibility(&cfg, &resp, &md)),
        vec![(None, "A dependency from outside of the allowed dependency groups list was updated")]
    );
}

#[test]
fn null_group_entry_admits_dependencies_without_a_group() {
    let md = metadata(1, serde_patch);
    let resp = response(pull_request(1, 1));
    let mut rule = open_rule(None);
    rule.dependabot.as_mut().unwrap().dependency_groups = Some(vec![some("rust"), None]);
    let cfg = config(vec![rule]);
    assert!(check_automerge_eligibility(&cfg, &resp, &md).ok().is_some());
    assert!(basic::check_automerge_eligibility(&cfg, &resp, &md).ok().is_some());
    let grouped = || vec![update("serde", "direct:production", None, Some("rust"))];
    let md = metadata(1, grouped);
    assert!(basic::check_automerge_eligibility(&cfg, &resp, &md).ok().is_some());
    let mut rule = open_rule(None);
    rule.dependabot.as_mut().unwrap().dependency_groups = Some(vec![None]);
    let only_null = config(vec![rule]);
    assert_eq!(
        failures(&basic::check_automerge_eligibility(&only_null, &resp, &md)),
        vec![(None, "A dependency from outside of the allowed dependency groups list was updated")]
    );
    let mut rule = open_rule(None);
    rule.dependabot.as_mut().unwrap().update_types = Some(vec![None]);
    let null_update = config(vec![rule]);
    assert!(basic::check_automerge_eligibility(&null_update, &resp, &md).ok().is_some());
    assert!(check_automerge_eligibility(&null_update, &resp, &md).ok().is_some());
}

#[test]
fn basic_rules_ignore_checks() {
    let md = metadata(1, serde_patch);
    let mut pr = pull_request(1, 1);
    pr.checks.nodes = None;
    let mut rule = open_rule(None);
    rule.checks = Some(CheckRules { required: vec!["nope".into()], max_pending: Some(0), max_failed: None, min_passed: None });
    let cfg = config(vec![rule]);
    let resp = response(pr);
    assert_eq!(
        hard_failure(&check_automerge_eligibility(&cfg, &resp, &md)),
        Some("Failed to fetch last commit's checks")
    );
    assert!(basic::check_automerge_eligibility(&cfg, &resp, &md).ok().is_some());
    assert!(basic::try_check_automerge_eligibility(&cfg, &resp, &md).unwrap().ok().is_some());
}

#[test]
fn broken_check_limits_stop_a_dependabot_match() {
    let md = metadata(1, serde_patch);
    let resp = response(pull_request(1, 1));
    let mut rule = open_rule(Some("checks"));
    rule.checks = Some(CheckRules {
        required: vec!["build".into(), "lint".into()],
        max_pending: Some(0),
        max_failed: Some(0),
        min_passed: Some(2),
    });
    let cfg = config(vec![rule]);
    let expected = vec![
        (some("checks"), "Too many pending checks"),
        (some("checks"), "Too many failed checks"),
        (some("checks"), "Not enough passed checks"),
        (some("checks"), "Required checks are still pending or have failed"),
    ];
    assert_eq!(failures(&check_automerge_eligibility(&cfg, &resp, &md)), expected);
    let mut pr = pull_request(1, 1);
    pr.author = Some(ActorProps { login: "someone".into(), on: ActorPropsOn::User("U".into()) });
    let r = check_automerge_eligibility(&cfg, &response(pr), &md);
    assert_eq!(failures(&r), expected);
    let mut one_failure = open_rule(Some("strict"));
    one_failure.checks = Some(CheckRules { required: vec![], max_pending: None, max_failed: Some(0), min_passed: None });
    let strict = config(vec![one_failure]);
    assert_eq!(
        failures(&check_automerge_eligibility(&strict, &resp, &md)),
        vec![(some("strict"), "Too many failed checks")]
    );
}

#[test]
fn check_limits_that_hold_report_nothing() {
    let md = metadata(1, serde_patch);
    let mut pr = pull_request(1, 1);
    pr.author = Some(ActorProps { login: "someone".into(), on: ActorPropsOn::User("U".into()) });
    let mut rule = open_rule(None);
    rule.checks = Some(CheckRules {
        required: vec!["build".into()],
        max_pending: Some(1),
        max_failed: Some(1),
        min_passed: Some(1),
    });
    let cfg = config(vec![rule]);
    let r = check_automerge_eligibility(&cfg, &response(pr), &md);
    assert_eq!(failures(&r), vec![(None, "Not authored by a bot configured for automerge")]);
}

#[test]
fn duplicate_required_check_is_never_satisfied() {
    let md = metadata(1, serde_patch);
    let mut pr = pull_request(1, 1);
    pr.author = Some(ActorProps { login: "someone".into(), on: ActorPropsOn::User("U".into()) });
    let mut rule = open_rule(None);
    rule.checks = Some(CheckRules { required: vec!["build".into(), "build".into()], max_pending: None, max_failed: None, min_passed: None });
    let cfg = config(vec![rule]);
    let r = check_automerge_eligibility(&cfg, &response(pr), &md);
    assert_eq!(failures(&r), vec![(None, "Required checks are still pending or have failed")]);
}

#[test]
fn missing_check_suites_fail_the_rule() {
    let md = metadata(1, serde_patch);
    let mut pr = pull_request(1, 1);
    pr.checks.nodes.as_mut().unwrap()[0].as_mut().unwrap().commit.check_suites = None;
    let mut rule = open_rule(None);
    rule.checks = Some(CheckRules { required: vec![], max_pending: None, max_failed: None, min_passed: None });
    let cfg = config(vec![rule]);
    let r = check_automerge_eligibility(&cfg, &response(pr), &md);
    assert_eq!(failures(&r), vec![(None, "Could not fetch check suite data")]);
}

#[test]
fn too_many_check_runs_are_refused() {
    let md = metadata(1, serde_patch);
    let mut pr = pull_request(1, 1);
    let runs: Vec<Option<CheckRun>> =
        (0..256).map(|i| run(&format!("c{i}"), CheckStatusState::COMPLETED, Some(CheckConclusionState::SUCCESS))).collect();
    pr.checks.nodes.as_mut().unwrap()[0].as_mut().unwrap().commit.check_suites =
        Some(CheckSuites { nodes: Some(vec![Some(CheckSuite { check_runs: Some(CheckRuns { nodes: Some(runs) }) })]) });
    let mut rule = open_rule(None);
    rule.checks = Some(CheckRules { required: vec![], max_pending: None, max_failed: None, min_passed: None });
    let cfg = config(vec![rule]);
    assert!(try_check_automerge_eligibility(&cfg, &response(pr), &md).is_none());
}

fn with_runs(mut runs: Vec<Option<CheckRun>>) -> PullRequestQueryNodeOnPullRequest {
    let rest = runs.split_off(150);
    let mut pr = pull_request(1, 1);
    pr.checks.nodes.as_mut().unwrap()[0].as_mut().unwrap().commit.check_suites = Some(CheckSuites {
        nodes: Some(vec![
            Some(CheckSuite { check_runs: Some(CheckRuns { nodes: Some(runs) }) }),
            None,
            Some(CheckSuite { check_runs: Some(CheckRuns { nodes: Some(rest) }) }),
        ]),
    });
    pr
}

fn skipped_and_passed() -> Vec<Option<CheckRun>> {
    let mut runs: Vec<Option<CheckRun>> = (0..250)
        .map(|i| run(&format!("s{i}"), CheckStatusState::COMPLETED, Some(CheckConclusionState::SKIPPED)))
        .collect();
    runs.extend((0..50).map(|i| run(&format!("p{i}"), CheckStatusState::COMPLETED, Some(CheckConclusionState::SUCCESS))));
    runs
}

fn failed_and_queued() -> Vec<Option<CheckRun>> {
    let mut runs: Vec<Option<CheckRun>> = (0..255)
        .map(|i| run(&format!("f{i}"), CheckStatusState::COMPLETED, Some(CheckConclusionState::FAILURE)))
        .collect();
    runs.extend((0..255).map(|i| run(&format!("q{i}"), CheckStatusState::QUEUED, None)));
    runs
}

#[test]
fn many_uncounted_runs_are_fine() {
    let md = metadata(1, serde_patch);
    let mut rule = open_rule(Some("many"));
    rule.checks = Some(CheckRules { required: vec!["p49".into()], max_pending: Some(0), max_failed: Some(0), min_passed: Some(50) });
    let cfg = config(vec![rule]);
    let r = try_check_automerge_eligibility(&cfg, &response(with_runs(skipped_and_passed())), &md);
    assert!(r.unwrap().ok().is_some());
    let mut rule = open_rule(Some("strict"));
    rule.checks = Some(CheckRules { required: vec![], max_pending: None, max_failed: None, min_passed: Some(51) });
    let cfg = config(vec![rule]);
    let r = check_automerge_eligibility(&cfg, &response(with_runs(skipped_and_passed())), &md);
    assert_eq!(failures(&r), vec![(some("strict"), "Not enough passed checks")]);
}

#[test]
fn each_count_may_reach_255() {
    let md = metadata(1, serde_patch);
    let mut rule = open_rule(None);
    rule.checks = Some(CheckRules { required: vec![], max_pending: Some(255), max_failed: Some(255), min_passed: None });
    let cfg = config(vec![rule]);
    assert!(try_check_automerge_eligibility(&cfg, &response(with_runs(failed_and_queued())), &md).unwrap().ok().is_some());
    let mut runs = failed_and_queued();
    runs.push(run("one more", CheckStatusState::IN_PROGRESS, None));
    assert!(try_check_automerge_eligibility(&cfg, &response(with_runs(runs)), &md).is_none());
}

#[test]
fn found_rule_was_possible_early() {
    let cfg = config(vec![open_rule(None)]);
    let resp = response(pull_request(1, 1));
    let r = check_automerge_eligibility(&cfg, &resp, &metadata(1, serde_patch));
    assert!(r.ok().is_some());
    assert!(cfg.has_possible_rule(REPO, UserType::Dependabot));
}

#[test]
fn ok_is_some_only_for_found_rule() {
    let rule = open_rule(Some("r"));
    assert!(EligibleResult::FoundRule(&rule).ok().is_some());
    assert!(EligibleResult::FailedHardChecks("x").ok().is_none());
    assert!(EligibleResult::NoRuleFound(vec![]).ok().is_none());
}

#[test]
fn classify_user_needs_every_field() {
    let bot = Author { login: "dependabot[bot]".into(), id: 49_699_333, node_id: "MDM6Qm90NDk2OTkzMzM=".into(), user_type: "Bot".into() };
    assert_eq!(classify_user(&bot), UserType::Dependabot);
    assert_eq!(basic::classify_user(&bot), UserType::Dependabot);
    let fake = Author { id: 1, ..bot_clone(&bot) };
    assert_eq!(classify_user(&fake), UserType::Unknown);
    let user = Author { user_type: "User".into(), ..bot_clone(&bot) };
    assert_eq!(classify_user(&user), UserType::Unknown);
    let other = Author { login: "renovate[bot]".into(), ..bot_clone(&bot) };
    assert_eq!(classify_user(&other), UserType::Unknown);
}

fn bot_clone(a: &Author) -> Author {
    Author { login: a.login.clone(), id: a.id, node_id: a.node_id.clone(), user_type: a.user_type.clone() }
}

#[test]
fn actor_id_of_each_kind() {
    let kinds = [
        ActorPropsOn::Bot("1".into()),
        ActorPropsOn::EnterpriseUserAccount("2".into()),
        ActorPropsOn::Mannequin("3".into()),
        ActorPropsOn::Organization("4".into()),
        ActorPropsOn::User("5".into()),
    ];
    for (i, on) in kinds.into_iter().enumerate() {
        let a = ActorProps { login: "x".into(), on };
        assert_eq!(actor_id(&a), (i + 1).to_string());
    }
}

#[test]
fn no_rule_for_the_repository_lists_no_failures() {
    let mut other = open_rule(Some("other"));
    other.repositories = vec!["owner/else".into()];
    let cfg = config(vec![other]);
    let r = check_automerge_eligibility(&cfg, &response(pull_request(1, 1)), &metadata(1, serde_patch));
    assert!(failures(&r).is_empty());
    let empty = config(vec![]);
    let r = check_automerge_eligibility(&empty, &response(pull_request(1, 1)), &metadata(1, serde_patch));
    assert!(failures(&r).is_empty());
}

#[test]
fn dependabot_rule_reasons_directly() {
    let open = DependabotRule { dependency_names: None, dependency_groups: None, dependency_types: None, update_types: None };
    let pr = pull_request(2, 1);
    assert_eq!(match_dependabot_rule(&open, &pr, &dependabot_actor(), &metadata(2, serde_patch), false), None);
    let impostor = ActorProps { login: "dependabot".into(), on: ActorPropsOn::User("U_1".into()) };
    assert_eq!(
        match_dependabot_rule(&open, &pr, &impostor, &metadata(2, serde_patch), false),
        Some("Not a real dependabot PR")
    );
    let names = DependabotRule { dependency_names: Some(vec!["tokio".into()]), ..open };
    assert_eq!(
        match_dependabot_rule(&names, &pr, &dependabot_actor(), &metadata(2, serde_patch), false),
        Some("A dependency from outside of the allowed dependency names list was updated")
    );
    let partial = vec![Some(DependabotCommit { updated_dependencies: serde_patch() }), None];
    let open = DependabotRule { dependency_names: None, dependency_groups: None, dependency_types: None, update_types: None };
    assert_eq!(
        match_dependabot_rule(&open, &pr, &dependabot_actor(), &partial, false),
        Some("Could not deserialize the metadata block of one of dependabot's commits")
    );
    let groups = DependabotRule { dependency_groups: Some(vec![some("")]), ..open };
    assert_eq!(match_dependabot_rule(&groups, &pr, &dependabot_actor(), &metadata(2, serde_patch), false), None);
    assert_eq!(
        basic::match_dependabot_rule(&groups, &pr, &dependabot_actor(), &metadata(2, serde_patch)),
        Some("A dependency from outside of the allowed dependency groups list was updated")
    );
}

#[test]
fn relaxed_dependabot_rule_still_matches() {
    let pr = pull_request(2, 1);
    let md = metadata(2, serde_patch);
    let rule = DependabotRule {
        dependency_names: Some(vec!["serde".into()]),
        dependency_groups: Some(vec![None]),
        dependency_types: Some(vec!["direct:production".into()]),
        update_types: Some(vec![some("version-update:semver-patch")]),
    };
    assert_eq!(match_dependabot_rule(&rule, &pr, &dependabot_actor(), &md, false), None);
    let relaxed = DependabotRule {
        dependency_names: Some(vec!["tokio".into(), "serde".into()]),
        dependency_groups: None,
        dependency_types: Some(vec!["direct:development".into(), "direct:production".into()]),
        update_types: Some(vec![some("version-update:semver-minor"), some("version-update:semver-patch")]),
    };
    assert_eq!(match_dependabot_rule(&relaxed, &pr, &dependabot_actor(), &md, false), None);
    assert_eq!(match_dependabot_rule(&relaxed, &pr, &dependabot_actor(), &md, true), None);
}
