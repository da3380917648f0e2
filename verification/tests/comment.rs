use automerge_bot::config::{AppConfig, AutomergeRule, ConfigMergeMethod, DependabotRule};
use automerge_bot::graphql::check_permission::{
    CheckPermissionNode, CheckPermissionRepository, CollaboratorEdge, Collaborators,
    RepositoryPermission, ResponseData,
};
use automerge_bot::utils::rules::{Author, EligibleResult};
use automerge_bot::webhook::comment::{
    check_command_step, check_result_comment, comment_is_check_command, sender_is_admin, trim,
    CheckCommandStep, PermissionError,
};
use automerge_bot::webhook::pr::{pr_event_triggers_update, PullRequestAction};

#[test]
fn check_command_is_trimmed_and_case_insensitive() {
    assert!(comment_is_check_command(true, Some("User"), Some("!automerge check")));
    assert!(comment_is_check_command(true, Some("User"), Some("  !AutoMerge CHECK \n")));
    assert!(comment_is_check_command(true, Some("User"), Some("\t!AUTOMERGE check\r\n")));
    assert!(comment_is_check_command(true, Some("User"), Some("\u{3000}!automerge check\u{a0}")));
}

#[test]
fn check_command_needs_new_user_comment_with_exact_text() {
    assert!(!comment_is_check_command(false, Some("User"), Some("!automerge check")));
    assert!(!comment_is_check_command(true, Some("Bot"), Some("!automerge check")));
    assert!(!comment_is_check_command(true, Some("user"), Some("!automerge check")));
    assert!(!comment_is_check_command(true, None, Some("!automerge check")));
    assert!(!comment_is_check_command(true, Some("User"), None));
    assert!(!comment_is_check_command(true, Some("User"), Some("!automerge checks")));
    assert!(!comment_is_check_command(true, Some("User"), Some("!automerge  check")));
    assert!(!comment_is_check_command(true, Some("User"), Some("please !automerge check")));
    assert!(!comment_is_check_command(true, Some("User"), Some("")));
}

#[test]
fn trim_removes_leading_and_trailing_whitespace() {
    assert_eq!(trim("  a b  "), "a b");
    assert_eq!(trim("a"), "a");
    assert_eq!(trim(" \n\t "), "");
    assert_eq!(trim(""), "");
    assert_eq!(trim("\u{2003}żółw\u{85}"), "żółw");
}

fn permission(node: Option<CheckPermissionNode>) -> ResponseData {
    ResponseData { node }
}

fn edges(e: Option<Vec<Option<RepositoryPermission>>>) -> ResponseData {
    permission(Some(CheckPermissionNode::Repository(CheckPermissionRepository {
        collaborators: Some(Collaborators {
            edges: e.map(|v| {
                v.into_iter().map(|p| p.map(|permission| CollaboratorEdge { permission })).collect()
            }),
        }),
    })))
}

#[test]
fn admin_permission_of_first_collaborator_edge() {
    assert_eq!(sender_is_admin(&edges(Some(vec![Some(RepositoryPermission::ADMIN)]))), Ok(true));
    assert_eq!(
        sender_is_admin(&edges(Some(vec![None, Some(RepositoryPermission::ADMIN)]))),
        Ok(true)
    );
    assert_eq!(
        sender_is_admin(&edges(Some(vec![
            Some(RepositoryPermission::WRITE),
            Some(RepositoryPermission::ADMIN)
        ]))),
        Ok(false)
    );
    assert_eq!(sender_is_admin(&edges(Some(vec![Some(RepositoryPermission::MAINTAIN)]))), Ok(false));
    assert_eq!(sender_is_admin(&edges(Some(vec![]))), Ok(false));
    assert_eq!(sender_is_admin(&edges(Some(vec![None]))), Ok(false));
    assert_eq!(sender_is_admin(&edges(None)), Ok(false));
}

#[test]
fn permission_errors() {
    assert_eq!(sender_is_admin(&permission(None)), Err(PermissionError::NotARepository));
    assert_eq!(
        sender_is_admin(&permission(Some(CheckPermissionNode::Other))),
        Err(PermissionError::NotARepository)
    );
    assert_eq!(
        sender_is_admin(&permission(Some(CheckPermissionNode::Repository(
            CheckPermissionRepository { collaborators: None }
        )))),
        Err(PermissionError::NullCollaborators)
    );
}

fn rule(name: Option<&str>) -> AutomergeRule {
    AutomergeRule {
        name: name.map(|n| n.to_string()),
        repositories: vec!["owner/repo".to_string()],
        merge_method: ConfigMergeMethod::InstantMerge,
        branches: None,
        allowed_paths: None,
        max_commits: None,
        max_files: None,
        max_changed_lines: None,
        dependabot: Some(DependabotRule {
            dependency_names: None,
            dependency_groups: None,
            dependency_types: None,
            update_types: None,
        }),
        checks: None,
        autoapprove: false,
    }
}

#[test]
fn comment_for_found_rule() {
    let named = rule(Some("deps"));
    assert_eq!(
        check_result_comment(&EligibleResult::FoundRule(&named), None),
        "This PR is eligible for automerge based on rule `deps`."
    );
    let unnamed = rule(None);
    assert_eq!(
        check_result_comment(&EligibleResult::FoundRule(&unnamed), None),
        "This PR is eligible for automerge based on an unnamed rule."
    );
}

#[test]
fn comment_for_hard_check_failure() {
    assert_eq!(
        check_result_comment(&EligibleResult::FailedHardChecks("PR is not open"), None),
        "This PR is not eligible for automerge because it failed a hardcoded check - PR is not open."
    );
}

#[test]
fn comment_for_no_rule() {
    assert_eq!(
        check_result_comment(&EligibleResult::NoRuleFound(vec![]), None),
        "This PR is not eligible for automerge because it could not match any rules."
    );
    let failures = vec![
        (Some("a".to_string()), "Too many commits"),
        (None, "Ineligible PR base branch"),
    ];
    assert_eq!(
        check_result_comment(&EligibleResult::NoRuleFound(failures), None),
        "This PR is not eligible for automerge because it could not match any rules.\nRule matches attempted:\n- rule `a`: Too many commits\n- an unnamed rule: Ineligible PR base branch"
    );
}

#[test]
fn comment_reports_update_failure() {
    let named = rule(Some("deps"));
    assert_eq!(
        check_result_comment(&EligibleResult::FoundRule(&named), Some("Failed to merge PR")),
        "This PR is eligible for automerge based on rule `deps`.\n\nEnabling automerge on the pull request failed:\n```\nFailed to merge PR\n```"
    );
}

fn dependabot() -> Author {
    Author {
        login: "dependabot[bot]".into(),
        id: 49_699_333,
        node_id: "MDM6Qm90NDk2OTkzMzM=".into(),
        user_type: "Bot".into(),
    }
}

#[test]
fn pr_events_that_trigger_an_update() {
    let cfg = AppConfig { webhook_secret: "s".into(), rules: vec![rule(None)] };
    let bot = dependabot();
    for action in [
        PullRequestAction::Opened,
        PullRequestAction::Edited,
        PullRequestAction::Reopened,
        PullRequestAction::Synchronize,
        PullRequestAction::ReadyForReview,
    ] {
        assert!(pr_event_triggers_update(&cfg, action, Some("owner/repo"), &bot));
    }
    assert!(!pr_event_triggers_update(&cfg, PullRequestAction::Other, Some("owner/repo"), &bot));
    assert!(!pr_event_triggers_update(&cfg, PullRequestAction::Opened, None, &bot));
    assert!(!pr_event_triggers_update(&cfg, PullRequestAction::Opened, Some("owner/other"), &bot));
    let human = Author { user_type: "User".into(), ..dependabot() };
    assert!(!pr_event_triggers_update(&cfg, PullRequestAction::Opened, Some("owner/repo"), &human));
}

#[test]
fn permission_error_messages() {
    assert_eq!(
        PermissionError::NotARepository.message(),
        "tried to fetch repo by node id, but didn't get it in response"
    );
    assert_eq!(PermissionError::NullCollaborators.message(), "got null collaborators");
}

#[test]
fn trim_agrees_with_unicode_white_space_on_every_char() {
    for u in 0..=0x10FFFFu32 {
        if let Some(c) = char::from_u32(u) {
            let s = c.to_string();
            let trimmed = trim(&s);
            if c.is_whitespace() {
                assert_eq!(trimmed, "", "U+{u:04X} is white space");
            } else {
                assert_eq!(trimmed, s, "U+{u:04X} is not white space");
            }
        }
    }
    assert_eq!(trim("\u{200B}x\u{180E}"), "\u{200B}x\u{180E}");
}

#[test]
fn check_command_steps() {
    assert_eq!(check_command_step(false, true), CheckCommandStep::RefuseNotAdmin);
    assert_eq!(check_command_step(false, false), CheckCommandStep::RefuseNotAdmin);
    assert_eq!(check_command_step(true, false), CheckCommandStep::RefuseNotAPullRequest);
    assert_eq!(check_command_step(true, true), CheckCommandStep::Check);
    assert_eq!(
        CheckCommandStep::RefuseNotAdmin.refusal(),
        Some("You must be a repository admin to run commands!")
    );
    assert_eq!(
        CheckCommandStep::RefuseNotAPullRequest.refusal(),
        Some("This command must be run on a pull request")
    );
    assert_eq!(CheckCommandStep::Check.refusal(), None);
}
