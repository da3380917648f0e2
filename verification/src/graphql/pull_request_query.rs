//! The response to `PullRequestQuery`.

use vstd::prelude::*;

verus! {

/// The whole response.
pub struct ResponseData {
    /// the node the query asked for
    pub node: Option<PullRequestQueryNode>,
    /// the account the app acts as
    pub viewer: Viewer,
}

/// The account the app acts as.
pub struct Viewer {
    pub login: String,
    pub id: String,
}

/// The node the query asked for: a pull request, or a node of another type.
pub enum PullRequestQueryNode {
    PullRequest(PullRequestQueryNodeOnPullRequest),
    Other,
}

/// The data of a pull request.
pub struct PullRequestQueryNodeOnPullRequest {
    pub id: String,
    pub state: PullRequestState,
    pub author: Option<ActorProps>,
    pub commits: Commits,
    pub files: Option<Files>,
    pub repository: Repository,
    pub base_ref_name: String,
    pub head_ref_oid: String,
    pub additions: i64,
    pub deletions: i64,
    /// the pull request's last commit, with its check suites
    pub checks: Checks,
    pub reviews: Option<Reviews>,
    pub auto_merge_request: Option<AutoMergeRequest>,
    pub merge_queue_entry: Option<MergeQueueEntry>,
}

/// The state of a pull request.
pub enum PullRequestState {
    OPEN,
    CLOSED,
    MERGED,
    Other(String),
}

/// An account, with its login and node id.
pub struct ActorProps {
    pub login: String,
    pub on: ActorPropsOn,
}

/// The kind of an account, each with the account's node id.
pub enum ActorPropsOn {
    Bot(String),
    EnterpriseUserAccount(String),
    Mannequin(String),
    Organization(String),
    User(String),
}

/// The commits of a pull request.
pub struct Commits {
    pub total_count: i64,
    pub nodes: Option<Vec<Option<CommitNode>>>,
}

pub struct CommitNode {
    pub commit: Commit,
}

/// A git commit.
pub struct Commit {
    pub author: Option<GitActor>,
    pub committer: Option<GitActor>,
    pub signature: Option<GitSignature>,
    pub message: String,
}

/// The author or committer of a git commit.
pub struct GitActor {
    pub email: Option<String>,
    pub name: Option<String>,
}

/// The signature of a git commit, as GitHub checked it.
pub struct GitSignature {
    pub is_valid: bool,
    pub state: GitSignatureState,
    pub was_signed_by_git_hub: bool,
    pub signer: Option<Signer>,
}

/// The account that signed a commit.
pub struct Signer {
    pub login: String,
    pub id: String,
}

/// The outcome of GitHub's signature check.
pub enum GitSignatureState {
    BAD_CERT,
    BAD_EMAIL,
    EXPIRED_KEY,
    GPGVERIFY_ERROR,
    GPGVERIFY_UNAVAILABLE,
    INVALID,
    MALFORMED_SIG,
    NOT_SIGNING_KEY,
    NO_USER,
    OCSP_ERROR,
    OCSP_PENDING,
    OCSP_REVOKED,
    UNKNOWN_KEY,
    UNKNOWN_SIG_TYPE,
    UNSIGNED,
    UNVERIFIED_EMAIL,
    VALID,
    Other(String),
}

/// The changed files of a pull request.
pub struct Files {
    pub total_count: i64,
    pub nodes: Option<Vec<Option<FileNode>>>,
}

/// A changed file.
pub struct FileNode {
    pub path: String,
    pub change_type: PatchStatus,
}

/// How a file was changed.
pub enum PatchStatus {
    ADDED,
    CHANGED,
    COPIED,
    DELETED,
    MODIFIED,
    RENAMED,
    Other(String),
}

/// The repository of a pull request.
pub struct Repository {
    pub name_with_owner: String,
}

/// The last commit of a pull request.
pub struct Checks {
    pub nodes: Option<Vec<Option<ChecksNode>>>,
}

pub struct ChecksNode {
    pub commit: ChecksCommit,
}

pub struct ChecksCommit {
    pub check_suites: Option<CheckSuites>,
}

/// The check suites reported for a commit.
pub struct CheckSuites {
    pub nodes: Option<Vec<Option<CheckSuite>>>,
}

pub struct CheckSuite {
    pub check_runs: Option<CheckRuns>,
}

pub struct CheckRuns {
    pub nodes: Option<Vec<Option<CheckRun>>>,
}

/// A check run.
pub struct CheckRun {
    pub name: String,
    pub status: CheckStatusState,
    pub conclusion: Option<CheckConclusionState>,
}

/// Whether a check run has completed.
pub enum CheckStatusState {
    COMPLETED,
    IN_PROGRESS,
    PENDING,
    QUEUED,
    REQUESTED,
    WAITING,
    Other(String),
}

/// The conclusion of a completed check run.
pub enum CheckConclusionState {
    ACTION_REQUIRED,
    CANCELLED,
    FAILURE,
    NEUTRAL,
    SKIPPED,
    STALE,
    STARTUP_FAILURE,
    SUCCESS,
    TIMED_OUT,
    Other(String),
}

/// The reviews of a pull request.
pub struct Reviews {
    pub nodes: Option<Vec<Option<Review>>>,
}

pub struct Review {
    pub id: String,
    pub author: Option<ReviewAuthor>,
}

pub struct ReviewAuthor {
    pub login: String,
}

/// GitHub's automerge, when it is enabled on the pull request.
pub struct AutoMergeRequest {
    pub enabled_by: Option<ActorProps>,
}

/// The pull request's entry in the merge queue.
pub struct MergeQueueEntry {
    pub enqueuer: ActorProps,
}

} // verus!
