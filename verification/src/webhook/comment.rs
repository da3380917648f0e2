//! Comments that run the `!automerge check` command.

use vstd::prelude::*;

use crate::graphql::check_permission::{CheckPermissionNode, RepositoryPermission, ResponseData};
use crate::text::{chars_of, str_eq};
use crate::utils::rules::{entry_view, name_view, EligibleResult, EligibleView};

verus! {

/// Whether a character has Unicode's `White_Space` property: the control characters
/// U+0009 to U+000D, the space U+0020, U+0085, the no-break space U+00A0, U+1680, the
/// spaces U+2000 to U+200A, the line and paragraph separators U+2028 and U+2029, U+202F,
/// U+205F and the ideographic space U+3000 (the set that `char::is_whitespace` tests).
pub open spec fn is_white_space(c: char) -> bool {
    let u = c as u32;
    ||| 0x9 <= u <= 0xd
    ||| u == 0x20
    ||| u == 0x85
    ||| u == 0xa0
    ||| u == 0x1680
    ||| 0x2000 <= u <= 0x200a
    ||| u == 0x2028
    ||| u == 0x2029
    ||| u == 0x202f
    ||| u == 0x205f
    ||| u == 0x3000
}

/// Whether the character is white space.
fn char_is_whitespace(c: char) -> (r: bool)
    ensures
        r == is_white_space(c),
{
    let u = c as u32;
    (0x9 <= u && u <= 0xd) || u == 0x20 || u == 0x85 || u == 0xa0 || u == 0x1680 || (0x2000 <= u
        && u <= 0x200a) || u == 0x2028 || u == 0x2029 || u == 0x202f || u == 0x205f || u == 0x3000
}

/// The lowercase form of a string, as Unicode defines it.
pub uninterp spec fn to_lowercase(s: Seq<char>) -> Seq<char>;

/// `str::to_lowercase`: the lowercase form of the string, by Unicode's rules.
#[verifier::external_body]
fn str_to_lowercase(s: &str) -> (r: String)
    ensures
        r@ == to_lowercase(s@),
{
    s.to_lowercase()
}

/// The index of the first character at or after `i` that is not white space.
pub open spec fn skip_white_from(s: Seq<char>, i: int) -> int
    decreases s.len() - i,
{
    if 0 <= i < s.len() && is_white_space(s[i]) {
        skip_white_from(s, i + 1)
    } else {
        i
    }
}

/// One past the index of the last character before `j` that is not white space.
pub open spec fn skip_white_back(s: Seq<char>, j: int) -> int
    decreases j,
{
    if 0 < j <= s.len() && is_white_space(s[j - 1]) {
        skip_white_back(s, j - 1)
    } else {
        j
    }
}

/// The string without its leading and trailing white space.
pub open spec fn spec_trim(s: Seq<char>) -> Seq<char> {
    let a = skip_white_from(s, 0);
    if a >= s.len() {
        Seq::empty()
    } else {
        s.subrange(a, skip_white_back(s, s.len() as int))
    }
}

proof fn lemma_skip_white_from(s: Seq<char>, i: int)
    requires
        0 <= i <= s.len(),
    ensures
        i <= skip_white_from(s, i) <= s.len(),
        skip_white_from(s, i) < s.len() ==> !is_white_space(s[skip_white_from(s, i)]),
    decreases s.len() - i,
{
    if i < s.len() && is_white_space(s[i]) {
        lemma_skip_white_from(s, i + 1);
    }
}

/// The string without its leading and trailing white space, as `str::trim` gives it.
pub fn trim(s: &str) -> (r: String)
    ensures
        r@ == spec_trim(s@),
{
    let v = chars_of(s);
    let n = v.len();
    let mut a: usize = 0;
    while a < n && char_is_whitespace(v[a])
        invariant
            n == v@.len(),
            v@ == s@,
            a <= n,
            skip_white_from(v@, 0) == skip_white_from(v@, a as int),
        decreases n - a,
    {
        a = a + 1;
    }
    if a >= n {
        proof {
            reveal_strlit("");
        }
        return "".to_owned();
    }
    proof {
        lemma_skip_white_from(v@, 0);
    }
    let mut b: usize = n;
    while b > a && char_is_whitespace(v[b - 1])
        invariant
            n == v@.len(),
            v@ == s@,
            a < n,
            a < b <= n,
            !is_white_space(v@[a as int]),
            skip_white_back(v@, n as int) == skip_white_back(v@, b as int),
        decreases b,
    {
        b = b - 1;
    }
    s.substring_char(a, b).to_owned()
}

pub const CHECK_COMMAND: &'static str = "!automerge check";

/// The comment runs the check command: it was just created, by a user, and its body is
/// `!automerge check` in any case, with white space around it.
pub open spec fn spec_is_check_command(created: bool, sender_type: Option<Seq<char>>, body: Option<Seq<char>>) -> bool {
    &&& created
    &&& sender_type == Some("User"@)
    &&& body matches Some(b) && to_lowercase(spec_trim(b)) == CHECK_COMMAND@
}

/// Whether a comment event runs the check command. `created` says whether the comment
/// was just created; `sender_type` is the type of the account that sent the event, and
/// `body` the comment's text.
pub fn comment_is_check_command(created: bool, sender_type: Option<&str>, body: Option<&str>) -> (r: bool)
    ensures
        r == spec_is_check_command(
            created,
            match sender_type {
                Some(t) => Some(t@),
                None => None,
            },
            match body {
                Some(b) => Some(b@),
                None => None,
            },
        ),
{
    // only care about new comments
    if !created {
        return false;
    }
    // must be sent by user
    match sender_type {
        Some(t) => {
            if !str_eq(t, "User") {
                return false;
            }
        },
        None => {
            return false;
        },
    }
    // must contain body
    let body = match body {
        Some(b) => b,
        None => {
            return false;
        },
    };
    let trimmed = trim(body);
    let lowered = str_to_lowercase(trimmed.as_str());
    str_eq(lowered.as_str(), CHECK_COMMAND)
}

/// Why the permission of the comment's author could not be read.
#[derive(Debug, Clone, Copy, PartialEq, Eq, Structural)]
pub enum PermissionError {
    /// the repository's node id did not resolve to a repository
    NotARepository,
    /// the repository's collaborators were null
    NullCollaborators,
}

impl PermissionError {
    /// What the error means, in words.
    pub fn message(&self) -> (r: &'static str)
        ensures
            r@ == match *self {
                PermissionError::NotARepository => "tried to fetch repo by node id, but didn't get it in response"@,
                PermissionError::NullCollaborators => "got null collaborators"@,
            },
    {
        match self {
            PermissionError::NotARepository => "tried to fetch repo by node id, but didn't get it in response",
            PermissionError::NullCollaborators => "got null collaborators",
        }
    }
}

/// The reply to a command from someone who is not an admin of the repository.
pub const NOT_ADMIN_COMMENT: &'static str = "You must be a repository admin to run commands!";

/// The reply to a command on an issue that is not a pull request.
pub const NOT_A_PULL_REQUEST_COMMENT: &'static str = "This command must be run on a pull request";

/// What the app does with an `!automerge check` command.
#[derive(Clone, Copy, PartialEq, Eq, Debug, Structural)]
pub enum CheckCommandStep {
    /// reply that only repository admins may run commands
    RefuseNotAdmin,
    /// reply that the command must be run on a pull request
    RefuseNotAPullRequest,
    /// check the pull request against the rules, update it, and reply with the outcome
    Check,
}

/// The step a check command leads to: a sender who is not an admin of the repository is
/// refused first; then a command on an issue that is not a pull request; otherwise the
/// pull request is checked.
pub fn check_command_step(sender_is_admin: bool, on_pull_request: bool) -> (r: CheckCommandStep)
    ensures
        r == (if !sender_is_admin {
            CheckCommandStep::RefuseNotAdmin
        } else if !on_pull_request {
            CheckCommandStep::RefuseNotAPullRequest
        } else {
            CheckCommandStep::Check
        }),
{
    if !sender_is_admin {
        CheckCommandStep::RefuseNotAdmin
    } else if !on_pull_request {
        CheckCommandStep::RefuseNotAPullRequest
    } else {
        CheckCommandStep::Check
    }
}

impl CheckCommandStep {
    /// The reply that refuses the command, for the steps that refuse it.
    pub fn refusal(&self) -> (r: Option<&'static str>)
        ensures
            match *self {
                CheckCommandStep::RefuseNotAdmin => r matches Some(m) && m@ == NOT_ADMIN_COMMENT@,
                CheckCommandStep::RefuseNotAPullRequest => r matches Some(m) && m@ == NOT_A_PULL_REQUEST_COMMENT@,
                CheckCommandStep::Check => r is None,
            },
    {
        match self {
            CheckCommandStep::RefuseNotAdmin => Some(NOT_ADMIN_COMMENT),
            CheckCommandStep::RefuseNotAPullRequest => Some(NOT_A_PULL_REQUEST_COMMENT),
            CheckCommandStep::Check => None,
        }
    }
}

/// Whether the `CheckPermission` response names a repository admin: the first
/// collaborator listed (the author of the comment) has the admin permission.
pub open spec fn spec_sender_is_admin(response: ResponseData) -> Result<bool, PermissionError> {
    match response.node {
        Some(CheckPermissionNode::Repository(repo)) => match repo.collaborators {
            None => Err(PermissionError::NullCollaborators),
            Some(c) => Ok(
                match first_present_edge(
                    match c.edges {
                        Some(e) => e@,
                        None => Seq::empty(),
                    },
                    0,
                ) {
                    Some(edge) => edge.permission is ADMIN,
                    None => false,
                },
            ),
        },
        _ => Err(PermissionError::NotARepository),
    }
}

/// The first edge at or after index `i` that is present.
pub open spec fn first_present_edge(
    edges: Seq<Option<crate::graphql::check_permission::CollaboratorEdge>>,
    i: int,
) -> Option<crate::graphql::check_permission::CollaboratorEdge>
    decreases edges.len() - i,
{
    if i < 0 || i >= edges.len() {
        None
    } else {
        match edges[i] {
            Some(e) => Some(e),
            None => first_present_edge(edges, i + 1),
        }
    }
}

/// Reads from a `CheckPermission` response whether the comment's author administers
/// the repository.
#[verifier::loop_isolation(false)]
pub fn sender_is_admin(response: &ResponseData) -> (r: Result<bool, PermissionError>)
    ensures
        r == spec_sender_is_admin(*response),
{
    let repo = match &response.node {
        Some(CheckPermissionNode::Repository(repo)) => repo,
        _ => {
            return Err(PermissionError::NotARepository);
        },
    };
    let collaborators = match &repo.collaborators {
        Some(c) => c,
        None => {
            return Err(PermissionError::NullCollaborators);
        },
    };
    let edges = match &collaborators.edges {
        Some(e) => e,
        None => {
            return Ok(false);
        },
    };
    let n = edges.len();
    let mut i: usize = 0;
    while i < n
        invariant
            n == edges@.len(),
            i <= n,
            first_present_edge(edges@, 0) == first_present_edge(edges@, i as int),
        decreases n - i,
    {
        if let Some(edge) = &edges[i] {
            return Ok(matches!(edge.permission, RepositoryPermission::ADMIN));
        }
        i = i + 1;
    }
    Ok(false)
}


pub const ELIGIBLE: &'static str = "This PR is eligible for automerge based on ";
pub const HARD_CHECK_FAILED: &'static str = "This PR is not eligible for automerge because it failed a hardcoded check - ";
pub const NO_RULE: &'static str = "This PR is not eligible for automerge because it could not match any rules.";
pub const ATTEMPTED: &'static str = "\nRule matches attempted:";
pub const UPDATE_FAILED: &'static str = "\n\nEnabling automerge on the pull request failed:\n```\n";
pub const CODE_END: &'static str = "\n```";

/// How the comment names a rule.
pub open spec fn rule_label(name: Option<Seq<char>>) -> Seq<char> {
    match name {
        Some(n) => "rule `"@ + n + "`"@,
        None => "an unnamed rule"@,
    }
}

/// The line that reports why one rule did not match.
pub open spec fn failure_line(e: (Option<Seq<char>>, Seq<char>)) -> Seq<char> {
    match e.0 {
        Some(n) => "\n- rule `"@ + n + "`: "@ + e.1,
        None => "\n- an unnamed rule: "@ + e.1,
    }
}

/// The lines that report why the rules did not match, in order.
pub open spec fn failure_lines(fs: Seq<(Option<Seq<char>>, Seq<char>)>) -> Seq<char>
    decreases fs.len(),
{
    if fs.len() == 0 {
        Seq::empty()
    } else {
        failure_lines(fs.drop_last()) + failure_line(fs.last())
    }
}

/// The comment that answers the check command: the outcome of the rules and, where
/// updating the pull request failed, the error.
pub open spec fn spec_check_comment(result: EligibleView, update_error: Option<Seq<char>>) -> Seq<char> {
    let base = match result {
        EligibleView::FoundRule(rule) => ELIGIBLE@ + rule_label(name_view(rule.name)) + "."@,
        EligibleView::FailedHardChecks(m) => HARD_CHECK_FAILED@ + m + "."@,
        EligibleView::NoRuleFound(fs) => if fs.len() == 0 {
            NO_RULE@
        } else {
            NO_RULE@ + ATTEMPTED@ + failure_lines(fs)
        },
    };
    match update_error {
        Some(e) => base + UPDATE_FAILED@ + e + CODE_END@,
        None => base,
    }
}

/// Writes the comment that answers the check command. `update_error` is the printed
/// error of updating the pull request, if that failed.
pub fn check_result_comment(result: &EligibleResult, update_error: Option<&str>) -> (r: String)
    ensures
        r@ == spec_check_comment(
            result@,
            match update_error {
                Some(e) => Some(e@),
                None => None,
            },
        ),
{
    let mut comment = match result {
        EligibleResult::FoundRule(rule) => {
            let mut c = ELIGIBLE.to_owned();
            match &rule.name {
                Some(name) => {
                    c.append("rule `");
                    c.append(name.as_str());
                    c.append("`");
                },
                None => {
                    c.append("an unnamed rule");
                },
            }
            c.append(".");
            c
        },
        EligibleResult::FailedHardChecks(msg) => {
            let mut c = HARD_CHECK_FAILED.to_owned();
            c.append(msg);
            c.append(".");
            c
        },
        EligibleResult::NoRuleFound(failures) => {
            let mut c = NO_RULE.to_owned();
            if failures.len() > 0 {
                c.append(ATTEMPTED);
                let ghost fs = failures@.map_values(|e: (Option<String>, &'static str)| entry_view(e));
                let ghost base = c@;
                let n = failures.len();
                let mut i: usize = 0;
                while i < n
                    invariant
                        n == failures@.len(),
                        fs == failures@.map_values(|e: (Option<String>, &'static str)| entry_view(e)),
                        i <= n,
                        c@ == base + failure_lines(fs.take(i as int)),
                    decreases n - i,
                {
                    proof {
                        assert(fs.take(i + 1).drop_last() =~= fs.take(i as int));
                    }
                    let (name, reason) = &failures[i];
                    match name {
                        Some(name) => {
                            c.append("\n- rule `");
                            c.append(name.as_str());
                            c.append("`: ");
                            c.append(reason);
                        },
                        None => {
                            c.append("\n- an unnamed rule: ");
                            c.append(reason);
                        },
                    }
                    proof {
                        assert(c@ =~= base + failure_lines(fs.take(i + 1)));
                    }
                    i = i + 1;
                }
                assert(fs.take(n as int) =~= fs);
                assert(c@ =~= NO_RULE@ + ATTEMPTED@ + failure_lines(fs));
            }
            c
        },
    };
    if let Some(e) = update_error {
        comment.append(UPDATE_FAILED);
        comment.append(e);
        comment.append(CODE_END);
    }
    comment
}

} // verus!
