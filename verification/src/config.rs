use vstd::prelude::*;

use crate::text::str_eq;
use crate::utils::rules::UserType;

verus! {

/// The merge method named in an automerge rule.
#[derive(Clone, Copy, PartialEq, Eq, Debug, Structural)]
pub enum ConfigMergeMethod {
    /// Immediately merge the PR with a merge commit
    InstantMerge,
    /// Immediately merge the PR by rebasing onto the base branch
    InstantRebase,
    /// Immediately merge the PR by squashing all changes
    InstantSquash,
    /// Immediately add the PR to the merge queue
    AddToMergeQueue,
    /// Automatically merge the PR with a merge commit when branch protection rules allow it
    AutoMerge,
    /// Automatically merge the PR by rebasing when branch protection rules allow it
    AutoRebase,
    /// Automatically merge the PR by squashing when branch protection rules allow it
    AutoSquash,
}

/// How a pull request is merged: right away, by enabling GitHub's automerge, or
/// through the merge queue.
#[derive(Clone, Copy, PartialEq, Eq, Debug, Structural)]
pub enum SplitMergeMethod {
    Instant(SimpleMergeMethod),
    Auto(SimpleMergeMethod),
    Queue,
}

/// The way the commits of a pull request end up on the base branch.
#[derive(Clone, Copy, PartialEq, Eq, Debug, Structural)]
pub enum SimpleMergeMethod {
    Merge,
    Rebase,
    Squash,
}

/// The split form of each configured merge method.
pub open spec fn spec_split(m: ConfigMergeMethod) -> SplitMergeMethod {
    match m {
        ConfigMergeMethod::InstantMerge => SplitMergeMethod::Instant(SimpleMergeMethod::Merge),
        ConfigMergeMethod::InstantRebase => SplitMergeMethod::Instant(SimpleMergeMethod::Rebase),
        ConfigMergeMethod::InstantSquash => SplitMergeMethod::Instant(SimpleMergeMethod::Squash),
        ConfigMergeMethod::AutoMerge => SplitMergeMethod::Auto(SimpleMergeMethod::Merge),
        ConfigMergeMethod::AutoRebase => SplitMergeMethod::Auto(SimpleMergeMethod::Rebase),
        ConfigMergeMethod::AutoSquash => SplitMergeMethod::Auto(SimpleMergeMethod::Squash),
        ConfigMergeMethod::AddToMergeQueue => SplitMergeMethod::Queue,
    }
}

impl ConfigMergeMethod {
    /// Splits the method into when the merge happens and how the commits are merged.
    pub fn split(self) -> (r: SplitMergeMethod)
        ensures
            r == spec_split(self),
    {
        match self {
            Self::InstantMerge => SplitMergeMethod::Instant(SimpleMergeMethod::Merge),
            Self::InstantRebase => SplitMergeMethod::Instant(SimpleMergeMethod::Rebase),
            Self::InstantSquash => SplitMergeMethod::Instant(SimpleMergeMethod::Squash),
            Self::AutoMerge => SplitMergeMethod::Auto(SimpleMergeMethod::Merge),
            Self::AutoRebase => SplitMergeMethod::Auto(SimpleMergeMethod::Rebase),
            Self::AutoSquash => SplitMergeMethod::Auto(SimpleMergeMethod::Squash),
            Self::AddToMergeQueue => SplitMergeMethod::Queue,
        }
    }
}

/// Distinct configured merge methods never split to the same merge method, so no
/// configured choice is lost by splitting.
pub proof fn lemma_split_injective(a: ConfigMergeMethod, b: ConfigMergeMethod)
    requires
        spec_split(a) == spec_split(b),
    ensures
        a == b,
{
}

} // verus!

verus! {

/// A base branch, repository, dependency or check name list entry matches.
pub open spec fn names_contain(names: Seq<String>, name: Seq<char>) -> bool {
    exists|i: int| 0 <= i < names.len() && #[trigger] names[i]@ == name
}

/// Whether one of `names` equals `name`.
pub fn contains_name(names: &Vec<String>, name: &str) -> (r: bool)
    ensures
        r == names_contain(names@, name@),
{
    let n = names.len();
    let mut i: usize = 0;
    while i < n
        invariant
            n == names@.len(),
            i <= n,
            forall|j: int| 0 <= j < i ==> names@[j]@ != name@,
        decreases n - i,
    {
        if str_eq(names[i].as_str(), name) {
            return true;
        }
        i = i + 1;
    }
    false
}

/// An automerge rule: the conditions under which a pull request is merged
/// automatically, and how.
pub struct AutomergeRule {
    /// optional name of the rule, used in debug command output
    pub name: Option<String>,
    /// full repository names to apply this rule to
    pub repositories: Vec<String>,
    /// merge method to use for PRs that match this rule
    pub merge_method: ConfigMergeMethod,
    /// base branch names eligible for automerge
    ///
    /// None = all branches are eligible
    /// empty array = no branches are eligible
    pub branches: Option<Vec<String>>,
    /// path patterns that are allowed to be modified by PRs
    ///
    /// None = no restrictions,
    /// Some = only automerge PRs that only modify the specified paths
    pub allowed_paths: Option<Vec<Glob>>,
    /// max amount of commits a PR can have to be eligible for automerge
    ///
    /// NOTE: All PRs must have between 1 and 100 (inclusive) commits to be eligible for automerge.
    ///       This option cannot override this requirement.
    pub max_commits: Option<u8>,
    /// max amount of files a PR can change to be eligible for automerge
    ///
    /// NOTE: All PRs must have between 1 and 100 (inclusive) files modified to be eligible for automerge.
    ///       This option cannot override this requirement.
    pub max_files: Option<u8>,
    /// max amount of changed lines (additions+deletions) a PR can have to be eligible for automerge
    ///
    /// None = no restriction
    pub max_changed_lines: Option<u64>,
    /// rules for auto-merging dependabot PRs
    ///
    /// None = never merge dependabot PRs
    ///
    /// NOTE: A PR must have been created by dependabot, and all commits must be authored by
    ///       dependabot and reported as validly signed by GitHub in order to match this rule.
    pub dependabot: Option<DependabotRule>,
    /// restrictions on the check runs of the PR's last commit
    ///
    /// None = the checks are not looked at
    pub checks: Option<CheckRules>,
    /// approve the PR with a review before merging it
    pub autoapprove: bool,
}

/// Restrictions on the check runs reported for the last commit of a pull request.
pub struct CheckRules {
    /// names of checks that must have completed successfully
    pub required: Vec<String>,
    /// max amount of checks that may still be pending
    pub max_pending: Option<u8>,
    /// max amount of checks that may have failed
    pub max_failed: Option<u8>,
    /// min amount of checks that must have passed
    pub min_passed: Option<u8>,
}

/// Rules for auto-merging PRs created by dependabot.
pub struct DependabotRule {
    /// dependencies that may be modified by dependabot PRs
    ///
    /// None = no restrictions
    /// Some = only automerge PRs that upgrade the specified dependency names
    ///
    /// WARNING: this check relies on data specified in dependabot's commit descriptions!
    ///          commit descriptions are only trusted if authored by dependabot and if github
    ///          vouches them as verified, but should github be compromised, this may merge
    ///          untrusted PRs!
    pub dependency_names: Option<Vec<String>>,
    /// dependency groups that may be modified by dependabot PRs
    ///
    /// None = no restrictions
    /// Some = only automerge PRs that upgrade the specified dependency groups
    ///
    /// NOTE: to allow dependencies without a dependency group to be updated, specify null as
    /// one of the entries on this list
    /// WARNING: this check relies on data specified in dependabot's commit descriptions!
    pub dependency_groups: Option<Vec<Option<String>>>,
    /// "dependency-type"s that may be specified in dependabot PR commits
    ///
    /// None = no restrictions
    /// Some = only automerge PRs where all updates across all commits only specify the specified
    ///        "dependency-type"s
    pub dependency_types: Option<Vec<String>>,
    /// "update-type"s that may be specified in dependabot PR commits
    ///
    /// None = no restrictions
    /// Some = only automerge PRs where all updates across all commits only specify the specified
    ///        "update-type"s
    ///
    /// NOTE: to allow updates without an update type, specify null as one of the entries on
    /// this list
    pub update_types: Option<Vec<Option<String>>>,
}

/// The listening sockets of the service.
#[derive(Debug)]
pub struct ListenConfig {
    /// Listen on a TCP socket
    pub tcp: Option<String>,
    /// Listen on a unix socket
    pub unix: Option<String>,
    /// Mode for the unix socket
    pub unix_mode: u32,
}

impl Default for ListenConfig {
    fn default() -> (r: Self)
        ensures
            r.tcp matches Some(t) && t@ == "[::]:8080"@,
            r.unix is None,
            r.unix_mode == 0,
    {
        Self { tcp: Some("[::]:8080".to_owned()), unix: None, unix_mode: 0 }
    }
}

/// The mode of the unix socket when the configuration names none.
pub fn default_unix_mode() -> (r: u32)
    ensures
        r == 0o666,
{
    0o666
}

/// The part of the app's configuration that the automerge decisions read.
pub struct AppConfig {
    /// HMAC key for validating webhook payloads
    pub webhook_secret: String,
    /// Automerge rules for deciding when to automatically merge a PR
    pub rules: Vec<AutomergeRule>,
}

/// Some rule lists the repository and admits authors of the given type.
pub open spec fn spec_has_possible_rule(
    rules: Seq<AutomergeRule>,
    repo: Seq<char>,
    author_type: UserType,
) -> bool {
    &&& author_type == UserType::Dependabot
    &&& exists|i: int|
        0 <= i < rules.len() && names_contain(#[trigger] rules[i].repositories@, repo)
            && rules[i].dependabot is Some
}

impl AppConfig {
    /// check whether any automerge rule exists that could match for the given combination of
    /// repo + pr author
    ///
    /// intended as an early check for when we know the repo & pr author, but we don't have the
    /// commits or other PR metadata to fully verify,
    /// used as a check for whether it's worth fetching the full PR data
    pub fn has_possible_rule(&self, repo: &str, author_type: UserType) -> (r: bool)
        ensures
            r == spec_has_possible_rule(self.rules@, repo@, author_type),
    {
        if let UserType::Unknown = author_type {
            return false;
        }
        let n = self.rules.len();
        let mut i: usize = 0;
        while i < n
            invariant
                n == self.rules@.len(),
                i <= n,
                author_type == UserType::Dependabot,
                forall|j: int|
                    0 <= j < i ==> !(names_contain(#[trigger] self.rules@[j].repositories@, repo@)
                        && self.rules@[j].dependabot is Some),
            decreases n - i,
        {
            let rule = &self.rules[i];
            if contains_name(&rule.repositories, repo) && match author_type {
                UserType::Unknown => false,
                UserType::Dependabot => rule.dependabot.is_some(),
            } {
                return true;
            }
            i = i + 1;
        }
        false
    }
}

/// The API clients made for the installations of the app, by installation id. A client
/// is made once per installation and kept.
pub struct InstallationClients<C> {
    clients: std::collections::HashMap<u64, C>,
}

impl<C> View for InstallationClients<C> {
    type V = Map<u64, C>;

    closed spec fn view(&self) -> Map<u64, C> {
        self.clients@
    }
}

impl<C> InstallationClients<C> {
    /// No client made yet.
    pub fn new() -> (r: Self)
        ensures
            r@ == Map::<u64, C>::empty(),
    {
        InstallationClients { clients: std::collections::HashMap::new() }
    }

    /// The client made for an installation, if one was made.
    pub fn get(&self, installation_id: u64) -> (r: Option<&C>)
        ensures
            match r {
                Some(c) => self@.contains_key(installation_id) && self@[installation_id] == *c,
                None => !self@.contains_key(installation_id),
            },
    {
        broadcast use vstd::std_specs::hash::group_hash_axioms;
        self.clients.get(&installation_id)
    }

    /// The client of an installation: a clone of the one kept for it, or else a client
    /// made by `create`, which is kept and a clone of it returned. Where `create` fails,
    /// nothing is kept and its error returned. `create` is called only for an
    /// installation without a kept client.
    pub fn get_or_create<Fail, F: FnOnce() -> Result<C, Fail>>(
        &mut self,
        installation_id: u64,
        create: F,
    ) -> (r: Result<C, Fail>) where C: Clone
        requires
            !old(self)@.contains_key(installation_id) ==> create.requires(()),
        ensures
            old(self)@.contains_key(installation_id) ==> final(self)@ == old(self)@ && (r matches Ok(
                c,
            ) && cloned::<C>(old(self)@[installation_id], c)),
            !old(self)@.contains_key(installation_id) ==> match r {
                Ok(c) => final(self)@.contains_key(installation_id) && final(self)@ == old(
                    self,
                )@.insert(installation_id, final(self)@[installation_id]) && create.ensures(
                    (),
                    Ok::<C, Fail>(final(self)@[installation_id]),
                ) && cloned::<C>(final(self)@[installation_id], c),
                Err(e) => final(self)@ == old(self)@ && create.ensures((), Err::<C, Fail>(e)),
            },
    {
        broadcast use vstd::std_specs::hash::group_hash_axioms;

        if let Some(client) = self.clients.get(&installation_id) {
            return Ok(client.clone());
        }
        match create() {
            Ok(made) => {
                let client = made.clone();
                self.clients.insert(installation_id, made);
                Ok(client)
            },
            Err(e) => Err(e),
        }
    }

    /// Keeps the client made for an installation.
    pub fn insert(&mut self, installation_id: u64, client: C)
        ensures
            final(self)@ == old(self)@.insert(installation_id, client),
    {
        broadcast use vstd::std_specs::hash::group_hash_axioms;
        self.clients.insert(installation_id, client);
    }
}

} // verus!

verus! {

#[verifier::external_type_specification]
#[verifier::external_body]
pub struct ExPattern(glob::Pattern);

/// Whether `pattern` is a valid unix-style path pattern.
pub uninterp spec fn glob_pattern_valid(pattern: Seq<char>) -> bool;

/// Whether the path pattern `pattern` matches `path` under the given match options.
pub uninterp spec fn glob_match_with(
    pattern: Seq<char>,
    path: Seq<char>,
    case_sensitive: bool,
    require_literal_separator: bool,
    require_literal_leading_dot: bool,
) -> bool;

/// Why a path pattern was refused: the approximate character index and a message.
#[derive(Debug, Clone, Copy)]
pub struct GlobError {
    pub pos: usize,
    pub msg: &'static str,
}

/// Compiles a pattern with `glob::Pattern::new`; the result is `Ok` exactly when the
/// pattern is valid. The position and message of an error are not described.
#[verifier::external_body]
fn compile_pattern(pattern: &str) -> (r: Result<glob::Pattern, GlobError>)
    ensures
        r is Ok <==> glob_pattern_valid(pattern@),
{
    glob::Pattern::new(pattern).map_err(|e| GlobError { pos: e.pos, msg: e.msg })
}

/// A unix-style path pattern, kept together with the text it was compiled from.
///
/// The fields are private and `Glob::new` is the only constructor, so `pattern` is
/// always the compilation of `source`.
pub struct Glob {
    source: String,
    pattern: glob::Pattern,
}

impl View for Glob {
    type V = Seq<char>;

    closed spec fn view(&self) -> Seq<char> {
        self.source@
    }
}

/// Matches `path` against the glob's compiled pattern with `glob::Pattern::matches_with`
/// and the given options. The pattern is the compilation of the glob's source text, so
/// the result is `glob_match_with` of that text, the path and the options.
#[verifier::external_body]
fn pattern_matches_with(
    glob: &Glob,
    path: &str,
    case_sensitive: bool,
    require_literal_separator: bool,
    require_literal_leading_dot: bool,
) -> (r: bool)
    ensures
        r == glob_match_with(
            glob@,
            path@,
            case_sensitive,
            require_literal_separator,
            require_literal_leading_dot,
        ),
{
    glob.pattern.matches_with(
        path,
        glob::MatchOptions { case_sensitive, require_literal_separator, require_literal_leading_dot },
    )
}

/// A path as the patterns see it: rooted with a leading `/`.
pub open spec fn rooted_path(path: Seq<char>) -> Seq<char> {
    if path.len() > 0 && path[0] == '/' {
        path
    } else {
        seq!['/'] + path
    }
}

/// Whether the pattern `pattern` admits the changed file `path`: case-sensitive, with
/// `/` matched only literally, against the path rooted with `/`.
pub open spec fn spec_glob_matches(pattern: Seq<char>, path: Seq<char>) -> bool {
    glob_match_with(pattern, rooted_path(path), true, true, false)
}

impl Glob {
    /// Compiles a unix-style path pattern.
    pub fn new(pattern: &str) -> (r: Result<Glob, GlobError>)
        ensures
            r is Ok <==> glob_pattern_valid(pattern@),
            r matches Ok(g) ==> g@ == pattern@,
    {
        match compile_pattern(pattern) {
            Ok(p) => Ok(Glob { source: pattern.to_owned(), pattern: p }),
            Err(e) => Err(e),
        }
    }

    /// The text the pattern was compiled from.
    pub fn as_str(&self) -> (r: &str)
        ensures
            r@ == self@,
    {
        self.source.as_str()
    }

    /// Whether the pattern matches the file path `other`; a path without a leading `/`
    /// is matched as if it had one.
    pub fn matches(&self, other: &str) -> (r: bool)
        ensures
            r == spec_glob_matches(self@, other@),
    {
        if other.unicode_len() > 0 && other.get_char(0) == '/' {
            pattern_matches_with(self, other, true, true, false)
        } else {
            let rooted = "/".to_owned().concat(other);
            proof {
                reveal_strlit("/");
                assert(rooted@ =~= seq!['/'] + other@);
            }
            pattern_matches_with(self, rooted.as_str(), true, true, false)
        }
    }
}

/// A path and the same path rooted with `/` are matched alike by every pattern.
pub proof fn lemma_glob_matches_rooted(pattern: Seq<char>, path: Seq<char>)
    ensures
        spec_glob_matches(pattern, path) == spec_glob_matches(pattern, rooted_path(path)),
{
    assert(rooted_path(rooted_path(path)) =~= rooted_path(path));
}

} // verus!

verus! {

/// The bytes that URL-safe, padded base64 text stands for, or `None` where the text is
/// not such base64.
pub uninterp spec fn base64_url_safe_decode(input: Seq<u8>) -> Option<Seq<u8>>;

/// Decodes URL-safe, padded base64 with `base64::engine::general_purpose::URL_SAFE`.
/// The result is the named decoding of the input; what made the input invalid is not
/// reported.
#[verifier::external_body]
fn decode_base64_url_safe(input: &[u8]) -> (r: Option<Vec<u8>>)
    ensures
        match r {
            Some(v) => base64_url_safe_decode(input@) == Some(v@),
            None => base64_url_safe_decode(input@) is None,
        },
{
    base64::Engine::decode(&base64::engine::general_purpose::URL_SAFE, input).ok()
}

/// Where the app's configuration comes from.
pub enum ConfigSource {
    /// the configuration text itself
    Text(Vec<u8>),
    /// the file that `AUTOMERGE_CONFIG_FILE` names holds the configuration
    ReadFile,
    /// `AUTOMERGE_CONFIG_B64` is not valid base64
    Base64Error,
    /// none of the variables is set
    Missing,
}

/// Chooses where the configuration comes from, given the values of the variables
/// `AUTOMERGE_CONFIG` (the text), `AUTOMERGE_CONFIG_B64` (the text in URL-safe base64)
/// and whether `AUTOMERGE_CONFIG_FILE` (a path) is set. The first variable set wins, in
/// that order.
pub fn config_source(inline: Option<Vec<u8>>, encoded: Option<Vec<u8>>, file_named: bool) -> (r:
    ConfigSource)
    ensures
        match inline {
            Some(t) => r matches ConfigSource::Text(x) && x@ == t@,
            None => match encoded {
                Some(e) => match base64_url_safe_decode(e@) {
                    Some(d) => r matches ConfigSource::Text(x) && x@ == d,
                    None => r is Base64Error,
                },
                None => if file_named {
                    r is ReadFile
                } else {
                    r is Missing
                },
            },
        },
{
    if let Some(text) = inline {
        // config file in envvar
        ConfigSource::Text(text)
    } else if let Some(encoded) = encoded {
        // config file base64-encoded in envvar
        match decode_base64_url_safe(encoded.as_slice()) {
            Some(decoded) => ConfigSource::Text(decoded),
            None => ConfigSource::Base64Error,
        }
    } else if file_named {
        // path to config in envvar
        ConfigSource::ReadFile
    } else {
        ConfigSource::Missing
    }
}

} // verus!
