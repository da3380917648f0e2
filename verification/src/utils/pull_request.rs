use std::collections::HashMap;

use vstd::hash_map::StringHashMap;
use vstd::prelude::*;

use crate::config::{spec_split, ConfigMergeMethod, SimpleMergeMethod, SplitMergeMethod};
use crate::graphql::pull_request_by_number::{PullRequestByNumberNode, ResponseData};
use crate::text::str_eq;

verus! {

/// The GraphQL mutation that merges a pull request in the configured way.
pub enum MergeMutation {
    /// `MergePullRequest`: merge right away
    Merge { id: String, head_oid: String, method: SimpleMergeMethod },
    /// `EnableAutomerge`: let GitHub merge once branch protection allows it
    EnableAutomerge { id: String, head_oid: String, method: SimpleMergeMethod },
    /// `EnqueuePullRequest`: add to the merge queue
    Enqueue { id: String, head_oid: String },
}

/// The mutation for merging pull request `id` at head commit `head` with `method`.
pub open spec fn spec_merge_mutation(
    method: ConfigMergeMethod,
    id: Seq<char>,
    head: Seq<char>,
    m: MergeMutation,
) -> bool {
    match spec_split(method) {
        SplitMergeMethod::Instant(s) => m matches MergeMutation::Merge { id: i, head_oid: h, method: x }
            && i@ == id && h@ == head && x == s,
        SplitMergeMethod::Auto(s) => m matches MergeMutation::EnableAutomerge {
            id: i,
            head_oid: h,
            method: x,
        } && i@ == id && h@ == head && x == s,
        SplitMergeMethod::Queue => m matches MergeMutation::Enqueue { id: i, head_oid: h } && i@
            == id && h@ == head,
    }
}

/// Chooses the mutation that merges pull request `pr_id` at head commit `head_id` with
/// the configured merge method.
pub fn merge_pull_request(method: ConfigMergeMethod, pr_id: String, head_id: String) -> (r:
    MergeMutation)
    ensures
        spec_merge_mutation(method, pr_id@, head_id@, r),
{
    match method.split() {
        SplitMergeMethod::Instant(m) => MergeMutation::Merge { id: pr_id, head_oid: head_id, method: m },
        SplitMergeMethod::Auto(m) => MergeMutation::EnableAutomerge {
            id: pr_id,
            head_oid: head_id,
            method: m,
        },
        SplitMergeMethod::Queue => MergeMutation::Enqueue { id: pr_id, head_oid: head_id },
    }
}

/// The cache after storing `result` for the pull request `key`: an entry that holds a
/// node id stays; any other entry, or none, is replaced by `result`.
pub open spec fn spec_cache_update<P, E>(
    m: Map<(Seq<char>, u64), PullRequestIdCacheEntry<P, E>>,
    key: (Seq<char>, u64),
    result: PullRequestIdCacheEntry<P, E>,
) -> Map<(Seq<char>, u64), PullRequestIdCacheEntry<P, E>> {
    if m.contains_key(key) && m[key] is Ready {
        m
    } else {
        m.insert(key, result)
    }
}

/// Once the cache holds the node id of a pull request, no later update changes it, and
/// an update of one pull request leaves the entries of all others as they were.
pub proof fn lemma_cache_update_keeps<P, E>(
    m: Map<(Seq<char>, u64), PullRequestIdCacheEntry<P, E>>,
    key: (Seq<char>, u64),
    result: PullRequestIdCacheEntry<P, E>,
    other: (Seq<char>, u64),
)
    ensures
        m.contains_key(other) && m[other] is Ready ==> spec_cache_update(m, key, result).contains_key(other)
            && spec_cache_update(m, key, result)[other] == m[other],
        other != key ==> (spec_cache_update(m, key, result).contains_key(other) == m.contains_key(other))
            && (m.contains_key(other) ==> spec_cache_update(m, key, result)[other] == m[other]),
        spec_cache_update(m, key, result).contains_key(key),
{
}

/// The cache after a lookup of pull request `key` that starts a fetch with handle
/// `pending` where the cache holds nothing for it.
pub open spec fn spec_cache_get<P, E>(
    m: Map<(Seq<char>, u64), PullRequestIdCacheEntry<P, E>>,
    key: (Seq<char>, u64),
    pending: P,
) -> Map<(Seq<char>, u64), PullRequestIdCacheEntry<P, E>> {
    if m.contains_key(key) {
        m
    } else {
        m.insert(key, PullRequestIdCacheEntry::Pending(pending))
    }
}

/// A fetch of a pull request's node id is started once: the first lookup of a pull
/// request that the cache does not hold stores the fetch as pending; every later lookup
/// starts nothing and changes nothing; and the fetch's outcome, once stored, is what the
/// cache then holds for the pull request. (A node id set meanwhile is kept instead: see
/// `lemma_cache_update_keeps`.)
pub proof fn lemma_fetch_started_once<P, E>(
    m: Map<(Seq<char>, u64), PullRequestIdCacheEntry<P, E>>,
    key: (Seq<char>, u64),
    first: P,
    later: P,
    outcome: PullRequestIdCacheEntry<P, E>,
)
    requires
        !m.contains_key(key),
    ensures
        spec_cache_get(m, key, first).contains_key(key),
        spec_cache_get(m, key, first)[key] == PullRequestIdCacheEntry::<P, E>::Pending(first),
        spec_cache_get(spec_cache_get(m, key, first), key, later) == spec_cache_get(m, key, first),
        spec_cache_update(spec_cache_get(m, key, first), key, outcome)[key] == outcome,
        spec_cache_update(spec_cache_get(m, key, first), key, outcome).remove(key) == m,
{
    assert(spec_cache_update(spec_cache_get(m, key, first), key, outcome).remove(key) =~= m);
}

/// A pull request named by its repository's node id and its number.
#[derive(Clone)]
pub struct PullRequestIdentifier {
    pub repository_id: String,
    pub pull_request_number: u64,
}

impl View for PullRequestIdentifier {
    type V = (Seq<char>, u64);

    open spec fn view(&self) -> (Seq<char>, u64) {
        (self.repository_id@, self.pull_request_number)
    }
}

impl PullRequestIdentifier {
    /// Whether two identifiers name the same pull request.
    pub fn same(&self, other: &Self) -> (r: bool)
        ensures
            r == (self@ == other@),
    {
        self.pull_request_number == other.pull_request_number && str_eq(
            self.repository_id.as_str(),
            other.repository_id.as_str(),
        )
    }
}

/// What the cache holds for a pull request: its node id, the error that fetching it
/// gave, or the handle `P` of a fetch still under way.
pub enum PullRequestIdCacheEntry<P, E> {
    Ready(String),
    Error(E),
    Pending(P),
}

/// A cache from pull request numbers to pull request node ids, keyed by the pull
/// request's number and then by its repository's node id. Once an entry holds the node
/// id, it is never replaced.
#[verifier::reject_recursive_types(P)]
#[verifier::reject_recursive_types(E)]
pub struct PullRequestIdCache<P, E> {
    entries: HashMap<u64, StringHashMap<PullRequestIdCacheEntry<P, E>>>,
}

impl<P, E> PullRequestIdCache<P, E> {
    /// The entry of each pull request in the cache.
    pub closed spec fn entry_map(&self) -> Map<(Seq<char>, u64), PullRequestIdCacheEntry<P, E>> {
        Map::new(
            |k: (Seq<char>, u64)| self.entries@.contains_key(k.1) && self.entries@[k.1]@.contains_key(k.0),
            |k: (Seq<char>, u64)| self.entries@[k.1]@[k.0],
        )
    }

    /// An empty cache.
    pub fn new() -> (r: Self)
        ensures
            r.entry_map() == Map::<(Seq<char>, u64), PullRequestIdCacheEntry<P, E>>::empty(),
    {
        broadcast use vstd::std_specs::hash::group_hash_axioms;

        let r = PullRequestIdCache { entries: HashMap::new() };
        assert(r.entry_map() =~= Map::empty());
        r
    }

    /// The entry of a pull request, if the cache holds one.
    pub fn lookup(&self, identifier: &PullRequestIdentifier) -> (r: Option<&PullRequestIdCacheEntry<P, E>>)
        ensures
            r matches Some(e) ==> self.entry_map().contains_key(identifier@) && self.entry_map()[identifier@] == *e,
            r is None ==> !self.entry_map().contains_key(identifier@),
    {
        broadcast use vstd::std_specs::hash::group_hash_axioms;

        match self.entries.get(&identifier.pull_request_number) {
            Some(by_repository) => by_repository.get(identifier.repository_id.as_str()),
            None => None,
        }
    }

    /// Stores `result` for a pull request, unless the cache already holds its node id.
    pub fn update(&mut self, identifier: PullRequestIdentifier, result: PullRequestIdCacheEntry<P, E>)
        ensures
            final(self).entry_map() == spec_cache_update(old(self).entry_map(), identifier@, result),
    {
        broadcast use vstd::std_specs::hash::group_hash_axioms;

        let ghost key = identifier@;
        let ghost stored = result;
        let ghost old_map = self.entry_map();
        let number = identifier.pull_request_number;
        let mut by_repository = match self.entries.remove(&number) {
            Some(m) => m,
            None => StringHashMap::new(),
        };
        let ready = match by_repository.get(identifier.repository_id.as_str()) {
            Some(PullRequestIdCacheEntry::Ready(_)) => true,
            _ => false,
        };
        if !ready {
            by_repository.insert(identifier.repository_id, result);
        }
        self.entries.insert(number, by_repository);
        proof {
            assert(self.entry_map() =~= spec_cache_update(old_map, key, stored));
        }
    }

    /// Starts a fetch of a pull request's node id where the cache holds nothing for it:
    /// the handle `pending` of the fetch is stored and `true` returned, and the caller
    /// awaits the fetch and stores its outcome with `update`. Where the cache holds an
    /// entry, nothing changes and `false` is returned; `lookup` gives that entry.
    pub fn get(&mut self, identifier: PullRequestIdentifier, pending: P) -> (started: bool)
        ensures
            started == !old(self).entry_map().contains_key(identifier@),
            final(self).entry_map() == spec_cache_get(old(self).entry_map(), identifier@, pending),
    {
        let started = self.lookup(&identifier).is_none();
        if started {
            self.update(identifier, PullRequestIdCacheEntry::Pending(pending));
        }
        started
    }

    /// Records the node id of a pull request, unless the cache already holds one.
    pub fn set(&mut self, identifier: PullRequestIdentifier, node_id: &str)
        ensures
            final(self).entry_map().contains_key(identifier@),
            final(self).entry_map()[identifier@] is Ready,
            old(self).entry_map().contains_key(identifier@) && old(self).entry_map()[identifier@] is Ready
                ==> final(self).entry_map() == old(self).entry_map(),
            !(old(self).entry_map().contains_key(identifier@) && old(self).entry_map()[identifier@] is Ready)
                ==> (final(self).entry_map()[identifier@] matches PullRequestIdCacheEntry::Ready(s) && s@ == node_id@)
                && final(self).entry_map().remove(identifier@) == old(self).entry_map().remove(identifier@),
    {
        let ghost key = identifier@;
        let value = node_id.to_owned();
        self.update(identifier, PullRequestIdCacheEntry::Ready(value));
        proof {
            if !(old(self).entry_map().contains_key(key) && old(self).entry_map()[key] is Ready) {
                assert(self.entry_map().remove(key) =~= old(self).entry_map().remove(key));
            }
        }
    }
}

/// Why the node id of a pull request could not be read from a response.
#[derive(Debug, Clone, Copy, PartialEq, Eq, Structural)]
pub enum FetchError {
    /// the repository node was not found
    RepositoryNotFound,
    /// the node id named something other than a repository
    NotARepository,
    /// the repository has no pull request with that number
    PullRequestNotFound,
}

impl FetchError {
    /// What the error means, in words.
    pub fn message(&self) -> (r: &'static str)
        ensures
            r@ == match *self {
                FetchError::RepositoryNotFound => "Repository not found"@,
                FetchError::NotARepository => "Provided repository node_id did not resolve to a repository object!"@,
                FetchError::PullRequestNotFound => "Pull request not found"@,
            },
    {
        match self {
            FetchError::RepositoryNotFound => "Repository not found",
            FetchError::NotARepository => "Provided repository node_id did not resolve to a repository object!",
            FetchError::PullRequestNotFound => "Pull request not found",
        }
    }
}

/// The node id of the pull request that a `PullRequestByNumber` response names.
pub open spec fn spec_pull_request_node_id(response: ResponseData) -> Result<Seq<char>, FetchError> {
    match response.node {
        None => Err(FetchError::RepositoryNotFound),
        Some(PullRequestByNumberNode::Other) => Err(FetchError::NotARepository),
        Some(PullRequestByNumberNode::Repository(repo)) => match repo.pull_request {
            None => Err(FetchError::PullRequestNotFound),
            Some(pr) => Ok(pr.id@),
        },
    }
}

/// Reads the node id of the pull request from a `PullRequestByNumber` response.
pub fn pull_request_node_id(response: &ResponseData) -> (r: Result<String, FetchError>)
    ensures
        match r {
            Ok(id) => spec_pull_request_node_id(*response) == Ok::<Seq<char>, FetchError>(id@),
            Err(e) => spec_pull_request_node_id(*response) == Err::<Seq<char>, FetchError>(e),
        },
{
    match &response.node {
        None => Err(FetchError::RepositoryNotFound),
        Some(PullRequestByNumberNode::Other) => Err(FetchError::NotARepository),
        Some(PullRequestByNumberNode::Repository(repo)) => match &repo.pull_request {
            None => Err(FetchError::PullRequestNotFound),
            Some(pr) => Ok(pr.id.clone()),
        },
    }
}

} // verus!
