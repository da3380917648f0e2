use vstd::hash_map::StringHashMap;
use vstd::prelude::*;

use crate::config::{spec_split, AutomergeRule, SplitMergeMethod};
use crate::graphql::pull_request_query::{
    PullRequestQueryNode, PullRequestQueryNodeOnPullRequest, ResponseData, Review,
};
use crate::graphql::{actor_id, spec_actor_id};
use crate::text::str_eq;
use crate::utils::pull_request::{merge_pull_request, MergeMutation};

verus! {

/// The pull requests whose automerge update is being debounced, each with a flag that
/// says whether another update was asked for meanwhile.
pub struct AutomergeDebounceMap {
    entries: StringHashMap<bool>,
}

/// The flags after an update of pull request `node` is asked for: a pull request that
/// is not listed yet is listed with its flag clear; a listed one gets its flag set.
pub open spec fn after_register(flags: Map<Seq<char>, bool>, node: Seq<char>) -> Map<Seq<char>, bool> {
    flags.insert(node, flags.contains_key(node))
}

/// The flags after the flag of pull request `node` is read and cleared.
pub open spec fn after_take(flags: Map<Seq<char>, bool>, node: Seq<char>) -> Map<Seq<char>, bool> {
    if flags.contains_key(node) {
        flags.insert(node, false)
    } else {
        flags
    }
}

/// The flags after `k` more updates of pull request `node` are asked for.
pub open spec fn registered_times(flags: Map<Seq<char>, bool>, node: Seq<char>, k: nat) -> Map<Seq<char>, bool>
    decreases k,
{
    if k == 0 {
        flags
    } else {
        after_register(registered_times(flags, node, (k - 1) as nat), node)
    }
}

impl AutomergeDebounceMap {
    /// The flag of each listed pull request, by node id.
    pub closed spec fn flags(&self) -> Map<Seq<char>, bool> {
        self.entries@
    }

    /// An empty map.
    pub fn new() -> (r: Self)
        ensures
            r.flags() == Map::<Seq<char>, bool>::empty(),
    {
        AutomergeDebounceMap { entries: StringHashMap::new() }
    }

    /// Asks for an automerge update of a pull request. Where an update of it is already
    /// being debounced, its flag is set and `false` returned: that update will run
    /// again. Otherwise the pull request is listed with its flag clear and `true`
    /// returned: the caller debounces the update.
    pub fn register(&mut self, node_id: &str) -> (r: bool)
        ensures
            r == !old(self).flags().contains_key(node_id@),
            final(self).flags() == after_register(old(self).flags(), node_id@),
    {
        if self.entries.contains_key(node_id) {
            self.entries.insert(node_id.to_owned(), true);
            false
        } else {
            self.entries.insert(node_id.to_owned(), false);
            true
        }
    }

    /// Reads and clears the flag of a pull request: whether another update was asked for
    /// since the flag was last cleared. A pull request that is not listed has no flag.
    pub fn take_flag(&mut self, node_id: &str) -> (r: bool)
        ensures
            r == (old(self).flags().contains_key(node_id@) && old(self).flags()[node_id@]),
            final(self).flags() == after_take(old(self).flags(), node_id@),
    {
        let flag = match self.entries.get(node_id) {
            Some(f) => *f,
            None => {
                return false;
            },
        };
        self.entries.insert(node_id.to_owned(), false);
        flag
    }

    /// Stops listing a pull request.
    pub fn remove(&mut self, node_id: &str)
        ensures
            final(self).flags() == old(self).flags().remove(node_id@),
    {
        self.entries.remove(node_id);
    }
}

/// Debouncing coalesces requests: the first request for a pull request that is not
/// listed starts a debounced update (it is listed with its flag clear); every request
/// made while it waits only sets the flag; the flag, when read, says whether any such
/// request came; and reading it clears it. The flags of other pull requests stay as
/// they were.
pub proof fn lemma_debounce_coalesces(flags: Map<Seq<char>, bool>, node: Seq<char>, k: nat)
    requires
        !flags.contains_key(node),
    ensures
        after_register(flags, node).contains_key(node),
        !after_register(flags, node)[node],
        registered_times(after_register(flags, node), node, k).contains_key(node),
        registered_times(after_register(flags, node), node, k)[node] == (k > 0),
        registered_times(after_register(flags, node), node, k).remove(node) == flags,
        after_take(registered_times(after_register(flags, node), node, k), node)[node] == false,
        after_take(registered_times(after_register(flags, node), node, k), node).remove(node) == flags,
    decreases k,
{
    let m1 = after_register(flags, node);
    assert(m1.remove(node) =~= flags);
    if k > 0 {
        lemma_debounce_coalesces(flags, node, (k - 1) as nat);
        let prev = registered_times(m1, node, (k - 1) as nat);
        assert(registered_times(m1, node, k) == after_register(prev, node));
        assert(after_register(prev, node).remove(node) =~= prev.remove(node));
        assert(after_register(prev, node).insert(node, false).remove(node) =~= prev.remove(node));
    } else {
        assert(m1.insert(node, false).remove(node) =~= flags);
    }
}

} // verus!

verus! {

/// The reviews of a pull request that were fetched.
pub open spec fn review_nodes(pr: PullRequestQueryNodeOnPullRequest) -> Seq<Option<Review>> {
    match pr.reviews {
        Some(r) => match r.nodes {
            Some(v) => v@,
            None => Seq::empty(),
        },
        None => Seq::empty(),
    }
}

/// The id of the first review at or after index `i` whose author is `login`.
pub open spec fn own_review_from(reviews: Seq<Option<Review>>, login: Seq<char>, i: int) -> Option<Seq<char>>
    decreases reviews.len() - i,
{
    if i < 0 || i >= reviews.len() {
        None
    } else if reviews[i] matches Some(r) && r.author matches Some(a) && a.login@ == login {
        Some(reviews[i].unwrap().id@)
    } else {
        own_review_from(reviews, login, i + 1)
    }
}

/// The id of the first review of the pull request written by `login`.
pub open spec fn spec_own_review(pr: PullRequestQueryNodeOnPullRequest, login: Seq<char>) -> Option<Seq<char>> {
    own_review_from(review_nodes(pr), login, 0)
}

/// The id of the first review of the pull request written by the account `login`.
pub fn get_own_review<'a>(pull_request: &'a PullRequestQueryNodeOnPullRequest, login: &str) -> (r: Option<&'a str>)
    ensures
        match r {
            Some(id) => spec_own_review(*pull_request, login@) == Some(id@),
            None => spec_own_review(*pull_request, login@) is None,
        },
{
    let reviews = match &pull_request.reviews {
        Some(r) => match &r.nodes {
            Some(v) => v,
            None => {
                return None;
            },
        },
        None => {
            return None;
        },
    };
    let n = reviews.len();
    let mut i: usize = 0;
    while i < n
        invariant
            n == reviews@.len(),
            reviews@ == review_nodes(*pull_request),
            i <= n,
            spec_own_review(*pull_request, login@) == own_review_from(reviews@, login@, i as int),
        decreases n - i,
    {
        if let Some(review) = &reviews[i] {
            if let Some(author) = &review.author {
                if str_eq(author.login.as_str(), login) {
                    return Some(review.id.as_str());
                }
            }
        }
        i = i + 1;
    }
    None
}

/// A step of bringing a pull request's automerge state in line with the rules.
pub enum AutomergeAction {
    /// dismiss the app's own review
    DismissReview { id: String, message: String },
    /// turn off GitHub's automerge, which the app turned on
    DisableAutomerge { id: String },
    /// take the pull request out of the merge queue, where the app put it
    Dequeue { id: String },
    /// approve the pull request with a review
    Approve { id: String, head_id: String, comment: String },
    /// merge the pull request, enable automerge on it, or queue it
    Merge(MergeMutation),
}

/// An automerge step, with its strings as character sequences.
pub enum ActionView {
    DismissReview { id: Seq<char>, message: Seq<char> },
    DisableAutomerge { id: Seq<char> },
    Dequeue { id: Seq<char> },
    Approve { id: Seq<char>, head_id: Seq<char>, comment: Seq<char> },
    Merge { id: Seq<char>, head_id: Seq<char>, method: SplitMergeMethod },
}

pub open spec fn action_view(a: AutomergeAction) -> ActionView {
    match a {
        AutomergeAction::DismissReview { id, message } => ActionView::DismissReview { id: id@, message: message@ },
        AutomergeAction::DisableAutomerge { id } => ActionView::DisableAutomerge { id: id@ },
        AutomergeAction::Dequeue { id } => ActionView::Dequeue { id: id@ },
        AutomergeAction::Approve { id, head_id, comment } => ActionView::Approve {
            id: id@,
            head_id: head_id@,
            comment: comment@,
        },
        AutomergeAction::Merge(m) => match m {
            MergeMutation::Merge { id, head_oid, method } => ActionView::Merge {
                id: id@,
                head_id: head_oid@,
                method: SplitMergeMethod::Instant(method),
            },
            MergeMutation::EnableAutomerge { id, head_oid, method } => ActionView::Merge {
                id: id@,
                head_id: head_oid@,
                method: SplitMergeMethod::Auto(method),
            },
            MergeMutation::Enqueue { id, head_oid } => ActionView::Merge {
                id: id@,
                head_id: head_oid@,
                method: SplitMergeMethod::Queue,
            },
        },
    }
}

pub const DISMISS_MESSAGE: &'static str = "PR no longer matches any automerge rules";

pub open spec fn step_if(cond: bool, a: ActionView) -> Seq<ActionView> {
    if cond {
        seq![a]
    } else {
        Seq::empty()
    }
}

/// The comment of the app's approving review.
pub open spec fn approve_comment(name: Option<String>) -> Seq<char> {
    "PR matches automerge rule '"@ + match name {
        Some(n) => n@,
        None => "unnamed rule"@,
    } + "'"@
}

/// The steps that bring a pull request in line with the outcome of the rules.
///
/// Where no rule matched, the app undoes what it did: it dismisses its own review
/// (where reviews are managed), turns off automerge if the app turned it on, and takes
/// the pull request out of the merge queue if the app put it there. Where a rule
/// matched, the app approves the pull request if the rule asks for that, reviews are
/// managed and the app has not reviewed it yet; then, unless automerge is already on or
/// the pull request is already queued, it merges the pull request as the rule says.
pub open spec fn spec_automerge_plan(
    response: ResponseData,
    rule: Option<AutomergeRule>,
    manage_reviews: bool,
) -> Seq<ActionView> {
    match response.node {
        Some(PullRequestQueryNode::PullRequest(pr)) => match rule {
            None => step_if(
                manage_reviews && spec_own_review(pr, response.viewer.login@) is Some,
                ActionView::DismissReview {
                    id: spec_own_review(pr, response.viewer.login@).unwrap(),
                    message: DISMISS_MESSAGE@,
                },
            ) + step_if(
                pr.auto_merge_request matches Some(am) && am.enabled_by matches Some(e)
                    && spec_actor_id(e) == response.viewer.id@,
                ActionView::DisableAutomerge { id: pr.id@ },
            ) + step_if(
                pr.merge_queue_entry matches Some(q) && spec_actor_id(q.enqueuer) == response.viewer.id@,
                ActionView::Dequeue { id: pr.id@ },
            ),
            Some(rule) => step_if(
                manage_reviews && rule.autoapprove && spec_own_review(pr, response.viewer.login@) is None,
                ActionView::Approve { id: pr.id@, head_id: pr.head_ref_oid@, comment: approve_comment(rule.name) },
            ) + step_if(
                pr.auto_merge_request is None && pr.merge_queue_entry is None,
                ActionView::Merge {
                    id: pr.id@,
                    head_id: pr.head_ref_oid@,
                    method: spec_split(rule.merge_method),
                },
            ),
        },
        _ => Seq::empty(),
    }
}

/// The steps that bring a pull request in line with the outcome of the rules: `rule` is
/// the rule that matched, if one did. A caller performs them in order; the failure of a
/// step other than `Merge` is reported and the next step taken, while the failure of
/// `Merge` is the caller's error.
pub fn update_automerge(response: &ResponseData, rule: Option<&AutomergeRule>, manage_reviews: bool) -> (r: Vec<AutomergeAction>)
    ensures
        r@.map_values(|a: AutomergeAction| action_view(a)) == spec_automerge_plan(
            *response,
            match rule {
                Some(x) => Some(*x),
                None => None,
            },
            manage_reviews,
        ),
{
    let ghost rule_val = match rule {
        Some(x) => Some(*x),
        None => None::<AutomergeRule>,
    };
    let mut actions: Vec<AutomergeAction> = Vec::new();
    let pull_request = match &response.node {
        Some(PullRequestQueryNode::PullRequest(pr)) => pr,
        _ => {
            assert(actions@.map_values(|a: AutomergeAction| action_view(a)) =~= Seq::empty());
            return actions;
        },
    };
    let ghost pr = *pull_request;
    match rule {
        None => {
            // undo automerge/enqueue, if we triggered it
            let ghost mut view: Seq<ActionView> = Seq::empty();
            if manage_reviews {
                if let Some(review_id) = get_own_review(pull_request, response.viewer.login.as_str()) {
                    actions.push(AutomergeAction::DismissReview {
                        id: review_id.to_owned(),
                        message: DISMISS_MESSAGE.to_owned(),
                    });
                }
            }
            proof {
                view = step_if(
                    manage_reviews && spec_own_review(pr, response.viewer.login@) is Some,
                    ActionView::DismissReview {
                        id: spec_own_review(pr, response.viewer.login@).unwrap(),
                        message: DISMISS_MESSAGE@,
                    },
                );
                assert(actions@.map_values(|a: AutomergeAction| action_view(a)) =~= view);
            }
            let mut disable = false;
            if let Some(automerge) = &pull_request.auto_merge_request {
                if let Some(enabled_by) = &automerge.enabled_by {
                    disable = str_eq(actor_id(enabled_by), response.viewer.id.as_str());
                }
            }
            if disable {
                actions.push(AutomergeAction::DisableAutomerge { id: pull_request.id.clone() });
            }
            proof {
                view = view + step_if(
                    pr.auto_merge_request matches Some(am) && am.enabled_by matches Some(e)
                        && spec_actor_id(e) == response.viewer.id@,
                    ActionView::DisableAutomerge { id: pr.id@ },
                );
                assert(actions@.map_values(|a: AutomergeAction| action_view(a)) =~= view);
            }
            let mut dequeue = false;
            if let Some(merge_queue) = &pull_request.merge_queue_entry {
                dequeue = str_eq(actor_id(&merge_queue.enqueuer), response.viewer.id.as_str());
            }
            if dequeue {
                actions.push(AutomergeAction::Dequeue { id: pull_request.id.clone() });
            }
            proof {
                view = view + step_if(
                    pr.merge_queue_entry matches Some(q) && spec_actor_id(q.enqueuer) == response.viewer.id@,
                    ActionView::Dequeue { id: pr.id@ },
                );
                assert(actions@.map_values(|a: AutomergeAction| action_view(a)) =~= view);
            }
        },
        Some(rule) => {
            let head_id = pull_request.head_ref_oid.clone();
            let ghost mut view: Seq<ActionView> = Seq::empty();
            // review if needed
            if manage_reviews && rule.autoapprove && get_own_review(
                pull_request,
                response.viewer.login.as_str(),
            ).is_none() {
                let mut comment = "PR matches automerge rule '".to_owned();
                match &rule.name {
                    Some(name) => comment.append(name.as_str()),
                    None => comment.append("unnamed rule"),
                }
                comment.append("'");
                actions.push(AutomergeAction::Approve {
                    id: pull_request.id.clone(),
                    head_id: head_id.clone(),
                    comment,
                });
            }
            proof {
                view = step_if(
                    manage_reviews && rule.autoapprove && spec_own_review(pr, response.viewer.login@) is None,
                    ActionView::Approve { id: pr.id@, head_id: pr.head_ref_oid@, comment: approve_comment(rule.name) },
                );
                assert(actions@.map_values(|a: AutomergeAction| action_view(a)) =~= view);
            }
            // check if automerge/queue is already enabled
            if pull_request.auto_merge_request.is_none() && pull_request.merge_queue_entry.is_none() {
                let m = merge_pull_request(rule.merge_method, pull_request.id.clone(), head_id);
                actions.push(AutomergeAction::Merge(m));
            }
            proof {
                view = view + step_if(
                    pr.auto_merge_request is None && pr.merge_queue_entry is None,
                    ActionView::Merge {
                        id: pr.id@,
                        head_id: pr.head_ref_oid@,
                        method: spec_split(rule.merge_method),
                    },
                );
                assert(actions@.map_values(|a: AutomergeAction| action_view(a)) =~= view);
            }
        },
    }
    actions
}


/// Where no rule matched, the app only undoes its own work: it never approves or merges.
/// Where a rule matched, it never dismisses, disables or dequeues, and merges at most
/// once, as the rule's merge method says.
pub proof fn lemma_plan_follows_outcome(
    response: ResponseData,
    rule: Option<AutomergeRule>,
    manage_reviews: bool,
)
    ensures
        rule is None ==> forall|i: int|
            0 <= i < spec_automerge_plan(response, rule, manage_reviews).len() ==> !(#[trigger] spec_automerge_plan(
                response,
                rule,
                manage_reviews,
            )[i] is Approve || spec_automerge_plan(response, rule, manage_reviews)[i] is Merge),
        rule matches Some(r) ==> forall|i: int|
            0 <= i < spec_automerge_plan(response, rule, manage_reviews).len() ==> match #[trigger] spec_automerge_plan(
                response,
                rule,
                manage_reviews,
            )[i] {
                ActionView::Approve { .. } => true,
                ActionView::Merge { method, .. } => method == spec_split(r.merge_method),
                _ => false,
            },
        !manage_reviews ==> forall|i: int|
            0 <= i < spec_automerge_plan(response, rule, manage_reviews).len() ==> !(#[trigger] spec_automerge_plan(
                response,
                rule,
                manage_reviews,
            )[i] is Approve || spec_automerge_plan(response, rule, manage_reviews)[i] is DismissReview),
{
}

} // verus!
