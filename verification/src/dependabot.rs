//! The metadata block that dependabot writes into its commit messages.

use vstd::prelude::*;

use crate::text::{spec_split_once, split_once};

verus! {

/// The metadata of one dependabot commit.
#[derive(Debug)]
pub struct DependabotCommit {
    pub updated_dependencies: Vec<UpdatedDependency>,
}

/// One dependency updated by a dependabot commit.
#[derive(Debug)]
pub struct UpdatedDependency {
    pub dependency_name: String,
    pub dependency_type: String,
    pub update_type: Option<String>,
    pub dependency_group: Option<String>,
}

/// The text between the first `---` of a commit message and the first `...` after it.
pub open spec fn spec_metadata_block(commit: Seq<char>) -> Option<Seq<char>> {
    match spec_split_once(commit, seq!['-', '-', '-']) {
        Some((_, rest)) => match spec_split_once(rest, seq!['.', '.', '.']) {
            Some((block, _)) => Some(block),
            None => None,
        },
        None => None,
    }
}

/// The YAML metadata block of a dependabot commit message: the text between the first
/// `---` and the first `...` after it, or `None` where the message has no such block.
pub fn dependabot_metadata_block(commit: &str) -> (r: Option<String>)
    ensures
        r matches Some(b) ==> spec_metadata_block(commit@) == Some(b@),
        r is None ==> spec_metadata_block(commit@) is None,
{
    let dashes = vec!['-', '-', '-'];
    let dots = vec!['.', '.', '.'];
    assert(dashes@ =~= seq!['-', '-', '-']);
    assert(dots@ =~= seq!['.', '.', '.']);
    let (_, rest) = split_once(commit, &dashes)?;
    let (block, _) = split_once(rest.as_str(), &dots)?;
    Some(block)
}

} // verus!
