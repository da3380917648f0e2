//! The response to `CheckPermission`.

use vstd::prelude::*;

verus! {

pub struct ResponseData {
    pub node: Option<CheckPermissionNode>,
}

/// The node the query asked for: a repository, or a node of another type.
pub enum CheckPermissionNode {
    Repository(CheckPermissionRepository),
    Other,
}

pub struct CheckPermissionRepository {
    pub collaborators: Option<Collaborators>,
}

/// The collaborators of the repository the query names, filtered by login.
pub struct Collaborators {
    pub edges: Option<Vec<Option<CollaboratorEdge>>>,
}

pub struct CollaboratorEdge {
    pub permission: RepositoryPermission,
}

/// The permission of a collaborator on a repository.
pub enum RepositoryPermission {
    ADMIN,
    MAINTAIN,
    READ,
    TRIAGE,
    WRITE,
    Other(String),
}

} // verus!
