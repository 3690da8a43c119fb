//! The descriptor of one remote repository, and the kind of owner a
//! listing request is addressed to.

use vstd::prelude::*;

verus! {

/// Identifies one remote repository: the minimal record the rest of
/// the crate needs to list, clone and update it.
#[derive(Clone, Debug)]
pub struct Repo {
    /// Opaque numeric identifier assigned by the hosting service.
    pub id: u32,
    /// Short name of the repository.
    pub name: String,
    /// Owner-qualified name; also the mirror's relative path.
    pub full_name: String,
    /// URL the repository is cloned from.
    pub clone_url: String,
    /// Branch the mirror is kept at.
    pub default_branch: String,
}

/// Which kind of owner a listing request addresses.
#[derive(Clone, Copy, Debug, PartialEq, Eq, Structural)]
pub enum RepoType {
    User,
    Org,
}

} // verus!
