use vstd::prelude::*;

use crate::keyed::{str_eq, KeyedCollection};

verus! {

/// How the author of a pull request relates to the repository.
#[derive(Clone, Copy, Debug, PartialEq, Eq, Structural)]
pub enum AuthorAssociation {
    Member,
    Contributor,
    NoAssociation,
    Collaborator,
    FirstTimer,
    FirstTimeContributor,
    Mannequin,
    Owner,
}

/// The association named by a tag of the hosting service, if the tag is one
/// of the eight that it defines.
pub open spec fn association_of_tag(t: Seq<char>) -> Option<AuthorAssociation> {
    if t == "MEMBER"@ {
        Some(AuthorAssociation::Member)
    } else if t == "CONTRIBUTOR"@ {
        Some(AuthorAssociation::Contributor)
    } else if t == "NONE"@ {
        Some(AuthorAssociation::NoAssociation)
    } else if t == "COLLABORATOR"@ {
        Some(AuthorAssociation::Collaborator)
    } else if t == "FIRST_TIMER"@ {
        Some(AuthorAssociation::FirstTimer)
    } else if t == "FIRST_TIME_CONTRIBUTOR"@ {
        Some(AuthorAssociation::FirstTimeContributor)
    } else if t == "MANNEQUIN"@ {
        Some(AuthorAssociation::Mannequin)
    } else if t == "OWNER"@ {
        Some(AuthorAssociation::Owner)
    } else {
        None
    }
}

impl AuthorAssociation {
    /// Reads a tag of the hosting service; tags compare case-sensitively, and
    /// any other text is refused.
    pub fn from_tag(t: &str) -> (r: Option<AuthorAssociation>)
        ensures
            r == association_of_tag(t@),
    {
        if str_eq(t, "MEMBER") {
            Some(AuthorAssociation::Member)
        } else if str_eq(t, "CONTRIBUTOR") {
            Some(AuthorAssociation::Contributor)
        } else if str_eq(t, "NONE") {
            Some(AuthorAssociation::NoAssociation)
        } else if str_eq(t, "COLLABORATOR") {
            Some(AuthorAssociation::Collaborator)
        } else if str_eq(t, "FIRST_TIMER") {
            Some(AuthorAssociation::FirstTimer)
        } else if str_eq(t, "FIRST_TIME_CONTRIBUTOR") {
            Some(AuthorAssociation::FirstTimeContributor)
        } else if str_eq(t, "MANNEQUIN") {
            Some(AuthorAssociation::Mannequin)
        } else if str_eq(t, "OWNER") {
            Some(AuthorAssociation::Owner)
        } else {
            None
        }
    }
}

#[derive(Clone, Debug)]
pub struct User {
    pub login: String,
}

#[derive(Clone, Debug)]
pub struct Repo {
    pub git_url: String,
    pub ssh_url: String,
}

/// One side of a pull request: a branch of a repository at a commit.
#[derive(Clone, Debug)]
pub struct Branch {
    pub ref_name: String,
    pub repo: Repo,
    pub sha: String,
    pub user: User,
}

#[derive(Clone, Debug)]
pub struct PullRequest {
    pub author_association: AuthorAssociation,
    pub base: Branch,
    pub head: Branch,
    pub html_url: String,
    pub number: String,
    pub title: String,
    pub user: User,
}

/// Open pull requests under their keys.
pub type PullRequests = KeyedCollection<PullRequest>;

} // verus!
