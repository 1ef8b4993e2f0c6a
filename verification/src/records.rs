//! What GitHub's answers hold: members, collaborators, teams and repositories.

use vstd::prelude::*;
use vstd::string::*;

use crate::json::Json;

verus! {

/// What is filed by a text of its own.
pub trait GitHubIndex {
    /// The text that the item is filed under.
    spec fn index_spec(&self) -> Seq<char>;

    /// The text that the item is filed under.
    fn index(&self) -> (r: String)
        ensures
            r@ == self.index_spec(),
    ;
}

/// What someone may do in a repository.
#[derive(Debug, Clone, Hash, PartialEq, Eq, Structural)]
pub struct Permissions {
    pub pull: bool,
    pub triage: bool,
    pub push: bool,
    pub maintain: bool,
    pub admin: bool,
}

/// The permissions from the lowest to the highest, by number; 0 is none.
pub open spec fn rank_name(rank: int) -> Seq<char> {
    if rank == 5 {
        "admin"@
    } else if rank == 4 {
        "maintain"@
    } else if rank == 3 {
        "push"@
    } else if rank == 2 {
        "triage"@
    } else if rank == 1 {
        "pull"@
    } else {
        "none"@
    }
}

impl Permissions {
    /// Whether the permission with the given number is granted.
    pub open spec fn grants(self, rank: int) -> bool {
        ||| rank == 5 && self.admin
        ||| rank == 4 && self.maintain
        ||| rank == 3 && self.push
        ||| rank == 2 && self.triage
        ||| rank == 1 && self.pull
    }

    /// Whether `rank` is the highest that is granted, or 0 where none is.
    pub open spec fn is_highest(self, rank: int) -> bool {
        &&& rank == 0 || self.grants(rank)
        &&& 0 <= rank
        &&& forall|higher: int| #[trigger] self.grants(higher) ==> higher <= rank
    }

    /// The number of the highest permission that is granted.
    pub open spec fn highest_rank(self) -> int {
        if self.admin {
            5
        } else if self.maintain {
            4
        } else if self.push {
            3
        } else if self.triage {
            2
        } else if self.pull {
            1
        } else {
            0
        }
    }

    /// The name of the highest permission that is granted, or "none".
    pub fn highest_perm(&self) -> (r: String)
        ensures
            self.is_highest(self.highest_rank()),
            r@ == rank_name(self.highest_rank()),
    {
        if self.admin {
            return "admin".to_owned();
        }
        if self.maintain {
            return "maintain".to_owned();
        }
        if self.push {
            return "push".to_owned();
        }
        if self.triage {
            return "triage".to_owned();
        }
        if self.pull {
            return "pull".to_owned();
        }
        "none".to_owned()
    }
}

/// Someone with access to a repository.
#[derive(Debug, Clone, Hash)]
pub struct Collaborator {
    pub login: String,
    pub permissions: Permissions,
}

impl PartialEq for Collaborator {
    fn eq(&self, other: &Collaborator) -> (r: bool) {
        self.login == other.login && self.permissions == other.permissions
    }
}

impl vstd::std_specs::cmp::PartialEqSpecImpl for Collaborator {
    open spec fn obeys_eq_spec() -> bool {
        true
    }

    open spec fn eq_spec(&self, other: &Collaborator) -> bool {
        self.login@ == other.login@ && self.permissions == other.permissions
    }
}

impl Eq for Collaborator {

}

/// A member of the organization or of a team.
#[derive(Debug, Hash)]
pub struct Member {
    pub avatar_url: String,
    pub login: String,
}

impl PartialEq for Member {
    fn eq(&self, other: &Member) -> (r: bool) {
        self.avatar_url == other.avatar_url && self.login == other.login
    }
}

impl vstd::std_specs::cmp::PartialEqSpecImpl for Member {
    open spec fn obeys_eq_spec() -> bool {
        true
    }

    open spec fn eq_spec(&self, other: &Member) -> bool {
        self.avatar_url@ == other.avatar_url@ && self.login@ == other.login@
    }
}

impl Eq for Member {

}

impl GitHubIndex for Member {
    open spec fn index_spec(&self) -> Seq<char> {
        self.login@
    }

    fn index(&self) -> (r: String) {
        self.login.clone()
    }
}

/// A repository.
#[derive(Debug)]
pub struct Repository {
    pub name: String,
    pub private: bool,
    pub permissions: Permissions,
    pub archived: bool,
    pub visibility: String,
    /// Which fields this has depends on settings of the organization, such as whether
    /// GHAS is enabled, so it is kept as it came.
    pub security_and_analysis: Json,
}

impl PartialEq for Repository {
    fn eq(&self, other: &Repository) -> (r: bool) {
        self.name == other.name && self.private == other.private && self.permissions
            == other.permissions && self.archived == other.archived && self.visibility
            == other.visibility && self.security_and_analysis == other.security_and_analysis
    }
}

impl vstd::std_specs::cmp::PartialEqSpecImpl for Repository {
    open spec fn obeys_eq_spec() -> bool {
        true
    }

    open spec fn eq_spec(&self, other: &Repository) -> bool {
        &&& self.name@ == other.name@
        &&& self.private == other.private
        &&& self.permissions == other.permissions
        &&& self.archived == other.archived
        &&& self.visibility@ == other.visibility@
        &&& self.security_and_analysis@.meaning() == other.security_and_analysis@.meaning()
    }
}

impl Eq for Repository {

}

impl Repository {
    /// Whether a given security property is there and enabled: whether its `status` is
    /// the text "enabled".
    pub open spec fn property_enabled(self, property: Seq<char>) -> bool {
        match self.security_and_analysis@.get(property) {
            Some(value) => match value.get("status"@) {
                Some(status) => status.text() == Some("enabled"@),
                None => false,
            },
            None => false,
        }
    }

    /// Returns whether a given security property is available and enabled.
    pub fn is_security_property_enabled(&self, property: &str) -> (r: bool)
        ensures
            r == self.property_enabled(property@),
    {
        match self.security_and_analysis.get(property) {
            Some(value) => match value.get("status") {
                Some(status) => match status.as_str() {
                    Some(text) => text.to_owned() == "enabled".to_owned(),
                    None => false,
                },
                None => false,
            },
            None => false,
        }
    }
}

/// A team of the organization.
#[derive(Debug, Clone, Hash)]
pub struct Team {
    pub name: String,
    pub slug: String,
    pub permissions: Option<Permissions>,
}

impl PartialEq for Team {
    fn eq(&self, other: &Team) -> (r: bool) {
        self.name == other.name && self.slug == other.slug && match (
            &self.permissions,
            &other.permissions,
        ) {
            (Some(a), Some(b)) => *a == *b,
            (None, None) => true,
            _ => false,
        }
    }
}

impl vstd::std_specs::cmp::PartialEqSpecImpl for Team {
    open spec fn obeys_eq_spec() -> bool {
        true
    }

    open spec fn eq_spec(&self, other: &Team) -> bool {
        self.name@ == other.name@ && self.slug@ == other.slug@ && self.permissions
            == other.permissions
    }
}

impl Eq for Team {

}

impl GitHubIndex for Team {
    open spec fn index_spec(&self) -> Seq<char> {
        self.slug@
    }

    fn index(&self) -> (r: String) {
        self.slug.clone()
    }
}

/// What GitHub answers when it refuses a request.
#[derive(Debug, Hash)]
pub struct GitHubError {
    pub message: String,
    pub documentation_url: String,
    pub status: String,
}

impl GitHubError {
    /// The error on one line.
    pub open spec fn line(self) -> Seq<char> {
        "GitHubError: "@ + self.message@ + " "@ + self.documentation_url@ + " "@ + self.status@
    }

    /// The error on one line: message, documentation address and status.
    pub fn to_text(&self) -> (r: String)
        ensures
            r@ == self.line(),
    {
        let mut r = "GitHubError: ".to_owned();
        r.append(self.message.as_str());
        r.append(" ");
        r.append(self.documentation_url.as_str());
        r.append(" ");
        r.append(self.status.as_str());
        r
    }
}

impl PartialEq for GitHubError {
    fn eq(&self, other: &GitHubError) -> (r: bool) {
        self.message == other.message && self.documentation_url == other.documentation_url
            && self.status == other.status
    }
}

impl vstd::std_specs::cmp::PartialEqSpecImpl for GitHubError {
    open spec fn obeys_eq_spec() -> bool {
        true
    }

    open spec fn eq_spec(&self, other: &GitHubError) -> bool {
        self.message@ == other.message@ && self.documentation_url@ == other.documentation_url@
            && self.status@ == other.status@
    }
}

impl Eq for GitHubError {

}

/// A page of a listing, or what GitHub answered in its place.
#[derive(Debug)]
pub enum GitHubResponse<T> {
    Data(Vec<T>),
    Error(GitHubError),
}

/// Granting more never lowers the highest permission.
pub proof fn more_permissions_rank_no_lower(less: Permissions, more: Permissions)
    requires
        forall|rank: int| #[trigger] less.grants(rank) ==> more.grants(rank),
    ensures
        less.highest_rank() <= more.highest_rank(),
{
    assert(less.highest_rank() > 0 ==> less.grants(less.highest_rank()));
    assert(more.grants(less.highest_rank()) ==> less.highest_rank() <= more.highest_rank());
}

/// The highest permission is "none" only where nothing is granted.
pub proof fn none_means_nothing_granted(permissions: Permissions)
    ensures
        rank_name(permissions.highest_rank()) == "none"@ <==> forall|rank: int|
            !(#[trigger] permissions.grants(rank)),
{
    reveal_strlit("none");
    reveal_strlit("admin");
    reveal_strlit("maintain");
    reveal_strlit("push");
    reveal_strlit("triage");
    reveal_strlit("pull");
    let rank = permissions.highest_rank();
    assert(rank > 0 ==> permissions.grants(rank));
    assert("none"@[0] == 'n');
    assert("push"@[0] == 'p');
    assert("pull"@[0] == 'p');
    assert("admin"@.len() == 5);
    assert("maintain"@.len() == 8);
    assert("triage"@.len() == 6);
}

} // verus!
