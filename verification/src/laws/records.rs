//! Records: what tells them apart, what they are filed under, what they say.

use vstd::prelude::*;
use vstd::std_specs::cmp::PartialEqSpec;

use crate::deploy_key::DeployKey;
use crate::json::JsonModel;
use crate::records::{Collaborator, GitHubError, Member, Permissions, Repository, Team};

verus! {

/// The highest permission is the one that is granted while none above it is; the order is
/// admin, maintain, push, triage, pull.
pub proof fn the_highest_permission_is_granted_and_none_above_it(
    permissions: &Permissions,
    name: String,
)
    requires
        call_ensures(Permissions::highest_perm, (permissions,), name),
    ensures
        permissions.admin ==> name@ == "admin"@,
        permissions.maintain && !permissions.admin ==> name@ == "maintain"@,
        permissions.push && !permissions.maintain && !permissions.admin ==> name@ == "push"@,
        permissions.triage && !permissions.push && !permissions.maintain && !permissions.admin
            ==> name@ == "triage"@,
        permissions.pull && !permissions.triage && !permissions.push && !permissions.maintain
            && !permissions.admin ==> name@ == "pull"@,
        !permissions.pull && !permissions.triage && !permissions.push && !permissions.maintain
            && !permissions.admin ==> name@ == "none"@,
{
}

/// Collaborators are equal exactly where login and permissions agree.
pub proof fn collaborators_are_told_apart(a: Collaborator, b: Collaborator)
    ensures
        Collaborator::obeys_eq_spec(),
        a.eq_spec(&b) <==> {
            &&& a.login@ == b.login@
            &&& a.permissions.pull == b.permissions.pull
            &&& a.permissions.triage == b.permissions.triage
            &&& a.permissions.push == b.permissions.push
            &&& a.permissions.maintain == b.permissions.maintain
            &&& a.permissions.admin == b.permissions.admin
        },
{
}

/// Members are equal exactly where avatar and login agree.
pub proof fn members_are_told_apart(a: Member, b: Member)
    ensures
        Member::obeys_eq_spec(),
        a.eq_spec(&b) <==> a.avatar_url@ == b.avatar_url@ && a.login@ == b.login@,
{
}

/// Teams are equal exactly where name, slug and permissions agree.
pub proof fn teams_are_told_apart(a: Team, b: Team)
    ensures
        Team::obeys_eq_spec(),
        a.eq_spec(&b) <==> {
            &&& a.name@ == b.name@
            &&& a.slug@ == b.slug@
            &&& match (a.permissions, b.permissions) {
                (Some(x), Some(y)) => {
                    &&& x.pull == y.pull
                    &&& x.triage == y.triage
                    &&& x.push == y.push
                    &&& x.maintain == y.maintain
                    &&& x.admin == y.admin
                },
                (None, None) => true,
                _ => false,
            }
        },
{
}

/// Repositories are equal exactly where all their fields agree.
pub proof fn repositories_are_told_apart(a: Repository, b: Repository)
    ensures
        Repository::obeys_eq_spec(),
        a.eq_spec(&b) <==> {
            &&& a.name@ == b.name@
            &&& a.private == b.private
            &&& a.permissions.pull == b.permissions.pull
            &&& a.permissions.triage == b.permissions.triage
            &&& a.permissions.push == b.permissions.push
            &&& a.permissions.maintain == b.permissions.maintain
            &&& a.permissions.admin == b.permissions.admin
            &&& a.archived == b.archived
            &&& a.visibility@ == b.visibility@
            &&& a.security_and_analysis.eq_spec(&b.security_and_analysis)
        },
{
}

/// Errors are equal exactly where message, documentation address and status agree.
pub proof fn errors_are_told_apart(a: GitHubError, b: GitHubError)
    ensures
        GitHubError::obeys_eq_spec(),
        a.eq_spec(&b) <==> a.message@ == b.message@ && a.documentation_url@ == b.documentation_url@
            && a.status@ == b.status@,
{
}

/// Deploy keys are equal exactly where all their fields agree.
pub proof fn deploy_keys_are_told_apart(a: DeployKey, b: DeployKey)
    ensures
        DeployKey::obeys_eq_spec(),
        a.eq_spec(&b) <==> {
            &&& a.id == b.id
            &&& a.key@ == b.key@
            &&& a.url@ == b.url@
            &&& a.title@ == b.title@
            &&& a.verified == b.verified
            &&& a.created_at@ == b.created_at@
            &&& a.read_only == b.read_only
            &&& a.added_by@ == b.added_by@
            &&& match (a.last_used, b.last_used) {
                (Some(x), Some(y)) => x@ == y@,
                (None, None) => true,
                _ => false,
            }
            &&& a.enabled == b.enabled
        },
{
}

/// A member is filed under its login.
pub proof fn a_member_is_filed_under_its_login(member: &Member, index: String)
    requires
        call_ensures(<Member as crate::records::GitHubIndex>::index, (member,), index),
    ensures
        index@ == member.login@,
{
}

/// A team is filed under its slug.
pub proof fn a_team_is_filed_under_its_slug(team: &Team, index: String)
    requires
        call_ensures(<Team as crate::records::GitHubIndex>::index, (team,), index),
    ensures
        index@ == team.slug@,
{
}

/// A security property is enabled exactly where the settings are an object in which it is
/// an object whose status is the text "enabled".
pub proof fn a_security_property_is_enabled_by_its_status_alone(
    repository: &Repository,
    property: &str,
    enabled: bool,
)
    requires
        call_ensures(Repository::is_security_property_enabled, (repository, property), enabled),
    ensures
        enabled <==> exists|value: JsonModel|
            {
                &&& repository.security_and_analysis@.get(property@) == Some(value)
                &&& #[trigger] value.get("status"@) == Some(JsonModel::Text("enabled"@))
            },
{
    if let Some(value) = repository.security_and_analysis@.get(property@) {
        assert(value.get("status"@) == value.get("status"@));
    }
}

/// An error is told by its name, its message, its documentation address and its status,
/// with a space between them.
pub proof fn an_error_tells_everything(error: &GitHubError, text: String)
    requires
        call_ensures(GitHubError::to_text, (error,), text),
    ensures
        text@ == "GitHubError: "@ + error.message@ + " "@ + error.documentation_url@ + " "@
            + error.status@,
{
}

} // verus!
