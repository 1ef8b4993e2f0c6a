use github_audit::json::Json;
use github_audit::records::GitHubError;
use github_audit::{Collaborator, GitHubIndex, Member, Permissions, Repository, Team};

fn permissions(pull: bool, triage: bool, push: bool, maintain: bool, admin: bool) -> Permissions {
    Permissions {
        pull,
        triage,
        push,
        maintain,
        admin,
    }
}

fn repository(security_and_analysis: &str) -> Repository {
    Repository {
        name: "repo".to_string(),
        private: true,
        permissions: permissions(true, false, false, false, false),
        archived: false,
        visibility: "private".to_string(),
        security_and_analysis: Json::parse(security_and_analysis).unwrap(),
    }
}

#[test]
fn names_the_highest_permission() {
    let none = permissions(false, false, false, false, false);
    assert_eq!(none.highest_perm(), "none");
    let pull = permissions(true, false, false, false, false);
    assert_eq!(pull.highest_perm(), "pull");
    let triage = permissions(true, true, false, false, false);
    assert_eq!(triage.highest_perm(), "triage");
    let push = permissions(true, true, true, false, false);
    assert_eq!(push.highest_perm(), "push");
    let maintain = permissions(true, true, true, true, false);
    assert_eq!(maintain.highest_perm(), "maintain");
    let admin = permissions(true, true, true, true, true);
    assert_eq!(admin.highest_perm(), "admin");
}

#[test]
fn a_higher_permission_does_not_need_the_lower_ones() {
    assert_eq!(
        permissions(true, false, false, true, false).highest_perm(),
        "maintain"
    );
    assert_eq!(
        permissions(false, false, false, false, true).highest_perm(),
        "admin"
    );
}

#[test]
fn a_security_property_is_enabled_by_its_status() {
    let repository = repository(
        r#"{"secret_scanning": {"status": "enabled"}, "dependabot": {"status": "disabled"},
            "odd": "enabled", "numbered": {"status": 1}, "bare": {}}"#,
    );
    assert!(repository.is_security_property_enabled("secret_scanning"));
    assert!(!repository.is_security_property_enabled("dependabot"));
    assert!(!repository.is_security_property_enabled("odd"));
    assert!(!repository.is_security_property_enabled("numbered"));
    assert!(!repository.is_security_property_enabled("bare"));
    assert!(!repository.is_security_property_enabled("missing"));
}

#[test]
fn no_security_property_is_enabled_where_none_are_told() {
    assert!(!repository("null").is_security_property_enabled("secret_scanning"));
}

#[test]
fn repositories_differ_by_every_field() {
    assert!(repository("{}") == repository("{}"));
    assert!(repository("{}") != repository("null"));
    let mut archived = repository("{}");
    archived.archived = true;
    assert!(archived != repository("{}"));
    let mut renamed = repository("{}");
    renamed.name = "other".to_string();
    assert!(renamed != repository("{}"));
}

#[test]
fn members_are_filed_by_login_and_teams_by_slug() {
    let member = Member {
        avatar_url: "https://avatars/1".to_string(),
        login: "octocat".to_string(),
    };
    assert_eq!(member.index(), "octocat");
    let team = Team {
        name: "The Team".to_string(),
        slug: "the-team".to_string(),
        permissions: None,
    };
    assert_eq!(team.index(), "the-team");
}

#[test]
fn teams_and_collaborators_differ_by_their_permissions() {
    let team = |permissions| Team {
        name: "T".to_string(),
        slug: "t".to_string(),
        permissions,
    };
    let pull = permissions(true, false, false, false, false);
    let push = permissions(true, false, true, false, false);
    assert!(team(None) == team(None));
    assert!(team(Some(pull.clone())) == team(Some(pull.clone())));
    assert!(team(None) != team(Some(pull.clone())));
    assert!(team(Some(push.clone())) != team(Some(pull.clone())));
    let collaborator = |permissions| Collaborator {
        login: "octocat".to_string(),
        permissions,
    };
    assert!(collaborator(pull.clone()) == collaborator(pull.clone()));
    assert!(collaborator(pull) != collaborator(push));
}

#[test]
fn an_error_is_told_on_one_line() {
    let error = GitHubError {
        message: "Not Found".to_string(),
        documentation_url: "https://docs.github.com/rest".to_string(),
        status: "404".to_string(),
    };
    assert_eq!(
        error.to_text(),
        "GitHubError: Not Found https://docs.github.com/rest 404"
    );
}
