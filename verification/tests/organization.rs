use github_audit::json::Json;
use github_audit::organization::{
    email_from_gh_username, email_of, email_request, get_repo_collaborators, get_repo_teams,
    get_repo_visibility, has_private, is_empty_list, repo_request, repository_names,
    say_fetching_repositories, visibility_of, ResolvedRepos,
};
use github_audit::paint::{Line, Style};
use github_audit::{Bootstrap, Member, Permissions, Repository, Team};

fn bootstrap() -> Bootstrap {
    Bootstrap {
        token: "token".to_string(),
        org: "acme".to_string(),
    }
}

fn team() -> Team {
    Team {
        name: "Core".to_string(),
        slug: "core".to_string(),
        permissions: None,
    }
}

fn repository(name: &str, private: bool) -> Repository {
    Repository {
        name: name.to_string(),
        private,
        permissions: Permissions {
            pull: true,
            triage: false,
            push: false,
            maintain: false,
            admin: false,
        },
        archived: false,
        visibility: "public".to_string(),
        security_and_analysis: Json::Null,
    }
}

fn texts(lines: &[Line]) -> Vec<String> {
    lines
        .iter()
        .map(|line| line.segments.iter().map(|s| s.text.as_str()).collect())
        .collect()
}

const CHECKING: &str =
    "I'm checking there is a GitHub FPAT in the GH_TOKEN environment variable...";

#[test]
fn sets_up_from_token_and_organization() {
    let (lines, result) = Bootstrap::new(
        Some("github_pat_0123456789_and_more".to_string()),
        Some("acme".to_string()),
    );
    assert_eq!(
        texts(&lines),
        vec![
            CHECKING,
            "I have token: github_pat_012345678...",
            "I have organization: acme",
        ]
    );
    let bootstrap = result.unwrap();
    assert_eq!(bootstrap.token, "github_pat_0123456789_and_more");
    assert_eq!(bootstrap.org, "acme");
}

#[test]
fn says_what_is_missing() {
    let (lines, result) = Bootstrap::new(None, Some("acme".to_string()));
    assert_eq!(texts(&lines), vec![CHECKING]);
    assert_eq!(result.unwrap_err(), "GH_TOKEN not found");
    let (lines, result) = Bootstrap::new(Some("x".repeat(20)), None);
    assert_eq!(
        texts(&lines),
        vec![
            CHECKING.to_string(),
            format!("I have token: {}...", "x".repeat(20))
        ]
    );
    assert_eq!(result.unwrap_err(), "GH_ORG not found");
}

#[test]
fn a_preview_ends_between_characters() {
    let token = format!("{}\u{e9}rest", "x".repeat(18));
    let (lines, _) = Bootstrap::new(Some(token), None);
    assert_eq!(
        texts(&lines)[1],
        format!("I have token: {}\u{e9}...", "x".repeat(18))
    );
}

#[test]
fn asks_for_the_listings_of_an_organization() {
    let bootstrap = bootstrap();
    let query = bootstrap.repositories_query(40);
    assert_eq!(query.path, "/orgs/acme/repos");
    assert_eq!((query.page_size, query.retries), (40, 3));
    assert_eq!(query.params, None);
    let query = get_repo_collaborators(&bootstrap, "repo");
    assert_eq!(query.path, "/repos/acme/repo/collaborators");
    assert_eq!((query.page_size, query.retries), (25, 3));
    let query = get_repo_teams(&bootstrap, "repo");
    assert_eq!(query.path, "/repos/acme/repo/teams");
    let query = team().members_query(&bootstrap);
    assert_eq!(query.path, "/orgs/acme/teams/core/members");
    assert_eq!((query.page_size, query.retries), (25, 3));
}

#[test]
fn resolves_repositories() {
    let names = vec!["one".to_string(), "two".to_string()];
    match bootstrap().resolve_repos(Some(names.clone())) {
        ResolvedRepos::Names(resolved) => assert_eq!(resolved, names),
        other => panic!("{:?}", other),
    }
    match bootstrap().resolve_repos(None) {
        ResolvedRepos::Listing(query) => {
            assert_eq!(query.path, "/orgs/acme/repos");
            assert_eq!(query.page_size, 75);
        }
        other => panic!("{:?}", other),
    }
    let fetched = vec![repository("b", true), repository("a", false)];
    assert_eq!(repository_names(fetched), vec!["b", "a"]);
}

#[test]
fn says_how_many_repositories_there_are() {
    let (lines, result) =
        bootstrap().fetch_all_repositories(Ok(vec![repository("a", false), repository("b", true)]));
    assert_eq!(texts(&lines), vec!["Success! I found:  2"]);
    assert_eq!(result.unwrap().len(), 2);
}

#[test]
fn says_that_no_repository_is_private() {
    let (lines, result) = bootstrap().fetch_all_repositories(Ok(vec![repository("a", false)]));
    assert_eq!(
        texts(&lines),
        vec![
            "Success! I found:  1",
            "I didn't find any private repositories. Make sure you have permission to read private repositories.",
        ]
    );
    assert_eq!(result, Ok(vec![repository("a", false)]));
    assert!(!has_private(&vec![]));
    assert!(has_private(&vec![repository("a", true)]));
}

#[test]
fn says_why_repositories_could_not_be_fetched() {
    colored::control::set_override(true);
    let (lines, result) = bootstrap().fetch_all_repositories(Err("down".to_string()));
    assert!(lines.is_empty());
    assert_eq!(
        result.unwrap_err(),
        "\u{1b}[31mI couldn't fetch the repositories\u{1b}[0m: down"
    );
}

#[test]
fn reads_the_visibility_of_a_repository() {
    let request = repo_request(&bootstrap(), "repo");
    assert_eq!(request.url, "https://api.github.com/repos/acme/repo");
    assert_eq!(
        get_repo_visibility(Ok(r#"{"visibility": "internal"}"#.to_string())),
        Ok("internal".to_string())
    );
    let missing = Err("Missing visibility in the response from GitHub".to_string());
    assert_eq!(get_repo_visibility(Ok("{}".to_string())), missing);
    assert_eq!(
        get_repo_visibility(Ok(r#"{"visibility": 1}"#.to_string())),
        missing
    );
    assert_eq!(visibility_of(&Json::Null), missing);
    assert_eq!(
        get_repo_visibility(Err("down".to_string())),
        Err("down".to_string())
    );
    assert_eq!(
        get_repo_visibility(Ok("{".to_string())),
        Err(
            "Could not deserialize GitHub's response. Error: EOF while parsing an object at line 1 column 1"
                .to_string()
        )
    );
}

#[test]
fn tells_whether_a_team_is_empty() {
    let request = team().members_request(&bootstrap());
    assert_eq!(
        request.url,
        "https://api.github.com/orgs/acme/teams/core/members"
    );
    assert_eq!(Team::is_empty(Ok("[]".to_string())), Ok(true));
    assert_eq!(
        Team::is_empty(Ok(r#"[{"login": "a"}]"#.to_string())),
        Ok(false)
    );
    let not_a_list = Err("The value returned by GitHub is not an array".to_string());
    assert_eq!(Team::is_empty(Ok("{}".to_string())), not_a_list);
    assert_eq!(is_empty_list(&Json::Null), not_a_list);
    assert_eq!(
        Team::is_empty(Err("down".to_string())),
        Err("down".to_string())
    );
}

#[test]
fn asks_for_an_email_address() {
    let request = email_request(&bootstrap(), "query Q", "octo\"cat");
    assert_eq!(request.url, "https://api.github.com/graphql");
    assert_eq!(
        request.body.unwrap(),
        r#"{"query":"query Q","variables":{"org":"acme","user":"octo\"cat"}}"#
    );
}

fn identity(edges: &str) -> String {
    format!(
        r#"{{"data": {{"organization": {{"samlIdentityProvider":
            {{"externalIdentities": {{"edges": {}}}}}}}}}}}"#,
        edges
    )
}

#[test]
fn reads_an_email_address() {
    let answer = identity(
        r#"[{"node": {"samlIdentity": {"nameId": "a@b.c"}}},
            {"node": {"samlIdentity": {"nameId": "other"}}}]"#,
    );
    assert_eq!(
        email_from_gh_username(Ok(answer)),
        Some("a@b.c".to_string())
    );
}

#[test]
fn finds_no_email_address_where_something_is_missing() {
    let answers = vec![
        identity("[]"),
        identity("null"),
        identity(r#"[{"node": null}]"#),
        identity(r#"[{"node": {"samlIdentity": {"nameId": null}}}]"#),
        r#"{"data": {"organization": null}}"#.to_string(),
        r#"{"errors": []}"#.to_string(),
        "not json".to_string(),
    ];
    for answer in answers {
        assert_eq!(email_from_gh_username(Ok(answer)), None);
    }
    assert_eq!(email_from_gh_username(Err("down".to_string())), None);
    assert_eq!(email_of(&Json::Null), None);
}

#[test]
fn files_the_members_of_a_team_by_login() {
    let member = |login: &str, avatar_url: &str| Member {
        avatar_url: avatar_url.to_string(),
        login: login.to_string(),
    };
    let members = Team::fetch_team_members(Ok(vec![
        member("a", "1"),
        member("b", "2"),
        member("a", "3"),
    ]))
    .ok()
    .unwrap();
    assert_eq!(members.len(), 2);
    assert_eq!(members.get("a"), Some(&member("a", "3")));
    assert_eq!(members.get("b"), Some(&member("b", "2")));
    assert_eq!(
        Team::fetch_team_members(Err("down".to_string())).err(),
        Some("down".to_string())
    );
}

#[test]
fn says_that_the_repositories_are_fetched() {
    let line = say_fetching_repositories();
    assert_eq!(line.segments.len(), 1);
    assert_eq!(line.segments[0].style, Style::Yellow);
    assert_eq!(
        line.segments[0].text,
        "I'm going to fetch all repositories from the org"
    );
}
