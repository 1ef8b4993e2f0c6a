use github_audit::deploy_key::{
    audit_repositories, members_query, report_key, report_keys, run_audit, say_checking_keys,
    say_fetching_members, say_title, take_members, AuditEnd, DeployKey, DeployKeyAudit,
};
use github_audit::json::Json;
use github_audit::listing::index_items;
use github_audit::paint::{Line, Style};
use github_audit::{Bootstrap, Member, Permissions, Repository};

fn key(title: &str, added_by: &str) -> DeployKey {
    DeployKey {
        id: 1,
        key: "ssh-rsa AAAA".to_string(),
        url: "https://api.github.com/keys/1".to_string(),
        title: title.to_string(),
        verified: true,
        created_at: "2024-01-01T00:00:00Z".to_string(),
        read_only: true,
        added_by: added_by.to_string(),
        last_used: None,
        enabled: true,
    }
}

fn member(login: &str) -> Member {
    Member {
        avatar_url: String::new(),
        login: login.to_string(),
    }
}

fn repository(name: &str) -> Repository {
    Repository {
        name: name.to_string(),
        private: true,
        permissions: Permissions {
            pull: true,
            triage: false,
            push: false,
            maintain: false,
            admin: false,
        },
        archived: false,
        visibility: "private".to_string(),
        security_and_analysis: Json::Null,
    }
}

fn bootstrap() -> Bootstrap {
    Bootstrap {
        token: "token".to_string(),
        org: "acme".to_string(),
    }
}

fn text(line: &Line) -> String {
    line.segments.iter().map(|s| s.text.as_str()).collect()
}

fn texts(lines: &[Line]) -> Vec<String> {
    lines.iter().map(text).collect()
}

#[test]
fn reports_a_key_of_a_non_member() {
    let members = index_items(vec![member("insider")]);
    let line = report_key("repo", &key("ci", "outsider"), &members, false).unwrap();
    let segments: Vec<(Style, &str)> = line
        .segments
        .iter()
        .map(|s| (s.style, s.text.as_str()))
        .collect();
    assert_eq!(
        segments,
        vec![
            (Style::White, "repo"),
            (Style::Plain, " has deploy key "),
            (Style::Yellow, "ci"),
            (Style::Plain, " "),
            (Style::Red, "added by non-member"),
            (Style::Plain, ": "),
            (Style::White, "outsider"),
        ]
    );
}

#[test]
fn reports_a_key_of_a_member_only_where_all_are_wanted() {
    let members = index_items(vec![member("insider")]);
    assert!(report_key("repo", &key("ci", "insider"), &members, false).is_none());
    let line = report_key("repo", &key("ci", "insider"), &members, true).unwrap();
    assert_eq!(
        text(&line),
        "repo has deploy key ci added by member: insider"
    );
    assert_eq!(line.segments[4].style, Style::Yellow);
}

#[test]
fn reports_the_keys_in_order() {
    let members = index_items(vec![member("insider")]);
    let keys = vec![
        key("a", "outsider"),
        key("b", "insider"),
        key("c", "stranger"),
    ];
    assert_eq!(
        texts(&report_keys("repo", &keys, &members, true)),
        vec![
            "repo has deploy key a added by non-member: outsider",
            "repo has deploy key b added by member: insider",
            "repo has deploy key c added by non-member: stranger",
        ]
    );
    assert_eq!(
        texts(&report_keys("repo", &keys, &members, false)),
        vec![
            "repo has deploy key a added by non-member: outsider",
            "repo has deploy key c added by non-member: stranger",
        ]
    );
}

#[test]
fn takes_in_the_members() {
    let query = members_query(&bootstrap());
    assert_eq!(query.path, "/orgs/acme/members");
    assert_eq!((query.page_size, query.retries), (75, 3));
    let (line, members) = take_members(Ok(vec![member("a"), member("b")])).ok().unwrap();
    assert_eq!(text(&line), "Success! I found:  2");
    assert!(members.contains_key("a"));
    let line = take_members(Err("down".to_string())).err().unwrap();
    assert_eq!(text(&line), "I couldn't fetch the organization members: down");
}

#[test]
fn audits_one_repository_after_the_other() {
    let members = index_items(vec![member("insider")]);
    let mut audit = DeployKeyAudit::new(
        false,
        members,
        vec![repository("one"), repository("two")],
    );
    let query = audit.next_query(&bootstrap()).unwrap();
    assert_eq!(query.path, "/repos/acme/one/keys");
    assert_eq!((query.page_size, query.retries), (25, 3));
    let lines = audit
        .take_keys(Ok(vec![key("a", "outsider"), key("b", "insider")]))
        .unwrap();
    assert_eq!(
        texts(&lines),
        vec![
            "one has deploy key a added by non-member: outsider",
            "Processed 1 repositories",
        ]
    );
    let query = audit.next_query(&bootstrap()).unwrap();
    assert_eq!(query.path, "/repos/acme/two/keys");
    let lines = audit.take_keys(Ok(vec![])).unwrap();
    assert_eq!(texts(&lines), vec!["Processed 2 repositories"]);
    assert!(audit.next_query(&bootstrap()).is_none());
}

#[test]
fn stops_where_the_keys_of_a_repository_cannot_be_fetched() {
    let mut audit = DeployKeyAudit::new(false, index_items(vec![]), vec![repository("one")]);
    let line = audit.take_keys(Err("down".to_string())).err().unwrap();
    assert_eq!(
        text(&line),
        "one I couldn't fetch the repository deploy keys: down"
    );
    assert_eq!(
        audit.next_query(&bootstrap()).unwrap().path,
        "/repos/acme/one/keys"
    );
}

#[test]
fn reports_the_progress_of_a_long_audit_now_and_then() {
    let repositories = (0..201).map(|i| repository(&i.to_string())).collect();
    let mut audit = DeployKeyAudit::new(true, index_items(vec![]), repositories);
    let mut shown: Vec<String> = vec![];
    while audit.next_query(&bootstrap()).is_some() {
        shown.extend(texts(&audit.take_keys(Ok(vec![key("k", "x")])).unwrap()));
    }
    let reports = shown.iter().filter(|t| t.starts_with("Processed")).count();
    assert_eq!(reports, 67);
    assert_eq!(shown.len(), 201 + 67);
}

#[test]
fn keys_differ_by_every_field() {
    assert!(key("a", "x") == key("a", "x"));
    assert!(key("a", "x") != key("b", "x"));
    assert!(key("a", "x") != key("a", "y"));
    let mut used = key("a", "x");
    used.last_used = Some("2024-02-02T00:00:00Z".to_string());
    assert!(used != key("a", "x"));
    let mut disabled = key("a", "x");
    disabled.enabled = false;
    assert!(disabled != key("a", "x"));
}

#[test]
fn says_what_is_done_next() {
    let segments = |line: Line| (line.segments[0].style, text(&line));
    assert_eq!(
        segments(say_title()),
        (Style::BoldWhite, "GitHub Deploy Key Audit".to_string())
    );
    assert_eq!(
        segments(say_fetching_members()),
        (
            Style::Yellow,
            "Fetching all organization members".to_string()
        )
    );
    assert_eq!(
        segments(say_checking_keys()),
        (
            Style::Yellow,
            "Finally the big one, I'm going to check each repository one by one to find deploy keys and their access. This is going to take a while...".to_string()
        )
    );
}

#[test]
fn audits_as_far_as_the_replies_lead() {
    let repositories = || vec![repository("one"), repository("two")];
    let (lines, done, stop) = audit_repositories(
        false,
        index_items(vec![]),
        repositories(),
        vec![Ok(vec![key("a", "x")]), Ok(vec![]), Ok(vec![])],
    );
    assert_eq!(
        texts(&lines),
        vec![
            "one has deploy key a added by non-member: x",
            "Processed 1 repositories",
            "Processed 2 repositories",
        ]
    );
    assert_eq!(done, 2);
    assert!(stop.is_none());
    let (lines, done, stop) = audit_repositories(
        false,
        index_items(vec![]),
        repositories(),
        vec![Ok(vec![]), Err("down".to_string())],
    );
    assert_eq!(texts(&lines), vec!["Processed 1 repositories"]);
    assert_eq!(done, 1);
    assert_eq!(
        text(&stop.unwrap()),
        "two I couldn't fetch the repository deploy keys: down"
    );
    let (lines, done, stop) =
        audit_repositories(false, index_items(vec![]), repositories(), vec![]);
    assert!(lines.is_empty());
    assert_eq!(done, 0);
    assert!(stop.is_none());
}

#[test]
fn runs_a_whole_audit() {
    let (lines, end) = run_audit(
        &bootstrap(),
        true,
        Ok(vec![member("insider")]),
        Ok(vec![repository("one")]),
        vec![Ok(vec![key("a", "insider")])],
    );
    assert_eq!(
        texts(&lines),
        vec![
            "GitHub Deploy Key Audit",
            "Fetching all organization members",
            "Success! I found:  1",
            "I'm going to fetch all repositories from the org",
            "Success! I found:  1",
            "Finally the big one, I'm going to check each repository one by one to find deploy keys and their access. This is going to take a while...",
            "one has deploy key a added by member: insider",
            "Processed 1 repositories",
        ]
    );
    assert!(matches!(end, AuditEnd::Audited(1, None)));
}

#[test]
fn an_audit_ends_where_members_cannot_be_fetched() {
    let (lines, end) = run_audit(
        &bootstrap(),
        true,
        Err("down".to_string()),
        Ok(vec![]),
        vec![],
    );
    assert_eq!(
        texts(&lines),
        vec![
            "GitHub Deploy Key Audit",
            "Fetching all organization members"
        ]
    );
    match end {
        AuditEnd::NoMembers(line) => assert_eq!(
            text(&line),
            "I couldn't fetch the organization members: down"
        ),
        _ => panic!("the members were fetched"),
    }
}

#[test]
fn an_audit_ends_where_repositories_cannot_be_fetched() {
    let (lines, end) = run_audit(
        &bootstrap(),
        true,
        Ok(vec![]),
        Err("down".to_string()),
        vec![],
    );
    assert_eq!(lines.len(), 4);
    match end {
        AuditEnd::NoRepositories(message) => {
            assert!(message.contains("I couldn't fetch the repositories"));
            assert!(message.ends_with(": down"));
        }
        _ => panic!("the repositories were fetched"),
    }
}
