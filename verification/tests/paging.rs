use github_audit::paging::{
    make_paginated_github_request, PageAnswer, PageQuery, PageStep, Paging,
};
use github_audit::records::{GitHubError, GitHubResponse};
use github_audit::Member;

fn query(retries: u8, params: Option<&str>) -> PageQuery {
    PageQuery {
        path: "/orgs/acme/members".to_string(),
        page_size: 75,
        retries,
        params: params.map(str::to_string),
    }
}

fn member(login: &str) -> Member {
    Member {
        avatar_url: String::new(),
        login: login.to_string(),
    }
}

fn page(logins: &[&str]) -> PageAnswer<Member> {
    let data = logins.iter().map(|login| member(login)).collect();
    PageAnswer::Content("[]".to_string(), Ok(GitHubResponse::Data(data)))
}

fn refusal(message: &str) -> PageAnswer<Member> {
    PageAnswer::Content(
        "{}".to_string(),
        Ok(GitHubResponse::Error(GitHubError {
            message: message.to_string(),
            documentation_url: "docs".to_string(),
            status: "403".to_string(),
        })),
    )
}

fn unreadable(error: &str) -> PageAnswer<Member> {
    PageAnswer::Content("<html>".to_string(), Err(error.to_string()))
}

fn step(paging: &mut Paging<Member>, answer: PageAnswer<Member>) -> PageStep {
    assert!(paging.can_ask());
    paging.ask("token");
    assert!(paging.can_receive(&answer));
    paging.receive(answer)
}

#[test]
fn asks_for_one_page_after_the_other() {
    let mut paging: Paging<Member> = Paging::new(query(3, None));
    let request = paging.ask("token");
    assert_eq!(
        request.url,
        "https://api.github.com/orgs/acme/members?per_page=75&page=1"
    );
    assert_eq!(
        request.headers[3],
        ("Authorization".to_string(), "Bearer token".to_string())
    );
    assert!(matches!(
        paging.receive(page(&["a", "b"])),
        PageStep::Continue
    ));
    assert_eq!(
        paging.ask("token").url,
        "https://api.github.com/orgs/acme/members?per_page=75&page=2"
    );
}

#[test]
fn sends_parameters_along() {
    let mut paging: Paging<Member> = Paging::new(query(3, Some("role=admin")));
    assert_eq!(
        paging.ask("token").url,
        "https://api.github.com/orgs/acme/members?per_page=75&page=1&role=admin"
    );
}

#[test]
fn gathers_until_an_empty_page() {
    let mut paging = Paging::new(query(3, None));
    assert!(matches!(
        step(&mut paging, page(&["a", "b"])),
        PageStep::Continue
    ));
    assert!(matches!(
        step(&mut paging, page(&["b", "c"])),
        PageStep::Continue
    ));
    assert!(matches!(step(&mut paging, page(&[])), PageStep::Finish));
    assert!(paging.ask("token").url.ends_with("&page=3"));
    assert_eq!(
        paging.into_items(),
        vec![member("a"), member("b"), member("c")]
    );
}

#[test]
fn waits_for_the_rate_limit_past_the_number_of_attempts() {
    let mut paging = Paging::new(query(3, None));
    step(&mut paging, page(&["a"]));
    for _ in 0..50 {
        let answer = refusal("API rate limit exceeded for user 1.");
        assert!(matches!(step(&mut paging, answer), PageStep::Wait(60)));
    }
    assert!(paging.ask("token").url.ends_with("&page=2"));
    assert_eq!(paging.into_items(), vec![member("a")]);
}

#[test]
fn gives_up_unreadable_content_at_the_limit() {
    let mut paging = Paging::new(query(3, None));
    for _ in 0..2 {
        match step(&mut paging, unreadable("bad")) {
            PageStep::Retry(lines) => {
                let texts: Vec<&str> = lines
                    .iter()
                    .flat_map(|line| line.segments.iter().map(|s| s.text.as_str()))
                    .collect();
                assert_eq!(
                    texts,
                    vec![
                        "Going to retry because couldn't deserialize response from GitHub:",
                        ": ",
                        "bad",
                        "<html>",
                    ]
                );
            }
            other => panic!("{:?}", other),
        }
    }
    match step(&mut paging, unreadable("worse")) {
        PageStep::Fail(lines, error) => {
            assert_eq!(error, "worse");
            assert_eq!(lines.len(), 1);
            assert_eq!(lines[0].segments[0].text, "Retries exhausted");
        }
        other => panic!("{:?}", other),
    }
}

#[test]
fn counts_a_refusal_twice() {
    let mut paging = Paging::new(query(3, None));
    assert!(matches!(
        step(&mut paging, refusal("Not Found")),
        PageStep::Retry(_)
    ));
    match step(&mut paging, refusal("Not Found")) {
        PageStep::Fail(_, error) => assert_eq!(error, "GitHubError: Not Found docs 403"),
        other => panic!("{:?}", other),
    }
}

#[test]
fn a_page_with_items_clears_earlier_failures() {
    let mut paging = Paging::new(query(3, None));
    step(&mut paging, unreadable("bad"));
    step(&mut paging, unreadable("bad"));
    step(&mut paging, page(&["a"]));
    for _ in 0..2 {
        assert!(matches!(
            step(&mut paging, unreadable("bad")),
            PageStep::Retry(_)
        ));
    }
    assert!(matches!(
        step(&mut paging, unreadable("bad")),
        PageStep::Fail(_, _)
    ));
}

#[test]
fn fails_where_no_answer_comes() {
    let mut paging = Paging::new(query(3, None));
    match step(&mut paging, PageAnswer::Nothing("no route".to_string())) {
        PageStep::Fail(lines, error) => {
            assert!(lines.is_empty());
            assert_eq!(error, "no route");
        }
        other => panic!("{:?}", other),
    }
}

#[test]
fn tells_when_no_more_asking_can_be_counted() {
    let mut paging = Paging::new(query(3, None));
    for _ in 0..255 {
        step(&mut paging, refusal("API rate limit exceeded"));
    }
    assert!(!paging.can_ask());
    assert!(matches!(
        paging.receive(page(&["a"])),
        PageStep::Continue
    ));
    assert!(paging.can_ask());
}

#[test]
fn fetches_a_listing_page_by_page() {
    let fetched = make_paginated_github_request(
        "token",
        query(3, None),
        vec![
            page(&["a", "b"]),
            unreadable("bad"),
            refusal("API rate limit exceeded"),
            page(&["b", "c"]),
            page(&[]),
            page(&["d"]),
        ],
    );
    let pages: Vec<&str> = fetched
        .requests
        .iter()
        .map(|request| request.url.rsplit('=').next().unwrap())
        .collect();
    assert_eq!(pages, vec!["1", "2", "2", "2", "3"]);
    assert_eq!(fetched.steps.len(), 5);
    assert!(matches!(fetched.steps[0], PageStep::Continue));
    assert!(matches!(fetched.steps[1], PageStep::Retry(_)));
    assert!(matches!(fetched.steps[2], PageStep::Wait(60)));
    assert!(matches!(fetched.steps[3], PageStep::Continue));
    assert!(matches!(fetched.steps[4], PageStep::Finish));
    assert_eq!(
        fetched.outcome,
        Some(Ok(vec![member("a"), member("b"), member("c")]))
    );
}

#[test]
fn gives_a_listing_up_with_the_last_error() {
    let fetched = make_paginated_github_request(
        "token",
        query(3, None),
        vec![
            page(&["a"]),
            refusal("Not Found"),
            refusal("Not Found"),
            page(&[]),
        ],
    );
    assert_eq!(fetched.steps.len(), 3);
    assert_eq!(
        fetched.outcome,
        Some(Err("GitHubError: Not Found docs 403".to_string()))
    );
}

#[test]
fn a_listing_without_an_empty_page_is_not_at_its_end() {
    let fetched = make_paginated_github_request("token", query(3, None), vec![page(&["a"])]);
    assert_eq!(fetched.steps.len(), 1);
    assert_eq!(fetched.outcome, None);
    let waits = (0..256)
        .map(|_| refusal("API rate limit exceeded"))
        .collect();
    let fetched = make_paginated_github_request("token", query(3, None), waits);
    assert_eq!(fetched.steps.len(), 255);
    assert_eq!(fetched.outcome, None);
}

#[test]
fn rate_limits_before_a_page_only_delay_a_listing() {
    let fetch = |at: usize, count: usize| {
        let mut answers = vec![page(&["a", "b"]), page(&["c"]), page(&[])];
        for _ in 0..count {
            answers.insert(at, refusal("API rate limit exceeded for user 1."));
        }
        make_paginated_github_request("token", query(0, None), answers)
    };
    let straight = fetch(0, 0);
    assert_eq!(straight.steps.len(), 3);
    for at in 0..3 {
        for count in [1, 254] {
            let slow = fetch(at, count);
            assert_eq!(slow.outcome, straight.outcome);
            assert_eq!(slow.steps.len(), 3 + count);
            for i in at..at + count {
                assert!(matches!(slow.steps[i], PageStep::Wait(60)));
                assert_eq!(slow.requests[i].url, straight.requests[at].url);
            }
            assert_eq!(slow.requests[at + count].url, straight.requests[at].url);
        }
    }
    let stuck = fetch(1, 255);
    assert_eq!(stuck.outcome, None);
    assert_eq!(stuck.steps.len(), 256);
}
