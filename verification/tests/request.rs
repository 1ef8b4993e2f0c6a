use github_audit::json::Json;
use github_audit::request::{github_request, graphql_request, read_answer, Method};
use github_audit::GraphQLQuery;

fn pair(name: &str, value: &str) -> (String, String) {
    (name.to_string(), value.to_string())
}

#[test]
fn asks_for_a_path() {
    let request = github_request("SECRET", "/repos/org/repo", None);
    assert_eq!(request.method, Method::Get);
    assert_eq!(request.url, "https://api.github.com/repos/org/repo");
    assert_eq!(
        request.headers,
        vec![
            pair("User-Agent", "GitHub EC Audit"),
            pair("Accept", "application/vnd.github+json"),
            pair("X-GitHub-Api-Version", "2022-11-28"),
            pair("Authorization", "Bearer SECRET"),
        ]
    );
    assert_eq!(request.body, None);
}

#[test]
fn puts_parameters_behind_a_question_mark() {
    let request = github_request("t", "/search", Some("q=1&sort=asc"));
    assert_eq!(request.url, "https://api.github.com/search?q=1&sort=asc");
}

#[test]
fn writes_a_query_with_its_variables() {
    let mut query = GraphQLQuery::new("query {\n  \"x\" }");
    query.set_variable("org", "a\\b");
    query.set_variable("user", "\u{1}\u{8}\u{c}\r\t\u{1f}\u{e9}/");
    assert_eq!(
        query.body(),
        r#"{"query":"query {\n  \"x\" }","variables":{"org":"a\\b","user":"\u0001\b\f\r\t\u001fé/"}}"#
    );
}

#[test]
fn writes_a_query_without_variables() {
    assert_eq!(
        GraphQLQuery::new("q").body(),
        r#"{"query":"q","variables":{}}"#
    );
}

#[test]
fn what_is_written_is_read_back() {
    let mut query = GraphQLQuery::new("line\n\"quoted\" \u{7f}\u{0}");
    query.set_variable("org", "org");
    let json = Json::parse(&query.body()).unwrap();
    assert_eq!(
        json.get("query").unwrap().as_str(),
        Some("line\n\"quoted\" \u{7f}\u{0}")
    );
    let variables = json.get("variables").unwrap();
    assert_eq!(variables.get("org").unwrap().as_str(), Some("org"));
}

#[test]
fn a_variable_that_is_set_again_has_the_new_value() {
    let mut query = GraphQLQuery::new("q");
    query.set_variable("org", "one");
    query.set_variable("user", "two");
    query.set_variable("org", "three");
    assert_eq!(
        query.body(),
        r#"{"query":"q","variables":{"org":"three","user":"two"}}"#
    );
}

#[test]
fn posts_a_query() {
    let request = graphql_request("t", &GraphQLQuery::new("q"));
    assert_eq!(request.method, Method::Post);
    assert_eq!(request.url, "https://api.github.com/graphql");
    assert_eq!(
        request.body,
        Some(r#"{"query":"q","variables":{}}"#.to_string())
    );
    assert_eq!(request.headers.len(), 4);
}

#[test]
fn reads_an_answer() {
    assert_eq!(
        read_answer(Ok("[1]".to_string())),
        Ok(Json::Array(vec![Json::Number("1".to_string())]))
    );
    assert_eq!(
        read_answer(Ok("<html>".to_string())),
        Err(
            "Could not deserialize GitHub's response. Error: expected value at line 1 column 1"
                .to_string()
        )
    );
    assert_eq!(
        read_answer(Err("no connection".to_string())),
        Err("no connection".to_string())
    );
}
