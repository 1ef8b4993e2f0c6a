//! Requests: where they go, what they carry, and what their answers are read as.

use vstd::prelude::*;

use crate::json::{Json, JsonModel};
use crate::request::{GraphQLQuery, HttpRequest, Method};

verus! {

/// Whether a request carries the headers that GitHub asks for, with this token.
pub open spec fn carries_token(request: HttpRequest, token: Seq<char>) -> bool {
    &&& request.headers@.len() == 4
    &&& request.headers@[0].0@ == "User-Agent"@
    &&& request.headers@[0].1@ == "GitHub EC Audit"@
    &&& request.headers@[1].0@ == "Accept"@
    &&& request.headers@[1].1@ == "application/vnd.github+json"@
    &&& request.headers@[2].0@ == "X-GitHub-Api-Version"@
    &&& request.headers@[2].1@ == "2022-11-28"@
    &&& request.headers@[3].0@ == "Authorization"@
    &&& request.headers@[3].1@ == "Bearer "@ + token
}

/// A request whose view has the headers of a token carries that token.
pub proof fn headers_carry_the_token(request: HttpRequest, token: Seq<char>)
    requires
        request@.headers == crate::request::github_headers(token),
    ensures
        carries_token(request, token),
{
    let headers = request@.headers;
    assert(headers.len() == request.headers@.len());
    assert(headers[0] == (request.headers@[0].0@, request.headers@[0].1@));
    assert(headers[1] == (request.headers@[1].0@, request.headers@[1].1@));
    assert(headers[2] == (request.headers@[2].0@, request.headers@[2].1@));
    assert(headers[3] == (request.headers@[3].0@, request.headers@[3].1@));
}

/// A request for a path gets what is below GitHub's address at that path, with the
/// parameters behind a question mark, and carries the token.
pub proof fn a_path_is_asked_for_below_the_address(
    token: &str,
    path: &str,
    params: Option<&str>,
    request: HttpRequest,
)
    requires
        call_ensures(crate::request::github_request, (token, path, params), request),
    ensures
        request.method == Method::Get,
        request.url@ == match params {
            Some(params) => "https://api.github.com"@ + path@ + "?"@ + params@,
            None => "https://api.github.com"@ + path@,
        },
        carries_token(request, token@),
        request.body is None,
{
    headers_carry_the_token(request, token@);
    assert(request@.body is None);
}

/// An answer is read as the value that its content holds. One that is no JSON is an error
/// that says why; the error of one that never came is handed on.
pub proof fn an_answer_is_read_as_what_it_holds(
    answer: Result<String, String>,
    read: Result<Json, String>,
)
    requires
        call_ensures(crate::request::read_answer, (answer,), read),
    ensures
        match answer {
            Ok(content) => match crate::json::parsed(content@) {
                Ok(value) => read matches Ok(json) && json@ == value,
                Err(message) => read matches Err(error) && error@
                    == "Could not deserialize GitHub's response. Error: "@ + message,
            },
            Err(error) => read matches Err(handed_on) && handed_on@ == error@,
        },
{
}

/// A text that is parsed gives the value that it holds, or why it holds none.
pub proof fn a_text_is_parsed_as_what_it_holds(text: &str, result: Result<Json, String>)
    requires
        call_ensures(Json::parse, (text,), result),
    ensures
        match crate::json::parsed(text@) {
            Ok(value) => result matches Ok(json) && json@ == value,
            Err(message) => result matches Err(error) && error@ == message,
        },
{
}

/// A value that is taken over holds what it held.
pub proof fn a_value_is_taken_over_as_it_is(value: serde_json::Value, json: Json)
    requires
        call_ensures(Json::from_value, (value,), json),
    ensures
        json@ == crate::json::json_of(value),
{
}

/// A new query has its text and no variables.
pub proof fn a_new_query_has_no_variables(text: &str, query: GraphQLQuery)
    requires
        call_ensures(GraphQLQuery::new, (text,), query),
    ensures
        query@.query == text@,
        query@.variables.len() == 0,
{
}

/// Setting a variable gives that variable that value, leaves every other as it was, and
/// leaves the text as it was.
pub proof fn setting_a_variable_sets_it_alone(
    query: &mut GraphQLQuery,
    name: &str,
    value: &str,
    other: Seq<char>,
)
    requires
        call_ensures(GraphQLQuery::set_variable, (query, name, value), ()),
    ensures
        final(query)@.query == old(query)@.query,
        exists|i: int|
            0 <= i < final(query)@.variables.len() && #[trigger] final(query)@.variables[i] == (
                name@,
                value@,
            ),
        forall|i: int|
            0 <= i < final(query)@.variables.len() && (#[trigger] final(query)@.variables[i]).0
                == name@ ==> final(query)@.variables[i].1 == value@,
        forall|v: Seq<char>|
            other != name@ ==> (final(query)@.variables.contains((other, v)) <==> #[trigger] old(
                query,
            )@.variables.contains((other, v))),
{
    let before = old(query)@.variables;
    let after = final(query)@.variables;
    if exists|i: int| 0 <= i < before.len() && (#[trigger] before[i]).0 == name@ {
        let i = choose|i: int| 0 <= i < before.len() && (#[trigger] before[i]).0 == name@;
        assert(after[i] == (name@, value@));
    } else {
        assert(after[before.len() as int] == (name@, value@));
    }
    assert forall|v: Seq<char>| other != name@ implies (after.contains((other, v)) <==> #[trigger]
        before.contains((other, v))) by {
        if before.contains((other, v)) {
            let i = choose|i: int| 0 <= i < before.len() && before[i] == (other, v);
            assert(after[i] == (other, v));
        }
        if after.contains((other, v)) {
            let i = choose|i: int| 0 <= i < after.len() && after[i] == (other, v);
            assert(i < before.len());
            assert(before[i] == (other, v));
        }
    }
}

/// The fields of a body are its variables: none where there is none, the name and the value
/// of a single one with a colon between them, and those of two lists with a comma between
/// them.
pub proof fn variables_are_written_one_by_one(
    first: Seq<(Seq<char>, Seq<char>)>,
    second: Seq<(Seq<char>, Seq<char>)>,
)
    ensures
        first.len() == 0 ==> crate::request::variable_fields(first) == Seq::<char>::empty(),
        first.len() == 1 ==> crate::request::variable_fields(first) == crate::json::quoted(
            first[0].0,
        ) + ":"@ + crate::json::quoted(first[0].1),
        first.len() > 0 && second.len() > 0 ==> crate::request::variable_fields(first + second)
            == crate::request::variable_fields(first) + ","@ + crate::request::variable_fields(
            second,
        ),
    decreases second.len(),
{
    if first.len() == 1 {
        assert(crate::request::variable_fields(first.drop_last()) =~= Seq::empty());
        assert(first.last() == first[0]);
        assert(crate::request::variable_fields(first) =~= crate::json::quoted(first[0].0) + ":"@
            + crate::json::quoted(first[0].1));
    }
    if first.len() > 0 && second.len() > 0 {
        let shorter = second.drop_last();
        let last = second.last();
        assert((first + second).drop_last() =~= first + shorter);
        assert((first + second).last() == last);
        let end = crate::json::quoted(last.0) + ":"@ + crate::json::quoted(last.1);
        if shorter.len() == 0 {
            assert(first + shorter =~= first);
            assert(crate::request::variable_fields(shorter) =~= Seq::empty());
            assert(crate::request::variable_fields(second) =~= crate::request::variable_fields(
                shorter,
            ) + end);
            assert(crate::request::variable_fields(second) =~= end);
            assert(crate::request::variable_fields(first + second)
                =~= crate::request::variable_fields(first) + ","@ + end);
        } else {
            variables_are_written_one_by_one(first, shorter);
            assert(crate::request::variable_fields(second) =~= crate::request::variable_fields(
                shorter,
            ) + ","@ + end);
            assert(crate::request::variable_fields(first + second)
                =~= crate::request::variable_fields(first) + ","@
                + crate::request::variable_fields(second));
        }
    }
}

/// A body is an object with the text of the query and an object of its variables.
pub proof fn a_body_has_the_query_and_its_variables(query: &GraphQLQuery, body: String)
    requires
        call_ensures(GraphQLQuery::body, (query,), body),
    ensures
        body@ == "{\"query\":"@ + crate::json::quoted(query@.query) + ",\"variables\":{"@
            + crate::request::variable_fields(query@.variables) + "}}"@,
{
}

/// A query is posted to GitHub's address for queries, with its body and the token.
pub proof fn a_query_is_posted(token: &str, query: &GraphQLQuery, request: HttpRequest)
    requires
        call_ensures(crate::request::graphql_request, (token, query), request),
    ensures
        request.method == Method::Post,
        request.url@ == "https://api.github.com/graphql"@,
        carries_token(request, token@),
        request.body matches Some(body) && body@ == "{\"query\":"@ + crate::json::quoted(
            query@.query,
        ) + ",\"variables\":{"@ + crate::request::variable_fields(query@.variables) + "}}"@,
{
    headers_carry_the_token(request, token@);
    assert(request@.body is Some);
}

/// Whoever asks for the email address of a user posts the query with two variables: the
/// organization and the user.
pub proof fn an_email_address_is_asked_for_by_organization_and_user(
    bootstrap: &crate::organization::Bootstrap,
    query: &str,
    user: &str,
    request: HttpRequest,
)
    requires
        call_ensures(crate::organization::email_request, (bootstrap, query, user), request),
    ensures
        request.method == Method::Post,
        request.url@ == "https://api.github.com/graphql"@,
        carries_token(request, bootstrap.token@),
        request.body matches Some(body) && body@ == "{\"query\":"@ + crate::json::quoted(query@)
            + ",\"variables\":{"@ + crate::json::quoted("org"@) + ":"@ + crate::json::quoted(
            bootstrap.org@,
        ) + ","@ + crate::json::quoted("user"@) + ":"@ + crate::json::quoted(user@) + "}}"@,
{
    headers_carry_the_token(request, bootstrap.token@);
    let org = seq![("org"@, bootstrap.org@)];
    let both = seq![("org"@, bootstrap.org@), ("user"@, user@)];
    variables_are_written_one_by_one(org, seq![("user"@, user@)]);
    variables_are_written_one_by_one(seq![("user"@, user@)], org);
    assert(org + seq![("user"@, user@)] =~= both);
    assert(request@.body is Some);
    assert(request.body->0@ =~= "{\"query\":"@ + crate::json::quoted(query@) + ",\"variables\":{"@
        + crate::json::quoted("org"@) + ":"@ + crate::json::quoted(bootstrap.org@) + ","@
        + crate::json::quoted("user"@) + ":"@ + crate::json::quoted(user@) + "}}"@);
}

} // verus!
