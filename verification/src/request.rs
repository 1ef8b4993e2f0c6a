//! Requests to GitHub, and what their answers are read as.

use vstd::prelude::*;
use vstd::string::*;

use crate::json::{Json, JsonModel};

verus! {

/// Where GraphQL queries are sent.
pub const GRAPHQL_URL: &'static str = "https://api.github.com/graphql";

/// What the paths of the REST interface are put behind.
pub const API_BASE: &'static str = "https://api.github.com";

/// The methods that requests are made with.
#[derive(Debug, Clone, Copy, PartialEq, Eq, Structural)]
pub enum Method {
    Get,
    Post,
}

/// A request, ready to be sent.
#[derive(Debug)]
pub struct HttpRequest {
    pub method: Method,
    pub url: String,
    pub headers: Vec<(String, String)>,
    pub body: Option<String>,
}

/// A request as mathematics.
#[verifier::ext_equal]
pub struct HttpRequestModel {
    pub method: Method,
    pub url: Seq<char>,
    pub headers: Seq<(Seq<char>, Seq<char>)>,
    pub body: Option<Seq<char>>,
}

/// The pairs, each by the texts it holds.
pub open spec fn pairs_view(pairs: Seq<(String, String)>) -> Seq<(Seq<char>, Seq<char>)> {
    pairs.map_values(|pair: (String, String)| (pair.0@, pair.1@))
}

/// The text, if there is one.
pub open spec fn option_view(text: Option<String>) -> Option<Seq<char>> {
    match text {
        Some(text) => Some(text@),
        None => None,
    }
}

/// A text or an error text.
pub open spec fn text_result(r: Result<String, String>) -> Result<Seq<char>, Seq<char>> {
    match r {
        Ok(text) => Ok(text@),
        Err(error) => Err(error@),
    }
}

/// A value or an error text.
pub open spec fn json_result(r: Result<Json, String>) -> Result<JsonModel, Seq<char>> {
    match r {
        Ok(json) => Ok(json@),
        Err(error) => Err(error@),
    }
}

impl View for HttpRequest {
    type V = HttpRequestModel;

    open spec fn view(&self) -> HttpRequestModel {
        HttpRequestModel {
            method: self.method,
            url: self.url@,
            headers: pairs_view(self.headers@),
            body: option_view(self.body),
        }
    }
}

/// The headers of every request.
pub open spec fn github_headers(token: Seq<char>) -> Seq<(Seq<char>, Seq<char>)> {
    seq![
        ("User-Agent"@, "GitHub EC Audit"@),
        ("Accept"@, "application/vnd.github+json"@),
        ("X-GitHub-Api-Version"@, "2022-11-28"@),
        ("Authorization"@, "Bearer "@ + token),
    ]
}

/// The headers of every request.
pub(crate) fn make_headers(token: &str) -> (headers: Vec<(String, String)>)
    ensures
        pairs_view(headers@) == github_headers(token@),
{
    let mut bearer = "Bearer ".to_owned();
    bearer.append(token);
    let headers = vec![
        ("User-Agent".to_owned(), "GitHub EC Audit".to_owned()),
        ("Accept".to_owned(), "application/vnd.github+json".to_owned()),
        ("X-GitHub-Api-Version".to_owned(), "2022-11-28".to_owned()),
        ("Authorization".to_owned(), bearer),
    ];
    assert(pairs_view(headers@) =~= github_headers(token@));
    headers
}

/// The address of a path, with the parameters behind a question mark.
pub open spec fn get_url(path: Seq<char>, params: Option<Seq<char>>) -> Seq<char> {
    match params {
        Some(params) => API_BASE@ + path + "?"@ + params,
        None => API_BASE@ + path,
    }
}

/// A request for what is at a path.
pub fn github_request(token: &str, path: &str, params: Option<&str>) -> (r: HttpRequest)
    ensures
        r@ == (HttpRequestModel {
            method: Method::Get,
            url: get_url(
                path@,
                match params {
                    Some(params) => Some(params@),
                    None => None,
                },
            ),
            headers: github_headers(token@),
            body: None,
        }),
{
    let mut url = API_BASE.to_owned();
    url.append(path);
    if let Some(params) = params {
        url.append("?");
        url.append(params);
    }
    HttpRequest { method: Method::Get, url, headers: make_headers(token), body: None }
}

/// What an answer is read as: the value that its content holds. An answer that never
/// came, or that is not JSON, is an error.
pub open spec fn read(answer: Result<Seq<char>, Seq<char>>) -> Result<JsonModel, Seq<char>> {
    match answer {
        Ok(content) => match crate::json::parsed(content) {
            Ok(json) => Ok(json),
            Err(message) => Err(
                "Could not deserialize GitHub's response. Error: "@ + message,
            ),
        },
        Err(error) => Err(error),
    }
}

/// Reads an answer as JSON.
pub fn read_answer(answer: Result<String, String>) -> (r: Result<Json, String>)
    ensures
        json_result(r) == read(text_result(answer)),
{
    match answer {
        Ok(content) => match Json::parse(content.as_str()) {
            Ok(json) => Ok(json),
            Err(message) => {
                let mut error = "Could not deserialize GitHub's response. Error: ".to_owned();
                error.append(message.as_str());
                Err(error)
            },
        },
        Err(error) => Err(error),
    }
}

/// A GraphQL query and its variables.
#[derive(Debug)]
pub struct GraphQLQuery {
    query: String,
    variables: Vec<(String, String)>,
}

/// A GraphQL query and its variables, as mathematics.
#[verifier::ext_equal]
pub struct GraphQLQueryModel {
    pub query: Seq<char>,
    pub variables: Seq<(Seq<char>, Seq<char>)>,
}

impl View for GraphQLQuery {
    type V = GraphQLQueryModel;

    closed spec fn view(&self) -> GraphQLQueryModel {
        GraphQLQueryModel { query: self.query@, variables: pairs_view(self.variables@) }
    }
}

/// The variables as the fields of a JSON object, without its braces.
pub open spec fn variable_fields(variables: Seq<(Seq<char>, Seq<char>)>) -> Seq<char>
    decreases variables.len(),
{
    if variables.len() == 0 {
        Seq::empty()
    } else {
        let before = variable_fields(variables.drop_last());
        let separated = if variables.len() == 1 {
            before
        } else {
            before + ","@
        };
        separated + crate::json::quoted(variables.last().0) + ":"@ + crate::json::quoted(
            variables.last().1,
        )
    }
}

/// A query and its variables as a JSON object.
pub open spec fn query_body(query: Seq<char>, variables: Seq<(Seq<char>, Seq<char>)>) -> Seq<char> {
    "{\"query\":"@ + crate::json::quoted(query) + ",\"variables\":{"@ + variable_fields(variables)
        + "}}"@
}

/// The variables with `name` set to `value`: in the place of an earlier value, or at
/// the end.
pub open spec fn with_variable(
    variables: Seq<(Seq<char>, Seq<char>)>,
    name: Seq<char>,
    value: Seq<char>,
) -> Seq<(Seq<char>, Seq<char>)> {
    if exists|i: int| 0 <= i < variables.len() && (#[trigger] variables[i]).0 == name {
        variables.map_values(
            |variable: (Seq<char>, Seq<char>)|
                if variable.0 == name {
                    (name, value)
                } else {
                    variable
                },
        )
    } else {
        variables.push((name, value))
    }
}

impl GraphQLQuery {
    /// Whether every variable has a name of its own.
    pub open spec fn well_formed(self) -> bool {
        forall|i: int, j: int|
            #![trigger self@.variables[i], self@.variables[j]]
            0 <= i < j < self@.variables.len() ==> self@.variables[i].0 != self@.variables[j].0
    }

    /// A query without variables.
    pub fn new(query: &str) -> (r: GraphQLQuery)
        ensures
            r.well_formed(),
            r@ == (GraphQLQueryModel { query: query@, variables: Seq::empty() }),
    {
        let r = GraphQLQuery { query: query.to_owned(), variables: Vec::new() };
        assert(r@.variables =~= Seq::empty());
        r
    }

    /// Sets a variable.
    pub fn set_variable(&mut self, name: &str, value: &str)
        requires
            old(self).well_formed(),
        ensures
            final(self).well_formed(),
            final(self)@ == (GraphQLQueryModel {
                variables: with_variable(old(self)@.variables, name@, value@),
                ..old(self)@
            }),
    {
        let ghost before = self@.variables;
        let wanted = name.to_owned();
        let mut i: usize = 0;
        while i < self.variables.len()
            invariant
                i <= self.variables.len(),
                wanted@ == name@,
                *self == *old(self),
                self.well_formed(),
                before == self@.variables,
                forall|j: int| 0 <= j < i ==> (#[trigger] before[j]).0 != name@,
            decreases self.variables.len() - i,
        {
            assert(before[i as int].0 == self.variables@[i as int].0@);
            if self.variables[i].0 == wanted {
                let entry = (name.to_owned(), value.to_owned());
                self.variables.set(i, entry);
                proof {
                    let after = self@.variables;
                    let expected = with_variable(before, name@, value@);
                    assert forall|j: int| 0 <= j < before.len() implies after[j] == expected[j] by {
                        if j > i {
                            assert(before[i as int].0 != before[j].0);
                        }
                    }
                    assert(after =~= expected);
                }
                return ;
            }
            i += 1;
        }
        self.variables.push((wanted, value.to_owned()));
        proof {
            let after = self@.variables;
            assert(after =~= before.push((name@, value@)));
            assert forall|j: int, k: int|
                #![trigger after[j], after[k]]
                0 <= j < k < after.len() implies after[j].0 != after[k].0 by {
                assert(before[j].0 == after[j].0);
            }
        }
    }

    /// The body of the request: the query and its variables as a JSON object.
    pub fn body(&self) -> (r: String)
        ensures
            r@ == query_body(self@.query, self@.variables),
    {
        let ghost all = self@.variables;
        let mut fields = String::new();
        let mut i: usize = 0;
        assert(all.take(0) =~= Seq::empty());
        while i < self.variables.len()
            invariant
                i <= self.variables.len(),
                all == self@.variables,
                fields@ == variable_fields(all.take(i as int)),
            decreases self.variables.len() - i,
        {
            proof {
                assert(all.take(i + 1).drop_last() =~= all.take(i as int));
                assert(all.take(i + 1).last() == all[i as int]);
            }
            if i > 0 {
                fields.append(",");
            }
            fields.append(crate::json::quote(self.variables[i].0.as_str()).as_str());
            fields.append(":");
            fields.append(crate::json::quote(self.variables[i].1.as_str()).as_str());
            i += 1;
        }
        assert(all.take(i as int) =~= all);
        let mut r = "{\"query\":".to_owned();
        r.append(crate::json::quote(self.query.as_str()).as_str());
        r.append(",\"variables\":{");
        r.append(fields.as_str());
        r.append("}}");
        r
    }
}

/// The value of the first variable that is named `name`.
pub open spec fn value_of(variables: Seq<(Seq<char>, Seq<char>)>, name: Seq<char>) -> Option<
    Seq<char>,
>
    decreases variables.len(),
{
    if variables.len() == 0 {
        None
    } else if variables[0].0 == name {
        Some(variables[0].1)
    } else {
        value_of(variables.drop_first(), name)
    }
}

/// A variable that is set has the value it was set to, and every other keeps its own.
pub proof fn a_set_variable_has_its_value(
    variables: Seq<(Seq<char>, Seq<char>)>,
    name: Seq<char>,
    value: Seq<char>,
    other: Seq<char>,
)
    ensures
        value_of(with_variable(variables, name, value), name) == Some(value),
        other != name ==> value_of(with_variable(variables, name, value), other) == value_of(
            variables,
            other,
        ),
    decreases variables.len(),
{
    let after = with_variable(variables, name, value);
    if variables.len() == 0 {
        assert(after.drop_first() =~= variables);
    } else {
        let rest = variables.drop_first();
        a_set_variable_has_its_value(rest, name, value, other);
        if exists|i: int| 0 <= i < variables.len() && (#[trigger] variables[i]).0 == name {
            if exists|i: int| 0 <= i < rest.len() && (#[trigger] rest[i]).0 == name {
                assert(after.drop_first() =~= with_variable(rest, name, value));
            } else {
                assert(variables[0].0 == name) by {
                    let i = choose|i: int|
                        0 <= i < variables.len() && (#[trigger] variables[i]).0 == name;
                    assert(i > 0 ==> rest[i - 1] == variables[i]);
                }
                assert(after.drop_first() =~= rest) by {
                    assert forall|j: int| 0 <= j < rest.len() implies after.drop_first()[j]
                        == rest[j] by {
                        assert(rest[j].0 != name);
                    }
                }
            }
        } else {
            assert(variables[0].0 != name);
            assert forall|i: int| 0 <= i < rest.len() implies (#[trigger] rest[i]).0 != name by {
                assert(rest[i] == variables[i + 1]);
            }
            assert(after.drop_first() =~= with_variable(rest, name, value));
        }
    }
}

/// A request that makes a GraphQL query.
pub fn graphql_request(token: &str, query: &GraphQLQuery) -> (r: HttpRequest)
    ensures
        r@ == (HttpRequestModel {
            method: Method::Post,
            url: GRAPHQL_URL@,
            headers: github_headers(token@),
            body: Some(query_body(query@.query, query@.variables)),
        }),
{
    HttpRequest {
        method: Method::Post,
        url: GRAPHQL_URL.to_owned(),
        headers: make_headers(token),
        body: Some(query.body()),
    }
}

} // verus!
