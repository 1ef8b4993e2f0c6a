//! What is asked of an organization, and what the answers say.

use vstd::hash_map::StringHashMap;
use vstd::prelude::*;

use crate::json::{Json, JsonModel};
use crate::organization::{Bootstrap, ResolvedRepos};
use crate::paging::PageQuery;
use crate::paint::{Line, Style};
use crate::records::{Member, Repository, Team};
use crate::request::{HttpRequest, Method};

verus! {

/// Whether a listing is at this path, with pages of this size, three attempts and no
/// parameters.
pub open spec fn lists(query: PageQuery, path: Seq<char>, page_size: int) -> bool {
    &&& query.path@ == path
    &&& query.page_size == page_size
    &&& query.retries == 3
    &&& query.params is None
}

/// Whether a request gets what is at this path, with this token.
pub open spec fn gets(request: HttpRequest, token: Seq<char>, path: Seq<char>) -> bool {
    &&& request.method == Method::Get
    &&& request.url@ == "https://api.github.com"@ + path
    &&& crate::laws::request::carries_token(request, token)
    &&& request.body is None
}

/// A listing that looks like this one in its view is at its path.
proof fn lists_by_view(query: PageQuery, path: Seq<char>, page_size: int)
    requires
        query@ == crate::organization::listing(path, page_size),
    ensures
        lists(query, path, page_size),
{
    assert(query@.retries == 3);
    assert(query@.params is None);
}

/// Whoever sets up says what is looked for, shows the first 20 bytes of the token and then
/// the organization, and has both. What is missing first is the error.
pub proof fn setting_up_needs_a_token_and_an_organization(
    token: Option<String>,
    org: Option<String>,
    r: (Vec<Line>, Result<Bootstrap, String>),
)
    requires
        call_ensures(Bootstrap::new, (token, org), r),
    ensures
        r.0@.len() >= 1,
        crate::laws::paint::reads(
            r.0@[0],
            seq![
                (
                    Style::Yellow,
                    "I'm checking there is a GitHub FPAT in the GH_TOKEN environment variable..."@,
                ),
            ],
        ),
        match token {
            None => {
                &&& r.0@.len() == 1
                &&& r.1 matches Err(error) && error@ == "GH_TOKEN not found"@
            },
            Some(token) => {
                let preview = r.0@[1].segments@[2].text@;
                &&& r.0@.len() >= 2
                &&& vstd::utf8::encode_utf8(preview) == vstd::utf8::encode_utf8(
                    token@,
                ).subrange(0, 20)
                &&& crate::laws::paint::reads(
                    r.0@[1],
                    seq![
                        (Style::Green, "I have token:"@),
                        (Style::Plain, " "@),
                        (Style::Plain, preview),
                        (Style::Plain, "..."@),
                    ],
                )
                &&& match org {
                    None => {
                        &&& r.0@.len() == 2
                        &&& r.1 matches Err(error) && error@ == "GH_ORG not found"@
                    },
                    Some(org) => {
                        &&& r.0@.len() == 3
                        &&& crate::laws::paint::reads(
                            r.0@[2],
                            seq![
                                (Style::Green, "I have organization:"@),
                                (Style::Plain, " "@),
                                (Style::White, org@),
                            ],
                        )
                        &&& r.1 matches Ok(bootstrap) && bootstrap.token@ == token@
                            && bootstrap.org@ == org@
                    },
                }
            },
        },
{
    let lines = crate::paint::lines_view(r.0@);
    crate::laws::paint::lines_are_viewed_one_by_one(r.0@);
    assert(lines.len() == r.0@.len());
    assert(lines.len() >= 1);
    assert(crate::laws::paint::reads(r.0@[0], lines[0]));
    if let Some(token) = token {
        let preview = choose|preview: Seq<char>|
            {
                &&& #[trigger] crate::organization::is_preview(token@, preview)
                &&& lines.len() >= 2
                &&& lines[1] == crate::organization::token_line(preview)
            };
        assert(lines[1] == crate::organization::token_line(preview));
        assert(crate::laws::paint::reads(r.0@[1], lines[1]));
        assert(r.0@[1].segments@[2].text@ == preview);
        if org is Some {
            assert(crate::laws::paint::reads(r.0@[2], lines[2]));
        }
    }
}

/// The repositories are listed below the organization, with pages of the size asked for.
pub proof fn repositories_are_listed_below_the_organization(
    bootstrap: &Bootstrap,
    page_size: u8,
    query: PageQuery,
)
    requires
        call_ensures(Bootstrap::repositories_query, (bootstrap, page_size), query),
    ensures
        lists(query, "/orgs/"@ + bootstrap.org@ + "/repos"@, page_size as int),
{
    lists_by_view(query, "/orgs/"@ + bootstrap.org@ + "/repos"@, page_size as int);
}

/// The collaborators of a repository are listed below it.
pub proof fn collaborators_are_listed_below_the_repository(
    bootstrap: &Bootstrap,
    repo: &str,
    query: PageQuery,
)
    requires
        call_ensures(crate::organization::get_repo_collaborators, (bootstrap, repo), query),
    ensures
        lists(query, "/repos/"@ + bootstrap.org@ + "/"@ + repo@ + "/collaborators"@, 25),
{
    lists_by_view(query, "/repos/"@ + bootstrap.org@ + "/"@ + repo@ + "/collaborators"@, 25);
}

/// The teams of a repository are listed below it.
pub proof fn teams_are_listed_below_the_repository(
    bootstrap: &Bootstrap,
    repo: &str,
    query: PageQuery,
)
    requires
        call_ensures(crate::organization::get_repo_teams, (bootstrap, repo), query),
    ensures
        lists(query, "/repos/"@ + bootstrap.org@ + "/"@ + repo@ + "/teams"@, 25),
{
    lists_by_view(query, "/repos/"@ + bootstrap.org@ + "/"@ + repo@ + "/teams"@, 25);
}

/// The members of a team are listed below it, by its slug.
pub proof fn members_are_listed_below_the_team(
    team: &Team,
    bootstrap: &Bootstrap,
    query: PageQuery,
)
    requires
        call_ensures(Team::members_query, (team, bootstrap), query),
    ensures
        lists(
            query,
            "/orgs/"@ + bootstrap.org@ + "/teams/"@ + team.slug@ + "/members"@,
            25,
        ),
{
    lists_by_view(
        query,
        "/orgs/"@ + bootstrap.org@ + "/teams/"@ + team.slug@ + "/members"@,
        25,
    );
}

/// The members of the organization are listed below it.
pub proof fn members_are_listed_below_the_organization(bootstrap: &Bootstrap, query: PageQuery)
    requires
        call_ensures(crate::deploy_key::members_query, (bootstrap,), query),
    ensures
        lists(query, "/orgs/"@ + bootstrap.org@ + "/members"@, 75),
{
    lists_by_view(query, "/orgs/"@ + bootstrap.org@ + "/members"@, 75);
}

/// Repositories that are named are those named; where none are, all of the organization are
/// listed.
pub proof fn named_repositories_are_taken_and_else_all(
    bootstrap: &Bootstrap,
    repos: Option<Vec<String>>,
    r: ResolvedRepos,
)
    requires
        call_ensures(Bootstrap::resolve_repos, (bootstrap, repos), r),
    ensures
        match repos {
            Some(names) => r matches ResolvedRepos::Names(resolved) && resolved@ == names@,
            None => r matches ResolvedRepos::Listing(query) && lists(
                query,
                "/orgs/"@ + bootstrap.org@ + "/repos"@,
                75,
            ),
        },
{
    if let ResolvedRepos::Listing(query) = r {
        lists_by_view(query, "/orgs/"@ + bootstrap.org@ + "/repos"@, 75);
    }
}

/// The names of repositories are theirs, one each, in order.
pub proof fn names_are_those_of_the_repositories(repositories: Vec<Repository>, r: Vec<String>)
    requires
        call_ensures(crate::organization::repository_names, (repositories,), r),
    ensures
        r@.len() == repositories@.len(),
        forall|i: int| 0 <= i < r@.len() ==> (#[trigger] r@[i])@ == repositories@[i].name@,
{
    let given = r@.map_values(|name: String| name@);
    let names = crate::organization::names(repositories@);
    assert(given.len() == names.len());
    assert forall|i: int| 0 <= i < r@.len() implies (#[trigger] r@[i])@
        == repositories@[i].name@ by {
        assert(given[i] == r@[i]@);
        assert(names[i] == repositories@[i].name@);
    }
}

/// The model of names is one name for each repository, its own.
pub proof fn names_are_in_order(repositories: Seq<Repository>)
    ensures
        crate::organization::names(repositories).len() == repositories.len(),
        forall|i: int|
            0 <= i < repositories.len() ==> #[trigger] crate::organization::names(repositories)[i]
                == repositories[i].name@,
{
}

/// There are private repositories exactly where one of them is private.
pub proof fn one_private_repository_is_enough(repositories: &Vec<Repository>, found: bool)
    requires
        call_ensures(crate::organization::has_private, (repositories,), found),
    ensures
        found <==> exists|i: int| 0 <= i < repositories@.len() && (
        #[trigger] repositories@[i]).private,
{
}

/// Whether these lines say how many repositories were found, and that none is private where
/// none is.
pub open spec fn says_found(lines: Seq<Line>, repositories: Seq<Repository>) -> bool {
    &&& lines.len() >= 1
    &&& crate::laws::paint::reads(
        lines[0],
        seq![
            (Style::Green, "Success! I found: "@),
            (Style::Plain, " "@),
            (Style::Plain, crate::text::decimal(repositories.len())),
        ],
    )
    &&& if exists|i: int| 0 <= i < repositories.len() && (#[trigger] repositories[i]).private {
        lines.len() == 1
    } else {
        &&& lines.len() == 2
        &&& crate::laws::paint::reads(
            lines[1],
            seq![
                (
                    Style::Red,
                    "I didn't find any private repositories. Make sure you have permission to read private repositories."@,
                ),
            ],
        )
    }
}

/// Lines that view as those of what was found say it.
pub proof fn found_lines_say_it(lines: Seq<Line>, repositories: Seq<Repository>)
    requires
        crate::paint::lines_view(lines) == crate::organization::found_lines(repositories),
    ensures
        says_found(lines, repositories),
{
    let views = crate::paint::lines_view(lines);
    crate::laws::paint::lines_are_viewed_one_by_one(lines);
    assert(views.len() == lines.len());
    assert(crate::laws::paint::reads(lines[0], views[0]));
    if lines.len() > 1 {
        assert(crate::laws::paint::reads(lines[1], views[1]));
    }
}

/// Repositories that were fetched are handed on, and it is said how many they are. Where
/// they could not be fetched nothing is said, and the error says so and why.
pub proof fn fetched_repositories_are_handed_on(
    bootstrap: &Bootstrap,
    fetched: Result<Vec<Repository>, String>,
    r: (Vec<Line>, Result<Vec<Repository>, String>),
)
    requires
        call_ensures(Bootstrap::fetch_all_repositories, (bootstrap, fetched), r),
    ensures
        match fetched {
            Ok(repositories) => {
                &&& r.1 matches Ok(handed_on) && handed_on@ == repositories@
                &&& says_found(r.0@, repositories@)
            },
            Err(error) => {
                &&& r.0@.len() == 0
                &&& r.1 matches Err(message) && says_not_fetched(message@, error@)
            },
        },
{
    match fetched {
        Ok(repositories) => found_lines_say_it(r.0@, repositories@),
        Err(error) => not_fetched_is_said(r.1->Err_0@, error@),
    }
}

/// Whether a message says that the repositories could not be fetched, and why.
pub open spec fn says_not_fetched(message: Seq<char>, error: Seq<char>) -> bool {
    exists|head: Seq<char>|
        {
            &&& #[trigger] crate::paint::painted(
                Style::Red,
                "I couldn't fetch the repositories"@,
                head,
            )
            &&& message == head + ": "@ + error
        }
}

/// What the line of repositories that could not be fetched is shown as says so.
pub proof fn not_fetched_is_said(message: Seq<char>, error: Seq<char>)
    requires
        crate::paint::shown(crate::organization::repositories_error_line(error), message),
    ensures
        says_not_fetched(message, error),
{
    let first = (Style::Red, "I couldn't fetch the repositories"@);
    let second = (Style::Plain, ": "@);
    let third = (Style::Plain, error);
    let none: Seq<(Style, Seq<char>)> = Seq::empty();
    let one = none.push(first);
    let two = one.push(second);
    assert(two.push(third) =~= crate::organization::repositories_error_line(error));
    crate::laws::paint::a_line_is_shown_piece_by_piece(two, third, message);
    let (before, behind) = choose|before: Seq<char>, behind: Seq<char>|
        {
            &&& #[trigger] crate::paint::shown(two, before)
            &&& #[trigger] crate::paint::painted(third.0, third.1, behind)
            &&& third.0 == Style::Plain ==> behind == third.1
            &&& message == before + behind
        };
    crate::laws::paint::a_line_is_shown_piece_by_piece(one, second, before);
    let (start, colon) = choose|start: Seq<char>, colon: Seq<char>|
        {
            &&& #[trigger] crate::paint::shown(one, start)
            &&& #[trigger] crate::paint::painted(second.0, second.1, colon)
            &&& second.0 == Style::Plain ==> colon == second.1
            &&& before == start + colon
        };
    crate::laws::paint::a_line_is_shown_piece_by_piece(none, first, start);
    let (nothing, head) = choose|nothing: Seq<char>, head: Seq<char>|
        {
            &&& #[trigger] crate::paint::shown(none, nothing)
            &&& #[trigger] crate::paint::painted(first.0, first.1, head)
            &&& first.0 == Style::Plain ==> head == first.1
            &&& start == nothing + head
        };
    crate::laws::paint::an_empty_line_is_shown_as_nothing(nothing);
    assert(start =~= head);
    assert(message =~= head + ": "@ + error);
}

/// A repository is asked for at its own path.
pub proof fn a_repository_is_asked_for_at_its_path(
    bootstrap: &Bootstrap,
    repo: &str,
    request: HttpRequest,
)
    requires
        call_ensures(crate::organization::repo_request, (bootstrap, repo), request),
    ensures
        gets(request, bootstrap.token@, "/repos/"@ + bootstrap.org@ + "/"@ + repo@),
{
    reveal_strlit("");
    crate::laws::request::headers_carry_the_token(request, bootstrap.token@);
    assert(request@.body is None);
    assert("/repos/"@ + bootstrap.org@ + "/"@ + repo@ + ""@ =~= "/repos/"@ + bootstrap.org@ + "/"@
        + repo@);
}

/// The members of a team are asked for below it.
pub proof fn members_of_a_team_are_asked_for_below_it(
    team: &Team,
    bootstrap: &Bootstrap,
    request: HttpRequest,
)
    requires
        call_ensures(Team::members_request, (team, bootstrap), request),
    ensures
        gets(
            request,
            bootstrap.token@,
            "/orgs/"@ + bootstrap.org@ + "/teams/"@ + team.slug@ + "/members"@,
        ),
{
    crate::laws::request::headers_carry_the_token(request, bootstrap.token@);
    assert(request@.body is None);
}

/// The visibility of a repository is the text of its field of that name, whatever that is;
/// where there is no such field, or it is no text, that is the error.
pub proof fn the_visibility_is_the_text_of_its_field(
    repository: &Json,
    r: Result<String, String>,
)
    requires
        call_ensures(crate::organization::visibility_of, (repository,), r),
    ensures
        forall|text: Seq<char>| #[trigger]
            repository@.get("visibility"@) == Some(JsonModel::Text(text)) <==> (
            r matches Ok(given) && given@ == text),
        r matches Err(error) ==> error@ == "Missing visibility in the response from GitHub"@,
{
    assert forall|text: Seq<char>| #[trigger]
        repository@.get("visibility"@) == Some(JsonModel::Text(text)) <==> (r matches Ok(given)
            && given@ == text) by {
        if let Some(value) = repository@.get("visibility"@) {
            crate::laws::json::texts_have_characters_and_arrays_have_items(value);
        }
    }
}

/// The visibility of a repository is read from the answer; an answer that cannot be read is
/// an error that says why.
pub proof fn the_visibility_is_read_from_the_answer(
    answer: Result<String, String>,
    r: Result<String, String>,
)
    requires
        call_ensures(crate::organization::get_repo_visibility, (answer,), r),
    ensures
        match answer {
            Ok(content) => match crate::json::parsed(content@) {
                Ok(repository) => {
                    &&& forall|text: Seq<char>| #[trigger]
                        repository.get("visibility"@) == Some(JsonModel::Text(text)) <==> (
                        r matches Ok(given) && given@ == text)
                    &&& r matches Err(error) ==> error@
                        == "Missing visibility in the response from GitHub"@
                },
                Err(message) => r matches Err(error) && error@
                    == "Could not deserialize GitHub's response. Error: "@ + message,
            },
            Err(error) => r matches Err(handed_on) && handed_on@ == error@,
        },
{
    if let Ok(content) = answer {
        if let Ok(repository) = crate::json::parsed(content@) {
            if let Some(value) = repository.get("visibility"@) {
                crate::laws::json::texts_have_characters_and_arrays_have_items(value);
            }
        }
    }
}

/// A list of members is empty exactly where it is an array without items. What is no array
/// is an error.
pub proof fn a_list_is_empty_without_items(members: &Json, r: Result<bool, String>)
    requires
        call_ensures(crate::organization::is_empty_list, (members,), r),
    ensures
        match members@ {
            JsonModel::Array(items) => r == Ok::<bool, String>(items.len() == 0),
            _ => r matches Err(error) && error@ == "The value returned by GitHub is not an array"@,
        },
{
}

/// Whether a team is empty is read from the answer; an answer that cannot be read is an
/// error that says why.
pub proof fn an_empty_team_is_read_from_the_answer(
    answer: Result<String, String>,
    r: Result<bool, String>,
)
    requires
        call_ensures(Team::is_empty, (answer,), r),
    ensures
        match answer {
            Ok(content) => match crate::json::parsed(content@) {
                Ok(JsonModel::Array(items)) => r == Ok::<bool, String>(items.len() == 0),
                Ok(_) => r matches Err(error) && error@
                    == "The value returned by GitHub is not an array"@,
                Err(message) => r matches Err(error) && error@
                    == "Could not deserialize GitHub's response. Error: "@ + message,
            },
            Err(error) => r matches Err(handed_on) && handed_on@ == error@,
        },
{
}

/// The members of a team are filed by login; the error of a listing that failed is handed
/// on.
pub proof fn members_of_a_team_are_filed_by_login(
    fetched: Result<Vec<Member>, String>,
    r: Result<StringHashMap<Member>, String>,
)
    requires
        call_ensures(Team::fetch_team_members, (fetched,), r),
    ensures
        match (fetched, r) {
            (Ok(members), Ok(map)) => {
                &&& forall|i: int|
                    0 <= i < members@.len() ==> map@.contains_key((#[trigger] members@[i]).login@)
                &&& forall|login: Seq<char>| #[trigger]
                    map@.contains_key(login) ==> exists|i: int|
                        {
                            &&& 0 <= i < members@.len()
                            &&& (#[trigger] members@[i]).login@ == login
                            &&& map@[login] == members@[i]
                            &&& forall|j: int|
                                i < j < members@.len() ==> (#[trigger] members@[j]).login@ != login
                        }
            },
            (Err(error), Err(handed_on)) => handed_on@ == error@,
            _ => false,
        },
{
    if let (Ok(members), Ok(map)) = (fetched, r) {
        members_by_login(members@);
    }
}

/// Members that are filed are under their logins, the last where several have one.
pub proof fn members_by_login(members: Seq<Member>)
    ensures
        forall|i: int|
            0 <= i < members.len() ==> crate::listing::indexed(members).contains_key(
                (#[trigger] members[i]).login@,
            ),
        forall|login: Seq<char>| #[trigger]
            crate::listing::indexed(members).contains_key(login) ==> exists|i: int|
                {
                    &&& 0 <= i < members.len()
                    &&& (#[trigger] members[i]).login@ == login
                    &&& crate::listing::indexed(members)[login] == members[i]
                    &&& forall|j: int|
                        i < j < members.len() ==> (#[trigger] members[j]).login@ != login
                },
{
    let map = crate::listing::indexed(members);
    assert forall|i: int| 0 <= i < members.len() implies (#[trigger] members[i]).login@
        == crate::records::GitHubIndex::index_spec(&members[i]) by {}
    assert forall|i: int| 0 <= i < members.len() implies map.contains_key(
        (#[trigger] members[i]).login@,
    ) by {
        crate::listing::an_index_finds_its_last_item(members, members[i].login@);
    }
    assert forall|login: Seq<char>| #[trigger] map.contains_key(login) implies exists|i: int|
        {
            &&& 0 <= i < members.len()
            &&& (#[trigger] members[i]).login@ == login
            &&& map[login] == members[i]
            &&& forall|j: int| i < j < members.len() ==> (#[trigger] members[j]).login@ != login
        } by {
        crate::listing::an_index_finds_its_last_item(members, login);
        let i = choose|i: int|
            {
                &&& 0 <= i < members.len()
                &&& crate::records::GitHubIndex::index_spec(&#[trigger] members[i]) == login
                &&& map[login] == members[i]
                &&& forall|j: int|
                    i < j < members.len() ==> crate::records::GitHubIndex::index_spec(
                        &#[trigger] members[j],
                    ) != login
            };
        assert(members[i].login@ == login);
    }
}

/// Whether an answer tells of a first identity with this name: it stands in the first item
/// of the array below data, organization, samlIdentityProvider, externalIdentities and
/// edges, and there below node, samlIdentity and nameId.
pub open spec fn tells_of(answer: JsonModel, name: Seq<char>) -> bool {
    exists|
        data: JsonModel,
        organization: JsonModel,
        provider: JsonModel,
        identities: JsonModel,
        edges: Seq<JsonModel>,
        node: JsonModel,
        identity: JsonModel,
    |
        {
            &&& answer.get("data"@) == Some(data)
            &&& #[trigger] data.get("organization"@) == Some(organization)
            &&& #[trigger] organization.get("samlIdentityProvider"@) == Some(provider)
            &&& #[trigger] provider.get("externalIdentities"@) == Some(identities)
            &&& #[trigger] identities.get("edges"@) == Some(JsonModel::Array(edges))
            &&& edges.len() >= 1
            &&& #[trigger] edges[0].get("node"@) == Some(node)
            &&& #[trigger] node.get("samlIdentity"@) == Some(identity)
            &&& #[trigger] identity.get("nameId"@) == Some(JsonModel::Text(name))
        }
}

/// The email address is the name of the first identity, however many there are, and there
/// is none only where there is no such name.
pub proof fn the_email_address_is_the_first_name(answer: JsonModel, name: Seq<char>)
    ensures
        tells_of(answer, name) <==> crate::organization::email(answer) == Some(name),
{
    if crate::organization::email(answer) == Some(name) {
        let data = answer.get("data"@)->0;
        let organization = data.get("organization"@)->0;
        let provider = organization.get("samlIdentityProvider"@)->0;
        let identities = provider.get("externalIdentities"@)->0;
        let edges = identities.get("edges"@)->0->Array_0;
        let node = edges[0].get("node"@)->0;
        let identity = node.get("samlIdentity"@)->0;
        assert(answer.get("data"@) == Some(data));
        assert(data.get("organization"@) == Some(organization));
        assert(organization.get("samlIdentityProvider"@) == Some(provider));
        assert(provider.get("externalIdentities"@) == Some(identities));
        assert(identities.get("edges"@) == Some(JsonModel::Array(edges)));
        assert(edges[0].get("node"@) == Some(node));
        assert(node.get("samlIdentity"@) == Some(identity));
        assert(identity.get("nameId"@) == Some(JsonModel::Text(name)));
    }
    if tells_of(answer, name) {
        let organization = crate::organization::below(
            crate::organization::below(Some(answer), "data"@),
            "organization"@,
        );
        let provider = crate::organization::below(organization, "samlIdentityProvider"@);
        let edges = crate::organization::below(
            crate::organization::below(provider, "externalIdentities"@),
            "edges"@,
        );
        assert(edges is Some);
        assert(edges->0.items() is Some);
    }
}

/// The email address that is read from an answer is the name of the first identity.
pub proof fn an_email_address_is_the_name_of_the_first_identity(
    answer: &Json,
    r: Option<String>,
    name: Seq<char>,
)
    requires
        call_ensures(crate::organization::email_of, (answer,), r),
    ensures
        tells_of(answer@, name) <==> (r matches Some(given) && given@ == name),
{
    the_email_address_is_the_first_name(answer@, name);
}

/// The email address of a user is read from the answer; there is none where the answer
/// never came or cannot be read.
pub proof fn an_email_address_is_read_from_the_answer(
    answer: Result<String, String>,
    r: Option<String>,
    name: Seq<char>,
)
    requires
        call_ensures(crate::organization::email_from_gh_username, (answer,), r),
    ensures
        (r matches Some(given) && given@ == name) <==> {
            &&& answer matches Ok(content)
            &&& crate::json::parsed(content@) matches Ok(json)
            &&& tells_of(json, name)
        },
{
    if let Ok(content) = answer {
        if let Ok(json) = crate::json::parsed(content@) {
            the_email_address_is_the_first_name(json, name);
        }
    }
}

/// What is said before the repositories are fetched.
pub proof fn fetching_repositories_is_said(line: Line)
    requires
        call_ensures(crate::organization::say_fetching_repositories, (), line),
    ensures
        crate::laws::paint::reads(
            line,
            seq![(Style::Yellow, "I'm going to fetch all repositories from the org"@)],
        ),
{
    crate::laws::paint::a_line_is_its_pieces(line, line@);
}

} // verus!
