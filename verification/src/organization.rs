//! What is asked of an organization on GitHub, and what the answers say.

use vstd::hash_map::StringHashMap;
use vstd::prelude::*;
use vstd::string::*;

use crate::json::{Json, JsonModel};
use crate::paging::{PageQuery, PageQueryModel};
use crate::paint::{Line, Style};
use crate::records::{Member, Repository, Team};
use crate::request::{GraphQLQuery, HttpRequest, HttpRequestModel, Method};

verus! {

/// How many attempts every request gets.
pub const RETRIES: u8 = 3;

/// How many bytes of the token are shown.
pub const PREVIEW: usize = 20;

/// How many repositories a page has where all of them are resolved.
pub const REPOSITORIES_PER_PAGE: u8 = 75;

/// How many items a page has otherwise.
pub const ITEMS_PER_PAGE: u8 = 25;

/// Who asks, and about which organization.
#[derive(Debug)]
pub struct Bootstrap {
    pub token: String,
    pub org: String,
}

/// What is known of a list of repositories.
#[derive(Debug)]
pub enum ResolvedRepos {
    /// Their names.
    Names(Vec<String>),
    /// Nothing: they are all those of this listing.
    Listing(PageQuery),
}

/// Whether the first bytes of a token can be shown: whether there are enough, and a
/// character ends where they do.
pub open spec fn can_be_previewed(token: Seq<char>) -> bool {
    vstd::utf8::is_char_boundary(vstd::utf8::encode_utf8(token), PREVIEW as int)
}

/// Whether `preview` is what is shown of a token.
pub open spec fn is_preview(token: Seq<char>, preview: Seq<char>) -> bool {
    vstd::utf8::encode_utf8(preview) == vstd::utf8::encode_utf8(token).subrange(0, PREVIEW as int)
}

/// The line that says that the token is looked for.
pub open spec fn checking_line() -> Seq<(Style, Seq<char>)> {
    seq![
        (
            Style::Yellow,
            "I'm checking there is a GitHub FPAT in the GH_TOKEN environment variable..."@,
        ),
    ]
}

/// The line that shows the start of the token.
pub open spec fn token_line(preview: Seq<char>) -> Seq<(Style, Seq<char>)> {
    seq![
        (Style::Green, "I have token:"@),
        (Style::Plain, " "@),
        (Style::Plain, preview),
        (Style::Plain, "..."@),
    ]
}

/// The line that shows the organization.
pub open spec fn org_line(org: Seq<char>) -> Seq<(Style, Seq<char>)> {
    seq![(Style::Green, "I have organization:"@), (Style::Plain, " "@), (Style::White, org)]
}

/// The line that says how many items were found.
pub open spec fn found_line(count: nat) -> Seq<(Style, Seq<char>)> {
    seq![
        (Style::Green, "Success! I found: "@),
        (Style::Plain, " "@),
        (Style::Plain, crate::text::decimal(count)),
    ]
}

/// The line that says that the repositories are fetched.
pub open spec fn fetching_repositories_line() -> Seq<(Style, Seq<char>)> {
    seq![(Style::Yellow, "I'm going to fetch all repositories from the org"@)]
}

/// The line that says that no repository is private.
pub open spec fn no_private_line() -> Seq<(Style, Seq<char>)> {
    seq![
        (
            Style::Red,
            "I didn't find any private repositories. Make sure you have permission to read private repositories."@,
        ),
    ]
}

/// The line that says that the repositories could not be fetched.
pub open spec fn repositories_error_line(error: Seq<char>) -> Seq<(Style, Seq<char>)> {
    seq![
        (Style::Red, "I couldn't fetch the repositories"@),
        (Style::Plain, ": "@),
        (Style::Plain, error),
    ]
}

/// Whether any of the repositories is private.
pub open spec fn any_private(repositories: Seq<Repository>) -> bool {
    exists|i: int| 0 <= i < repositories.len() && (#[trigger] repositories[i]).private
}

/// The lines that say what was found.
pub open spec fn found_lines(repositories: Seq<Repository>) -> Seq<Seq<(Style, Seq<char>)>> {
    if any_private(repositories) {
        seq![found_line(repositories.len())]
    } else {
        seq![found_line(repositories.len()), no_private_line()]
    }
}

/// The line that says that the repositories are fetched.
pub fn say_fetching_repositories() -> (line: Line)
    ensures
        line@ == fetching_repositories_line(),
{
    let line = Line::of(Style::Yellow, "I'm going to fetch all repositories from the org");
    assert(line@ =~= fetching_repositories_line());
    line
}

/// The line that says how many items were found.
pub(crate) fn say_found(count: usize) -> (line: Line)
    ensures
        line@ == found_line(count as nat),
{
    let line = Line::of(Style::Green, "Success! I found: ").then_text(Style::Plain, " ").then_text(
        Style::Plain,
        crate::text::decimal_text(count as u64).as_str(),
    );
    assert(line@ =~= found_line(count as nat));
    line
}

/// Whether any of the repositories is private.
pub fn has_private(repositories: &Vec<Repository>) -> (r: bool)
    ensures
        r == any_private(repositories@),
{
    let mut i: usize = 0;
    while i < repositories.len()
        invariant
            i <= repositories.len(),
            forall|j: int| 0 <= j < i ==> !(#[trigger] repositories@[j]).private,
        decreases repositories.len() - i,
    {
        if repositories[i].private {
            assert(repositories@[i as int].private);
            return true;
        }
        i += 1;
    }
    false
}

/// The names of the repositories, in order.
pub open spec fn names(repositories: Seq<Repository>) -> Seq<Seq<char>> {
    repositories.map_values(|repository: Repository| repository.name@)
}

/// The names of the repositories, in order.
pub fn repository_names(repositories: Vec<Repository>) -> (r: Vec<String>)
    ensures
        r@.map_values(|name: String| name@) == names(repositories@),
{
    let ghost all = repositories@;
    let mut r: Vec<String> = Vec::new();
    for repository in it: repositories
        invariant
            it.seq() == all,
            r@.len() == it.index(),
            forall|i: int| 0 <= i < r@.len() ==> (#[trigger] r@[i])@ == all[i].name@,
    {
        r.push(repository.name);
    }
    assert(r@.map_values(|name: String| name@) =~= names(all));
    r
}

/// A path below an organization.
pub open spec fn org_path(org: Seq<char>, rest: Seq<char>) -> Seq<char> {
    "/orgs/"@ + org + rest
}

/// A path below a repository.
pub open spec fn repo_path(org: Seq<char>, repo: Seq<char>, rest: Seq<char>) -> Seq<char> {
    "/repos/"@ + org + "/"@ + repo + rest
}

/// The path of the members of a team.
pub open spec fn team_members_path(org: Seq<char>, slug: Seq<char>) -> Seq<char> {
    "/orgs/"@ + org + "/teams/"@ + slug + "/members"@
}

/// A listing without parameters of its own.
pub open spec fn listing(path: Seq<char>, page_size: int) -> PageQueryModel {
    PageQueryModel { path, page_size, retries: RETRIES as int, params: None }
}

impl Bootstrap {
    /// Sets up from the token and the organization that the environment holds: the lines
    /// to show, and whether both are there.
    pub fn new(token: Option<String>, org: Option<String>) -> (r: (
        Vec<Line>,
        Result<Bootstrap, String>,
    ))
        requires
            token matches Some(token) ==> can_be_previewed(token@),
        ensures
            match token {
                None => {
                    &&& crate::paint::lines_view(r.0@) == seq![checking_line()]
                    &&& r.1 matches Err(error) && error@ == "GH_TOKEN not found"@
                },
                Some(token) => exists|preview: Seq<char>|
                    {
                        &&& #[trigger] is_preview(token@, preview)
                        &&& match org {
                            None => {
                                &&& crate::paint::lines_view(r.0@) == seq![
                                    checking_line(),
                                    token_line(preview),
                                ]
                                &&& r.1 matches Err(error) && error@ == "GH_ORG not found"@
                            },
                            Some(org) => {
                                &&& crate::paint::lines_view(r.0@) == seq![
                                    checking_line(),
                                    token_line(preview),
                                    org_line(org@),
                                ]
                                &&& r.1 matches Ok(bootstrap) && bootstrap.token@ == token@
                                    && bootstrap.org@ == org@
                            },
                        }
                    },
            },
    {
        let checking = Line::of(
            Style::Yellow,
            "I'm checking there is a GitHub FPAT in the GH_TOKEN environment variable...",
        );
        assert(checking@ =~= checking_line());
        let token = match token {
            Some(token) => token,
            None => {
                let lines = vec![checking];
                assert(crate::paint::lines_view(lines@) =~= seq![checking_line()]);
                return (lines, Err("GH_TOKEN not found".to_owned()));
            },
        };
        let preview = token.as_str().split_at(PREVIEW).0;
        assert(is_preview(token@, preview@));
        let having = Line::of(Style::Green, "I have token:").then_text(
            Style::Plain,
            " ",
        ).then_text(Style::Plain, preview).then_text(Style::Plain, "...");
        assert(having@ =~= token_line(preview@));
        let org = match org {
            Some(org) => org,
            None => {
                let lines = vec![checking, having];
                assert(crate::paint::lines_view(lines@) =~= seq![
                    checking_line(),
                    token_line(preview@),
                ]);
                return (lines, Err("GH_ORG not found".to_owned()));
            },
        };
        let knowing = Line::of(Style::Green, "I have organization:").then_text(
            Style::Plain,
            " ",
        ).then_text(Style::White, org.as_str());
        assert(knowing@ =~= org_line(org@));
        let lines = vec![checking, having, knowing];
        assert(crate::paint::lines_view(lines@) =~= seq![
            checking_line(),
            token_line(preview@),
            org_line(org@),
        ]);
        (lines, Ok(Bootstrap { token, org }))
    }

    /// The repositories of the organization.
    pub fn repositories_query(&self, page_size: u8) -> (r: PageQuery)
        ensures
            r@ == listing(org_path(self.org@, "/repos"@), page_size as int),
    {
        let mut path = "/orgs/".to_owned();
        path.append(self.org.as_str());
        path.append("/repos");
        PageQuery { path, page_size, retries: RETRIES, params: None }
    }

    /// What comes of fetching the repositories: the lines to show, and the repositories,
    /// or the error as it is shown.
    pub fn fetch_all_repositories(&self, fetched: Result<Vec<Repository>, String>) -> (r: (
        Vec<Line>,
        Result<Vec<Repository>, String>,
    ))
        ensures
            match fetched {
                Ok(repositories) => {
                    &&& crate::paint::lines_view(r.0@) == found_lines(repositories@)
                    &&& r.1 == Ok::<Vec<Repository>, String>(repositories)
                },
                Err(error) => {
                    &&& r.0@.len() == 0
                    &&& r.1 matches Err(message) && crate::paint::shown(
                        repositories_error_line(error@),
                        message@,
                    )
                },
            },
    {
        match fetched {
            Ok(repositories) => {
                let mut lines = vec![say_found(repositories.len())];
                if !has_private(&repositories) {
                    let line = Line::of(
                        Style::Red,
                        "I didn't find any private repositories. Make sure you have permission to read private repositories.",
                    );
                    assert(line@ =~= no_private_line());
                    lines.push(line);
                }
                assert(crate::paint::lines_view(lines@) =~= found_lines(repositories@));
                (lines, Ok(repositories))
            },
            Err(error) => {
                let line = Line::of(Style::Red, "I couldn't fetch the repositories").then_text(
                    Style::Plain,
                    ": ",
                ).then_text(Style::Plain, error.as_str());
                assert(line@ =~= repositories_error_line(error@));
                (Vec::new(), Err(line.render()))
            },
        }
    }

    /// Resolve an optional list of repos: if None, all repos of the org are to be fetched.
    pub fn resolve_repos(&self, repos: Option<Vec<String>>) -> (r: ResolvedRepos)
        ensures
            match repos {
                Some(names) => r == ResolvedRepos::Names(names),
                None => r matches ResolvedRepos::Listing(query) && query@ == listing(
                    org_path(self.org@, "/repos"@),
                    REPOSITORIES_PER_PAGE as int,
                ),
            },
    {
        match repos {
            Some(names) => ResolvedRepos::Names(names),
            None => ResolvedRepos::Listing(self.repositories_query(REPOSITORIES_PER_PAGE)),
        }
    }

    /// A listing below a repository.
    pub(crate) fn repo_listing(&self, repo: &str, rest: &str) -> (r: PageQuery)
        ensures
            r@ == listing(repo_path(self.org@, repo@, rest@), ITEMS_PER_PAGE as int),
    {
        let mut path = "/repos/".to_owned();
        path.append(self.org.as_str());
        path.append("/");
        path.append(repo);
        path.append(rest);
        PageQuery { path, page_size: ITEMS_PER_PAGE, retries: RETRIES, params: None }
    }
}

/// Get collaborators for a given repository
pub fn get_repo_collaborators(bootstrap: &Bootstrap, repo: &str) -> (r: PageQuery)
    ensures
        r@ == listing(
            repo_path(bootstrap.org@, repo@, "/collaborators"@),
            ITEMS_PER_PAGE as int,
        ),
{
    bootstrap.repo_listing(repo, "/collaborators")
}

/// Get the teams that have access to the repo
pub fn get_repo_teams(bootstrap: &Bootstrap, repo: &str) -> (r: PageQuery)
    ensures
        r@ == listing(repo_path(bootstrap.org@, repo@, "/teams"@), ITEMS_PER_PAGE as int),
{
    bootstrap.repo_listing(repo, "/teams")
}

/// A request for what is at a path, without parameters.
pub open spec fn get_request(token: Seq<char>, path: Seq<char>) -> HttpRequestModel {
    HttpRequestModel {
        method: Method::Get,
        url: crate::request::get_url(path, None),
        headers: crate::request::github_headers(token),
        body: None,
    }
}

/// A request for a repository.
pub fn repo_request(bootstrap: &Bootstrap, repo: &str) -> (r: HttpRequest)
    ensures
        r@ == get_request(bootstrap.token@, repo_path(bootstrap.org@, repo@, ""@)),
{
    let path = bootstrap.repo_listing(repo, "").path;
    crate::request::github_request(bootstrap.token.as_str(), path.as_str(), None)
}

/// The visibility that a repository has.
pub open spec fn visibility(repository: JsonModel) -> Result<Seq<char>, Seq<char>> {
    match repository.get("visibility"@) {
        Some(value) => match value.text() {
            Some(text) => Ok(text),
            None => Err("Missing visibility in the response from GitHub"@),
        },
        None => Err("Missing visibility in the response from GitHub"@),
    }
}

/// The visibility that a repository has.
pub fn visibility_of(repository: &Json) -> (r: Result<String, String>)
    ensures
        crate::request::text_result(r) == visibility(repository@),
{
    if let Some(value) = repository.get("visibility") {
        if let Some(text) = value.as_str() {
            return Ok(text.to_owned());
        }
    }
    Err("Missing visibility in the response from GitHub".to_owned())
}

/// Get the visibility of a repository, from the answer to the request for it
pub fn get_repo_visibility(answer: Result<String, String>) -> (r: Result<String, String>)
    ensures
        crate::request::text_result(r) == match crate::request::read(
            crate::request::text_result(answer),
        ) {
            Ok(repository) => visibility(repository),
            Err(error) => Err(error),
        },
{
    match crate::request::read_answer(answer) {
        Ok(repository) => visibility_of(&repository),
        Err(error) => Err(error),
    }
}

/// Whether a list of members is empty.
pub open spec fn no_items(members: JsonModel) -> Result<bool, Seq<char>> {
    match members.items() {
        Some(items) => Ok(items.len() == 0),
        None => Err("The value returned by GitHub is not an array"@),
    }
}

/// A yes or no, or an error text.
pub open spec fn bool_result(r: Result<bool, String>) -> Result<bool, Seq<char>> {
    match r {
        Ok(b) => Ok(b),
        Err(error) => Err(error@),
    }
}

/// Whether a list of members is empty.
pub fn is_empty_list(members: &Json) -> (r: Result<bool, String>)
    ensures
        bool_result(r) == no_items(members@),
{
    match members.as_array() {
        Some(items) => Ok(items.is_empty()),
        None => Err("The value returned by GitHub is not an array".to_owned()),
    }
}

impl Team {
    /// A request for members of the team. One page is enough to see whether there are
    /// any.
    pub fn members_request(&self, bootstrap: &Bootstrap) -> (r: HttpRequest)
        ensures
            r@ == get_request(bootstrap.token@, team_members_path(bootstrap.org@, self.slug@)),
    {
        let path = self.members_query(bootstrap).path;
        crate::request::github_request(bootstrap.token.as_str(), path.as_str(), None)
    }

    /// Whether a team is empty, i.e., if the team has no members, including its
    /// sub-teams, from the answer to the request for its members.
    pub fn is_empty(answer: Result<String, String>) -> (r: Result<bool, String>)
        ensures
            bool_result(r) == match crate::request::read(crate::request::text_result(answer)) {
                Ok(members) => no_items(members),
                Err(error) => Err(error),
            },
    {
        match crate::request::read_answer(answer) {
            Ok(members) => is_empty_list(&members),
            Err(error) => Err(error),
        }
    }

    /// The listing of the members of this team, including members of child teams.
    pub fn members_query(&self, bootstrap: &Bootstrap) -> (r: PageQuery)
        ensures
            r@ == listing(
                team_members_path(bootstrap.org@, self.slug@),
                ITEMS_PER_PAGE as int,
            ),
    {
        let mut path = "/orgs/".to_owned();
        path.append(bootstrap.org.as_str());
        path.append("/teams/");
        path.append(self.slug.as_str());
        path.append("/members");
        PageQuery { path, page_size: ITEMS_PER_PAGE, retries: RETRIES, params: None }
    }

    /// Members of this team by login, from what came of their listing: of two with one
    /// login the last stays, and the error of a listing that failed stays as it is.
    pub fn fetch_team_members(fetched: Result<Vec<Member>, String>) -> (r: Result<
        StringHashMap<Member>,
        String,
    >)
        ensures
            match (fetched, r) {
                (Ok(members), Ok(map)) => {
                    &&& map@ == crate::listing::indexed(members@)
                    &&& forall|login: Seq<char>| #[trigger]
                        map@.contains_key(login) <==> exists|i: int|
                            0 <= i < members@.len() && (#[trigger] members@[i]).login@ == login
                    &&& forall|login: Seq<char>| #[trigger]
                        map@.contains_key(login) ==> map@[login].login@ == login
                },
                (Err(error), Err(message)) => message@ == error@,
                _ => false,
            },
    {
        proof {
            match &fetched {
                Ok(members) => members_are_filed_by_login(members@),
                Err(_) => {},
            }
        }
        crate::listing::index_fetched(fetched)
    }
}

/// Members are filed under their own logins, and under nothing else.
pub proof fn members_are_filed_by_login(members: Seq<Member>)
    ensures
        forall|login: Seq<char>| #[trigger]
            crate::listing::indexed(members).contains_key(login) <==> exists|i: int|
                0 <= i < members.len() && (#[trigger] members[i]).login@ == login,
        forall|login: Seq<char>| #[trigger]
            crate::listing::indexed(members).contains_key(login) ==> crate::listing::indexed(
                members,
            )[login].login@ == login,
{
    assert forall|i: int| 0 <= i < members.len() implies (#[trigger] members[i]).login@
        == crate::records::GitHubIndex::index_spec(&members[i]) by {}
    assert forall|login: Seq<char>| #[trigger]
        crate::listing::indexed(members).contains_key(login) <==> exists|i: int|
            0 <= i < members.len() && (#[trigger] members[i]).login@ == login by {
        crate::listing::an_index_finds_its_last_item(members, login);
    }
    assert forall|login: Seq<char>| #[trigger]
        crate::listing::indexed(members).contains_key(login) implies crate::listing::indexed(
        members,
    )[login].login@ == login by {
        crate::listing::an_index_finds_its_last_item(members, login);
    }
}

/// A request that asks for the email address of a user.
pub fn email_request(bootstrap: &Bootstrap, query: &str, user: &str) -> (r: HttpRequest)
    ensures
        r@ == (HttpRequestModel {
            method: Method::Post,
            url: crate::request::GRAPHQL_URL@,
            headers: crate::request::github_headers(bootstrap.token@),
            body: Some(
                crate::request::query_body(
                    query@,
                    seq![("org"@, bootstrap.org@), ("user"@, user@)],
                ),
            ),
        }),
{
    let mut asked = GraphQLQuery::new(query);
    asked.set_variable("org", bootstrap.org.as_str());
    asked.set_variable("user", user);
    proof {
        reveal_strlit("org");
        reveal_strlit("user");
        assert("org"@.len() != "user"@.len());
        assert(asked@.variables =~= seq![("org"@, bootstrap.org@), ("user"@, user@)]);
    }
    crate::request::graphql_request(bootstrap.token.as_str(), &asked)
}

/// The field `name` of what is there, if anything is.
pub open spec fn below(json: Option<JsonModel>, name: Seq<char>) -> Option<JsonModel> {
    match json {
        Some(json) => json.get(name),
        None => None,
    }
}

/// The identities that an answer tells of.
pub open spec fn identities(answer: JsonModel) -> Option<Seq<JsonModel>> {
    let organization = below(below(Some(answer), "data"@), "organization"@);
    let provider = below(organization, "samlIdentityProvider"@);
    match below(below(provider, "externalIdentities"@), "edges"@) {
        Some(edges) => edges.items(),
        None => None,
    }
}

/// The email address that an answer tells of: the name of the first identity.
pub open spec fn email(answer: JsonModel) -> Option<Seq<char>> {
    match identities(answer) {
        Some(edges) => if edges.len() == 0 {
            None
        } else {
            match below(below(below(Some(edges[0]), "node"@), "samlIdentity"@), "nameId"@) {
                Some(name) => name.text(),
                None => None,
            }
        },
        None => None,
    }
}

/// The field `name` of what is there, if anything is.
fn go_below<'a>(json: Option<&'a Json>, name: &str) -> (r: Option<&'a Json>)
    ensures
        match r {
            Some(found) => json matches Some(json) && json@.get(name@) == Some(found@),
            None => json matches Some(json) ==> json@.get(name@) is None,
        },
{
    match json {
        Some(json) => json.get(name),
        None => None,
    }
}

/// The email address that an answer tells of, if any.
pub fn email_of(answer: &Json) -> (r: Option<String>)
    ensures
        crate::request::option_view(r) == email(answer@),
{
    let organization = go_below(go_below(Some(answer), "data"), "organization");
    let provider = go_below(organization, "samlIdentityProvider");
    let edges = match go_below(go_below(provider, "externalIdentities"), "edges") {
        Some(edges) => match edges.as_array() {
            Some(edges) => edges,
            None => {
                return None;
            },
        },
        None => {
            return None;
        },
    };
    if edges.is_empty() {
        return None;
    }
    let name = go_below(go_below(go_below(Some(&edges[0]), "node"), "samlIdentity"), "nameId");
    match name {
        Some(name) => match name.as_str() {
            Some(text) => Some(text.to_owned()),
            None => None,
        },
        None => None,
    }
}

/// Get the email address associated to a username, if available, through the configured
/// SAML IdP, from the answer to the request for it.
pub fn email_from_gh_username(answer: Result<String, String>) -> (r: Option<String>)
    ensures
        crate::request::option_view(r) == match crate::request::read(
            crate::request::text_result(answer),
        ) {
            Ok(json) => email(json),
            Err(_) => None,
        },
{
    match crate::request::read_answer(answer) {
        Ok(json) => email_of(&json),
        Err(_) => None,
    }
}

} // verus!
