//! Which inputs the operations take: all of them, but for those that cannot be counted or
//! shown.

use vstd::prelude::*;
use vstd::std_specs::cmp::PartialEqSpec;

use crate::deploy_key::{DeployKey, DeployKeyAudit};
use crate::organization::Bootstrap;
use crate::paging::{PageAnswer, PageQuery, Paging};
use crate::progress::ProgressTracker;
use crate::records::{Collaborator, Member, Repository, Team};
use crate::request::GraphQLQuery;
use crate::retry::Retries;

verus! {

/// Any token is taken of which the first 20 bytes end between characters, and any
/// organization; neither needs to be there.
pub proof fn any_token_that_can_be_shown_is_taken(token: Option<String>, org: Option<String>)
    requires
        token matches Some(token) ==> vstd::utf8::is_char_boundary(
            vstd::utf8::encode_utf8(token@),
            20,
        ),
    ensures
        call_requires(Bootstrap::new, (token, org)),
{
}

/// Whatever was made can be set a variable, and can be set another.
pub proof fn any_variable_can_be_set(
    text: &str,
    made: GraphQLQuery,
    query: &mut GraphQLQuery,
    name: &str,
    value: &str,
)
    requires
        call_ensures(GraphQLQuery::new, (text,), made),
        call_ensures(GraphQLQuery::set_variable, (query, name, value), ()),
    ensures
        made.well_formed(),
        final(query).well_formed(),
        forall|q: &mut GraphQLQuery|
            q.well_formed() ==> #[trigger] call_requires(
                GraphQLQuery::set_variable,
                (q, name, value),
            ),
{
}

/// A new request can be attempted, and again wherever another attempt is due.
pub proof fn a_due_attempt_can_be_made(retries: u8, made: Retries)
    requires
        call_ensures(Retries::new, (retries,), made),
    ensures
        made.open(),
        forall|left: &mut Retries, outcome: Result<String, String>|
            left.open() ==> #[trigger] call_requires(Retries::attempt, (left, outcome)),
        forall|left: &mut Retries, outcome: Result<String, String>, r: crate::retry::Attempt|
            #[trigger] call_ensures(Retries::attempt, (left, outcome), r) && r is Again
                ==> final(left).open(),
{
}

/// Any request can be attempted with any outcomes.
pub proof fn any_request_can_be_executed(retries: u8, outcomes: Vec<Result<String, String>>)
    ensures
        call_requires(crate::retry::execute_with_retries, (retries, outcomes)),
{
}

/// Any listing of the records can be fetched, with any answers.
pub proof fn any_listing_can_be_fetched(
    token: &str,
    query: PageQuery,
    members: Vec<PageAnswer<Member>>,
    collaborators: Vec<PageAnswer<Collaborator>>,
    teams: Vec<PageAnswer<Team>>,
    repositories: Vec<PageAnswer<Repository>>,
    keys: Vec<PageAnswer<DeployKey>>,
)
    ensures
        call_requires(
            crate::paging::make_paginated_github_request::<Member>,
            (token, query, members),
        ),
        call_requires(
            crate::paging::make_paginated_github_request::<Collaborator>,
            (token, query, collaborators),
        ),
        call_requires(
            crate::paging::make_paginated_github_request::<Team>,
            (token, query, teams),
        ),
        call_requires(
            crate::paging::make_paginated_github_request::<Repository>,
            (token, query, repositories),
        ),
        call_requires(
            crate::paging::make_paginated_github_request::<DeployKey>,
            (token, query, keys),
        ),
{
}

/// A page can be asked for while the asking can be counted, and any answer can be taken in
/// where the page can be counted on.
pub proof fn what_can_be_counted_is_taken<T: PartialEq>(
    query: PageQuery,
    made: Paging<T>,
    token: &str,
    answer: PageAnswer<T>,
)
    requires
        call_ensures(Paging::<T>::new, (query,), made),
        T::obeys_eq_spec(),
    ensures
        made.well_formed(),
        forall|paging: &mut Paging<T>|
            paging.well_formed() && paging@.tries < 255 ==> #[trigger] call_requires(
                Paging::<T>::ask,
                (paging, token),
            ),
        forall|paging: &mut Paging<T>|
            paging.well_formed() && paging@.page < 2147483647 ==> #[trigger] call_requires(
                Paging::<T>::receive,
                (paging, answer),
            ),
{
}

/// A repository can be counted once there are any.
pub proof fn any_repository_can_be_counted(total: usize, made: ProgressTracker)
    requires
        call_ensures(ProgressTracker::new, (total,), made),
        0 < total,
    ensures
        made.one_percent > 0,
        forall|tracker: &mut ProgressTracker|
            tracker.one_percent > 0 && tracker.progress < usize::MAX ==> #[trigger] call_requires(
                ProgressTracker::tick,
                (tracker,),
            ),
{
}

/// The keys of a repository that is due can be taken in, whatever came of fetching them.
pub proof fn any_keys_that_are_due_are_taken(
    all: bool,
    members: vstd::hash_map::StringHashMap<Member>,
    repositories: Vec<Repository>,
    made: DeployKeyAudit,
    fetched: Result<Vec<DeployKey>, String>,
)
    requires
        call_ensures(DeployKeyAudit::new, (all, members, repositories), made),
    ensures
        made.well_formed(),
        forall|audit: &mut DeployKeyAudit|
            audit.well_formed() && audit@.done < audit@.repositories.len()
                ==> #[trigger] call_requires(DeployKeyAudit::take_keys, (audit, fetched)),
        forall|audit: &mut DeployKeyAudit, r: Result<Vec<crate::paint::Line>, crate::paint::Line>|
            #[trigger] call_ensures(DeployKeyAudit::take_keys, (audit, fetched), r)
                ==> final(audit).well_formed(),
{
}

} // verus!
