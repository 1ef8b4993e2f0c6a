//! Listings that come in pages: which pages are asked for, what each answer leads to, and
//! what has come together at the end.

use vstd::prelude::*;
use vstd::std_specs::cmp::PartialEqSpec;

use crate::deploy_key::DeployKey;
use crate::paging::{Fetched, PageAnswer, PageQuery, PageStep, Paging};
use crate::paint::{Line, Style};
use crate::records::{Collaborator, GitHubResponse, Member, Repository, Team};
use crate::request::{HttpRequest, Method};

verus! {

/// Whether an answer is a page with items.
pub open spec fn has_items<T>(answer: PageAnswer<T>) -> bool {
    answer matches PageAnswer::Content(_, Ok(GitHubResponse::Data(data))) && data@.len() > 0
}

/// Whether an answer is a refusal, but not for too many requests.
pub open spec fn is_refusal<T>(answer: PageAnswer<T>) -> bool {
    answer matches PageAnswer::Content(_, Ok(GitHubResponse::Error(error)))
        && !crate::text::occurs(error.message@, "API rate limit exceeded"@)
}

/// How many of the first `n` answers are pages with items.
pub open spec fn pages_before<T>(answers: Seq<PageAnswer<T>>, n: int) -> int {
    answers.take(n).filter(|answer: PageAnswer<T>| has_items(answer)).len() as int
}

/// What counts against the attempts before the answer `n`: every answer since the last page
/// with items, a refusal twice.
pub open spec fn count_before<T>(answers: Seq<PageAnswer<T>>, n: int) -> int
    decreases n,
{
    if n <= 0 || has_items(answers[n - 1]) {
        0
    } else if is_refusal(answers[n - 1]) {
        count_before(answers, n - 1) + 2
    } else {
        count_before(answers, n - 1) + 1
    }
}

/// The address of a page of a listing.
pub open spec fn address(query: PageQuery, page: int) -> Seq<char> {
    let start = "https://api.github.com"@ + query.path@ + "?per_page="@ + crate::text::decimal(
        query.page_size as nat,
    ) + "&page="@ + crate::text::decimal(page as nat);
    match query.params {
        Some(params) => start + "&"@ + params@,
        None => start,
    }
}

/// Whether these lines say that a page is asked for again, why, and what came in its place.
pub open spec fn says_again(lines: Seq<Line>, error: Seq<char>, content: Seq<char>) -> bool {
    &&& lines.len() == 2
    &&& crate::laws::paint::reads(
        lines[0],
        seq![
            (
                Style::Yellow,
                "Going to retry because couldn't deserialize response from GitHub:"@,
            ),
            (Style::Plain, ": "@),
            (Style::Red, error),
        ],
    )
    &&& crate::laws::paint::reads(lines[1], seq![(Style::Yellow, content)])
}

/// Whether these lines say that no attempt is left.
pub open spec fn says_none_left(lines: Seq<Line>) -> bool {
    &&& lines.len() == 1
    &&& crate::laws::paint::reads(lines[0], seq![(Style::Red, "Retries exhausted"@)])
}

/// Whether a step is the right one after an answer, where so much counts against the
/// attempts, the answer included: an empty page ends the listing, a page with items has the
/// next one asked for, too many requests are waited out for a minute, and anything else is
/// asked for again while attempts are left. An answer that never came is given up at once.
pub open spec fn right_step<T>(
    retries: int,
    count: int,
    answer: PageAnswer<T>,
    step: PageStep,
) -> bool {
    match answer {
        PageAnswer::Nothing(error) => {
            step matches PageStep::Fail(lines, given) && lines@.len() == 0 && given@ == error@
        },
        PageAnswer::Content(_, Ok(GitHubResponse::Data(data))) => if data@.len() == 0 {
            step is Finish
        } else {
            step is Continue
        },
        PageAnswer::Content(content, Ok(GitHubResponse::Error(error))) => {
            let text = "GitHubError: "@ + error.message@ + " "@ + error.documentation_url@ + " "@
                + error.status@;
            if crate::text::occurs(error.message@, "API rate limit exceeded"@) {
                step matches PageStep::Wait(seconds) && seconds == 60
            } else if count >= retries {
                step matches PageStep::Fail(lines, given) && says_none_left(lines@) && given@
                    == text
            } else {
                step matches PageStep::Retry(lines) && says_again(lines@, text, content@)
            }
        },
        PageAnswer::Content(content, Err(error)) => if count >= retries {
            step matches PageStep::Fail(lines, given) && says_none_left(lines@) && given@ == error@
        } else {
            step matches PageStep::Retry(lines) && says_again(lines@, error@, content@)
        },
    }
}

/// A listing that starts has nothing, and starts with the first page.
pub proof fn a_listing_starts_with_the_first_page<T: PartialEq>(
    query: PageQuery,
    paging: Paging<T>,
)
    requires
        call_ensures(Paging::<T>::new, (query,), paging),
    ensures
        paging@.page == 1,
        paging@.tries == 0,
        paging@.items.len() == 0,
        paging@.query == query@,
{
}

/// Asking counts once and changes nothing else. The request is for the page that is due, of
/// the listing that is fetched.
pub proof fn asking_is_for_the_page_that_is_due<T: PartialEq>(
    paging: &mut Paging<T>,
    token: &str,
    query: PageQuery,
    request: HttpRequest,
)
    requires
        call_ensures(Paging::<T>::ask, (paging, token), request),
        old(paging)@.query == query@,
    ensures
        request.method == Method::Get,
        request.url@ == address(query, old(paging)@.page),
        crate::laws::request::carries_token(request, token@),
        request.body is None,
        final(paging)@.tries == old(paging)@.tries + 1,
        final(paging)@.page == old(paging)@.page,
        final(paging)@.items == old(paging)@.items,
        final(paging)@.query == old(paging)@.query,
{
    crate::laws::request::headers_carry_the_token(request, token@);
    assert(request@.body is None);
}

/// An answer leads to the right step. A page with items is added and the next page is due,
/// with nothing counted against it; nothing else changes the page or the items. A refusal
/// that is not given up counts once more.
pub proof fn an_answer_leads_to_the_right_step<T: PartialEq>(
    paging: &mut Paging<T>,
    answer: PageAnswer<T>,
    step: PageStep,
)
    requires
        call_ensures(Paging::<T>::receive, (paging, answer), step),
    ensures
        right_step(old(paging)@.query.retries, old(paging)@.tries, answer, step),
        final(paging)@.query == old(paging)@.query,
        final(paging)@.page == old(paging)@.page + if has_items(answer) {
            1int
        } else {
            0int
        },
        final(paging)@.tries == if has_items(answer) {
            0
        } else if is_refusal(answer) && step is Retry {
            old(paging)@.tries + 1
        } else {
            old(paging)@.tries
        },
        !has_items(answer) ==> final(paging)@.items == old(paging)@.items,
        answer matches PageAnswer::Content(_, Ok(GitHubResponse::Data(data)))
            ==> final(paging)@.items == crate::listing::with_items(old(paging)@.items, data@),
{
    views_of_steps(old(paging)@, answer, step);
}

proof fn views_of_steps<T: PartialEq>(
    state: crate::paging::PagingModel<T>,
    answer: PageAnswer<T>,
    step: PageStep,
)
    requires
        step@ == crate::paging::received(state, answer).1,
    ensures
        right_step(state.query.retries, state.tries, answer, step),
{
    match step {
        PageStep::Retry(lines) => {
            crate::laws::paint::lines_are_viewed_one_by_one(lines@);
            assert(crate::paint::lines_view(lines@).len() == lines@.len());
            assert(lines@.len() == 2);
            assert(crate::laws::paint::reads(lines@[0], crate::paint::lines_view(lines@)[0]));
            assert(crate::laws::paint::reads(lines@[1], crate::paint::lines_view(lines@)[1]));
        },
        PageStep::Fail(lines, _) => {
            crate::laws::paint::lines_are_viewed_one_by_one(lines@);
            assert(crate::paint::lines_view(lines@).len() == lines@.len());
            if lines@.len() > 0 {
                assert(crate::laws::paint::reads(lines@[0], crate::paint::lines_view(lines@)[0]));
            }
        },
        _ => {},
    }
}

/// A page can be asked for as long as the count fits a byte; an answer can be taken in
/// unless it has items and there is no number for the next page.
pub proof fn what_can_be_counted<T: PartialEq>(
    paging: &Paging<T>,
    answer: &PageAnswer<T>,
    can_ask: bool,
    can_receive: bool,
)
    requires
        call_ensures(Paging::<T>::can_ask, (paging,), can_ask),
        call_ensures(Paging::<T>::can_receive, (paging, answer), can_receive),
    ensures
        can_ask <==> paging@.tries < 255,
        can_receive <==> !has_items(*answer) || paging@.page < 2147483647,
{
}

/// What a listing gives away are the items that it gathered.
pub proof fn a_listing_gives_its_items<T: PartialEq>(paging: Paging<T>, items: Vec<T>)
    requires
        call_ensures(Paging::<T>::into_items, (paging,), items),
    ensures
        items@ == paging@.items,
{
}

proof fn one_more_page<T>(answers: Seq<PageAnswer<T>>, n: int)
    requires
        0 <= n < answers.len(),
    ensures
        pages_before(answers, n + 1) == pages_before(answers, n) + if has_items(answers[n]) {
            1int
        } else {
            0int
        },
{
    let f = |answer: PageAnswer<T>| has_items(answer);
    reveal(Seq::filter);
    assert(answers.take(n + 1).drop_last() =~= answers.take(n));
    assert(answers.take(n + 1).last() == answers[n]);
    assert(answers.take(n + 1).filter(f) == if f(answers[n]) {
        answers.take(n).filter(f).push(answers[n])
    } else {
        answers.take(n).filter(f)
    });
}

/// Where the fetching stands after answers that it goes on after.
proof fn state_after<T: PartialEq>(
    query: PageQuery,
    answers: Seq<PageAnswer<T>>,
    n: int,
)
    requires
        0 <= n <= answers.len(),
        forall|i: int|
            0 <= i < n ==> (#[trigger] crate::paging::last_step(
                crate::paging::started(query@),
                answers.take(i + 1),
            )).goes_on(),
    ensures
        ({
            let state = crate::paging::after(crate::paging::started::<T>(query@), answers.take(n));
            &&& state.query == query@
            &&& state.page == 1 + pages_before(answers, n)
            &&& state.tries == count_before(answers, n)
        }),
    decreases n,
{
    let start = crate::paging::started::<T>(query@);
    if n == 0 {
        reveal(Seq::filter);
        assert(answers.take(0) =~= Seq::empty());
    } else {
        state_after(query, answers, n - 1);
        one_more_page(answers, n - 1);
        assert(answers.take(n).drop_last() =~= answers.take(n - 1));
        assert(answers.take(n).last() == answers[n - 1]);
        assert(crate::paging::last_step(start, answers.take(n - 1 + 1)).goes_on());
    }
}

proof fn steps_go_on<T: PartialEq>(
    token: Seq<char>,
    query: PageQuery,
    answers: Seq<PageAnswer<T>>,
    fetched: Fetched<T>,
    n: int,
)
    requires
        fetched.comes_of(token, query@, answers),
        0 <= n < fetched.steps@.len() || (n == fetched.steps@.len() && fetched.outcome is None),
    ensures
        ({
            let state = crate::paging::after(crate::paging::started::<T>(query@), answers.take(n));
            &&& state.query == query@
            &&& state.page == 1 + pages_before(answers, n)
            &&& state.tries == count_before(answers, n)
        }),
{
    assert forall|i: int| 0 <= i < n implies (#[trigger] crate::paging::last_step(
        crate::paging::started(query@),
        answers.take(i + 1),
    )).goes_on() by {
        assert(fetched.steps@[i]@.goes_on());
    }
    state_after(query, answers, n);
}

/// The pages of a listing are asked for one after the other, without a gap: the request
/// after so many pages with items is for the page behind them.
pub proof fn pages_are_asked_for_one_after_the_other<T: PartialEq>(
    token: &str,
    query: PageQuery,
    answers: Vec<PageAnswer<T>>,
    fetched: Fetched<T>,
    i: int,
)
    requires
        call_ensures(
            crate::paging::make_paginated_github_request::<T>,
            (token, query, answers),
            fetched,
        ),
        0 <= i < fetched.requests@.len(),
    ensures
        fetched.requests@[i].method == Method::Get,
        fetched.requests@[i].url@ == address(query, 1 + pages_before(answers@, i)),
        crate::laws::request::carries_token(fetched.requests@[i], token@),
        fetched.requests@[i].body is None,
{
    steps_go_on(token@, query, answers@, fetched, i);
    crate::laws::request::headers_carry_the_token(fetched.requests@[i], token@);
    assert(fetched.requests@[i]@.body is None);
}

/// Each answer leads to the right step, and only the last step can be an end.
pub proof fn every_answer_leads_to_the_right_step<T: PartialEq>(
    token: &str,
    query: PageQuery,
    answers: Vec<PageAnswer<T>>,
    fetched: Fetched<T>,
    i: int,
)
    requires
        call_ensures(
            crate::paging::make_paginated_github_request::<T>,
            (token, query, answers),
            fetched,
        ),
        0 <= i < fetched.steps@.len(),
    ensures
        fetched.requests@.len() == fetched.steps@.len() <= answers@.len(),
        right_step(
            query.retries as int,
            count_before(answers@, i) + 1,
            answers@[i],
            fetched.steps@[i],
        ),
        i < fetched.steps@.len() - 1 ==> !(fetched.steps@[i] is Finish) && !(
        fetched.steps@[i] is Fail),
{
    steps_go_on(token@, query, answers@, fetched, i);
    let start = crate::paging::started::<T>(query@);
    assert(answers@.take(i + 1).drop_last() =~= answers@.take(i));
    assert(answers@.take(i + 1).last() == answers@[i]);
    views_of_steps(
        crate::paging::asked(crate::paging::after(start, answers@.take(i))),
        answers@[i],
        fetched.steps@[i],
    );
}

/// The fetching ends with the listing where the last step says so, with the error where it
/// was given up, and otherwise only where the answers are at an end, or where the next
/// cannot be counted any more.
pub proof fn a_listing_ends_where_its_last_step_says_so<T: PartialEq>(
    token: &str,
    query: PageQuery,
    answers: Vec<PageAnswer<T>>,
    fetched: Fetched<T>,
)
    requires
        call_ensures(
            crate::paging::make_paginated_github_request::<T>,
            (token, query, answers),
            fetched,
        ),
    ensures
        match fetched.outcome {
            Some(Ok(_)) => fetched.steps@.len() > 0 && fetched.steps@.last() is Finish,
            Some(Err(error)) => fetched.steps@.len() > 0 && (
            fetched.steps@.last() matches PageStep::Fail(_, given) && given@ == error@),
            None => {
                let n = fetched.steps@.len() as int;
                &&& n > 0 ==> !(fetched.steps@.last() is Finish) && !(fetched.steps@.last() is Fail)
                &&& n < answers@.len() ==> count_before(answers@, n) >= 255 || (has_items(
                    answers@[n],
                ) && 1 + pages_before(answers@, n) >= 2147483647)
            },
        },
{
    if fetched.outcome is None {
        steps_go_on(token@, query, answers@, fetched, fetched.steps@.len() as int);
    }
}

/// A listing that was fetched holds only items that came on its pages, no two of them equal,
/// and for every item that came on one of them it holds one that equals it.
pub proof fn a_listing_holds_what_came_once_each<T: PartialEq>(
    token: &str,
    query: PageQuery,
    answers: Vec<PageAnswer<T>>,
    fetched: Fetched<T>,
)
    requires
        call_ensures(
            crate::paging::make_paginated_github_request::<T>,
            (token, query, answers),
            fetched,
        ),
        forall|x: T| #[trigger] x.eq_spec(&x),
    ensures
        fetched.outcome matches Some(Ok(items)) ==> {
            &&& forall|i: int, j: int|
                #![trigger items@[i], items@[j]]
                0 <= i < j < items@.len() ==> !items@[i].eq_spec(&items@[j])
            &&& forall|k: int|
                0 <= k < items@.len() ==> exists|n: int|
                    0 <= n < fetched.steps@.len() && came_on(
                        #[trigger] answers@[n],
                        #[trigger] items@[k],
                    )
            &&& forall|n: int, item: T|
                0 <= n < fetched.steps@.len() && #[trigger] came_on(answers@[n], item)
                    ==> exists|k: int|
                    0 <= k < items@.len() && (#[trigger] items@[k]).eq_spec(&item)
        },
{
    if let Some(Ok(items)) = fetched.outcome {
        let count = fetched.steps@.len() as int;
        let used = answers@.take(count);
        let came = crate::paging::all_items(used);
        crate::listing::adding_keeps_items_distinct(Seq::empty(), came);
        crate::listing::adding_keeps_what_is_there(Seq::empty(), came);
        assert forall|k: int| 0 <= k < items@.len() implies exists|n: int|
            0 <= n < count && came_on(#[trigger] answers@[n], #[trigger] items@[k]) by {
            assert(came.contains(items@[k]));
            let n = items_come_on_pages(used, items@[k]);
            assert(used[n] == answers@[n]);
            assert(came_on(answers@[n], items@[k]));
        }
        assert forall|n: int, item: T| 0 <= n < count && #[trigger] came_on(
            answers@[n],
            item,
        ) implies exists|k: int| 0 <= k < items@.len() && (#[trigger] items@[k]).eq_spec(
            &item,
        ) by {
            assert(used[n] == answers@[n]);
            pages_bring_items(used, n, item);
            crate::listing::added_items_are_held(Seq::empty(), came, item);
        }
    }
}

/// Whether an item came on a page.
pub open spec fn came_on<T>(answer: PageAnswer<T>, item: T) -> bool {
    answer matches PageAnswer::Content(_, Ok(GitHubResponse::Data(data))) && data@.contains(item)
}

proof fn items_come_on_pages<T>(answers: Seq<PageAnswer<T>>, item: T) -> (n: int)
    requires
        crate::paging::all_items(answers).contains(item),
    ensures
        0 <= n < answers.len(),
        came_on(answers[n], item),
    decreases answers.len(),
{
    let whole = crate::paging::all_items(answers);
    let before = crate::paging::all_items(answers.drop_last());
    let last = crate::paging::items_in(answers.last());
    let k = choose|k: int| 0 <= k < whole.len() && whole[k] == item;
    if k < before.len() {
        assert(before[k] == item);
        let n = items_come_on_pages(answers.drop_last(), item);
        assert(answers.drop_last()[n] == answers[n]);
        n
    } else {
        assert(last[k - before.len()] == item);
        assert(last.contains(item));
        answers.len() - 1
    }
}

proof fn pages_bring_items<T>(answers: Seq<PageAnswer<T>>, n: int, item: T)
    requires
        0 <= n < answers.len(),
        came_on(answers[n], item),
    ensures
        crate::paging::all_items(answers).contains(item),
    decreases answers.len(),
{
    let whole = crate::paging::all_items(answers);
    let before = crate::paging::all_items(answers.drop_last());
    let last = crate::paging::items_in(answers.last());
    if n == answers.len() - 1 {
        let k = choose|k: int| 0 <= k < last.len() && last[k] == item;
        assert(whole[before.len() + k] == item);
    } else {
        assert(answers.drop_last()[n] == answers[n]);
        pages_bring_items(answers.drop_last(), n, item);
        let k = choose|k: int| 0 <= k < before.len() && before[k] == item;
        assert(whole[k] == item);
    }
}

/// Every collaborator that came on a page is in the listing, with login and permissions.
pub proof fn no_collaborator_is_missing(
    token: &str,
    query: PageQuery,
    answers: Vec<PageAnswer<Collaborator>>,
    fetched: Fetched<Collaborator>,
    n: int,
    item: Collaborator,
)
    requires
        call_ensures(
            crate::paging::make_paginated_github_request::<Collaborator>,
            (token, query, answers),
            fetched,
        ),
        0 <= n < fetched.steps@.len(),
        came_on(answers@[n], item),
    ensures
        fetched.outcome matches Some(Ok(items)) ==> exists|k: int|
            {
                &&& 0 <= k < items@.len()
                &&& (#[trigger] items@[k]).login@ == item.login@
                &&& items@[k].permissions == item.permissions
            },
{
    assert forall|x: Collaborator| #[trigger] x.eq_spec(&x) by {
        crate::laws::records::collaborators_are_told_apart(x, x);
    }
    a_listing_holds_what_came_once_each(token, query, answers, fetched);
    if let Some(Ok(items)) = fetched.outcome {
        let k = choose|k: int| 0 <= k < items@.len() && (#[trigger] items@[k]).eq_spec(&item);
        crate::laws::records::collaborators_are_told_apart(items@[k], item);
    }
}

/// Every member that came on a page is in the listing, with login and avatar.
pub proof fn no_member_is_missing(
    token: &str,
    query: PageQuery,
    answers: Vec<PageAnswer<Member>>,
    fetched: Fetched<Member>,
    n: int,
    item: Member,
)
    requires
        call_ensures(
            crate::paging::make_paginated_github_request::<Member>,
            (token, query, answers),
            fetched,
        ),
        0 <= n < fetched.steps@.len(),
        came_on(answers@[n], item),
    ensures
        fetched.outcome matches Some(Ok(items)) ==> exists|k: int|
            {
                &&& 0 <= k < items@.len()
                &&& (#[trigger] items@[k]).login@ == item.login@
                &&& items@[k].avatar_url@ == item.avatar_url@
            },
{
    assert forall|x: Member| #[trigger] x.eq_spec(&x) by {
        crate::laws::records::members_are_told_apart(x, x);
    }
    a_listing_holds_what_came_once_each(token, query, answers, fetched);
    if let Some(Ok(items)) = fetched.outcome {
        let k = choose|k: int| 0 <= k < items@.len() && (#[trigger] items@[k]).eq_spec(&item);
        crate::laws::records::members_are_told_apart(items@[k], item);
    }
}

/// Every team that came on a page is in the listing, with name, slug and permissions.
pub proof fn no_team_is_missing(
    token: &str,
    query: PageQuery,
    answers: Vec<PageAnswer<Team>>,
    fetched: Fetched<Team>,
    n: int,
    item: Team,
)
    requires
        call_ensures(
            crate::paging::make_paginated_github_request::<Team>,
            (token, query, answers),
            fetched,
        ),
        0 <= n < fetched.steps@.len(),
        came_on(answers@[n], item),
    ensures
        fetched.outcome matches Some(Ok(items)) ==> exists|k: int|
            {
                &&& 0 <= k < items@.len()
                &&& (#[trigger] items@[k]).slug@ == item.slug@
                &&& items@[k].name@ == item.name@
                &&& items@[k].permissions == item.permissions
            },
{
    assert forall|x: Team| #[trigger] x.eq_spec(&x) by {
        crate::laws::records::teams_are_told_apart(x, x);
    }
    a_listing_holds_what_came_once_each(token, query, answers, fetched);
    if let Some(Ok(items)) = fetched.outcome {
        let k = choose|k: int| 0 <= k < items@.len() && (#[trigger] items@[k]).eq_spec(&item);
        crate::laws::records::teams_are_told_apart(items@[k], item);
    }
}

/// Every repository that came on a page is in the listing, by its name.
pub proof fn no_repository_is_missing(
    token: &str,
    query: PageQuery,
    answers: Vec<PageAnswer<Repository>>,
    fetched: Fetched<Repository>,
    n: int,
    item: Repository,
)
    requires
        call_ensures(
            crate::paging::make_paginated_github_request::<Repository>,
            (token, query, answers),
            fetched,
        ),
        0 <= n < fetched.steps@.len(),
        came_on(answers@[n], item),
    ensures
        fetched.outcome matches Some(Ok(items)) ==> exists|k: int|
            {
                &&& 0 <= k < items@.len()
                &&& (#[trigger] items@[k]).name@ == item.name@
                &&& items@[k].private == item.private
                &&& items@[k].archived == item.archived
                &&& items@[k].visibility@ == item.visibility@
                &&& items@[k].permissions == item.permissions
            },
{
    assert forall|x: Repository| #[trigger] x.eq_spec(&x) by {
        crate::laws::json::a_value_equals_itself(x.security_and_analysis);
        crate::laws::records::repositories_are_told_apart(x, x);
    }
    a_listing_holds_what_came_once_each(token, query, answers, fetched);
    if let Some(Ok(items)) = fetched.outcome {
        let k = choose|k: int| 0 <= k < items@.len() && (#[trigger] items@[k]).eq_spec(&item);
        crate::laws::records::repositories_are_told_apart(items@[k], item);
    }
}

/// Every deploy key that came on a page is in the listing, with its title and who added it.
pub proof fn no_deploy_key_is_missing(
    token: &str,
    query: PageQuery,
    answers: Vec<PageAnswer<DeployKey>>,
    fetched: Fetched<DeployKey>,
    n: int,
    item: DeployKey,
)
    requires
        call_ensures(
            crate::paging::make_paginated_github_request::<DeployKey>,
            (token, query, answers),
            fetched,
        ),
        0 <= n < fetched.steps@.len(),
        came_on(answers@[n], item),
    ensures
        fetched.outcome matches Some(Ok(items)) ==> exists|k: int|
            {
                &&& 0 <= k < items@.len()
                &&& (#[trigger] items@[k]).id == item.id
                &&& items@[k].key@ == item.key@
                &&& items@[k].title@ == item.title@
                &&& items@[k].added_by@ == item.added_by@
            },
{
    assert forall|x: DeployKey| #[trigger] x.eq_spec(&x) by {
        crate::laws::records::deploy_keys_are_told_apart(x, x);
    }
    a_listing_holds_what_came_once_each(token, query, answers, fetched);
    if let Some(Ok(items)) = fetched.outcome {
        let k = choose|k: int| 0 <= k < items@.len() && (#[trigger] items@[k]).eq_spec(&item);
        crate::laws::records::deploy_keys_are_told_apart(items@[k], item);
    }
}

} // verus!
