//! Listings that come in pages: which page to ask for next, when to wait, when to try
//! again, when to give up, and what has been gathered.

use vstd::prelude::*;
use vstd::std_specs::cmp::PartialEqSpec;
use vstd::string::*;

use crate::paint::{Line, Style};
use crate::records::GitHubResponse;
use crate::request::{HttpRequest, HttpRequestModel, Method};

verus! {

/// What GitHub's message says where too many requests were made.
pub const RATE_LIMIT_MESSAGE: &'static str = "API rate limit exceeded";

/// How long to wait then.
pub const RATE_LIMIT_SECONDS: u64 = 60;

/// A listing to fetch: its path, how many items a page has, how many attempts there are
/// and which parameters are sent along.
#[derive(Debug)]
pub struct PageQuery {
    pub path: String,
    pub page_size: u8,
    pub retries: u8,
    pub params: Option<String>,
}

/// A listing to fetch, as mathematics.
#[verifier::ext_equal]
pub struct PageQueryModel {
    pub path: Seq<char>,
    pub page_size: int,
    pub retries: int,
    pub params: Option<Seq<char>>,
}

impl View for PageQuery {
    type V = PageQueryModel;

    open spec fn view(&self) -> PageQueryModel {
        PageQueryModel {
            path: self.path@,
            page_size: self.page_size as int,
            retries: self.retries as int,
            params: crate::request::option_view(self.params),
        }
    }
}

/// The address of one page.
pub open spec fn page_url(query: PageQueryModel, page: int) -> Seq<char> {
    let address = crate::request::API_BASE@ + query.path + "?per_page="@ + crate::text::decimal(
        query.page_size as nat,
    ) + "&page="@ + crate::text::decimal(page as nat);
    match query.params {
        Some(params) => address + "&"@ + params,
        None => address,
    }
}

/// The request for one page.
pub open spec fn page_request(
    token: Seq<char>,
    query: PageQueryModel,
    page: int,
) -> HttpRequestModel {
    HttpRequestModel {
        method: Method::Get,
        url: page_url(query, page),
        headers: crate::request::github_headers(token),
        body: None,
    }
}

/// What came back for a page.
#[derive(Debug)]
pub enum PageAnswer<T> {
    /// Nothing: every attempt at the request failed.
    Nothing(String),
    /// Content, and what it was read as or why it could not be read.
    Content(String, Result<GitHubResponse<T>, String>),
}

/// The items that an answer brings.
pub open spec fn items_in<T>(answer: PageAnswer<T>) -> Seq<T> {
    match answer {
        PageAnswer::Content(_, Ok(GitHubResponse::Data(data))) => data@,
        _ => Seq::empty(),
    }
}

/// Whether an answer brings items.
pub open spec fn brings_items<T>(answer: PageAnswer<T>) -> bool {
    items_in(answer).len() > 0
}

/// What to do after an answer.
#[derive(Debug)]
pub enum PageStep {
    /// The listing is complete.
    Finish,
    /// Ask for the next page.
    Continue,
    /// Ask again after so many seconds.
    Wait(u64),
    /// Ask again.
    Retry(Vec<Line>),
    /// Give up.
    Fail(Vec<Line>, String),
}

/// What to do after an answer, as mathematics.
pub enum PageStepModel {
    Finish,
    Continue,
    Wait(int),
    Retry(Seq<Seq<(Style, Seq<char>)>>),
    Fail(Seq<Seq<(Style, Seq<char>)>>, Seq<char>),
}

impl PageStepModel {
    /// Whether the fetching goes on after it.
    pub open spec fn goes_on(self) -> bool {
        !(self is Finish) && !(self is Fail)
    }
}

impl View for PageStep {
    type V = PageStepModel;

    open spec fn view(&self) -> PageStepModel {
        match self {
            PageStep::Finish => PageStepModel::Finish,
            PageStep::Continue => PageStepModel::Continue,
            PageStep::Wait(seconds) => PageStepModel::Wait(*seconds as int),
            PageStep::Retry(lines) => PageStepModel::Retry(crate::paint::lines_view(lines@)),
            PageStep::Fail(lines, error) => PageStepModel::Fail(
                crate::paint::lines_view(lines@),
                error@,
            ),
        }
    }
}

/// Where the fetching of a listing stands: which listing, the page that is asked for, how
/// often it was asked for (a refusal counts twice), and the items so far.
pub struct PagingModel<T> {
    pub query: PageQueryModel,
    pub page: int,
    pub tries: int,
    pub items: Seq<T>,
}

/// The lines that say that a page is asked for again, with what came in its place.
pub open spec fn retry_lines(error: Seq<char>, content: Seq<char>) -> Seq<
    Seq<(Style, Seq<char>)>,
> {
    seq![
        seq![
            (
                Style::Yellow,
                "Going to retry because couldn't deserialize response from GitHub:"@,
            ),
            (Style::Plain, ": "@),
            (Style::Red, error),
        ],
        seq![(Style::Yellow, content)],
    ]
}

/// The lines that say that no attempt is left.
pub open spec fn exhausted_lines() -> Seq<Seq<(Style, Seq<char>)>> {
    seq![crate::retry::exhausted_line()]
}

/// What an answer leads to, once the asking has been counted.
pub open spec fn received<T: PartialEq>(
    state: PagingModel<T>,
    answer: PageAnswer<T>,
) -> (PagingModel<T>, PageStepModel) {
    match answer {
        PageAnswer::Nothing(error) => (state, PageStepModel::Fail(Seq::empty(), error@)),
        PageAnswer::Content(content, read) => match read {
            Ok(GitHubResponse::Data(data)) => if data@.len() == 0 {
                (state, PageStepModel::Finish)
            } else {
                (
                    PagingModel {
                        page: state.page + 1,
                        tries: 0,
                        items: crate::listing::with_items(state.items, data@),
                        ..state
                    },
                    PageStepModel::Continue,
                )
            },
            Ok(GitHubResponse::Error(error)) => if crate::text::occurs(
                error.message@,
                RATE_LIMIT_MESSAGE@,
            ) {
                (state, PageStepModel::Wait(RATE_LIMIT_SECONDS as int))
            } else if state.tries >= state.query.retries {
                (state, PageStepModel::Fail(exhausted_lines(), error.line()))
            } else {
                (
                    PagingModel { tries: state.tries + 1, ..state },
                    PageStepModel::Retry(retry_lines(error.line(), content@)),
                )
            },
            Err(error) => if state.tries >= state.query.retries {
                (state, PageStepModel::Fail(exhausted_lines(), error@))
            } else {
                (state, PageStepModel::Retry(retry_lines(error@, content@)))
            },
        },
    }
}

/// The lines that say that a page is asked for again, with what came in its place.
fn say_retry(error: &str, content: &str) -> (lines: Vec<Line>)
    ensures
        crate::paint::lines_view(lines@) == retry_lines(error@, content@),
{
    let first = Line::of(
        Style::Yellow,
        "Going to retry because couldn't deserialize response from GitHub:",
    ).then_text(Style::Plain, ": ").then_text(Style::Red, error);
    assert(first@ =~= retry_lines(error@, content@)[0]);
    let lines = vec![first, Line::of(Style::Yellow, content)];
    assert(crate::paint::lines_view(lines@) =~= retry_lines(error@, content@));
    lines
}

/// The lines that say that no attempt is left.
fn say_exhausted_lines() -> (lines: Vec<Line>)
    ensures
        crate::paint::lines_view(lines@) == exhausted_lines(),
{
    let lines = vec![crate::retry::say_exhausted()];
    assert(crate::paint::lines_view(lines@) =~= exhausted_lines());
    lines
}

/// A listing that is being fetched.
#[derive(Debug)]
pub struct Paging<T> {
    query: PageQuery,
    page: i32,
    tries: u8,
    items: Vec<T>,
}

impl<T: PartialEq> View for Paging<T> {
    type V = PagingModel<T>;

    closed spec fn view(&self) -> PagingModel<T> {
        PagingModel {
            query: self.query@,
            page: self.page as int,
            tries: self.tries as int,
            items: self.items@,
        }
    }
}

/// Where the fetching of a listing starts: at the first page, with nothing.
pub open spec fn started<T>(query: PageQueryModel) -> PagingModel<T> {
    PagingModel { query, page: 1, tries: 0, items: Seq::empty() }
}

/// The state with one more asking counted.
pub open spec fn asked<T>(state: PagingModel<T>) -> PagingModel<T> {
    PagingModel { tries: state.tries + 1, ..state }
}

impl<T: PartialEq> Paging<T> {
    /// Whether the page is one of a listing, and no item stands twice.
    pub open spec fn well_formed(self) -> bool {
        &&& self@.page >= 1
        &&& crate::listing::distinct(self@.items)
    }

    /// A listing of which nothing has been fetched.
    pub fn new(query: PageQuery) -> (r: Paging<T>)
        ensures
            r.well_formed(),
            r@ == started::<T>(query@),
    {
        Paging { query, page: 1, tries: 0, items: Vec::new() }
    }

    /// Whether the asking can be counted once more.
    pub fn can_ask(&self) -> (r: bool)
        ensures
            r == (self@.tries < u8::MAX),
    {
        self.tries < u8::MAX
    }

    /// Whether the page can be counted on, where the answer asks for that.
    pub fn can_receive(&self, answer: &PageAnswer<T>) -> (r: bool)
        ensures
            r == (brings_items(*answer) ==> self@.page < i32::MAX),
    {
        match answer {
            PageAnswer::Content(_, Ok(GitHubResponse::Data(data))) => {
                data.is_empty() || self.page < i32::MAX
            },
            _ => true,
        }
    }

    /// Counts an asking, and gives the request to make.
    pub fn ask(&mut self, token: &str) -> (request: HttpRequest)
        requires
            old(self).well_formed(),
            old(self)@.tries < u8::MAX,
        ensures
            final(self).well_formed(),
            final(self)@ == asked(old(self)@),
            request@ == page_request(token@, old(self)@.query, old(self)@.page),
    {
        self.tries = self.tries + 1;
        let mut url = crate::request::API_BASE.to_owned();
        url.append(self.query.path.as_str());
        url.append("?per_page=");
        url.append(crate::text::decimal_text(self.query.page_size as u64).as_str());
        url.append("&page=");
        url.append(crate::text::decimal_text(self.page as u64).as_str());
        if let Some(params) = &self.query.params {
            url.append("&");
            url.append(params.as_str());
        }
        HttpRequest {
            method: Method::Get,
            url,
            headers: crate::request::make_headers(token),
            body: None,
        }
    }

    /// Takes in an answer, and says what to do next.
    pub fn receive(&mut self, answer: PageAnswer<T>) -> (step: PageStep)
        requires
            T::obeys_eq_spec(),
            old(self).well_formed(),
            brings_items(answer) ==> old(self)@.page < i32::MAX,
        ensures
            final(self).well_formed(),
            (final(self)@, step@) == received(old(self)@, answer),
    {
        match answer {
            PageAnswer::Nothing(error) => {
                let step = PageStep::Fail(Vec::new(), error);
                assert(step@->Fail_0 =~= Seq::empty());
                step
            },
            PageAnswer::Content(content, read) => match read {
                Ok(GitHubResponse::Data(data)) => {
                    if data.is_empty() {
                        return PageStep::Finish;
                    }
                    proof {
                        crate::listing::adding_keeps_items_distinct(self.items@, data@);
                    }
                    self.page = self.page + 1;
                    self.tries = 0;
                    crate::listing::add_items(&mut self.items, data);
                    PageStep::Continue
                },
                Ok(GitHubResponse::Error(error)) => {
                    if crate::text::contains(error.message.as_str(), RATE_LIMIT_MESSAGE) {
                        return PageStep::Wait(RATE_LIMIT_SECONDS);
                    }
                    if self.tries >= self.query.retries {
                        return PageStep::Fail(say_exhausted_lines(), error.to_text());
                    }
                    self.tries = self.tries + 1;
                    PageStep::Retry(say_retry(error.to_text().as_str(), content.as_str()))
                },
                Err(error) => {
                    if self.tries >= self.query.retries {
                        return PageStep::Fail(say_exhausted_lines(), error);
                    }
                    PageStep::Retry(say_retry(error.as_str(), content.as_str()))
                },
            },
        }
    }

    /// The items that were gathered.
    pub fn into_items(self) -> (items: Vec<T>)
        ensures
            items@ == self@.items,
    {
        self.items
    }
}

/// Where the fetching stands after the given answers, from a given state.
pub open spec fn after<T: PartialEq>(
    state: PagingModel<T>,
    answers: Seq<PageAnswer<T>>,
) -> PagingModel<T>
    decreases answers.len(),
{
    if answers.len() == 0 {
        state
    } else {
        received(asked(after(state, answers.drop_last())), answers.last()).0
    }
}

/// What the last of the given answers leads to.
pub open spec fn last_step<T: PartialEq>(
    state: PagingModel<T>,
    answers: Seq<PageAnswer<T>>,
) -> PageStepModel {
    received(asked(after(state, answers.drop_last())), answers.last()).1
}

/// One more answer is taken in from where those before it led to.
proof fn one_more_answer<T: PartialEq>(
    state: PagingModel<T>,
    answers: Seq<PageAnswer<T>>,
    n: int,
)
    requires
        0 <= n < answers.len(),
    ensures
        (after(state, answers.take(n + 1)), last_step(state, answers.take(n + 1))) == received(
            asked(after(state, answers.take(n))),
            answers[n],
        ),
{
    assert(answers.take(n + 1).drop_last() =~= answers.take(n));
    assert(answers.take(n + 1).last() == answers[n]);
}

/// The items that the answers bring, in order.
pub open spec fn all_items<T>(answers: Seq<PageAnswer<T>>) -> Seq<T>
    decreases answers.len(),
{
    if answers.len() == 0 {
        Seq::empty()
    } else {
        all_items(answers.drop_last()) + items_in(answers.last())
    }
}

/// How many of the answers bring items.
pub open spec fn full_pages<T>(answers: Seq<PageAnswer<T>>) -> int
    decreases answers.len(),
{
    if answers.len() == 0 {
        0
    } else if brings_items(answers.last()) {
        full_pages(answers.drop_last()) + 1
    } else {
        full_pages(answers.drop_last())
    }
}

/// Whether an asking can be counted, and the page after its answer.
pub open spec fn countable<T>(state: PagingModel<T>, answer: PageAnswer<T>) -> bool {
    &&& state.tries < u8::MAX
    &&& brings_items(answer) ==> state.page < i32::MAX
}

/// The fetching of a listing, over the answers to its requests.
#[derive(Debug)]
pub struct Fetched<T> {
    /// The requests that were made.
    pub requests: Vec<HttpRequest>,
    /// What the answer to each led to.
    pub steps: Vec<PageStep>,
    /// The items, or the error; nothing where the fetching is not at its end.
    pub outcome: Option<Result<Vec<T>, String>>,
}

impl<T: PartialEq> Fetched<T> {
    /// Whether this is what comes of fetching a listing with the given answers. Each
    /// request is for the page that is due, each step is what its answer leads to, and
    /// everything could be counted. It ends with an empty page, and then the items are
    /// those that came, or where it is given up, and then the error is that of the last
    /// step; or there is no further answer, or one that could not be counted.
    pub open spec fn comes_of(
        self,
        token: Seq<char>,
        query: PageQueryModel,
        answers: Seq<PageAnswer<T>>,
    ) -> bool {
        let start = started::<T>(query);
        let count = self.steps@.len() as int;
        &&& count <= answers.len()
        &&& self.requests@.len() == count
        &&& forall|i: int|
            0 <= i < count ==> (#[trigger] self.requests@[i])@ == page_request(
                token,
                query,
                after(start, answers.take(i)).page,
            )
        &&& forall|i: int|
            0 <= i < count ==> (#[trigger] self.steps@[i])@ == last_step(
                start,
                answers.take(i + 1),
            )
        &&& forall|i: int|
            0 <= i < count ==> countable(after(start, answers.take(i)), #[trigger] answers[i])
        &&& forall|i: int| 0 <= i < count - 1 ==> (#[trigger] self.steps@[i])@.goes_on()
        &&& match self.outcome {
            Some(Ok(items)) => {
                &&& count > 0 && self.steps@.last()@ is Finish
                &&& items@ == crate::listing::with_items(
                    Seq::empty(),
                    all_items(answers.take(count)),
                )
            },
            Some(Err(error)) => {
                &&& count > 0
                &&& self.steps@.last()@ matches PageStepModel::Fail(_, message) && message == error@
            },
            None => {
                &&& count > 0 ==> self.steps@.last()@.goes_on()
                &&& count < answers.len() ==> !countable(
                    after(start, answers.take(count)),
                    answers[count],
                )
            },
        }
    }
}

/// Fetches a listing, over the answers to its requests: page after page until one is
/// empty, or it is given up, or the answers run out, or something cannot be counted.
#[verifier::rlimit(40)]
#[verifier::spinoff_prover]
pub fn make_paginated_github_request<T: PartialEq>(
    token: &str,
    query: PageQuery,
    answers: Vec<PageAnswer<T>>,
) -> (r: Fetched<T>)
    requires
        T::obeys_eq_spec(),
    ensures
        r.comes_of(token@, query@, answers@),
{
    let ghost start = started::<T>(query@);
    let ghost all = answers@;
    let mut paging: Paging<T> = Paging::new(query);
    let mut requests: Vec<HttpRequest> = Vec::new();
    let mut steps: Vec<PageStep> = Vec::new();
    for answer in it: answers
        invariant
            T::obeys_eq_spec(),
            start == started::<T>(query@),
            all == answers@,
            it.seq() == all,
            steps@.len() == it.index(),
            requests@.len() == it.index(),
            paging.well_formed(),
            paging@ == after(start, all.take(it.index() as int)),
            paging@.query == query@,
            forall|i: int|
                0 <= i < steps@.len() ==> countable(
                    after(start, all.take(i)),
                    #[trigger] all[i],
                ),
            forall|i: int|
                0 <= i < requests@.len() ==> (#[trigger] requests@[i])@ == page_request(
                    token@,
                    query@,
                    after(start, all.take(i)).page,
                ),
            forall|i: int|
                0 <= i < steps@.len() ==> (#[trigger] steps@[i])@ == last_step(
                    start,
                    all.take(i + 1),
                ) && steps@[i]@.goes_on(),
    {
        let ghost n = it.index() as int;
        if !paging.can_ask() || !paging.can_receive(&answer) {
            return Fetched { requests, steps, outcome: None };
        }
        proof {
            one_more_answer(start, all, n);
        }
        requests.push(paging.ask(token));
        let step = paging.receive(answer);
        assert(step@ == last_step(start, all.take(n + 1)));
        assert(paging@ == after(start, all.take(n + 1)));
        match step {
            PageStep::Finish => {
                proof {
                    the_listing_holds_every_item_that_came(query@, all.take(n + 1));
                }
                steps.push(PageStep::Finish);
                return Fetched { requests, steps, outcome: Some(Ok(paging.into_items())) };
            },
            PageStep::Fail(lines, error) => {
                let outcome = Some(Err(error.clone()));
                steps.push(PageStep::Fail(lines, error));
                return Fetched { requests, steps, outcome };
            },
            step => {
                steps.push(step);
            },
        }
    }
    Fetched { requests, steps, outcome: None }
}

/// Whatever else was answered in between, the listing holds exactly the items that
/// came, each once, and the page that is asked for is the one after those that came.
pub proof fn the_listing_holds_every_item_that_came<T: PartialEq>(
    query: PageQueryModel,
    answers: Seq<PageAnswer<T>>,
)
    ensures
        after(started::<T>(query), answers).items == crate::listing::with_items(
            Seq::empty(),
            all_items(answers),
        ),
        after(started::<T>(query), answers).page == 1 + full_pages(answers),
        crate::listing::distinct(after(started::<T>(query), answers).items),
    decreases answers.len(),
{
    if answers.len() > 0 {
        let before = answers.drop_last();
        the_listing_holds_every_item_that_came(query, before);
        crate::listing::adding_pages_is_adding_their_items(
            Seq::empty(),
            all_items(before),
            items_in(answers.last()),
        );
    }
    crate::listing::adding_keeps_items_distinct(Seq::empty(), all_items(answers));
}

/// No item that came is missing from the listing.
pub proof fn no_item_that_came_is_missing<T: PartialEq>(
    query: PageQueryModel,
    answers: Seq<PageAnswer<T>>,
    i: int,
    item: T,
)
    requires
        forall|x: T| #[trigger] x.eq_spec(&x),
        0 <= i < answers.len(),
        items_in(answers[i]).contains(item),
    ensures
        crate::listing::holds(after(started::<T>(query), answers).items, item),
{
    the_listing_holds_every_item_that_came(query, answers);
    all_items_contain(answers, i, item);
    crate::listing::added_items_are_held(Seq::empty(), all_items(answers), item);
}

proof fn all_items_contain<T>(answers: Seq<PageAnswer<T>>, i: int, item: T)
    requires
        0 <= i < answers.len(),
        items_in(answers[i]).contains(item),
    ensures
        all_items(answers).contains(item),
    decreases answers.len(),
{
    let before = all_items(answers.drop_last());
    let whole = all_items(answers);
    if i == answers.len() - 1 {
        let last = items_in(answers.last());
        let k = choose|k: int| 0 <= k < last.len() && last[k] == item;
        assert(whole[before.len() + k] == item);
    } else {
        assert(answers.drop_last()[i] == answers[i]);
        all_items_contain(answers.drop_last(), i, item);
        let k = choose|k: int| 0 <= k < before.len() && before[k] == item;
        assert(whole[k] == item);
    }
}

/// An empty page ends the listing, and nothing else does.
pub proof fn an_empty_page_ends_the_listing<T: PartialEq>(
    state: PagingModel<T>,
    answer: PageAnswer<T>,
)
    ensures
        received(state, answer).1 is Finish <==> {
            &&& answer matches PageAnswer::Content(_, Ok(GitHubResponse::Data(data)))
            &&& data@.len() == 0
        },
        received(state, answer).1 is Finish ==> received(state, answer).0 == state,
{
}

/// Whether an answer says that too many requests were made.
pub open spec fn rate_limited<T>(answer: PageAnswer<T>) -> bool {
    answer matches PageAnswer::Content(_, Ok(GitHubResponse::Error(error)))
        && crate::text::occurs(error.message@, RATE_LIMIT_MESSAGE@)
}

/// Whether an answer is a page, with items or without.
pub open spec fn is_page<T>(answer: PageAnswer<T>) -> bool {
    answer matches PageAnswer::Content(_, Ok(GitHubResponse::Data(_)))
}

/// Where GitHub says that too many requests were made, it is never given up for that: the
/// same page is due again after the wait, whatever failed before, and nothing that was
/// gathered is lost.
pub proof fn a_rate_limit_is_waited_out<T: PartialEq>(
    state: PagingModel<T>,
    answer: PageAnswer<T>,
)
    requires
        rate_limited(answer),
    ensures
        received(state, answer) == (
            state,
            PageStepModel::Wait(RATE_LIMIT_SECONDS as int),
        ),
{
}

/// However often GitHub says so in a row, and however few attempts there are, every such
/// answer is waited out: all that it changes is the count.
pub proof fn rate_limits_are_waited_out<T: PartialEq>(
    state: PagingModel<T>,
    waits: Seq<PageAnswer<T>>,
)
    requires
        forall|i: int| 0 <= i < waits.len() ==> rate_limited(#[trigger] waits[i]),
    ensures
        after(state, waits) == (PagingModel { tries: state.tries + waits.len(), ..state }),
        waits.len() > 0 ==> last_step(state, waits) == PageStepModel::Wait(
            RATE_LIMIT_SECONDS as int,
        ),
    decreases waits.len(),
{
    if waits.len() > 0 {
        let before = waits.drop_last();
        assert forall|i: int| 0 <= i < before.len() implies rate_limited(#[trigger] before[i]) by {
            assert(before[i] == waits[i]);
        }
        rate_limits_are_waited_out(state, before);
        assert(rate_limited(waits[waits.len() - 1]));
    }
}

/// Answers that come after others are taken in from where those led to.
proof fn after_others<T: PartialEq>(
    state: PagingModel<T>,
    first: Seq<PageAnswer<T>>,
    second: Seq<PageAnswer<T>>,
)
    ensures
        after(state, first + second) == after(after(state, first), second),
        second.len() > 0 ==> last_step(state, first + second) == last_step(
            after(state, first),
            second,
        ),
    decreases second.len(),
{
    if second.len() == 0 {
        assert(first + second =~= first);
    } else {
        after_others(state, first, second.drop_last());
        assert((first + second).drop_last() =~= first + second.drop_last());
        assert((first + second).last() == second.last());
    }
}

/// Pages with items are taken in one after the other, and leave no failure behind.
proof fn pages_with_items_go_on<T: PartialEq>(state: PagingModel<T>, pages: Seq<PageAnswer<T>>)
    requires
        state.tries == 0,
        forall|i: int| 0 <= i < pages.len() ==> brings_items(#[trigger] pages[i]),
    ensures
        after(state, pages).tries == 0,
        after(state, pages).page == state.page + pages.len(),
        pages.len() > 0 ==> last_step(state, pages) is Continue,
    decreases pages.len(),
{
    if pages.len() > 0 {
        let before = pages.drop_last();
        assert forall|i: int| 0 <= i < before.len() implies brings_items(#[trigger] before[i]) by {
            assert(before[i] == pages[i]);
        }
        pages_with_items_go_on(state, before);
        assert(brings_items(pages[pages.len() - 1]));
    }
}

/// `waits` put in before the answer `at`.
pub open spec fn delayed<T>(
    answers: Seq<PageAnswer<T>>,
    at: int,
    waits: Seq<PageAnswer<T>>,
) -> Seq<PageAnswer<T>> {
    answers.take(at) + waits + answers.skip(at)
}

/// Rate limits before a page of a listing change nothing in it, however few attempts there
/// are: where the pages end with the empty one at `end`, the fetching goes on as without
/// them, but that each of them is waited out and has the same page asked for once more. It
/// ends with the same items, and can be counted if it could be without them.
#[verifier::rlimit(40)]
#[verifier::spinoff_prover]
pub proof fn rate_limits_change_nothing_in_a_listing<T: PartialEq>(
    query: PageQueryModel,
    pages: Seq<PageAnswer<T>>,
    end: int,
    at: int,
    waits: Seq<PageAnswer<T>>,
)
    requires
        0 <= at <= end < pages.len(),
        forall|i: int| 0 <= i < end ==> brings_items(#[trigger] pages[i]),
        is_page(pages[end]) && !brings_items(pages[end]),
        waits.len() < u8::MAX,
        forall|i: int| 0 <= i < waits.len() ==> rate_limited(#[trigger] waits[i]),
    ensures
        forall|i: int|
            0 <= i < at ==> #[trigger] last_step(
                started(query),
                delayed(pages, at, waits).take(i + 1),
            ) is Continue,
        forall|i: int|
            at <= i < at + waits.len() ==> #[trigger] last_step(
                started(query),
                delayed(pages, at, waits).take(i + 1),
            ) == PageStepModel::Wait(RATE_LIMIT_SECONDS as int),
        forall|i: int|
            at <= i <= at + waits.len() ==> (#[trigger] after(
                started(query),
                delayed(pages, at, waits).take(i),
            )).page == 1 + at,
        forall|i: int|
            at + waits.len() <= i < end + waits.len() ==> #[trigger] last_step(
                started(query),
                delayed(pages, at, waits).take(i + 1),
            ) is Continue,
        last_step(
            started(query),
            delayed(pages, at, waits).take(end + waits.len() + 1),
        ) is Finish,
        after(started(query), delayed(pages, at, waits).take(end + waits.len() + 1)).items == after(
            started(query),
            pages.take(end + 1),
        ).items,
        (forall|i: int|
            0 <= i <= end ==> countable(after(started(query), pages.take(i)), #[trigger] pages[i]))
            ==> (forall|i: int|
            0 <= i <= end + waits.len() ==> countable(
                after(started(query), delayed(pages, at, waits).take(i)),
                #[trigger] delayed(pages, at, waits)[i],
            )),
{
    let start = started::<T>(query);
    let all = delayed(pages, at, waits);
    let n = waits.len() as int;
    let due = after(start, pages.take(at));
    assert forall|i: int| 0 <= i <= at implies all.take(i) == #[trigger] pages.take(i) by {
        assert(all.take(i) =~= pages.take(i));
    }
    assert forall|i: int| 0 <= i <= end implies {
        &&& (#[trigger] after(start, pages.take(i))).tries == 0
        &&& after(start, pages.take(i)).page == 1 + i
        &&& i > 0 ==> last_step(start, pages.take(i)) is Continue
    } by {
        pages_with_items_go_on(start, pages.take(i));
    }
    assert forall|i: int| 0 <= i < at implies #[trigger] last_step(
        start,
        all.take(i + 1),
    ) is Continue by {
        assert(all.take(i + 1) == pages.take(i + 1));
        assert(after(start, pages.take(i + 1)).tries == 0);
    }
    assert forall|i: int| at <= i <= at + n implies {
        &&& #[trigger] after(start, all.take(i)) == (PagingModel { tries: i - at, ..due })
        &&& i > at ==> last_step(start, all.take(i)) == PageStepModel::Wait(
            RATE_LIMIT_SECONDS as int,
        )
    } by {
        assert(all.take(i) =~= pages.take(at) + waits.take(i - at));
        after_others(start, pages.take(at), waits.take(i - at));
        rate_limits_are_waited_out(due, waits.take(i - at));
        assert(due.tries == 0);
    }
    assert forall|i: int| at <= i < at + n implies #[trigger] last_step(start, all.take(i + 1))
        == PageStepModel::Wait(RATE_LIMIT_SECONDS as int) by {
        assert(after(start, all.take(i + 1)) == (PagingModel { tries: i + 1 - at, ..due }));
    }
    assert forall|i: int| at < i <= end + 1 implies {
        &&& (#[trigger] after(start, pages.take(i))).items == after(start, all.take(i + n)).items
        &&& i <= end ==> after(start, pages.take(i)) == after(start, all.take(i + n))
        &&& last_step(start, pages.take(i)) == last_step(start, all.take(i + n))
    } by {
        pages_follow_waits(query, pages, end, at, waits, i);
    }
    assert forall|i: int| at + n <= i < end + n implies #[trigger] last_step(
        start,
        all.take(i + 1),
    ) is Continue by {
        assert(after(start, pages.take(i + 1 - n)).tries == 0);
        assert(i + 1 - n + n == i + 1);
    }
    assert(after(start, pages.take(end + 1)).items == after(start, all.take(end + 1 + n)).items);
    assert(pages.take(end + 1).last() == pages[end]);
    assert(end + 1 + n == end + n + 1);
    if forall|i: int|
        0 <= i <= end ==> countable(after(start, pages.take(i)), #[trigger] pages[i]) {
        assert forall|i: int| 0 <= i <= end + n implies countable(
            after(start, all.take(i)),
            #[trigger] all[i],
        ) by {
            if i < at {
                assert(all[i] == pages[i]);
                assert(all.take(i) == pages.take(i));
            } else if i < at + n {
                assert(all[i] == waits[i - at]);
                assert(rate_limited(waits[i - at]));
                assert(after(start, all.take(i)) == (PagingModel { tries: i - at, ..due }));
            } else {
                assert(all[i] == pages[i - n]);
                if i == at + n {
                    assert(after(start, all.take(i)) == (PagingModel { tries: i - at, ..due }));
                } else {
                    assert(after(start, pages.take(i - n)) == after(start, all.take(i - n + n)));
                }
            }
        }
    }
}

/// After the waits, the pages lead where they led without.
proof fn pages_follow_waits<T: PartialEq>(
    query: PageQueryModel,
    pages: Seq<PageAnswer<T>>,
    end: int,
    at: int,
    waits: Seq<PageAnswer<T>>,
    i: int,
)
    requires
        0 <= at < i <= end + 1 <= pages.len(),
        forall|k: int| 0 <= k < end ==> brings_items(#[trigger] pages[k]),
        is_page(pages[end]) && !brings_items(pages[end]),
        forall|k: int| 0 <= k < waits.len() ==> rate_limited(#[trigger] waits[k]),
    ensures
        after(started(query), pages.take(i)).items == after(
            started(query),
            delayed(pages, at, waits).take(i + waits.len()),
        ).items,
        i <= end ==> after(started(query), pages.take(i)) == after(
            started(query),
            delayed(pages, at, waits).take(i + waits.len()),
        ),
        last_step(started(query), pages.take(i)) == last_step(
            started(query),
            delayed(pages, at, waits).take(i + waits.len()),
        ),
    decreases i,
{
    let start = started::<T>(query);
    let all = delayed(pages, at, waits);
    let n = waits.len() as int;
    assert(pages.take(i).drop_last() =~= pages.take(i - 1));
    assert(pages.take(i).last() == pages[i - 1]);
    assert(all.take(i + n).drop_last() =~= all.take(i - 1 + n));
    assert(all.take(i + n).last() == pages[i - 1]);
    if i > at + 1 {
        pages_follow_waits(query, pages, end, at, waits, i - 1);
    } else {
        let due = after(start, pages.take(at));
        assert(all.take(at + n) =~= pages.take(at) + waits);
        after_others(start, pages.take(at), waits);
        rate_limits_are_waited_out(due, waits);
    }
    assert(i <= end ==> brings_items(pages[i - 1]));
}

/// Where every answer is a page and the fetching ends with the items, it ends with them
/// too if rate limits come before one of the pages, however few attempts there are. Each
/// of them costs one wait and one more request for that page, and nothing else.
pub proof fn rate_limits_delay_a_listing<T: PartialEq>(
    token: Seq<char>,
    query: PageQueryModel,
    pages: Seq<PageAnswer<T>>,
    straight: Fetched<T>,
    at: int,
    waits: Seq<PageAnswer<T>>,
    slow: Fetched<T>,
)
    requires
        forall|i: int| 0 <= i < pages.len() ==> is_page(#[trigger] pages[i]),
        straight.comes_of(token, query, pages),
        straight.outcome matches Some(Ok(_)),
        0 <= at < straight.steps@.len(),
        waits.len() < u8::MAX,
        forall|i: int| 0 <= i < waits.len() ==> rate_limited(#[trigger] waits[i]),
        slow.comes_of(token, query, delayed(pages, at, waits)),
    ensures
        match (straight.outcome, slow.outcome) {
            (Some(Ok(items)), Some(Ok(others))) => items@ == others@,
            _ => false,
        },
        slow.steps@.len() == straight.steps@.len() + waits.len(),
        forall|i: int|
            0 <= i < straight.steps@.len() ==> (#[trigger] straight.steps@[i])@ == slow.steps@[if i
                < at {
                i
            } else {
                i + waits.len()
            }]@,
        forall|i: int|
            at <= i < at + waits.len() ==> (#[trigger] slow.steps@[i])@ == PageStepModel::Wait(
                RATE_LIMIT_SECONDS as int,
            ),
        forall|i: int|
            at <= i <= at + waits.len() ==> (#[trigger] slow.requests@[i])@
                == straight.requests@[at]@,
{
    let start = started::<T>(query);
    let all = delayed(pages, at, waits);
    let n = waits.len() as int;
    let end = straight.steps@.len() - 1;
    assert forall|i: int| 0 <= i < end implies brings_items(#[trigger] pages[i]) by {
        assert(straight.steps@[i]@.goes_on());
        assert(pages.take(i + 1).last() == pages[i]);
        assert(is_page(pages[i]));
    }
    assert(straight.steps@[end]@ is Finish);
    assert(pages.take(end + 1).last() == pages[end]);
    assert(is_page(pages[end]));
    rate_limits_change_nothing_in_a_listing(query, pages, end, at, waits);
    let count = slow.steps@.len() as int;
    assert(last_step(start, all.take(end + n + 1)) is Finish);
    if count > end + n + 1 {
        assert(slow.steps@[end + n]@.goes_on());
    }
    if 0 < count <= end + n {
        let last = count - 1;
        assert(slow.steps@[last]@ == last_step(start, all.take(last + 1)));
        assert(last_step(start, all.take(last + 1)).goes_on());
    }
    if count <= end + n {
        assert(countable(after(start, all.take(count)), all[count]));
    }
    assert(count == end + n + 1);
    assert(slow.steps@[end + n]@ is Finish);
    the_listing_holds_every_item_that_came(query, all.take(count));
    the_listing_holds_every_item_that_came(query, pages.take(end + 1));
    assert forall|i: int| 0 <= i <= end implies (#[trigger] straight.steps@[i])@ == slow.steps@[if i
        < at {
        i
    } else {
        i + n
    }]@ by {
        if i < at {
            assert(all.take(i + 1) =~= pages.take(i + 1));
        } else {
            pages_follow_waits(query, pages, end, at, waits, i + 1);
            assert(slow.steps@[i + n]@ == last_step(start, all.take(i + n + 1)));
            assert(i + 1 + n == i + n + 1);
        }
    }
    pages_with_items_go_on(start, pages.take(at));
    assert(straight.requests@[at]@ == page_request(token, query, 1 + at));
    assert forall|i: int| at <= i <= at + n implies (#[trigger] slow.requests@[i])@
        == straight.requests@[at]@ by {
        assert(after(start, all.take(i)).page == 1 + at);
    }
}

/// A page with items wipes out the failures before it: what follows does not depend on
/// them.
pub proof fn a_page_with_items_clears_the_failures<T: PartialEq>(
    state: PagingModel<T>,
    failures: int,
    answer: PageAnswer<T>,
)
    requires
        brings_items(answer),
    ensures
        received(state, answer) == received(
            PagingModel { tries: failures, ..state },
            answer,
        ),
        received(state, answer).0.tries == 0,
{
}

/// With fewer attempts than can be counted, only waiting can use up the count: after
/// anything else it stays within the number of attempts.
pub proof fn only_waiting_uses_up_the_count<T: PartialEq>(
    state: PagingModel<T>,
    answer: PageAnswer<T>,
)
    requires
        0 <= state.query.retries < u8::MAX,
        state.tries >= 0,
        received(state, answer).1.goes_on(),
        !(received(state, answer).1 is Wait),
    ensures
        0 <= received(state, answer).0.tries <= state.query.retries < u8::MAX,
{
}

/// Content that cannot be read is asked for as often as there are attempts (at least
/// once), and then given up with the error of the last.
pub proof fn unreadable_content_is_given_up_at_the_limit<T: PartialEq>(
    state: PagingModel<T>,
    answers: Seq<PageAnswer<T>>,
)
    requires
        state.tries == 0,
        answers.len() > 0,
        forall|i: int|
            0 <= i < answers.len() ==> (#[trigger] answers[i]) matches PageAnswer::Content(
                _,
                Err(_),
            ),
    ensures
        after(state, answers) == (PagingModel {
            tries: answers.len() as int,
            ..state
        }),
        answers.len() < state.query.retries ==> last_step(state, answers) is Retry,
        answers.len() >= state.query.retries ==> {
            &&& answers.last() matches PageAnswer::Content(_, Err(error))
            &&& last_step(state, answers) == PageStepModel::Fail(
                exhausted_lines(),
                error@,
            )
        },
    decreases answers.len(),
{
    let before = answers.drop_last();
    assert(answers.last() == answers[answers.len() - 1]);
    if before.len() > 0 {
        assert forall|i: int| 0 <= i < before.len() implies (
        #[trigger] before[i]) matches PageAnswer::Content(_, Err(_)) by {
            assert(before[i] == answers[i]);
        }
        unreadable_content_is_given_up_at_the_limit(state, before);
    }
}

/// Whether an answer is a refusal other than the rate limit.
pub open spec fn refusal<T>(answer: PageAnswer<T>) -> bool {
    answer matches PageAnswer::Content(_, Ok(GitHubResponse::Error(error)))
        && !crate::text::occurs(error.message@, RATE_LIMIT_MESSAGE@)
}

/// A refusal counts twice: the `n`-th in a row is the last where `2 * n - 1` reaches the
/// number of attempts, and is given up with GitHub's error.
pub proof fn refusals_count_twice<T: PartialEq>(
    state: PagingModel<T>,
    answers: Seq<PageAnswer<T>>,
)
    requires
        state.tries == 0,
        answers.len() > 0,
        answers.len() > 1 ==> 2 * answers.len() - 3 < state.query.retries,
        forall|i: int| 0 <= i < answers.len() ==> refusal(#[trigger] answers[i]),
    ensures
        2 * answers.len() - 1 < state.query.retries ==> {
            &&& last_step(state, answers) is Retry
            &&& after(state, answers) == (PagingModel {
                tries: 2 * answers.len() as int,
                ..state
            })
        },
        2 * answers.len() - 1 >= state.query.retries ==> {
            &&& answers.last() matches PageAnswer::Content(_, Ok(GitHubResponse::Error(error)))
            &&& last_step(state, answers) == PageStepModel::Fail(
                exhausted_lines(),
                error.line(),
            )
        },
    decreases answers.len(),
{
    let before = answers.drop_last();
    assert(refusal(answers[answers.len() - 1]));
    if before.len() > 0 {
        assert forall|i: int| 0 <= i < before.len() implies refusal(#[trigger] before[i]) by {
            assert(before[i] == answers[i]);
        }
        refusals_count_twice(state, before);
    }
}

proof fn same_ends(before: Seq<char>, a: Seq<char>, b: Seq<char>, behind: Seq<char>)
    requires
        before + a + behind == before + b + behind,
    ensures
        a == b,
{
    let x = before + a + behind;
    let y = before + b + behind;
    assert(x.len() == before.len() + a.len() + behind.len());
    assert(y.len() == before.len() + b.len() + behind.len());
    assert(a.len() == b.len());
    assert forall|i: int| 0 <= i < a.len() implies a[i] == b[i] by {
        assert(x[before.len() + i] == a[i]);
        assert(y[before.len() + i] == b[i]);
    }
    assert(a =~= b);
}

/// Every page of a listing has an address of its own.
pub proof fn every_page_has_its_own_address(query: PageQueryModel, a: int, b: int)
    requires
        a >= 1,
        b >= 1,
        page_url(query, a) == page_url(query, b),
    ensures
        a == b,
{
    let before = crate::request::API_BASE@ + query.path + "?per_page="@ + crate::text::decimal(
        query.page_size as nat,
    ) + "&page="@;
    let first = crate::text::decimal(a as nat);
    let second = crate::text::decimal(b as nat);
    match query.params {
        Some(params) => {
            let behind = "&"@ + params;
            assert(before + first + "&"@ + params =~= before + first + behind);
            assert(before + second + "&"@ + params =~= before + second + behind);
            same_ends(before, first, second, behind);
        },
        None => {
            assert(before + first =~= before + first + Seq::empty());
            assert(before + second =~= before + second + Seq::empty());
            same_ends(before, first, second, Seq::empty());
        },
    }
    crate::text::decimal_tells_numbers_apart(a as nat, b as nat);
}

} // verus!
