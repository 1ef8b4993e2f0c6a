//! Attempts at a request: when to try again and when to give up.

use vstd::prelude::*;

use crate::paint::{Line, Style};

verus! {

/// The line that says that no attempt is left.
pub open spec fn exhausted_line() -> Seq<(Style, Seq<char>)> {
    seq![(Style::Red, "Retries exhausted"@)]
}

/// The line that says that a failed request is tried again.
pub open spec fn request_error_line(error: Seq<char>) -> Seq<(Style, Seq<char>)> {
    seq![
        (Style::Yellow, "Going to retry because of a GitHub request error:"@),
        (Style::Plain, ": "@),
        (Style::Red, error),
    ]
}

/// The line that says that no attempt is left.
pub(crate) fn say_exhausted() -> (line: Line)
    ensures
        line@ == exhausted_line(),
{
    Line::of(Style::Red, "Retries exhausted")
}

/// What an attempt leads to.
#[derive(Debug)]
pub enum Attempt {
    /// The content of the answer.
    Succeeded(String),
    /// Another attempt is due.
    Again(Line),
    /// No attempt is left: the error of the last one.
    GaveUp(Line, String),
}

/// What an attempt leads to, as mathematics.
pub enum AttemptModel {
    Succeeded(Seq<char>),
    Again(Seq<(Style, Seq<char>)>),
    GaveUp(Seq<(Style, Seq<char>)>, Seq<char>),
}

impl View for Attempt {
    type V = AttemptModel;

    open spec fn view(&self) -> AttemptModel {
        match self {
            Attempt::Succeeded(content) => AttemptModel::Succeeded(content@),
            Attempt::Again(line) => AttemptModel::Again(line@),
            Attempt::GaveUp(line, error) => AttemptModel::GaveUp(line@, error@),
        }
    }
}

/// How many attempts there are: at least one.
pub open spec fn attempts(retries: int) -> int {
    if retries < 1 {
        1
    } else {
        retries
    }
}

/// What the attempt after `tries` others leads to. The last one that is allowed gives
/// up where it fails.
pub open spec fn attempted(
    retries: int,
    tries: int,
    outcome: Result<Seq<char>, Seq<char>>,
) -> AttemptModel {
    match outcome {
        Ok(content) => AttemptModel::Succeeded(content),
        Err(error) => if tries + 1 >= attempts(retries) {
            AttemptModel::GaveUp(exhausted_line(), error)
        } else {
            AttemptModel::Again(request_error_line(error))
        },
    }
}

/// The attempts at one request.
#[derive(Debug)]
pub struct Retries {
    retries: u8,
    tries: u8,
}

/// The attempts at one request, as mathematics: how many are allowed, and how many were
/// made.
pub struct RetriesModel {
    pub retries: int,
    pub tries: int,
}

impl View for Retries {
    type V = RetriesModel;

    closed spec fn view(&self) -> RetriesModel {
        RetriesModel { retries: self.retries as int, tries: self.tries as int }
    }
}

impl Retries {
    /// Whether an attempt is left.
    pub open spec fn open(self) -> bool {
        self@.tries < attempts(self@.retries)
    }

    /// No attempt made yet.
    pub fn new(retries: u8) -> (r: Retries)
        ensures
            r.open(),
            r@ == (RetriesModel { retries: retries as int, tries: 0 }),
    {
        Retries { retries, tries: 0 }
    }

    /// Counts an attempt, and says what it leads to.
    pub fn attempt(&mut self, outcome: Result<String, String>) -> (r: Attempt)
        requires
            old(self).open(),
        ensures
            r@ == attempted(
                old(self)@.retries,
                old(self)@.tries,
                crate::request::text_result(outcome),
            ),
            final(self)@ == (RetriesModel { tries: old(self)@.tries + 1, ..old(self)@ }),
            r is Again ==> final(self).open(),
    {
        self.tries = self.tries + 1;
        match outcome {
            Ok(content) => Attempt::Succeeded(content),
            Err(error) => {
                if self.tries >= self.retries {
                    return Attempt::GaveUp(say_exhausted(), error);
                }
                let line = Line::of(
                    Style::Yellow,
                    "Going to retry because of a GitHub request error:",
                ).then_text(Style::Plain, ": ").then_text(Style::Red, error.as_str());
                assert(line@ =~= request_error_line(error@));
                Attempt::Again(line)
            },
        }
    }
}

/// How attempts with the given outcomes end, after `tries` others: with which of them,
/// counted from one, and how. `None` where the outcomes run out before.
pub open spec fn ended(
    retries: int,
    tries: int,
    outcomes: Seq<Result<Seq<char>, Seq<char>>>,
) -> Option<(int, Result<Seq<char>, Seq<char>>)>
    decreases outcomes.len(),
{
    if outcomes.len() == 0 {
        None
    } else {
        match attempted(retries, tries, outcomes[0]) {
            AttemptModel::Succeeded(content) => Some((1, Ok(content))),
            AttemptModel::GaveUp(_, error) => Some((1, Err(error))),
            AttemptModel::Again(_) => match ended(retries, tries + 1, outcomes.drop_first()) {
                Some((n, r)) => Some((n + 1, r)),
                None => None,
            },
        }
    }
}

/// What is shown over attempts with the given outcomes, after `tries` others.
pub open spec fn attempt_lines(
    retries: int,
    tries: int,
    outcomes: Seq<Result<Seq<char>, Seq<char>>>,
) -> Seq<Seq<(Style, Seq<char>)>>
    decreases outcomes.len(),
{
    if outcomes.len() == 0 {
        Seq::empty()
    } else {
        match attempted(retries, tries, outcomes[0]) {
            AttemptModel::Succeeded(_) => Seq::empty(),
            AttemptModel::GaveUp(line, _) => seq![line],
            AttemptModel::Again(line) => seq![line] + attempt_lines(
                retries,
                tries + 1,
                outcomes.drop_first(),
            ),
        }
    }
}

/// The outcomes, by their texts.
pub open spec fn outcomes_view(outcomes: Seq<Result<String, String>>) -> Seq<
    Result<Seq<char>, Seq<char>>,
> {
    outcomes.map_values(|outcome: Result<String, String>| crate::request::text_result(outcome))
}

/// Executes a request with retry logic, over the outcomes of its attempts: the lines to
/// show, and with which attempt it ends, counted from one, and how. Nothing where the
/// outcomes run out before.
pub fn execute_with_retries(retries: u8, outcomes: Vec<Result<String, String>>) -> (r: (
    Vec<Line>,
    Option<(usize, Result<String, String>)>,
))
    ensures
        crate::paint::lines_view(r.0@) == attempt_lines(
            retries as int,
            0,
            outcomes_view(outcomes@),
        ),
        match (ended(retries as int, 0, outcomes_view(outcomes@)), r.1) {
            (Some((n, outcome)), Some((made, result))) => {
                &&& made == n
                &&& crate::request::text_result(result) == outcome
            },
            (None, None) => true,
            _ => false,
        },
{
    let ghost all = outcomes_view(outcomes@);
    let mut left = Retries::new(retries);
    let mut lines: Vec<Line> = Vec::new();
    let mut made: usize = 0;
    let count = outcomes.len();
    proof {
        assert(all.skip(0) =~= all);
        assert(crate::paint::lines_view(lines@) + attempt_lines(retries as int, 0, all)
            =~= attempt_lines(retries as int, 0, all));
    }
    for outcome in it: outcomes
        invariant
            all == outcomes_view(outcomes@),
            it.seq() == outcomes@,
            made == it.index(),
            count == outcomes@.len(),
            left.open(),
            left@ == (RetriesModel { retries: retries as int, tries: made as int }),
            attempt_lines(retries as int, 0, all) == crate::paint::lines_view(lines@)
                + attempt_lines(retries as int, made as int, all.skip(made as int)),
            ended(retries as int, 0, all) == match ended(
                retries as int,
                made as int,
                all.skip(made as int),
            ) {
                Some((n, outcome)) => Some((n + made, outcome)),
                None => None,
            },
    {
        let ghost before = lines@;
        let ghost rest = all.skip(made as int);
        proof {
            assert(rest[0] == crate::request::text_result(outcome));
            assert(rest.drop_first() =~= all.skip(made + 1));
        }
        match left.attempt(outcome) {
            Attempt::Succeeded(content) => {
                assert(crate::paint::lines_view(lines@) + Seq::empty() =~= crate::paint::lines_view(
                    lines@,
                ));
                return (lines, Some((made + 1, Ok(content))));
            },
            Attempt::GaveUp(line, error) => {
                lines.push(line);
                assert(crate::paint::lines_view(lines@) =~= crate::paint::lines_view(before)
                    + seq![line@]);
                return (lines, Some((made + 1, Err(error))));
            },
            Attempt::Again(line) => {
                lines.push(line);
                made += 1;
                assert(crate::paint::lines_view(lines@) =~= crate::paint::lines_view(before)
                    + seq![line@]);
                assert(crate::paint::lines_view(before) + (seq![line@] + attempt_lines(
                    retries as int,
                    made as int,
                    all.skip(made as int),
                )) =~= crate::paint::lines_view(lines@) + attempt_lines(
                    retries as int,
                    made as int,
                    all.skip(made as int),
                ));
            },
        }
    }
    assert(crate::paint::lines_view(lines@) + Seq::empty() =~= crate::paint::lines_view(lines@));
    (lines, None)
}

proof fn attempts_end(retries: int, tries: int, outcomes: Seq<Result<Seq<char>, Seq<char>>>)
    requires
        0 <= tries < attempts(retries),
    ensures
        outcomes.len() >= attempts(retries) - tries ==> ended(retries, tries, outcomes) is Some,
        ended(retries, tries, outcomes) matches Some((n, r)) ==> {
            &&& 1 <= n <= attempts(retries) - tries
            &&& n <= outcomes.len()
            &&& r == outcomes[n - 1]
            &&& forall|i: int| 0 <= i < n - 1 ==> (#[trigger] outcomes[i]) is Err
            &&& r is Ok || n == attempts(retries) - tries
        },
    decreases outcomes.len(),
{
    if outcomes.len() > 0 && outcomes[0] is Err && tries + 1 < attempts(retries) {
        let rest = outcomes.drop_first();
        attempts_end(retries, tries + 1, rest);
        if let Some((n, r)) = ended(retries, tries + 1, rest) {
            assert forall|i: int| 0 <= i < n implies (#[trigger] outcomes[i]) is Err by {
                assert(i > 0 ==> outcomes[i] == rest[i - 1]);
            }
        }
    }
}

/// A request is attempted until it succeeds, but never more often than allowed (and at
/// least once). What comes back is the outcome of the last attempt: the first success,
/// or the error of the last attempt that was allowed.
pub proof fn attempts_stop_at_the_first_success_or_the_limit(
    retries: u8,
    outcomes: Seq<Result<Seq<char>, Seq<char>>>,
)
    ensures
        outcomes.len() >= attempts(retries as int) ==> ended(retries as int, 0, outcomes) is Some,
        ended(retries as int, 0, outcomes) matches Some((n, r)) ==> {
            &&& 1 <= n <= attempts(retries as int)
            &&& n <= outcomes.len()
            &&& r == outcomes[n - 1]
            &&& forall|i: int| 0 <= i < n - 1 ==> (#[trigger] outcomes[i]) is Err
            &&& r is Ok || n == attempts(retries as int)
        },
{
    attempts_end(retries as int, 0, outcomes);
}

} // verus!
