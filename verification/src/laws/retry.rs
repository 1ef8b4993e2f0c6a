//! Attempts at a request: how many are made, how they end, and what is shown.

use vstd::prelude::*;

use crate::paint::{Line, Style};
use crate::retry::{Attempt, Retries};

verus! {

/// The pieces of the line that says that a request which failed is tried again.
pub open spec fn trying_again(error: Seq<char>) -> Seq<(Style, Seq<char>)> {
    seq![
        (Style::Yellow, "Going to retry because of a GitHub request error:"@),
        (Style::Plain, ": "@),
        (Style::Red, error),
    ]
}

/// The pieces of the line that says that no attempt is left.
pub open spec fn none_left() -> Seq<(Style, Seq<char>)> {
    seq![(Style::Red, "Retries exhausted"@)]
}

/// How many attempts a number of retries allows: as many, but at least one.
pub open spec fn allowed(retries: int) -> int {
    if retries >= 1 {
        retries
    } else {
        1
    }
}

/// Attempts none of which was made are as many as were asked for.
pub proof fn attempts_start_with_none_made(retries: u8, left: Retries)
    requires
        call_ensures(Retries::new, (retries,), left),
    ensures
        left@.retries == retries,
        left@.tries == 0,
        left.open(),
{
}

/// An attempt counts once. Its success is what comes back. Its failure is shown and another
/// attempt is due, but where it was the last one that is allowed: then that is shown, and
/// its error comes back.
pub proof fn an_attempt_succeeds_or_is_made_again_or_was_the_last(
    left: &mut Retries,
    outcome: Result<String, String>,
    r: Attempt,
)
    requires
        call_ensures(Retries::attempt, (left, outcome), r),
    ensures
        final(left)@.retries == old(left)@.retries,
        final(left)@.tries == old(left)@.tries + 1,
        match outcome {
            Ok(content) => r matches Attempt::Succeeded(given) && given@ == content@,
            Err(error) => if old(left)@.tries + 1 >= allowed(old(left)@.retries) {
                r matches Attempt::GaveUp(line, given) && given@ == error@
                    && crate::laws::paint::reads(line, none_left())
            } else {
                r matches Attempt::Again(line) && crate::laws::paint::reads(
                    line,
                    trying_again(error@),
                )
            },
        },
{
    match r {
        Attempt::Succeeded(_) => {},
        Attempt::Again(line) => {
            crate::laws::paint::a_line_is_its_pieces(line, line@);
        },
        Attempt::GaveUp(line, _) => {
            crate::laws::paint::a_line_is_its_pieces(line, line@);
        },
    }
}

/// Whether two outcomes are the same.
pub open spec fn same_outcome(a: Result<String, String>, b: Result<String, String>) -> bool {
    match (a, b) {
        (Ok(x), Ok(y)) => x@ == y@,
        (Err(x), Err(y)) => x@ == y@,
        _ => false,
    }
}

/// A request is attempted until it succeeds or as often as is allowed, and at least once.
/// What comes back is the first success, or the error of the last attempt that is allowed.
/// Every failure before that is shown with its error, and a last one as such.
pub proof fn a_request_is_attempted_until_it_succeeds_or_none_is_left(
    retries: u8,
    outcomes: Vec<Result<String, String>>,
    r: (Vec<Line>, Option<(usize, Result<String, String>)>),
)
    requires
        call_ensures(crate::retry::execute_with_retries, (retries, outcomes), r),
    ensures
        match r.1 {
            Some((made, result)) => {
                &&& 1 <= made <= allowed(retries as int)
                &&& made <= outcomes@.len()
                &&& same_outcome(result, outcomes@[made - 1])
                &&& forall|i: int| 0 <= i < made - 1 ==> (#[trigger] outcomes@[i]) is Err
                &&& result is Err ==> made == allowed(retries as int) && crate::laws::paint::reads(
                    r.0@[made - 1],
                    none_left(),
                )
                &&& r.0@.len() == if result is Ok {
                    made - 1
                } else {
                    made as int
                }
                &&& forall|i: int|
                    0 <= i < made - 1 ==> crate::laws::paint::reads(
                        #[trigger] r.0@[i],
                        trying_again(outcomes@[i]->Err_0@),
                    )
            },
            None => {
                &&& outcomes@.len() < allowed(retries as int)
                &&& r.0@.len() == outcomes@.len()
                &&& forall|i: int| 0 <= i < outcomes@.len() ==> (#[trigger] outcomes@[i]) is Err
                &&& forall|i: int|
                    0 <= i < outcomes@.len() ==> crate::laws::paint::reads(
                        #[trigger] r.0@[i],
                        trying_again(outcomes@[i]->Err_0@),
                    )
            },
        },
{
    let views = crate::retry::outcomes_view(outcomes@);
    let lines = crate::retry::attempt_lines(retries as int, 0, views);
    attempts_run(retries as int, 0, views);
    crate::laws::paint::lines_are_viewed_one_by_one(r.0@);
    assert(lines.len() == r.0@.len());
    assert forall|i: int| 0 <= i < views.len() implies #[trigger] views[i]
        == crate::request::text_result(outcomes@[i]) by {}
    match r.1 {
        Some((made, result)) => {
            assert(views[made - 1] == crate::request::text_result(result));
            assert forall|i: int| 0 <= i < made - 1 implies (#[trigger] outcomes@[i]) is Err by {
                assert(views[i] is Err);
            }
            assert forall|i: int| 0 <= i < made - 1 implies crate::laws::paint::reads(
                #[trigger] r.0@[i],
                trying_again(outcomes@[i]->Err_0@),
            ) by {
                assert(lines[i] == trying_again(views[i]->Err_0));
            }
            if result is Err {
                assert(crate::laws::paint::reads(r.0@[made - 1], lines[made - 1]));
            }
        },
        None => {
            assert forall|i: int| 0 <= i < outcomes@.len() implies (
            #[trigger] outcomes@[i]) is Err by {
                assert(views[i] is Err);
            }
            assert forall|i: int| 0 <= i < outcomes@.len() implies crate::laws::paint::reads(
                #[trigger] r.0@[i],
                trying_again(outcomes@[i]->Err_0@),
            ) by {
                assert(lines[i] == trying_again(views[i]->Err_0));
            }
        },
    }
}

proof fn attempts_run(retries: int, tries: int, outcomes: Seq<Result<Seq<char>, Seq<char>>>)
    requires
        0 <= tries < allowed(retries),
    ensures
        ({
            let lines = crate::retry::attempt_lines(retries, tries, outcomes);
            match crate::retry::ended(retries, tries, outcomes) {
                Some((n, r)) => {
                    &&& 1 <= n <= allowed(retries) - tries
                    &&& n <= outcomes.len()
                    &&& r == outcomes[n - 1]
                    &&& forall|i: int| 0 <= i < n - 1 ==> (#[trigger] outcomes[i]) is Err
                    &&& r is Err ==> n == allowed(retries) - tries && lines[n - 1] == none_left()
                    &&& lines.len() == if r is Ok {
                        n - 1
                    } else {
                        n
                    }
                    &&& forall|i: int|
                        0 <= i < n - 1 ==> #[trigger] lines[i] == trying_again(
                            outcomes[i]->Err_0,
                        )
                },
                None => {
                    &&& outcomes.len() < allowed(retries) - tries
                    &&& lines.len() == outcomes.len()
                    &&& forall|i: int| 0 <= i < outcomes.len() ==> (#[trigger] outcomes[i]) is Err
                    &&& forall|i: int|
                        0 <= i < outcomes.len() ==> #[trigger] lines[i] == trying_again(
                            outcomes[i]->Err_0,
                        )
                },
            }
        }),
    decreases outcomes.len(),
{
    let lines = crate::retry::attempt_lines(retries, tries, outcomes);
    if outcomes.len() > 0 && outcomes[0] is Err && tries + 1 < allowed(retries) {
        let rest = outcomes.drop_first();
        let fewer = crate::retry::attempt_lines(retries, tries + 1, rest);
        attempts_run(retries, tries + 1, rest);
        assert(lines == seq![trying_again(outcomes[0]->Err_0)] + fewer);
        assert(lines[0] == trying_again(outcomes[0]->Err_0));
        assert forall|i: int| 0 < i < outcomes.len() implies #[trigger] outcomes[i] == rest[i
            - 1] by {}
        assert forall|i: int| 0 < i < lines.len() implies #[trigger] lines[i] == fewer[i - 1] by {}
        match crate::retry::ended(retries, tries + 1, rest) {
            Some((n, r)) => {
                assert(outcomes[n] == rest[n - 1]);
                assert(r is Err ==> lines[n] == fewer[n - 1]);
                assert forall|i: int| 0 <= i < n implies (#[trigger] outcomes[i]) is Err by {
                    assert(i > 0 ==> outcomes[i] == rest[i - 1]);
                }
                assert forall|i: int| 0 <= i < n implies #[trigger] lines[i] == trying_again(
                    outcomes[i]->Err_0,
                ) by {
                    assert(i > 0 ==> outcomes[i] == rest[i - 1]);
                    assert(i > 0 ==> lines[i] == fewer[i - 1]);
                }
            },
            None => {
                assert forall|i: int| 0 <= i < outcomes.len() implies (
                #[trigger] outcomes[i]) is Err by {
                    assert(i > 0 ==> outcomes[i] == rest[i - 1]);
                }
                assert forall|i: int| 0 <= i < outcomes.len() implies #[trigger] lines[i]
                    == trying_again(outcomes[i]->Err_0) by {
                    assert(i > 0 ==> outcomes[i] == rest[i - 1]);
                    assert(i > 0 ==> lines[i] == fewer[i - 1]);
                }
            },
        }
    }
}

} // verus!
