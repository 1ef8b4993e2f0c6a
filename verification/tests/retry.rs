use github_audit::paint::Style;
use github_audit::retry::{execute_with_retries, Attempt, Retries};

/// Makes attempts with the given outcomes until they end: how many were made, and how
/// they ended.
fn run(retries: u8, outcomes: Vec<Result<&str, &str>>) -> (usize, Result<String, String>) {
    let mut attempts = Retries::new(retries);
    for (i, outcome) in outcomes.into_iter().enumerate() {
        let outcome = outcome.map(str::to_string).map_err(str::to_string);
        match attempts.attempt(outcome) {
            Attempt::Succeeded(content) => return (i + 1, Ok(content)),
            Attempt::GaveUp(_, error) => return (i + 1, Err(error)),
            Attempt::Again(_) => {}
        }
    }
    panic!("the attempts did not end");
}

#[test]
fn stops_at_the_first_success() {
    assert_eq!(
        run(3, vec![Err("e1"), Ok("c"), Err("e2")]),
        (2, Ok("c".to_string()))
    );
}

#[test]
fn gives_up_with_the_last_error() {
    assert_eq!(
        run(3, vec![Err("e1"), Err("e2"), Err("e3"), Ok("c")]),
        (3, Err("e3".to_string()))
    );
}

#[test]
fn makes_one_attempt_at_least() {
    assert_eq!(run(0, vec![Ok("c")]), (1, Ok("c".to_string())));
    assert_eq!(run(0, vec![Err("e")]), (1, Err("e".to_string())));
    assert_eq!(run(1, vec![Err("e")]), (1, Err("e".to_string())));
}

#[test]
fn counts_up_to_the_largest_number_of_attempts() {
    assert_eq!(run(255, vec![Err("e"); 255]), (255, Err("e".to_string())));
}

#[test]
fn says_why_it_tries_again_and_that_it_gives_up() {
    let mut attempts = Retries::new(2);
    match attempts.attempt(Err("timeout".to_string())) {
        Attempt::Again(line) => {
            let segments: Vec<(Style, &str)> = line
                .segments
                .iter()
                .map(|s| (s.style, s.text.as_str()))
                .collect();
            assert_eq!(
                segments,
                vec![
                    (
                        Style::Yellow,
                        "Going to retry because of a GitHub request error:"
                    ),
                    (Style::Plain, ": "),
                    (Style::Red, "timeout"),
                ]
            );
        }
        other => panic!("{:?}", other),
    }
    match attempts.attempt(Err("timeout".to_string())) {
        Attempt::GaveUp(line, _) => {
            assert_eq!(line.segments.len(), 1);
            assert_eq!(line.segments[0].style, Style::Red);
            assert_eq!(line.segments[0].text, "Retries exhausted");
        }
        other => panic!("{:?}", other),
    }
}

#[test]
fn executes_a_request_until_its_attempts_end() {
    let outcome = |outcome: Result<&str, &str>| outcome.map(str::to_string).map_err(str::to_string);
    let texts = |outcomes: Vec<Result<String, String>>| {
        let (lines, end) = execute_with_retries(2, outcomes);
        let texts: Vec<String> = lines
            .iter()
            .map(|line| line.segments.iter().map(|s| s.text.as_str()).collect())
            .collect();
        (texts, end)
    };
    let again = "Going to retry because of a GitHub request error:: e1".to_string();
    let exhausted = "Retries exhausted".to_string();
    assert_eq!(
        texts(vec![outcome(Err("e1")), outcome(Ok("c")), outcome(Ok("d"))]),
        (vec![again.clone()], Some((2, Ok("c".to_string()))))
    );
    assert_eq!(
        texts(vec![
            outcome(Err("e1")),
            outcome(Err("e2")),
            outcome(Ok("c"))
        ]),
        (
            vec![again.clone(), exhausted],
            Some((2, Err("e2".to_string())))
        )
    );
    assert_eq!(texts(vec![outcome(Err("e1"))]), (vec![again], None));
    assert_eq!(texts(vec![]), (vec![], None));
}
