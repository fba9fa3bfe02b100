use batch_fetch::dispatch::{Action, Dispatcher, Report};
use batch_fetch::outcome::{FetchOutcome, FetchResponse};

fn batch_of(urls: &[&str], rate_limit: Option<u32>) -> Dispatcher {
    Dispatcher::new(urls.iter().map(|u| u.to_string()).collect(), rate_limit)
}

fn html_page(body: &str) -> FetchResponse {
    FetchResponse::Replied {
        status: 200,
        content_type: Some(b"text/html".to_vec()),
        body: Some(body.to_string()),
    }
}

fn status_only(status: u16) -> FetchResponse {
    FetchResponse::Replied { status, content_type: None, body: None }
}

fn refused() -> FetchResponse {
    FetchResponse::TransportFailure { message: "connection refused".to_string() }
}

/// Runs a batch as a driver would that awaits each fetch before the next.
fn run_in_turn(mut dispatcher: Dispatcher, mut respond: impl FnMut(&str) -> FetchResponse)
    -> (Vec<FetchOutcome>, Vec<Action>) {
    let mut actions = Vec::new();
    loop {
        let action = dispatcher.next_action();
        actions.push(action);
        match action {
            Action::Start { index } => {
                let url = dispatcher.url(index).unwrap().clone();
                assert_eq!(dispatcher.start(), Some(index));
                assert!(dispatcher.complete(index, respond(&url)));
            }
            Action::Pause { .. } => dispatcher.pause_elapsed(),
            Action::AwaitCompletion => panic!("nothing is in flight"),
            Action::Finished => break,
        }
    }
    (dispatcher.into_outcomes().unwrap(), actions)
}

#[test]
fn empty_batch_is_finished_at_once() {
    let dispatcher = batch_of(&[], None);
    assert_eq!(dispatcher.len(), 0);
    assert_eq!(dispatcher.next_action(), Action::Finished);
    assert!(dispatcher.is_finished());
    assert_eq!(dispatcher.in_flight(), 0);
    let outcomes = dispatcher.into_outcomes().unwrap();
    assert!(outcomes.is_empty());
}

#[test]
fn empty_batch_starts_no_fetch() {
    let mut dispatcher = batch_of(&[], Some(3));
    assert_eq!(dispatcher.start(), None);
    assert!(!dispatcher.complete(0, refused()));
    assert_eq!(dispatcher.next_action(), Action::Finished);
}

#[test]
fn dispatcher_takes_rate_and_pause_from_the_rate_limit() {
    let dispatcher = batch_of(&["a"], None);
    assert_eq!(dispatcher.rate(), 5);
    assert_eq!(dispatcher.pause_millis(), 200);
    let dispatcher = batch_of(&["a"], Some(0));
    assert_eq!(dispatcher.rate(), 1);
    assert_eq!(dispatcher.pause_millis(), 1000);
    let dispatcher = batch_of(&["a"], Some(4));
    assert_eq!(dispatcher.rate(), 4);
    assert_eq!(dispatcher.pause_millis(), 250);
}

#[test]
fn urls_are_kept_by_position() {
    let dispatcher = batch_of(&["x", "y", "x"], None);
    assert_eq!(dispatcher.len(), 3);
    assert_eq!(dispatcher.url(0), Some(&"x".to_string()));
    assert_eq!(dispatcher.url(1), Some(&"y".to_string()));
    assert_eq!(dispatcher.url(2), Some(&"x".to_string()));
    assert_eq!(dispatcher.url(3), None);
}

#[test]
fn outcomes_keep_input_order_in_turn() {
    let urls = ["http://a/", "http://b/", "http://c/"];
    let (outcomes, _) = run_in_turn(batch_of(&urls, Some(2)), |url| html_page(url));
    assert_eq!(outcomes.len(), urls.len());
    for (i, url) in urls.iter().enumerate() {
        assert_eq!(outcomes[i].url, *url);
        assert!(outcomes[i].success);
        assert_eq!(outcomes[i].snippet, Some(url.to_string()));
    }
}

#[test]
fn outcomes_keep_input_order_when_fetches_complete_out_of_order() {
    let mut dispatcher = batch_of(&["u0", "u1", "u2"], Some(3));
    for expected in 0..3 {
        assert_eq!(dispatcher.next_action(), Action::Start { index: expected });
        assert_eq!(dispatcher.start(), Some(expected));
        if expected < 2 {
            assert_eq!(dispatcher.next_action(), Action::Pause { millis: 333 });
            dispatcher.pause_elapsed();
        }
    }
    assert_eq!(dispatcher.in_flight(), 3);
    assert_eq!(dispatcher.next_action(), Action::AwaitCompletion);
    assert!(dispatcher.complete(2, status_only(500)));
    assert!(dispatcher.complete(0, html_page("zero")));
    assert_eq!(dispatcher.next_action(), Action::AwaitCompletion);
    assert!(!dispatcher.is_finished());
    assert!(dispatcher.complete(1, refused()));
    assert_eq!(dispatcher.next_action(), Action::Finished);
    let outcomes = dispatcher.into_outcomes().unwrap();
    assert_eq!(outcomes.len(), 3);
    assert_eq!(outcomes[0].url, "u0");
    assert_eq!(outcomes[0].snippet, Some("zero".to_string()));
    assert_eq!(outcomes[1].url, "u1");
    assert_eq!(outcomes[1].error, Some("connection refused".to_string()));
    assert_eq!(outcomes[2].url, "u2");
    assert_eq!(outcomes[2].error, Some("HTTP 500".to_string()));
}

#[test]
fn duplicate_urls_each_get_their_outcome() {
    let mut answers = vec![status_only(404), html_page("second")];
    answers.reverse();
    let (outcomes, _) = run_in_turn(batch_of(&["same", "same"], None), |_| answers.pop().unwrap());
    assert_eq!(outcomes.len(), 2);
    assert_eq!(outcomes[0].url, "same");
    assert_eq!(outcomes[0].error, Some("HTTP 404".to_string()));
    assert_eq!(outcomes[1].url, "same");
    assert_eq!(outcomes[1].snippet, Some("second".to_string()));
}

#[test]
fn in_flight_never_exceeds_rate() {
    let urls = ["a", "b", "c", "d", "e"];
    let mut dispatcher = batch_of(&urls, Some(2));
    let mut in_flight: Vec<usize> = Vec::new();
    let mut started = 0;
    loop {
        assert!(dispatcher.in_flight() <= 2);
        assert_eq!(dispatcher.in_flight(), in_flight.len());
        match dispatcher.next_action() {
            Action::Start { index } => {
                assert!(in_flight.len() < 2);
                assert_eq!(dispatcher.start(), Some(index));
                in_flight.push(index);
                started += 1;
            }
            Action::Pause { millis } => {
                assert_eq!(millis, 500);
                dispatcher.pause_elapsed();
            }
            Action::AwaitCompletion => {
                assert!(in_flight.len() == 2 || started == urls.len());
                let index = in_flight.remove(0);
                assert!(dispatcher.complete(index, status_only(200)));
            }
            Action::Finished => break,
        }
    }
    assert_eq!(started, 5);
    assert!(in_flight.is_empty());
}

#[test]
fn saturated_dispatcher_refuses_to_start() {
    let mut dispatcher = batch_of(&["a", "b"], Some(1));
    assert_eq!(dispatcher.start(), Some(0));
    dispatcher.pause_elapsed();
    assert_eq!(dispatcher.next_action(), Action::AwaitCompletion);
    assert_eq!(dispatcher.start(), None);
    assert_eq!(dispatcher.in_flight(), 1);
    assert!(dispatcher.complete(0, refused()));
    assert_eq!(dispatcher.next_action(), Action::Start { index: 1 });
    assert_eq!(dispatcher.start(), Some(1));
}

#[test]
fn pause_for_rate_five_is_two_hundred_millis() {
    let mut dispatcher = batch_of(&["a", "b", "c"], Some(5));
    assert_eq!(dispatcher.next_action(), Action::Start { index: 0 });
    assert_eq!(dispatcher.start(), Some(0));
    assert_eq!(dispatcher.next_action(), Action::Pause { millis: 200 });
    assert!(dispatcher.complete(0, status_only(200)));
    assert_eq!(dispatcher.next_action(), Action::Pause { millis: 200 });
}

#[test]
fn no_start_before_the_pause_has_elapsed() {
    let mut dispatcher = batch_of(&["a", "b"], Some(5));
    assert_eq!(dispatcher.start(), Some(0));
    assert_eq!(dispatcher.start(), None);
    assert!(dispatcher.complete(0, refused()));
    assert_eq!(dispatcher.start(), None);
    assert_eq!(dispatcher.next_action(), Action::Pause { millis: 200 });
    dispatcher.pause_elapsed();
    assert_eq!(dispatcher.next_action(), Action::Start { index: 1 });
    assert_eq!(dispatcher.start(), Some(1));
}

#[test]
fn a_pause_stands_between_any_two_starts() {
    let (_, actions) = run_in_turn(batch_of(&["a", "b", "c", "d"], None), |_| status_only(200));
    assert_eq!(
        actions,
        vec![
            Action::Start { index: 0 },
            Action::Pause { millis: 200 },
            Action::Start { index: 1 },
            Action::Pause { millis: 200 },
            Action::Start { index: 2 },
            Action::Pause { millis: 200 },
            Action::Start { index: 3 },
            Action::Finished,
        ]
    );
}

#[test]
fn no_pause_is_asked_after_the_last_start() {
    let mut dispatcher = batch_of(&["only"], Some(5));
    assert_eq!(dispatcher.start(), Some(0));
    assert_eq!(dispatcher.next_action(), Action::AwaitCompletion);
    assert!(dispatcher.complete(0, refused()));
    assert_eq!(dispatcher.next_action(), Action::Finished);
}

#[test]
fn transport_failure_leaves_other_urls_alone() {
    let (outcomes, _) = run_in_turn(batch_of(&["good", "bad", "fine"], None), |url| {
        if url == "bad" {
            refused()
        } else {
            html_page(url)
        }
    });
    assert_eq!(outcomes.len(), 3);
    assert!(outcomes[0].success);
    assert_eq!(outcomes[0].snippet, Some("good".to_string()));
    assert!(!outcomes[1].success);
    assert_eq!(outcomes[1].url, "bad");
    assert_eq!(outcomes[1].error, Some("connection refused".to_string()));
    assert!(!outcomes[1].error.clone().unwrap().is_empty());
    assert!(outcomes[2].success);
    assert_eq!(outcomes[2].snippet, Some("fine".to_string()));
}

#[test]
fn failure_frees_its_slot() {
    let mut dispatcher = batch_of(&["a", "b"], Some(1));
    assert_eq!(dispatcher.start(), Some(0));
    assert_eq!(dispatcher.in_flight(), 1);
    assert!(dispatcher.complete(0, refused()));
    assert_eq!(dispatcher.in_flight(), 0);
}

#[test]
fn completion_is_taken_once_and_only_for_fetches_in_flight() {
    let mut dispatcher = batch_of(&["a", "b"], Some(2));
    assert!(!dispatcher.complete(0, refused()));
    assert_eq!(dispatcher.start(), Some(0));
    assert!(!dispatcher.complete(1, refused()));
    assert!(!dispatcher.complete(2, refused()));
    assert!(!dispatcher.complete(usize::MAX, refused()));
    assert!(dispatcher.complete(0, status_only(404)));
    assert!(!dispatcher.complete(0, html_page("late")));
    dispatcher.pause_elapsed();
    assert_eq!(dispatcher.start(), Some(1));
    assert!(dispatcher.complete(1, refused()));
    let outcomes = dispatcher.into_outcomes().unwrap();
    assert_eq!(outcomes[0].error, Some("HTTP 404".to_string()));
}

#[test]
fn outcomes_are_not_handed_out_early() {
    let dispatcher = batch_of(&["a"], None);
    assert!(dispatcher.into_outcomes().is_none());
    let mut dispatcher = batch_of(&["a"], None);
    assert_eq!(dispatcher.start(), Some(0));
    assert!(!dispatcher.is_finished());
    assert!(dispatcher.into_outcomes().is_none());
}

#[test]
fn step_takes_a_report_and_answers_with_the_next_action() {
    let mut dispatcher = batch_of(&["a", "b"], Some(2));
    assert_eq!(dispatcher.step(Report::Started), Action::Pause { millis: 500 });
    assert_eq!(dispatcher.step(Report::PauseElapsed), Action::Start { index: 1 });
    assert_eq!(dispatcher.step(Report::Started), Action::AwaitCompletion);
    assert_eq!(
        dispatcher.step(Report::Completed { index: 1, response: status_only(301) }),
        Action::AwaitCompletion
    );
    assert_eq!(
        dispatcher.step(Report::Completed { index: 0, response: html_page("first") }),
        Action::Finished
    );
    let outcomes = dispatcher.into_outcomes().unwrap();
    assert_eq!(outcomes[0].snippet, Some("first".to_string()));
    assert_eq!(outcomes[1].error, Some("HTTP 301".to_string()));
}

#[test]
fn step_ignores_reports_that_do_not_fit() {
    let mut dispatcher = batch_of(&["a"], Some(1));
    assert_eq!(
        dispatcher.step(Report::Completed { index: 0, response: refused() }),
        Action::Start { index: 0 }
    );
    assert_eq!(dispatcher.step(Report::PauseElapsed), Action::Start { index: 0 });
    assert_eq!(dispatcher.step(Report::Started), Action::AwaitCompletion);
    assert_eq!(dispatcher.step(Report::Started), Action::AwaitCompletion);
    assert_eq!(dispatcher.in_flight(), 1);
}

#[test]
fn every_filed_outcome_has_one_of_snippet_and_error() {
    let mut answers = vec![refused(), status_only(200), html_page("p"), status_only(418)];
    answers.reverse();
    let (outcomes, _) =
        run_in_turn(batch_of(&["a", "b", "c", "d"], Some(9)), |_| answers.pop().unwrap());
    assert_eq!(outcomes.len(), 4);
    for outcome in &outcomes {
        assert_eq!(outcome.success, outcome.snippet.is_some());
        assert_eq!(outcome.success, outcome.error.is_none());
    }
    assert_eq!(outcomes.iter().filter(|o| o.success).count(), 1);
}

#[test]
fn transport_failure_without_message_is_filed_with_a_reason() {
    let mut dispatcher = batch_of(&["a", "b"], Some(2));
    assert_eq!(dispatcher.start(), Some(0));
    dispatcher.pause_elapsed();
    assert_eq!(dispatcher.start(), Some(1));
    assert!(dispatcher.complete(
        1,
        FetchResponse::TransportFailure { message: String::new() }
    ));
    assert!(dispatcher.complete(0, html_page("fine")));
    let outcomes = dispatcher.into_outcomes().unwrap();
    assert_eq!(outcomes.len(), 2);
    assert!(outcomes[0].success);
    assert_eq!(outcomes[1].url, "b");
    assert_eq!(outcomes[1].error, Some("Transport error".to_string()));
}
