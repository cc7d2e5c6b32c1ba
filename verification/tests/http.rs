use uk_property_search_data::http::pair;
use uk_property_search_data::http::Exchange;
use uk_property_search_data::http::Http;
use uk_property_search_data::http::HttpOptions;
use uk_property_search_data::http::Method;
use uk_property_search_data::http::Phase;
use uk_property_search_data::http::Signal;
use uk_property_search_data::http::Step;
use uk_property_search_data::retry::Attempts;
use uk_property_search_data::retry::Backoff;
use uk_property_search_data::retry::Decision;
use uk_property_search_data::retry::Outcome;
use uk_property_search_data::retry::RetryPolicy;

fn options(connections: Option<usize>, retries: Option<u32>, referer: Option<&str>) -> Option<HttpOptions> {
    Some(HttpOptions {
        max_parallel_connections: connections,
        max_retry_count: retries,
        referer: referer.map(|r| r.to_owned()),
    })
}

fn policy(max_retries: u32) -> RetryPolicy {
    RetryPolicy { max_retries, base_delay_millis: 100, backoff: Backoff::Exponential }
}

fn run(policy: &RetryPolicy, outcomes: &[Outcome]) -> (Vec<Step>, Exchange) {
    let mut exchange = Exchange::new();
    let mut steps = vec![exchange.advance(policy, Signal::Admitted)];
    for outcome in outcomes {
        let step = exchange.advance(policy, Signal::Answered(*outcome));
        steps.push(step);
        if let Step::Pause { .. } = step {
            steps.push(exchange.advance(policy, Signal::Rested));
        }
    }
    (steps, exchange)
}

#[test]
fn settings_come_from_the_options_or_else_by_default() {
    let plain = Http::new(10, 3, None);
    assert_eq!((plain.max_parallel_connections, plain.max_retry_count, plain.referer), (10, 3, None));
    let unset = Http::new(10, 3, options(None, None, None));
    assert_eq!((unset.max_parallel_connections, unset.max_retry_count, unset.referer), (10, 3, None));
    let set = Http::new(10, 3, options(Some(5), Some(0), Some("https://www.rightmove.co.uk/")));
    assert_eq!(set.max_parallel_connections, 5);
    assert_eq!(set.max_retry_count, 0);
    assert_eq!(set.referer, Some("https://www.rightmove.co.uk/".to_owned()));
    let half = Http::new(10, 3, options(Some(5), None, None));
    assert_eq!((half.max_parallel_connections, half.max_retry_count), (5, 3));
}

#[test]
fn headers_name_the_sender_and_the_referer() {
    let agent = "Mozilla/5.0 (Windows NT 6.2; Win64; x64) AppleWebKit/537.36 (KHTML, like Gecko) Chrome/56.0.2924.87 Safari/537.36";
    let plain = Http::new(10, 3, None).default_headers();
    assert_eq!(plain, vec![("user-agent".to_owned(), agent.to_owned())]);
    let referred = Http::new(10, 3, options(None, None, Some("https://www.rightmove.co.uk/"))).default_headers();
    assert_eq!(
        referred,
        vec![
            ("user-agent".to_owned(), agent.to_owned()),
            ("referer".to_owned(), "https://www.rightmove.co.uk/".to_owned()),
        ]
    );
}

#[test]
fn the_gate_and_the_retries_follow_the_settings() {
    let http = Http::new(10, 3, options(Some(5), None, None));
    let gate = http.gate();
    assert_eq!((gate.capacity(), gate.in_flight()), (5, 0));
    assert_eq!(
        http.retry_policy(250),
        RetryPolicy { max_retries: 3, base_delay_millis: 250, backoff: Backoff::Exponential }
    );
}

#[test]
fn requests_are_as_they_were_asked_for() {
    let http = Http::new(10, 3, None);
    let get = http.get("https://www.duckduckgo.com");
    assert_eq!(get.method, Method::Get);
    assert_eq!(get.url, "https://www.duckduckgo.com");
    assert!(get.query.is_none() && get.form.is_none() && get.json.is_none());
    assert!(get.follow_redirects);

    let probe = http.get_with_options("https://bbc.co.uk/301", vec![], false);
    assert_eq!(probe.method, Method::Get);
    assert_eq!(probe.url, "https://bbc.co.uk/301");
    assert_eq!(probe.query, Some(vec![]));
    assert!(probe.form.is_none() && probe.json.is_none());
    assert!(!probe.follow_redirects);

    let form = http.post_with_form("https://httpbin.org/post", vec![pair("myKey", "myValue")]);
    assert_eq!(form.method, Method::Post);
    assert_eq!(form.form, Some(vec![("myKey".to_owned(), "myValue".to_owned())]));
    assert!(form.query.is_none() && form.json.is_none());
    assert!(form.follow_redirects);

    let json = http.post_with_json("https://httpbin.org/post", "\"myString\"".to_owned());
    assert_eq!(json.method, Method::Post);
    assert_eq!(json.json, Some("\"myString\"".to_owned()));
    assert!(json.query.is_none() && json.form.is_none());
    assert!(json.follow_redirects);
}

#[test]
fn a_request_that_succeeds_is_sent_once() {
    let (steps, exchange) = run(&policy(3), &[Outcome::Success]);
    assert_eq!(steps, vec![Step::Send, Step::Release { verdict: Decision::Done }]);
    assert_eq!(exchange.phase, Phase::Finished);
    assert_eq!(exchange.attempts, Attempts { retries: 0 });
}

#[test]
fn a_request_that_fails_twice_and_then_succeeds() {
    let outcomes = [Outcome::Transient, Outcome::Transient, Outcome::Success];
    let (steps, exchange) = run(&policy(2), &outcomes);
    assert_eq!(
        steps,
        vec![
            Step::Send,
            Step::Pause { delay_millis: 100 },
            Step::Send,
            Step::Pause { delay_millis: 200 },
            Step::Send,
            Step::Release { verdict: Decision::Done },
        ]
    );
    assert_eq!(exchange.phase, Phase::Finished);

    let (short, exchange) = run(&policy(1), &outcomes[..2]);
    assert_eq!(
        short,
        vec![
            Step::Send,
            Step::Pause { delay_millis: 100 },
            Step::Send,
            Step::Release { verdict: Decision::Exhausted },
        ]
    );
    assert_eq!(exchange.phase, Phase::Finished);
}

#[test]
fn a_request_that_fails_for_good_returns_at_once() {
    let (steps, exchange) = run(&policy(3), &[Outcome::Fatal]);
    assert_eq!(steps, vec![Step::Send, Step::Release { verdict: Decision::Failed }]);
    assert_eq!(exchange.attempts, Attempts { retries: 0 });
}

#[test]
fn the_slot_is_released_once_on_every_way_out() {
    let ways: Vec<Vec<Outcome>> = vec![
        vec![Outcome::Success],
        vec![Outcome::Fatal],
        vec![Outcome::Transient, Outcome::Success],
        vec![Outcome::Transient, Outcome::Fatal],
        vec![Outcome::Transient, Outcome::Transient, Outcome::Transient],
    ];
    for way in ways {
        let (steps, exchange) = run(&policy(2), &way);
        let releases = steps.iter().filter(|s| matches!(s, Step::Release { .. })).count();
        assert_eq!(releases, 1);
        assert!(matches!(steps.last(), Some(Step::Release { .. })));
        assert_eq!(exchange.phase, Phase::Finished);
    }
}

#[test]
fn what_does_not_fit_changes_nothing() {
    let policy = policy(2);
    let mut exchange = Exchange::new();
    assert_eq!(exchange.advance(&policy, Signal::Rested), Step::Stay);
    assert_eq!(exchange.advance(&policy, Signal::Answered(Outcome::Success)), Step::Stay);
    assert_eq!(exchange, Exchange::new());
    assert_eq!(exchange.advance(&policy, Signal::Admitted), Step::Send);
    assert_eq!(exchange.advance(&policy, Signal::Admitted), Step::Stay);
    assert_eq!(exchange.advance(&policy, Signal::Rested), Step::Stay);
    assert_eq!(exchange.phase, Phase::Sending);
    assert_eq!(exchange.advance(&policy, Signal::Answered(Outcome::Success)), Step::Release { verdict: Decision::Done });
    assert_eq!(exchange.advance(&policy, Signal::Admitted), Step::Stay);
    assert_eq!(exchange.advance(&policy, Signal::Answered(Outcome::Transient)), Step::Stay);
    assert_eq!(exchange.phase, Phase::Finished);
}
