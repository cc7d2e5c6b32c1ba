//! The settings of an HTTP client and the requests it is asked to make.

use crate::gate::ConcurrencyGate;
use crate::retry::Attempts;
use crate::retry::Backoff;
use crate::retry::Decision;
use crate::retry::Outcome;
use crate::retry::RetryPolicy;
use vstd::prelude::*;

verus! {

/// How every request names its sender.
pub const USER_AGENT: &'static str =
    "Mozilla/5.0 (Windows NT 6.2; Win64; x64) AppleWebKit/537.36 (KHTML, like Gecko) Chrome/56.0.2924.87 Safari/537.36";

/// What a client sets otherwise than by default.
#[derive(Clone, Debug)]
pub struct HttpOptions {
    pub max_parallel_connections: Option<usize>,
    pub max_retry_count: Option<u32>,
    pub referer: Option<String>,
}

/// The settings of a client.
#[derive(Debug)]
pub struct Http {
    pub max_parallel_connections: usize,
    pub max_retry_count: u32,
    pub referer: Option<String>,
}

#[derive(Clone, Copy, Debug, PartialEq, Eq, Structural)]
pub enum Method {
    Get,
    Post,
}

/// One request, as the client is to send it.
#[derive(Debug)]
pub struct Request {
    pub method: Method,
    pub url: String,
    pub query: Option<Vec<(String, String)>>,
    pub form: Option<Vec<(String, String)>>,
    pub json: Option<String>,
    pub follow_redirects: bool,
}

/// The characters of the names and values in a list of pairs.
pub open spec fn pairs_of(pairs: Seq<(String, String)>) -> Seq<(Seq<char>, Seq<char>)> {
    Seq::new(pairs.len(), |i: int| (pairs[i].0@, pairs[i].1@))
}

/// A name and its value.
pub fn pair(name: &str, value: &str) -> (p: (String, String))
    ensures
        p.0@ == name@,
        p.1@ == value@,
{
    (name.to_owned(), value.to_owned())
}

impl Http {
    /// The headers of every request: the user agent, and the referer where
    /// one is set.
    pub open spec fn headers_of(self) -> Seq<(Seq<char>, Seq<char>)> {
        match self.referer {
            Some(referer) => seq![("user-agent"@, USER_AGENT@), ("referer"@, referer@)],
            None => seq![("user-agent"@, USER_AGENT@)],
        }
    }

    /// The settings of a client: each as the options set it, or else by
    /// default; no referer unless the options set one.
    pub fn new(
        default_max_parallel_connections: usize,
        default_max_retry_count: u32,
        options: Option<HttpOptions>,
    ) -> (http: Http)
        ensures
            http.max_parallel_connections == match options {
                Some(HttpOptions { max_parallel_connections: Some(n), .. }) => n,
                _ => default_max_parallel_connections,
            },
            http.max_retry_count == match options {
                Some(HttpOptions { max_retry_count: Some(n), .. }) => n,
                _ => default_max_retry_count,
            },
            http.referer == match options {
                Some(o) => o.referer,
                None => None,
            },
    {
        match options {
            Some(o) => Http {
                max_parallel_connections: match o.max_parallel_connections {
                    Some(n) => n,
                    None => default_max_parallel_connections,
                },
                max_retry_count: match o.max_retry_count {
                    Some(n) => n,
                    None => default_max_retry_count,
                },
                referer: o.referer,
            },
            None => Http {
                max_parallel_connections: default_max_parallel_connections,
                max_retry_count: default_max_retry_count,
                referer: None,
            },
        }
    }

    /// The headers of every request.
    pub fn default_headers(&self) -> (headers: Vec<(String, String)>)
        ensures
            pairs_of(headers@) == self.headers_of(),
    {
        let mut headers: Vec<(String, String)> = Vec::new();
        headers.push(pair("user-agent", USER_AGENT));
        match &self.referer {
            Some(referer) => {
                headers.push(pair("referer", referer.as_str()));
            },
            None => {},
        }
        assert(pairs_of(headers@) =~= self.headers_of());
        headers
    }

    /// An idle gate with a slot for each connection that may be open at
    /// once.
    pub fn gate(&self) -> (gate: ConcurrencyGate)
        ensures
            gate.slots() == self.max_parallel_connections,
            gate.taken() == 0,
    {
        ConcurrencyGate::new(self.max_parallel_connections)
    }

    /// How transient failures are tried again: as often as the settings
    /// say, after pauses that double from `base_delay_millis`.
    pub fn retry_policy(&self, base_delay_millis: u64) -> (policy: RetryPolicy)
        ensures
            policy == (RetryPolicy {
                max_retries: self.max_retry_count,
                base_delay_millis,
                backoff: Backoff::Exponential,
            }),
    {
        RetryPolicy { max_retries: self.max_retry_count, base_delay_millis, backoff: Backoff::Exponential }
    }

    /// A GET of `url` that follows redirects.
    pub fn get(&self, url: &str) -> (request: Request)
        ensures
            request.method == Method::Get,
            request.url@ == url@,
            request.query is None,
            request.form is None,
            request.json is None,
            request.follow_redirects,
    {
        Request {
            method: Method::Get,
            url: url.to_owned(),
            query: None,
            form: None,
            json: None,
            follow_redirects: true,
        }
    }

    /// A GET of `url` with a query, which follows redirects or hands them
    /// back as they come.
    pub fn get_with_options(&self, url: &str, query: Vec<(String, String)>, follow_redirects: bool) -> (request:
        Request)
        ensures
            request.method == Method::Get,
            request.url@ == url@,
            request.query == Some(query),
            request.form is None,
            request.json is None,
            request.follow_redirects == follow_redirects,
    {
        Request {
            method: Method::Get,
            url: url.to_owned(),
            query: Some(query),
            form: None,
            json: None,
            follow_redirects,
        }
    }

    /// A POST of a form to `url` that follows redirects.
    pub fn post_with_form(&self, url: &str, form: Vec<(String, String)>) -> (request: Request)
        ensures
            request.method == Method::Post,
            request.url@ == url@,
            request.query is None,
            request.form == Some(form),
            request.json is None,
            request.follow_redirects,
    {
        Request {
            method: Method::Post,
            url: url.to_owned(),
            query: None,
            form: Some(form),
            json: None,
            follow_redirects: true,
        }
    }

    /// A POST of a JSON text to `url` that follows redirects.
    pub fn post_with_json(&self, url: &str, json: String) -> (request: Request)
        ensures
            request.method == Method::Post,
            request.url@ == url@,
            request.query is None,
            request.form is None,
            request.json == Some(json),
            request.follow_redirects,
    {
        Request {
            method: Method::Post,
            url: url.to_owned(),
            query: None,
            form: None,
            json: Some(json),
            follow_redirects: true,
        }
    }
}

/// Where a request stands between its call and its return.
#[derive(Clone, Copy, Debug, PartialEq, Eq, Structural)]
pub enum Phase {
    /// It waits for a slot.
    Waiting,
    /// It holds a slot, and an attempt is under way.
    Sending,
    /// It holds a slot, and pauses before its next attempt.
    Pausing,
    /// It has handed its slot back and returned.
    Finished,
}

/// What happens to a request.
#[derive(Clone, Copy, Debug, PartialEq, Eq, Structural)]
pub enum Signal {
    /// It was given a slot.
    Admitted,
    /// Its attempt ended.
    Answered(Outcome),
    /// Its pause is over.
    Rested,
}

/// What the client is to do for a request.
#[derive(Clone, Copy, Debug, PartialEq, Eq, Structural)]
pub enum Step {
    /// Nothing: what happened has no bearing on where the request stands.
    Stay,
    /// Send it.
    Send,
    /// Pause before it is sent again.
    Pause { delay_millis: u64 },
    /// Hand the slot back and return: with the answer where the verdict is
    /// `Done`, and else with the failure of the last attempt.
    Release { verdict: Decision },
}

/// One request on its way through the client.
#[derive(Clone, Copy, Debug, PartialEq, Eq, Structural)]
pub struct Exchange {
    pub phase: Phase,
    pub attempts: Attempts,
}

impl Exchange {
    /// Whether the request holds a slot.
    pub open spec fn holds_slot(self) -> bool {
        self.phase == Phase::Sending || self.phase == Phase::Pausing
    }

    /// Where the request stands after `signal`, and what the client is to
    /// do: a request that is given a slot is sent; an attempt that ends is
    /// judged by `policy`, and is followed by a pause and another attempt
    /// where that is a retry, and else by the release of the slot.
    pub open spec fn next_of(self, policy: RetryPolicy, signal: Signal) -> (Exchange, Step) {
        match (self.phase, signal) {
            (Phase::Waiting, Signal::Admitted) => (Exchange { phase: Phase::Sending, ..self }, Step::Send),
            (Phase::Sending, Signal::Answered(outcome)) => {
                match policy.decision_of(self.attempts.retries, outcome) {
                    Decision::Retry { delay_millis } => (
                        Exchange {
                            phase: Phase::Pausing,
                            attempts: Attempts { retries: (self.attempts.retries + 1) as u32 },
                        },
                        Step::Pause { delay_millis },
                    ),
                    verdict => (Exchange { phase: Phase::Finished, ..self }, Step::Release { verdict }),
                }
            },
            (Phase::Pausing, Signal::Rested) => (Exchange { phase: Phase::Sending, ..self }, Step::Send),
            _ => (self, Step::Stay),
        }
    }

    /// Where a request that waited for a slot stands after `signals`.
    pub open spec fn after(policy: RetryPolicy, signals: Seq<Signal>) -> Exchange
        decreases signals.len(),
    {
        if signals.len() == 0 {
            Exchange { phase: Phase::Waiting, attempts: Attempts { retries: 0 } }
        } else {
            Exchange::after(policy, signals.drop_last()).next_of(policy, signals.last()).0
        }
    }

    /// How often the client was told to release the slot of a request that
    /// waited for one, in the course of `signals`.
    pub open spec fn releases(policy: RetryPolicy, signals: Seq<Signal>) -> nat
        decreases signals.len(),
    {
        if signals.len() == 0 {
            0
        } else {
            let before = Exchange::releases(policy, signals.drop_last());
            if Exchange::after(policy, signals.drop_last()).next_of(policy, signals.last()).1 is Release {
                before + 1
            } else {
                before
            }
        }
    }

    /// A request that waits for a slot.
    pub fn new() -> (exchange: Exchange)
        ensures
            exchange == (Exchange { phase: Phase::Waiting, attempts: Attempts { retries: 0 } }),
    {
        Exchange { phase: Phase::Waiting, attempts: Attempts::new() }
    }

    /// Takes note of `signal` and says what the client is to do. The slot is
    /// released exactly when the request returns, whether it succeeded or
    /// failed, and is taken only when the request is admitted.
    pub fn advance(&mut self, policy: &RetryPolicy, signal: Signal) -> (step: Step)
        ensures
            (*final(self), step) == old(self).next_of(*policy, signal),
            step is Release <==> old(self).holds_slot() && !final(self).holds_slot(),
            !old(self).holds_slot() && final(self).holds_slot() <==> old(self).phase == Phase::Waiting
                && signal == Signal::Admitted,
            final(self).phase == Phase::Finished <==> old(self).phase == Phase::Finished || step is Release,
    {
        match (self.phase, signal) {
            (Phase::Waiting, Signal::Admitted) => {
                self.phase = Phase::Sending;
                Step::Send
            },
            (Phase::Sending, Signal::Answered(outcome)) => {
                let decision = policy.decide(&mut self.attempts, outcome);
                match decision {
                    Decision::Retry { delay_millis } => {
                        self.phase = Phase::Pausing;
                        Step::Pause { delay_millis }
                    },
                    verdict => {
                        self.phase = Phase::Finished;
                        Step::Release { verdict }
                    },
                }
            },
            (Phase::Pausing, Signal::Rested) => {
                self.phase = Phase::Sending;
                Step::Send
            },
            _ => Step::Stay,
        }
    }
}

/// Whatever happens to a request, its slot is released once when it has
/// returned and not before, and it never makes more retries than the policy
/// allows.
pub proof fn lemma_released_once(policy: RetryPolicy, signals: Seq<Signal>)
    ensures
        Exchange::releases(policy, signals) == if Exchange::after(policy, signals).phase == Phase::Finished {
            1nat
        } else {
            0nat
        },
        Exchange::after(policy, signals).attempts.retries <= policy.max_retries,
    decreases signals.len(),
{
    if signals.len() > 0 {
        lemma_released_once(policy, signals.drop_last());
    }
}

} // verus!
