//! The resilient request pipeline: transport configuration, endpoints, and the
//! retry/backoff policy, modelled as a verified decision function from the
//! attempt number and the attempt's outcome to the transport's next action.
//! The caller performs the actual HTTP attempt and the sleep; everything the
//! transport decides is proved here.

use vstd::prelude::*;

use crate::error::ClientError;

verus! {

/// The relative paths the client may call on the server.
pub enum Endpoint {
    Schedule,
    Jobs,
    Logs,
    Cancel,
}

/// The path segment of each endpoint.
pub open spec fn spec_endpoint_path(e: Endpoint) -> Seq<char> {
    match e {
        Endpoint::Schedule => "schedule"@,
        Endpoint::Jobs => "jobs"@,
        Endpoint::Logs => "logs"@,
        Endpoint::Cancel => "cancel"@,
    }
}

impl Endpoint {
    /// The relative path appended to the server's base URL.
    pub fn as_path(&self) -> (r: &'static str)
        ensures
            r@ == spec_endpoint_path(*self),
    {
        match self {
            Endpoint::Schedule => "schedule",
            Endpoint::Jobs => "jobs",
            Endpoint::Logs => "logs",
            Endpoint::Cancel => "cancel",
        }
    }
}

/// The serialization of the absolute URL that `url::Url::parse` accepts the
/// string as, or `None` where it rejects the string.
pub uninterp spec fn url_normalized(s: Seq<char>) -> Option<Seq<char>>;

/// Parses an absolute URL and returns its normalized serialization.
/// Relies on `url::Url::parse`: the result is a function of the input string
/// alone, and `Url::as_str` returns the parsed URL's serialization.
#[verifier::external_body]
fn parse_url(s: &str) -> (r: Option<String>)
    ensures
        r is Some <==> url_normalized(s@) is Some,
        r is Some ==> r->0@ == url_normalized(s@)->0,
{
    match url::Url::parse(s) {
        Ok(u) => Some(u.as_str().to_owned()),
        Err(_) => None,
    }
}

/// The serialization of `path` resolved against the absolute URL `base`, or
/// `None` where either the base does not parse or the resolution fails.
pub uninterp spec fn url_resolved(base: Seq<char>, path: Seq<char>) -> Option<Seq<char>>;

/// Resolves a relative path against an absolute base URL.
/// Relies on `url::Url::parse` and `url::Url::join`: both are functions of
/// their string arguments alone, and `join` resolves `path` against the base
/// as a browser would resolve a relative reference.
#[verifier::external_body]
fn resolve_url(base: &str, path: &str) -> (r: Option<String>)
    ensures
        r is Some <==> url_resolved(base@, path@) is Some,
        r is Some ==> r->0@ == url_resolved(base@, path@)->0,
{
    match url::Url::parse(base) {
        Ok(b) => match b.join(path) {
            Ok(u) => Some(u.as_str().to_owned()),
            Err(_) => None,
        },
        Err(_) => None,
    }
}

/// Configuration of the transport: where to send requests and how hard to try.
/// Built once per invocation and immutable thereafter.
#[derive(Debug)]
pub struct HttpClientConfig {
    /// Normalized absolute base URL of the server.
    pub base_url: String,
    /// Budget for one attempt (connect, send and receive), in milliseconds.
    pub timeout_ms: u64,
    /// How many retries may follow the first attempt.
    pub max_retries: u32,
    /// Delay before the first retry, in milliseconds; it doubles each retry.
    pub retry_delay_ms: u64,
}

impl HttpClientConfig {
    /// The base URL went through URL parsing and is kept in normalized form.
    pub open spec fn wf(self) -> bool {
        exists|s: Seq<char>| url_normalized(s) == Some(self.base_url@)
    }

    /// Starts a builder for the given server address, with the default
    /// timeout (4 s), retry budget (3) and first retry delay (1 s).
    pub fn with_base_url(base_url: &str) -> (b: HttpClientConfigBuilder)
        ensures
            b.base_url@ == base_url@,
            b.timeout_ms == 4000u64,
            b.max_retries == 3u32,
            b.retry_delay_ms == 1000u64,
    {
        HttpClientConfigBuilder {
            base_url: base_url.to_owned(),
            timeout_ms: 4000,
            max_retries: 3,
            retry_delay_ms: 1000,
        }
    }
}

/// Builder for `HttpClientConfig`.
#[derive(Debug)]
pub struct HttpClientConfigBuilder {
    pub base_url: String,
    pub timeout_ms: u64,
    pub max_retries: u32,
    pub retry_delay_ms: u64,
}

impl HttpClientConfigBuilder {
    /// Sets the per-attempt timeout, in milliseconds.
    pub fn timeout(self, timeout_ms: u64) -> (b: Self)
        ensures
            b == (Self { timeout_ms, ..self }),
    {
        Self { timeout_ms, ..self }
    }

    /// Sets the maximum number of retries for failed requests.
    pub fn max_retries(self, max_retries: u32) -> (b: Self)
        ensures
            b == (Self { max_retries, ..self }),
    {
        Self { max_retries, ..self }
    }

    /// Sets the delay before the first retry, in milliseconds.
    pub fn retry_delay(self, retry_delay_ms: u64) -> (b: Self)
        ensures
            b == (Self { retry_delay_ms, ..self }),
    {
        Self { retry_delay_ms, ..self }
    }

    /// Validates the base URL and builds the configuration. Fails with a
    /// `Url` error exactly when the base URL is not a valid absolute URL.
    pub fn build(self) -> (r: Result<HttpClientConfig, ClientError>)
        ensures
            match r {
                Ok(c) => url_normalized(self.base_url@) == Some(c.base_url@) && c.wf()
                    && c.timeout_ms == self.timeout_ms && c.max_retries == self.max_retries
                    && c.retry_delay_ms == self.retry_delay_ms,
                Err(e) => url_normalized(self.base_url@) is None && e == ClientError::Url(
                    self.base_url,
                ),
            },
    {
        match parse_url(self.base_url.as_str()) {
            Some(normalized) => Ok(
                HttpClientConfig {
                    base_url: normalized,
                    timeout_ms: self.timeout_ms,
                    max_retries: self.max_retries,
                    retry_delay_ms: self.retry_delay_ms,
                },
            ),
            None => Err(ClientError::Url(self.base_url)),
        }
    }
}

/// How one HTTP attempt ended, as the caller observed it: either a transient
/// network-level fault (timeout, connection reset), or a response that was
/// received in full.
#[derive(Debug)]
pub enum AttemptOutcome {
    Transient(String),
    Response { status: u16, body: String },
}

/// What the transport does after an attempt: hand back the body, give up with
/// a classified error, or retry after a delay.
#[derive(Debug)]
pub enum RetryDecision {
    Succeed(String),
    Fail(ClientError),
    Retry { delay_ms: u64 },
}

/// A status in the 2xx range is a success.
pub open spec fn is_success_status(status: u16) -> bool {
    200 <= status < 300
}

/// A 5xx status is a server-side fault and is treated as transient; every
/// other non-2xx status is a definitive answer and is never retried.
pub open spec fn is_transient_status(status: u16) -> bool {
    500 <= status < 600
}

/// The delay before the retry with the given index: the configured base delay,
/// doubled for each earlier retry, saturating at the machine limit.
pub open spec fn spec_backoff(base_ms: u64, retry_index: nat) -> u64
    decreases retry_index,
{
    if retry_index == 0 {
        base_ms
    } else {
        let prev = spec_backoff(base_ms, (retry_index - 1) as nat);
        if prev > u64::MAX / 2 {
            u64::MAX
        } else {
            (2 * prev) as u64
        }
    }
}

/// Computes the exponential backoff delay for a retry.
pub fn backoff_delay(base_ms: u64, retry_index: u32) -> (d: u64)
    ensures
        d == spec_backoff(base_ms, retry_index as nat),
    decreases retry_index,
{
    if retry_index == 0 {
        base_ms
    } else {
        let prev = backoff_delay(base_ms, retry_index - 1);
        if prev > u64::MAX / 2 {
            u64::MAX
        } else {
            2 * prev
        }
    }
}

/// The transport's decision after attempt number `attempt` (counted from 0)
/// ended in `outcome`: a received 2xx response succeeds with its body; a
/// received non-2xx, non-transient response fails immediately as an API error;
/// a transient fault (network-level, or a 5xx response) is retried with
/// exponential backoff while the retry budget lasts, and classified once it
/// is exhausted.
pub open spec fn spec_decision(
    config: HttpClientConfig,
    attempt: nat,
    outcome: AttemptOutcome,
) -> RetryDecision {
    match outcome {
        AttemptOutcome::Response { status, body } => {
            if is_success_status(status) {
                RetryDecision::Succeed(body)
            } else if is_transient_status(status) && attempt < config.max_retries {
                RetryDecision::Retry { delay_ms: spec_backoff(config.retry_delay_ms, attempt) }
            } else {
                RetryDecision::Fail(ClientError::ApiError { status, body })
            }
        },
        AttemptOutcome::Transient(reason) => {
            if attempt < config.max_retries {
                RetryDecision::Retry { delay_ms: spec_backoff(config.retry_delay_ms, attempt) }
            } else {
                RetryDecision::Fail(ClientError::Network(reason))
            }
        },
    }
}

/// Decides what the transport does next.
pub fn next_decision(config: &HttpClientConfig, attempt: usize, outcome: AttemptOutcome) -> (d:
    RetryDecision)
    ensures
        d == spec_decision(*config, attempt as nat, outcome),
{
    match outcome {
        AttemptOutcome::Response { status, body } => {
            if 200 <= status && status < 300 {
                RetryDecision::Succeed(body)
            } else if 500 <= status && status < 600 && attempt < config.max_retries as usize {
                RetryDecision::Retry {
                    delay_ms: backoff_delay(config.retry_delay_ms, attempt as u32),
                }
            } else {
                RetryDecision::Fail(ClientError::ApiError { status, body })
            }
        },
        AttemptOutcome::Transient(reason) => {
            if attempt < config.max_retries as usize {
                RetryDecision::Retry {
                    delay_ms: backoff_delay(config.retry_delay_ms, attempt as u32),
                }
            } else {
                RetryDecision::Fail(ClientError::Network(reason))
            }
        },
    }
}

/// What a whole run of the transport does when its attempts, starting with
/// attempt number `attempt`, end in the given outcomes: the index just past
/// the last attempt used, the delays slept between attempts, and the final
/// result. `None` where the outcomes end before the policy stops.
pub open spec fn spec_run(
    config: HttpClientConfig,
    outcomes: Seq<AttemptOutcome>,
    attempt: nat,
) -> Option<(nat, Seq<u64>, Result<String, ClientError>)>
    decreases outcomes.len() - attempt,
{
    if attempt >= outcomes.len() {
        None
    } else {
        match spec_decision(config, attempt, outcomes[attempt as int]) {
            RetryDecision::Succeed(body) => Some(((attempt + 1) as nat, Seq::empty(), Ok(body))),
            RetryDecision::Fail(e) => Some(((attempt + 1) as nat, Seq::empty(), Err(e))),
            RetryDecision::Retry { delay_ms } => match spec_run(config, outcomes, attempt + 1) {
                None => None,
                Some((n, ds, res)) => Some((n, seq![delay_ms] + ds, res)),
            },
        }
    }
}

/// Replays the retry policy against a recorded sequence of attempt outcomes:
/// how many attempts are used, which delays are slept, and what the transport
/// returns. `None` when the recorded outcomes end before the policy stops.
pub fn run_attempts(config: &HttpClientConfig, outcomes: &Vec<AttemptOutcome>) -> (r: Option<
    (usize, Vec<u64>, Result<String, ClientError>),
>)
    ensures
        match r {
            Some((n, ds, res)) => spec_run(*config, outcomes@, 0) == Some(
                (n as nat, ds@, res),
            ),
            None => spec_run(*config, outcomes@, 0) is None,
        },
{
    let mut attempt: usize = 0;
    let mut delays: Vec<u64> = Vec::new();
    loop
        invariant
            attempt <= outcomes@.len(),
            (match spec_run(*config, outcomes@, attempt as nat) {
                None => spec_run(*config, outcomes@, 0) is None,
                Some((n, ds, res)) => spec_run(*config, outcomes@, 0) == Some(
                    (n, delays@ + ds, res),
                ),
            }),
        decreases outcomes@.len() - attempt,
    {
        if attempt >= outcomes.len() {
            return None;
        }
        let outcome = clone_outcome(&outcomes[attempt]);
        let d = next_decision(config, attempt, outcome);
        match d {
            RetryDecision::Succeed(body) => {
                proof {
                    assert(delays@ + Seq::<u64>::empty() =~= delays@);
                }
                return Some((attempt + 1, delays, Ok(body)));
            },
            RetryDecision::Fail(e) => {
                proof {
                    assert(delays@ + Seq::<u64>::empty() =~= delays@);
                }
                return Some((attempt + 1, delays, Err(e)));
            },
            RetryDecision::Retry { delay_ms } => {
                let ghost old_delays = delays@;
                delays.push(delay_ms);
                proof {
                    match spec_run(*config, outcomes@, (attempt + 1) as nat) {
                        None => {},
                        Some((n, ds, res)) => {
                            assert(old_delays + (seq![delay_ms] + ds) =~= delays@ + ds);
                        },
                    }
                }
                attempt = attempt + 1;
            },
        }
    }
}

/// Copies an attempt outcome.
fn clone_outcome(o: &AttemptOutcome) -> (r: AttemptOutcome)
    ensures
        r == *o,
{
    match o {
        AttemptOutcome::Transient(reason) => AttemptOutcome::Transient(reason.clone()),
        AttemptOutcome::Response { status, body } => AttemptOutcome::Response {
            status: *status,
            body: body.clone(),
        },
    }
}

/// Builds the request of a schedule invocation: the endpoint URL resolved
/// against the configured base, and the encoded JSON body. Fails with a `Url`
/// error exactly when the endpoint cannot be resolved against the base.
pub fn plan_schedule(config: &HttpClientConfig, cron: &str, command: &str) -> (r: Result<
    (String, String),
    ClientError,
>)
    ensures
        match url_resolved(config.base_url@, spec_endpoint_path(Endpoint::Schedule)) {
            Some(u) => r is Ok && (r->Ok_0).0@ == u && (r->Ok_0).1@
                == crate::codec::spec_schedule_request_json(cron@, command@),
            None => r is Err && ((r->Err_0) matches ClientError::Url(m) && m@
                == config.base_url@),
        },
{
    let endpoint = Endpoint::Schedule;
    match resolve_url(config.base_url.as_str(), endpoint.as_path()) {
        Some(u) => {
            let request = crate::codec::JobScheduleRequest::new(cron, command);
            Ok((u, request.json()))
        },
        None => Err(ClientError::Url(config.base_url.clone())),
    }
}

/// Resolves the URL of a bodiless request (`jobs`, `logs`, `cancel`). Fails
/// with a `Url` error exactly when the endpoint cannot be resolved.
pub fn plan_get(config: &HttpClientConfig, endpoint: &Endpoint) -> (r: Result<String, ClientError>)
    ensures
        match url_resolved(config.base_url@, spec_endpoint_path(*endpoint)) {
            Some(u) => r is Ok && (r->Ok_0)@ == u,
            None => r is Err && ((r->Err_0) matches ClientError::Url(m) && m@
                == config.base_url@),
        },
{
    match resolve_url(config.base_url.as_str(), endpoint.as_path()) {
        Some(u) => Ok(u),
        None => Err(ClientError::Url(config.base_url.clone())),
    }
}

/// Law: a run never uses more attempts than the configured budget allows
/// (one initial attempt plus `max_retries` retries), it sleeps exactly once
/// between consecutive attempts, and the delay slept before retry `k` is the
/// exponential backoff delay for `k`.
pub proof fn lemma_attempt_budget_and_backoff(
    config: HttpClientConfig,
    outcomes: Seq<AttemptOutcome>,
    attempt: nat,
)
    requires
        spec_run(config, outcomes, attempt) is Some,
        attempt <= config.max_retries,
    ensures
        ({
            let (n, ds, res) = spec_run(config, outcomes, attempt)->0;
            &&& n <= config.max_retries + 1
            &&& n - attempt == ds.len() + 1
            &&& forall|k: int|
                0 <= k < ds.len() ==> ds[k] == spec_backoff(
                    config.retry_delay_ms,
                    (attempt + k) as nat,
                )
        }),
    decreases outcomes.len() - attempt,
{
    let (n, ds, res) = spec_run(config, outcomes, attempt)->0;
    match spec_decision(config, attempt, outcomes[attempt as int]) {
        RetryDecision::Succeed(body) => {},
        RetryDecision::Fail(e) => {},
        RetryDecision::Retry { delay_ms } => {
            lemma_attempt_budget_and_backoff(config, outcomes, attempt + 1);
            let (n2, ds2, res2) = spec_run(config, outcomes, attempt + 1)->0;
            assert(ds =~= seq![delay_ms] + ds2);
            assert forall|k: int| 0 <= k < ds.len() implies ds[k] == spec_backoff(
                config.retry_delay_ms,
                (attempt + k) as nat,
            ) by {
                if k > 0 {
                    assert(ds[k] == ds2[k - 1]);
                }
            }
        },
    }
}

/// Law: an attempt that receives a transient (5xx) response and then a
/// successful (2xx) one recovers: the run returns the successful body, uses
/// two attempts, and sleeps exactly the configured base delay in between.
pub proof fn lemma_transient_then_success_recovers(
    config: HttpClientConfig,
    s1: u16,
    b1: String,
    s2: u16,
    b2: String,
)
    requires
        is_transient_status(s1),
        is_success_status(s2),
        config.max_retries >= 1,
    ensures
        spec_run(
            config,
            seq![
                AttemptOutcome::Response { status: s1, body: b1 },
                AttemptOutcome::Response { status: s2, body: b2 },
            ],
            0,
        ) == Some((2nat, seq![config.retry_delay_ms], Ok::<String, ClientError>(b2))),
{
    let outcomes = seq![
        AttemptOutcome::Response { status: s1, body: b1 },
        AttemptOutcome::Response { status: s2, body: b2 },
    ];
    assert(spec_run(config, outcomes, 1) == Some(
        (2nat, Seq::<u64>::empty(), Ok::<String, ClientError>(b2)),
    ));
    assert(seq![config.retry_delay_ms] + Seq::<u64>::empty() =~= seq![config.retry_delay_ms]);
}

/// Law: a received response whose status is neither a success nor transient
/// (for instance 404) is never retried: the run stops after the first attempt,
/// sleeps no delay, and surfaces the literal status and body as an API error.
pub proof fn lemma_fatal_status_never_retried(
    config: HttpClientConfig,
    status: u16,
    body: String,
    rest: Seq<AttemptOutcome>,
)
    requires
        !is_success_status(status),
        !is_transient_status(status),
    ensures
        spec_run(config, seq![AttemptOutcome::Response { status, body }] + rest, 0) == Some(
            (
                1nat,
                Seq::<u64>::empty(),
                Err::<String, ClientError>(ClientError::ApiError { status, body }),
            ),
        ),
{
    let outcomes = seq![AttemptOutcome::Response { status, body }] + rest;
    assert(outcomes[0] == AttemptOutcome::Response { status, body });
}

} // verus!

