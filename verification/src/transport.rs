//! The transport a filesystem reads through, the responses it gives, and
//! the retrying requests built on it.

use vstd::prelude::*;
use vstd::string::StringExecFns;
use std::sync::Arc;
use crate::sync::{same_allocation, share};
use crate::config::HttpConfig;
use crate::error::FsError;
use crate::timing::{retry_delay, spec_retry_delay, TimeSpan};

verus! {

/// What a transport hands back for a range request.
#[derive(Debug)]
pub struct HttpResponse {
    /// The payload; empty where the request lies past the end of the resource.
    pub data: Vec<u8>,
    /// The HTTP status.
    pub status: u16,
    /// The `Content-Length` header, if there was one that parsed.
    pub content_length: Option<u64>,
    /// First and last offset of the `Content-Range` header, if there was one that parsed.
    pub content_range: Option<(u64, u64)>,
}

impl HttpResponse {
    /// A response of these parts.
    pub fn new(
        data: Vec<u8>,
        status: u16,
        content_length: Option<u64>,
        content_range: Option<(u64, u64)>,
    ) -> (r: HttpResponse)
        ensures
            r.data == data,
            r.status == status,
            r.content_length == content_length,
            r.content_range == content_range,
    {
        HttpResponse { data, status, content_length, content_range }
    }
}

/// A blocking HTTP transport.
///
/// The four relations say which answers and which failures an
/// implementation may give. One that leaves them alone promises nothing
/// about its outcomes; one that defines them is held to them by its
/// callers' proofs.
pub trait BlockingHttp: Send + Sync {
    /// Whether a probe of `url` may report `length` as the content length.
    open spec fn serves_length(&self, url: Seq<char>, length: Option<u64>) -> bool {
        true
    }

    /// Whether a request for the bytes `start` to `end`, inclusive, of
    /// `url` may be answered with the payload `data`.
    open spec fn serves_range(&self, url: Seq<char>, start: u64, end: u64, data: Seq<u8>) -> bool {
        true
    }

    /// Whether a probe of `url` may fail with `err`.
    open spec fn length_may_fail(&self, url: Seq<char>, err: FsError) -> bool {
        true
    }

    /// Whether a request for the bytes `start` to `end`, inclusive, of
    /// `url` may fail with `err`.
    open spec fn range_may_fail(&self, url: Seq<char>, start: u64, end: u64, err: FsError) -> bool {
        true
    }

    /// Probes the length of the resource. A probe that completes without
    /// learning a length answers `Ok(None)`.
    fn get_content_length(&self, url: &str) -> (r: Result<Option<u64>, FsError>)
        ensures
            r matches Ok(length) ==> self.serves_length(url@, length),
            r matches Err(err) ==> self.length_may_fail(url@, err),
    ;

    /// Requests the bytes `start` to `end`, inclusive.
    fn get_range(&self, url: &str, start: u64, end: u64) -> (r: Result<HttpResponse, FsError>)
        ensures
            r matches Ok(response) ==> self.serves_range(url@, start, end, response.data@),
            r matches Err(err) ==> self.range_may_fail(url@, start, end, err),
    ;

    /// Blocks the calling thread for `delay`, between two tries of a request.
    fn pause(&self, delay: TimeSpan);
}

/// What becomes of the answer to a range request, by its status.
#[derive(Clone, Copy, Debug, PartialEq, Eq, Structural)]
pub enum RangeVerdict {
    /// Status 206 with a fitting range: the answer is taken.
    Accept,
    /// Status 416: the request lies past the end; taken with an empty payload.
    PastEnd,
    /// Status 200: the server ignores ranges.
    NoRangeSupport,
    /// Any other status.
    HttpFailure,
    /// Status 206, but the range answered does not start where the request did.
    WrongStart,
}

/// The verdict on an answer with this status and content range to a
/// request that starts at `start`.
pub open spec fn spec_range_verdict(status: u16, content_range: Option<(u64, u64)>, start: u64) -> RangeVerdict {
    if status == 416 {
        RangeVerdict::PastEnd
    } else if status == 200 {
        RangeVerdict::NoRangeSupport
    } else if status != 206 {
        RangeVerdict::HttpFailure
    } else if content_range matches Some(range) && range.0 != start {
        RangeVerdict::WrongStart
    } else {
        RangeVerdict::Accept
    }
}

/// Exec counterpart of [`spec_range_verdict`].
pub fn range_verdict(status: u16, content_range: Option<(u64, u64)>, start: u64) -> (r: RangeVerdict)
    ensures
        r == spec_range_verdict(status, content_range, start),
{
    if status == 416 {
        RangeVerdict::PastEnd
    } else if status == 200 {
        RangeVerdict::NoRangeSupport
    } else if status != 206 {
        RangeVerdict::HttpFailure
    } else {
        match content_range {
            Some(range) => {
                if range.0 != start {
                    RangeVerdict::WrongStart
                } else {
                    RangeVerdict::Accept
                }
            },
            None => RangeVerdict::Accept,
        }
    }
}

/// The character of a decimal digit.
pub open spec fn digit_char(d: nat) -> char {
    if d == 0 {
        '0'
    } else if d == 1 {
        '1'
    } else if d == 2 {
        '2'
    } else if d == 3 {
        '3'
    } else if d == 4 {
        '4'
    } else if d == 5 {
        '5'
    } else if d == 6 {
        '6'
    } else if d == 7 {
        '7'
    } else if d == 8 {
        '8'
    } else {
        '9'
    }
}

/// The decimal digits of `n`, without leading zeros.
pub open spec fn decimal(n: nat) -> Seq<char>
    decreases n,
{
    if n < 10 {
        seq![digit_char(n)]
    } else {
        decimal(n / 10).push(digit_char(n % 10))
    }
}

/// The text of one decimal digit.
fn digit_text(d: u16) -> (r: &'static str)
    requires
        d < 10,
    ensures
        r@ == seq![digit_char(d as nat)],
{
    proof {
        reveal_strlit("0");
        reveal_strlit("1");
        reveal_strlit("2");
        reveal_strlit("3");
        reveal_strlit("4");
        reveal_strlit("5");
        reveal_strlit("6");
        reveal_strlit("7");
        reveal_strlit("8");
        reveal_strlit("9");
    }
    let r: &'static str = if d == 0 {
        "0"
    } else if d == 1 {
        "1"
    } else if d == 2 {
        "2"
    } else if d == 3 {
        "3"
    } else if d == 4 {
        "4"
    } else if d == 5 {
        "5"
    } else if d == 6 {
        "6"
    } else if d == 7 {
        "7"
    } else if d == 8 {
        "8"
    } else {
        "9"
    };
    assert(r@ =~= seq![digit_char(d as nat)]);
    r
}

/// Exec counterpart of [`decimal`].
pub fn decimal_text(n: u16) -> (r: String)
    ensures
        r@ == decimal(n as nat),
    decreases n,
{
    if n < 10 {
        String::from_str(digit_text(n))
    } else {
        let mut r = decimal_text(n / 10);
        r.append(digit_text(n % 10));
        assert(r@ =~= decimal((n / 10) as nat).push(digit_char((n % 10) as nat)));
        r
    }
}

/// The detail of the failure for a server that ignores ranges.
pub open spec fn no_range_text() -> Seq<char> {
    "Server does not support Range requests (returned 200 instead of 206). This library requires strict Range semantics."@
}

/// The detail of the failure for an answer that starts at the wrong offset.
pub open spec fn wrong_start_text() -> Seq<char> {
    "Server returned incorrect range start"@
}

/// The detail of the failure for a status that is no answer to a range request.
pub open spec fn http_failure_text(status: u16) -> Seq<char> {
    "HTTP error: "@ + decimal(status as nat)
}

/// The status handling that every transport owes its callers. An answer
/// with status 206 is passed on, unless it names a range that starts
/// elsewhere than the request: a protocol failure. Status 416 is passed
/// on with an empty payload. Status 200 is a protocol failure, and any
/// other status a network failure that names it.
pub fn check_range_response(response: HttpResponse, start: u64) -> (r: Result<HttpResponse, FsError>)
    ensures
        match spec_range_verdict(response.status, response.content_range, start) {
            RangeVerdict::Accept => r == Ok::<HttpResponse, FsError>(response),
            RangeVerdict::PastEnd => r matches Ok(empty) && empty.data@.len() == 0 && empty.status
                == response.status && empty.content_length == response.content_length
                && empty.content_range == response.content_range,
            RangeVerdict::NoRangeSupport => r matches Err(FsError::Protocol(detail)) && detail@
                == no_range_text(),
            RangeVerdict::HttpFailure => r matches Err(FsError::Network(detail)) && detail@
                == http_failure_text(response.status),
            RangeVerdict::WrongStart => r matches Err(FsError::Protocol(detail)) && detail@
                == wrong_start_text(),
        },
{
    match range_verdict(response.status, response.content_range, start) {
        RangeVerdict::Accept => Ok(response),
        RangeVerdict::PastEnd => Ok(
            HttpResponse {
                data: Vec::new(),
                status: response.status,
                content_length: response.content_length,
                content_range: response.content_range,
            },
        ),
        RangeVerdict::NoRangeSupport => Err(
            FsError::Protocol(
                String::from_str(
                    "Server does not support Range requests (returned 200 instead of 206). This library requires strict Range semantics.",
                ),
            ),
        ),
        RangeVerdict::HttpFailure => {
            let number = decimal_text(response.status);
            Err(FsError::Network(String::from_str("HTTP error: ").concat(number.as_str())))
        },
        RangeVerdict::WrongStart => Err(
            FsError::Protocol(String::from_str("Server returned incorrect range start")),
        ),
    }
}

/// The content length that a probe with this status has learned: the
/// one the headers named, where the status is a success (200 to 299).
pub fn head_length(status: u16, content_length: Option<u64>) -> (r: Option<u64>)
    ensures
        r == if 200 <= status < 300 {
            content_length
        } else {
            None
        },
{
    if 200 <= status && status < 300 {
        content_length
    } else {
        None
    }
}

/// Whether a failed try is followed by another: only a network failure
/// is, and only while fewer than `max_attempts` retries were made.
pub open spec fn spec_should_retry(err: &FsError, attempt: usize, max_attempts: usize) -> bool {
    err.is_transient() && attempt < max_attempts
}

/// Exec counterpart of [`spec_should_retry`].
pub fn should_retry(err: &FsError, attempt: usize, max_attempts: usize) -> (r: bool)
    ensures
        r == spec_should_retry(err, attempt, max_attempts),
{
    err.retryable() && attempt < max_attempts
}

/// What follows one try of a request.
pub enum RetryStep<V> {
    /// The try was the last: its outcome is the result.
    Done(Result<V, FsError>),
    /// Another try follows, after a pause of this length.
    Again(TimeSpan),
}

/// Whether try number `attempt`, counted from zero, that ended in
/// `outcome`, is followed by another: it is, where it ended in a
/// failure that [`spec_should_retry`] retries.
pub open spec fn spec_tries_again<V>(
    outcome: Result<V, FsError>,
    attempt: usize,
    max_attempts: usize,
) -> bool {
    outcome matches Err(err) && spec_should_retry(&err, attempt, max_attempts)
}

/// Decides what follows one try. Where [`spec_tries_again`] says so,
/// another try follows, after the pause of [`retry_delay`] for this
/// attempt; else the try was the last, and its outcome is the result.
pub fn retry_step<V>(outcome: Result<V, FsError>, attempt: usize, config: &HttpConfig) -> (r:
    RetryStep<V>)
    ensures
        match r {
            RetryStep::Done(result) => result == outcome && !spec_tries_again(
                outcome,
                attempt,
                config.retry_max_attempts,
            ),
            RetryStep::Again(pause) => spec_tries_again(
                outcome,
                attempt,
                config.retry_max_attempts,
            ) && pause@ == spec_retry_delay(
                config.retry_base_delay@,
                config.retry_max_delay@,
                attempt as nat,
            ),
        },
{
    match outcome {
        Ok(v) => RetryStep::Done(Ok(v)),
        Err(e) => {
            if should_retry(&e, attempt, config.retry_max_attempts) {
                RetryStep::Again(
                    retry_delay(config.retry_base_delay, config.retry_max_delay, attempt),
                )
            } else {
                RetryStep::Done(Err(e))
            }
        },
    }
}

/// Whether `run` is the run of outcomes of a request that is retried
/// as [`spec_should_retry`] decides, and `r` its result, with
/// `max_attempts` retries allowed. There are at least one and at most
/// `max_attempts + 1` tries. Every try but the last ended in a network
/// failure, and the result is the outcome of the last. So a network
/// failure is the result only as the outcome of try number
/// `max_attempts + 1`, and any other outcome only as that of a try that
/// nothing followed.
pub open spec fn is_retry_run<V>(
    run: Seq<Result<V, FsError>>,
    max_attempts: usize,
    r: Result<V, FsError>,
) -> bool {
    &&& 1 <= run.len() <= max_attempts + 1
    &&& run.last() == r
    &&& forall|i: int|
        0 <= i < run.len() - 1 ==> ((#[trigger] run[i]) matches Err(err) && err.is_transient())
    &&& (r matches Err(err) && err.is_transient()) ==> run.len() == max_attempts + 1
}

/// Whether try number `i` of `run`, counted from zero, is followed by
/// another: it ended in a network failure, and fewer than `max_attempts`
/// retries were made. That is what [`spec_should_retry`] decides of it.
pub open spec fn retried<V>(run: Seq<Result<V, FsError>>, max_attempts: usize, i: int) -> bool {
    run[i] matches Err(err) && err.is_transient() && i < max_attempts
}

/// Whether a try is retried is what the policy decides of its failure.
pub proof fn lemma_retried_is_should_retry<V>(
    run: Seq<Result<V, FsError>>,
    max_attempts: usize,
    i: usize,
)
    ensures
        retried(run, max_attempts, i as int) <==> (run[i as int] matches Err(err)
            && spec_should_retry(&err, i, max_attempts)),
{
}

/// A retry run is a run in which every decision is that of the policy:
/// each try but the last is one that [`spec_should_retry`] retries, and
/// the last is one that it does not.
pub proof fn lemma_retry_run_is_policy<V>(
    run: Seq<Result<V, FsError>>,
    max_attempts: usize,
    r: Result<V, FsError>,
)
    ensures
        is_retry_run(run, max_attempts, r) <==> {
            &&& run.len() >= 1
            &&& run.last() == r
            &&& forall|i: int| 0 <= i < run.len() - 1 ==> #[trigger] retried(run, max_attempts, i)
            &&& !retried(run, max_attempts, run.len() - 1)
        },
{
    if is_retry_run(run, max_attempts, r) {
        assert forall|i: int| 0 <= i < run.len() - 1 implies #[trigger] retried(
            run,
            max_attempts,
            i,
        ) by {
            assert(run[i] is Err);
        }
    }
    if run.len() >= 1 && run.last() == r && (forall|i: int|
        0 <= i < run.len() - 1 ==> #[trigger] retried(run, max_attempts, i)) && !retried(
        run,
        max_attempts,
        run.len() - 1,
    ) {
        if run.len() >= 2 {
            assert(retried(run, max_attempts, run.len() - 2));
        }
        assert forall|i: int| 0 <= i < run.len() - 1 implies ((#[trigger] run[i]) matches Err(err)
            && err.is_transient()) by {
            assert(retried(run, max_attempts, i));
        }
    }
}

/// The outcomes decide the run: of two retry runs with the same budget,
/// one of which begins as the other, neither is longer. So the number of
/// tries, and the result, are fixed by what the tries bring.
pub proof fn lemma_retry_run_is_decided<V>(
    short: Seq<Result<V, FsError>>,
    long: Seq<Result<V, FsError>>,
    max_attempts: usize,
    r_short: Result<V, FsError>,
    r_long: Result<V, FsError>,
)
    requires
        is_retry_run(short, max_attempts, r_short),
        is_retry_run(long, max_attempts, r_long),
        short.len() <= long.len(),
        forall|i: int| 0 <= i < short.len() ==> short[i] == long[i],
    ensures
        short.len() == long.len(),
        r_short == r_long,
{
    if short.len() < long.len() {
        let last = short.len() - 1;
        assert(long[last] is Err);
        assert(short[last] == long[last]);
    }
}

/// The retry budget, first half: failures of the network within the
/// budget, then a success, are a retry run that ends in that success,
/// after one try more than there were failures.
pub proof fn lemma_retry_until_success<V>(
    run: Seq<Result<V, FsError>>,
    max_attempts: usize,
    value: V,
)
    requires
        1 <= run.len() <= max_attempts + 1,
        run.last() == Ok::<V, FsError>(value),
        forall|i: int|
            0 <= i < run.len() - 1 ==> ((#[trigger] run[i]) matches Err(err) && err.is_transient()),
    ensures
        is_retry_run(run, max_attempts, Ok(value)),
        forall|other: Seq<Result<V, FsError>>, r: Result<V, FsError>|
            #![trigger is_retry_run(other, max_attempts, r)]
            is_retry_run(other, max_attempts, r) && other.len() <= run.len() && (forall|i: int|
                0 <= i < other.len() ==> other[i] == run[i]) ==> r == Ok::<V, FsError>(value)
                && other.len() == run.len(),
{
    assert forall|other: Seq<Result<V, FsError>>, r: Result<V, FsError>|
        #![trigger is_retry_run(other, max_attempts, r)]
        is_retry_run(other, max_attempts, r) && other.len() <= run.len() && (forall|i: int|
            0 <= i < other.len() ==> other[i] == run[i]) implies r == Ok::<V, FsError>(value)
        && other.len() == run.len() by {
        lemma_retry_run_is_decided(other, run, max_attempts, r, Ok(value));
    }
}

/// The retry budget, second half: where every try fails on the network,
/// the run ends with try number `max_attempts + 1`, and its failure is
/// the result; no retry run is longer.
pub proof fn lemma_retry_until_budget_is_spent<V>(
    run: Seq<Result<V, FsError>>,
    max_attempts: usize,
)
    requires
        run.len() == max_attempts + 1,
        forall|i: int| 0 <= i < run.len() ==> ((#[trigger] run[i]) matches Err(err) && err.is_transient()),
    ensures
        is_retry_run(run, max_attempts, run.last()),
        run.last() is Err,
        forall|other: Seq<Result<V, FsError>>, r: Result<V, FsError>|
            #![trigger is_retry_run(other, max_attempts, r)]
            is_retry_run(other, max_attempts, r) ==> other.len() <= max_attempts + 1,
{
    assert(run[run.len() - 1] is Err);
}

/// A failure that is no failure of the network comes through at once: a
/// retry run whose first try ends in one has no second try, and that
/// failure is the result, whatever the budget.
pub proof fn lemma_other_failures_pass_through<V>(
    run: Seq<Result<V, FsError>>,
    max_attempts: usize,
    r: Result<V, FsError>,
)
    requires
        is_retry_run(run, max_attempts, r),
        run[0] matches Err(err) && !err.is_transient(),
    ensures
        run.len() == 1,
        r == run[0],
{
    if run.len() > 1 {
        assert(run[0] is Err);
    }
}

/// Whether the transport admits `outcome` as the outcome of a probe of `url`.
pub open spec fn length_admitted<T: BlockingHttp>(
    t: T,
    url: Seq<char>,
    outcome: Result<Option<u64>, FsError>,
) -> bool {
    match outcome {
        Ok(length) => t.serves_length(url, length),
        Err(err) => t.length_may_fail(url, err),
    }
}

/// Whether the transport admits `outcome` as the outcome of a request
/// for the bytes `start` to `end` of `url`.
pub open spec fn range_admitted<T: BlockingHttp>(
    t: T,
    url: Seq<char>,
    start: u64,
    end: u64,
    outcome: Result<HttpResponse, FsError>,
) -> bool {
    match outcome {
        Ok(response) => t.serves_range(url, start, end, response.data@),
        Err(err) => t.range_may_fail(url, start, end, err),
    }
}

/// Probes the content length, retrying as [`retry_step`] decides after
/// each try: a network failure is followed by a pause and another try
/// while the budget of retries lasts, and any other outcome is the
/// result. The result is an outcome that the transport admits; a
/// transport whose probes cannot fail is owed success. The tries are
/// not counted here, since a transport keeps no record of its calls:
/// what a run of them is, [`is_retry_run`] and its laws say.
pub fn content_length_with_retry<T: BlockingHttp>(transport: &T, url: &str, config: &HttpConfig) -> (r:
    Result<Option<u64>, FsError>)
    ensures
        length_admitted(*transport, url@, r),
{
    let mut attempt: usize = 0;
    loop
        invariant
            attempt <= config.retry_max_attempts,
        decreases config.retry_max_attempts - attempt,
    {
        let outcome = transport.get_content_length(url);
        match retry_step(outcome, attempt, config) {
            RetryStep::Done(result) => {
                return result;
            },
            RetryStep::Again(pause) => {
                transport.pause(pause);
                attempt = attempt + 1;
            },
        }
    }
}

/// Requests a range, retrying as [`retry_step`] decides after each try:
/// a network failure is followed by a pause and another try while the
/// budget of retries lasts, and any other outcome is the result. The
/// result is an outcome that the transport admits for this request; a
/// transport whose requests cannot fail is owed success. The tries are
/// not counted here, since a transport keeps no record of its calls:
/// what a run of them is, [`is_retry_run`] and its laws say.
pub fn range_with_retry<T: BlockingHttp>(
    transport: &T,
    url: &str,
    start: u64,
    end: u64,
    config: &HttpConfig,
) -> (r: Result<HttpResponse, FsError>)
    ensures
        range_admitted(*transport, url@, start, end, r),
{
    let mut attempt: usize = 0;
    loop
        invariant
            attempt <= config.retry_max_attempts,
        decreases config.retry_max_attempts - attempt,
    {
        let outcome = transport.get_range(url, start, end);
        match retry_step(outcome, attempt, config) {
            RetryStep::Done(result) => {
                return result;
            },
            RetryStep::Again(pause) => {
                transport.pause(pause);
                attempt = attempt + 1;
            },
        }
    }
}

/// The order for one background fetch: which transport to ask, and for what.
pub struct PrefetchTicket<T: BlockingHttp> {
    transport: Arc<T>,
    url: String,
    range_start: u64,
    range_end: u64,
    config: HttpConfig,
}

/// The outcome of one background fetch, with the request it answers.
pub struct Fetched<T: BlockingHttp> {
    transport: Arc<T>,
    url: String,
    range_start: u64,
    range_end: u64,
    result: Result<HttpResponse, FsError>,
}

impl<T: BlockingHttp> PrefetchTicket<T> {
    /// First offset of the range to fetch.
    pub closed spec fn spec_start(&self) -> u64 {
        self.range_start
    }

    /// Last offset of the range to fetch, inclusive.
    pub closed spec fn spec_end(&self) -> u64 {
        self.range_end
    }

    /// The URL to fetch from.
    pub closed spec fn spec_url(&self) -> Seq<char> {
        self.url@
    }

    /// The transport to ask.
    pub closed spec fn spec_transport(&self) -> T {
        *self.transport
    }

    /// The configuration that the request is retried by.
    pub closed spec fn spec_config(&self) -> HttpConfig {
        self.config
    }

    /// The order to fetch `range_start` to `range_end` of `url` from `transport`.
    pub(crate) fn new(
        transport: Arc<T>,
        url: String,
        range_start: u64,
        range_end: u64,
        config: HttpConfig,
    ) -> (r: Self)
        ensures
            r.spec_start() == range_start,
            r.spec_end() == range_end,
            r.spec_url() == url@,
            r.spec_transport() == *transport,
            r.spec_config() == config,
    {
        PrefetchTicket { transport, url, range_start, range_end, config }
    }

    /// The range to fetch: first and last offset.
    pub fn range(&self) -> (r: (u64, u64))
        ensures
            r == (self.spec_start(), self.spec_end()),
    {
        (self.range_start, self.range_end)
    }

    /// Carries the order out: the retrying range request, on the calling
    /// thread. The outcome is one that the transport of the order admits
    /// for the request of the order.
    pub fn run(self) -> (r: Fetched<T>)
        ensures
            r.spec_range() == (self.spec_start(), self.spec_end()),
            r.spec_url() == self.spec_url(),
            r.spec_transport() == self.spec_transport(),
            range_admitted(
                self.spec_transport(),
                self.spec_url(),
                self.spec_start(),
                self.spec_end(),
                r.spec_outcome(),
            ),
    {
        let result = range_with_retry(
            &*self.transport,
            self.url.as_str(),
            self.range_start,
            self.range_end,
            &self.config,
        );
        Fetched {
            transport: self.transport,
            url: self.url,
            range_start: self.range_start,
            range_end: self.range_end,
            result,
        }
    }
}

impl<T: BlockingHttp> Fetched<T> {
    #[verifier::type_invariant]
    spec fn vouched(self) -> bool {
        match self.result {
            Ok(response) => self.transport.serves_range(
                self.url@,
                self.range_start,
                self.range_end,
                response.data@,
            ),
            Err(err) => self.transport.range_may_fail(
                self.url@,
                self.range_start,
                self.range_end,
                err,
            ),
        }
    }

    /// The range this outcome answers: first and last offset.
    pub closed spec fn spec_range(&self) -> (u64, u64) {
        (self.range_start, self.range_end)
    }

    /// The URL this outcome answers.
    pub closed spec fn spec_url(&self) -> Seq<char> {
        self.url@
    }

    /// The transport that gave this outcome.
    pub closed spec fn spec_transport(&self) -> T {
        *self.transport
    }

    /// The outcome itself.
    pub closed spec fn spec_outcome(&self) -> Result<HttpResponse, FsError> {
        self.result
    }

    /// Whether this is the outcome of the request for `range_start` to
    /// `range_end` of `url`.
    pub open spec fn answers(&self, url: Seq<char>, range_start: u64, range_end: u64) -> bool {
        self.spec_url() == url && self.spec_range() == (range_start, range_end)
    }

    /// Hands the outcome over, where it is the outcome of this request
    /// and `same_transport` says that it came from `transport`; an
    /// outcome of another request, or of another transport, is no answer.
    pub(crate) fn hand_over(
        self,
        same_transport: bool,
        transport: &Arc<T>,
        url: &String,
        range_start: u64,
        range_end: u64,
    ) -> (r: Option<Result<HttpResponse, FsError>>)
        requires
            same_transport ==> self.spec_transport() == **transport,
        ensures
            r == if same_transport && self.answers(url@, range_start, range_end) {
                Some(self.spec_outcome())
            } else {
                None
            },
            r matches Some(Ok(response)) ==> transport.serves_range(
                url@,
                range_start,
                range_end,
                response.data@,
            ),
            r matches Some(Err(err)) ==> transport.range_may_fail(
                url@,
                range_start,
                range_end,
                err,
            ),
    {
        proof {
            use_type_invariant(&self);
        }
        if same_transport && self.range_start == range_start && self.range_end == range_end
            && self.url == *url {
            Some(self.result)
        } else {
            None
        }
    }

    /// Hands the outcome to the file that `transport`, `url` and the range
    /// belong to. What is handed over is the outcome as the worker left
    /// it, and it is the outcome of this very request. An outcome of
    /// another request is no answer, nor is one whose transport is not
    /// the very handle of the file: `Arc::ptr_eq` decides that.
    pub(crate) fn claim(self, transport: &Arc<T>, url: &String, range_start: u64, range_end: u64) -> (r:
        Option<Result<HttpResponse, FsError>>)
        ensures
            r matches Some(outcome) ==> outcome == self.spec_outcome() && self.answers(
                url@,
                range_start,
                range_end,
            ),
            r matches Some(Ok(response)) ==> transport.serves_range(
                url@,
                range_start,
                range_end,
                response.data@,
            ),
            r matches Some(Err(err)) ==> transport.range_may_fail(
                url@,
                range_start,
                range_end,
                err,
            ),
    {
        let same_transport: bool = same_allocation(&self.transport, transport);
        self.hand_over(same_transport, transport, url, range_start, range_end)
    }
}

/// Another handle to the same transport.
pub(crate) fn share_transport<T: BlockingHttp>(t: &Arc<T>) -> (r: Arc<T>)
    ensures
        r == *t,
{
    share(t)
}

} // verus!
