//! The outbound request governor: a bounded queue in front of a fixed-window
//! rate limiter and a concurrency budget, and the rule that settles what an
//! upstream response means for the caller.
//!
//! The governor is a state machine. Its owner feeds it the time and the
//! events of the outside world, and carries out what it answers; every
//! instant and duration is a count of nanoseconds.

use crate::transport::{request_copy, response_status, status_of, try_clone_request};
use std::collections::VecDeque;
use vstd::prelude::*;

verus! {

/// How many submissions may wait for dispatch.
pub const QUEUE_CAPACITY: usize = 1024;

/// How long a throttled request rests before it is sent again.
pub const RETRY_BACKOFF: u64 = 1_500_000_000;

/// The status by which the upstream asks for fewer requests.
pub const TOO_MANY_REQUESTS: u16 = 429;

/// Why a request brought no response.
#[derive(Debug)]
pub enum RequestError {
    /// The upstream answered with a status outside 200 to 299.
    StatusCodeError(u16),
    /// The request could not be sent, or no answer arrived.
    ReqwestError(reqwest::Error),
    /// The concurrency budget was shut down.
    SemaphoreError,
    /// The caller could not construct its request.
    RequestBuildError(reqwest::Error),
    /// The queue of pending submissions was full.
    BufferError,
    /// The request was given up before anything answered it.
    RecvError,
    /// The answer was no valid record.
    JsonError(reqwest::Error),
}

/// The rate limiter's state as contracts see it.
pub struct RateWindow {
    /// When the current window began.
    pub last_reset: u64,
    /// How many requests were let through since then.
    pub requests: u8,
}

/// What the rate limiter says of the next request.
#[derive(Clone, Copy, Debug, PartialEq, Eq)]
pub enum RateDecision {
    /// The request may go on.
    Proceed,
    /// The window is used up: rest this long, then start a new window.
    Wait(u64),
}

/// Whether the window that began at `last_reset` is over at `now`. A clock
/// that reads earlier than the window's start has not passed it.
pub open spec fn window_over(window: RateWindow, now: u64, length: u64) -> bool {
    now >= window.last_reset && now - window.last_reset > length
}

/// How much of the window is left at `now`, counted from zero when the clock
/// reads earlier than the window's start.
pub open spec fn window_rest(window: RateWindow, now: u64, length: u64) -> u64 {
    if now >= window.last_reset {
        if now - window.last_reset <= length {
            (length - (now - window.last_reset)) as u64
        } else {
            0
        }
    } else {
        length
    }
}

/// The fixed-window rule: a request that arrives after the window is over
/// opens a new one and counts as its first; one that finds the window used
/// up must wait for the rest of it; any other is counted and goes on.
pub open spec fn rate_check(window: RateWindow, now: u64, max_requests: u8, length: u64) -> (
    RateWindow,
    RateDecision,
) {
    if window_over(window, now, length) {
        (RateWindow { last_reset: now, requests: 1 }, RateDecision::Proceed)
    } else if window.requests >= max_requests {
        (window, RateDecision::Wait(window_rest(window, now, length)))
    } else {
        (
            RateWindow { last_reset: window.last_reset, requests: (window.requests + 1) as u8 },
            RateDecision::Proceed,
        )
    }
}

/// The most requests one window lets through: the configured maximum, and one
/// even where that is zero, since the request that opens a window passes.
pub open spec fn window_quota(max_requests: u8) -> int {
    if max_requests == 0 {
        1
    } else {
        max_requests as int
    }
}

/// A window-start timestamp and the count of requests dispatched since.
pub struct RateWindowState {
    last_reset: u64,
    current_window_requests: u8,
}

impl View for RateWindowState {
    type V = RateWindow;

    closed spec fn view(&self) -> RateWindow {
        RateWindow { last_reset: self.last_reset, requests: self.current_window_requests }
    }
}

impl RateWindowState {
    /// A limiter that has seen no request: its window began at the epoch.
    pub fn new() -> (state: Self)
        ensures
            state@ == (RateWindow { last_reset: 0, requests: 0 }),
    {
        RateWindowState { last_reset: 0, current_window_requests: 0 }
    }

    /// When the current window began.
    pub fn last_reset(&self) -> (at: u64)
        ensures
            at == self@.last_reset,
    {
        self.last_reset
    }

    /// How many requests the current window has let through.
    pub fn current_window_requests(&self) -> (count: u8)
        ensures
            count == self@.requests,
    {
        self.current_window_requests
    }

    /// Applies the fixed-window rule to a request that arrives at `now`.
    pub fn check(&mut self, now: u64, max_requests: u8, length: u64) -> (decision: RateDecision)
        ensures
            (final(self)@, decision) == rate_check(old(self)@, now, max_requests, length),
            old(self)@.requests <= window_quota(max_requests) ==> final(self)@.requests
                <= window_quota(max_requests),
    {
        if now >= self.last_reset && now - self.last_reset > length {
            self.current_window_requests = 1;
            self.last_reset = now;
            RateDecision::Proceed
        } else if self.current_window_requests >= max_requests {
            let passed: u64 = if now >= self.last_reset {
                now - self.last_reset
            } else {
                0
            };
            RateDecision::Wait(length - passed)
        } else {
            self.current_window_requests = self.current_window_requests + 1;
            RateDecision::Proceed
        }
    }

    /// Opens a new window at `now` for the request that waited out the last
    /// one.
    pub fn restart(&mut self, now: u64)
        ensures
            final(self)@ == (RateWindow { last_reset: now, requests: 1 }),
    {
        self.current_window_requests = 1;
        self.last_reset = now;
    }
}

/// The concurrency budget as contracts see it.
pub struct Budget {
    /// How many requests may be in flight at once.
    pub permits: nat,
    /// How many are.
    pub in_flight: nat,
    /// Whether the budget was shut down.
    pub closed: bool,
}

/// What the budget says to a request that asks for a permit.
#[derive(Clone, Copy, Debug, PartialEq, Eq)]
pub enum Admission {
    /// A permit was taken.
    Granted,
    /// Every permit is out: ask again after a release.
    Exhausted,
    /// The budget was shut down and issues no more permits.
    Closed,
}

/// A shut budget refuses, a budget with a permit left grants it, a budget
/// without one makes the request wait.
pub open spec fn acquire(budget: Budget) -> (Budget, Admission) {
    if budget.closed {
        (budget, Admission::Closed)
    } else if budget.in_flight < budget.permits {
        (
            Budget {
                permits: budget.permits,
                in_flight: budget.in_flight + 1,
                closed: budget.closed,
            },
            Admission::Granted,
        )
    } else {
        (budget, Admission::Exhausted)
    }
}

/// A finished request hands its permit back.
pub open spec fn released(budget: Budget) -> Budget {
    Budget {
        permits: budget.permits,
        in_flight: if budget.in_flight > 0 {
            (budget.in_flight - 1) as nat
        } else {
            0
        },
        closed: budget.closed,
    }
}

/// A counting permit pool that bounds the upstream requests in flight.
pub struct ConcurrencyBudget {
    permits: usize,
    in_flight: usize,
    closed: bool,
}

impl View for ConcurrencyBudget {
    type V = Budget;

    closed spec fn view(&self) -> Budget {
        Budget {
            permits: self.permits as nat,
            in_flight: self.in_flight as nat,
            closed: self.closed,
        }
    }
}

impl ConcurrencyBudget {
    /// The budget's invariant: never more in flight than there are permits.
    pub open spec fn wf(&self) -> bool {
        self@.in_flight <= self@.permits
    }

    /// An open budget of `permits` permits, none of them out.
    pub fn new(permits: usize) -> (budget: Self)
        ensures
            budget@ == (Budget { permits: permits as nat, in_flight: 0, closed: false }),
            budget.wf(),
    {
        ConcurrencyBudget { permits, in_flight: 0, closed: false }
    }

    /// How many requests are in flight.
    pub fn in_flight(&self) -> (count: usize)
        ensures
            count == self@.in_flight,
    {
        self.in_flight
    }

    /// How many requests may be in flight at once.
    pub fn permits(&self) -> (count: usize)
        ensures
            count == self@.permits,
    {
        self.permits
    }

    /// Whether the budget was shut down.
    pub fn is_closed(&self) -> (closed: bool)
        ensures
            closed == self@.closed,
    {
        self.closed
    }

    /// Asks for one permit.
    pub fn try_acquire(&mut self) -> (admission: Admission)
        requires
            old(self).wf(),
        ensures
            (final(self)@, admission) == acquire(old(self)@),
            final(self).wf(),
    {
        if self.closed {
            Admission::Closed
        } else if self.in_flight < self.permits {
            self.in_flight = self.in_flight + 1;
            Admission::Granted
        } else {
            Admission::Exhausted
        }
    }

    /// Hands one permit back; a budget with none out stays as it is.
    pub fn release(&mut self)
        requires
            old(self).wf(),
        ensures
            final(self)@ == released(old(self)@),
            final(self).wf(),
    {
        if self.in_flight > 0 {
            self.in_flight = self.in_flight - 1;
        }
    }

    /// Shuts the budget down: it issues no permit from now on.
    pub fn close(&mut self)
        requires
            old(self).wf(),
        ensures
            final(self)@ == (Budget {
                permits: old(self)@.permits,
                in_flight: old(self)@.in_flight,
                closed: true,
            }),
            final(self).wf(),
    {
        self.closed = true;
    }
}

/// An upstream request and the handle by which its answer finds the caller.
#[derive(Debug)]
pub struct QueuedRequest<R> {
    /// The request to send.
    pub request: reqwest::Request,
    /// Where the answer is owed.
    pub reply: R,
}

/// Where the dispatch loop stands between two submissions.
#[derive(Debug)]
pub enum Stage<R> {
    /// It holds nothing and takes the next submission from the queue.
    Receiving,
    /// It holds a submission that waits out the rate window.
    Throttled(QueuedRequest<R>),
    /// It holds a submission that waits for a permit.
    Admitting(QueuedRequest<R>),
}

/// What the owner of the governor has to do next.
#[derive(Debug)]
pub enum Dispatch<R> {
    /// Nothing is queued: wait for a submission.
    Idle,
    /// The rate window is used up: rest this long, then wake the loop.
    Sleep(u64),
    /// The loop is at rest: there is nothing to do until it is woken.
    Resting,
    /// Every permit is out: wait for a release, then ask again.
    AwaitPermit,
    /// Send this request without holding up the loop, and release the permit
    /// when it has settled.
    Execute(QueuedRequest<R>),
    /// The budget was shut down: answer this submission with this error.
    Reject(QueuedRequest<R>, RequestError),
}

/// The governor as contracts see it.
pub struct Governor<R> {
    /// The submissions that wait for dispatch, oldest first.
    pub queue: Seq<QueuedRequest<R>>,
    /// The rate limiter.
    pub window: RateWindow,
    /// The concurrency budget.
    pub budget: Budget,
    /// The most requests one rate window lets through.
    pub max_requests: u8,
    /// How long a rate window lasts.
    pub ratelimit_window: u64,
    /// Where the dispatch loop stands.
    pub stage: Stage<R>,
}

/// The governor's invariant: the queue within its capacity, the budget not
/// overdrawn, the rate window within its quota.
pub open spec fn governor_wf<R>(governor: Governor<R>) -> bool {
    &&& governor.queue.len() <= QUEUE_CAPACITY
    &&& governor.budget.in_flight <= governor.budget.permits
    &&& governor.window.requests <= window_quota(governor.max_requests)
}

/// A submission whose request was built joins the end of the queue if there
/// is room; a build failure and a full queue leave the governor as it was.
pub open spec fn enqueue<R>(
    governor: Governor<R>,
    built: Result<reqwest::Request, reqwest::Error>,
    reply: R,
) -> (Governor<R>, Result<(), RequestError>) {
    match built {
        Err(error) => (governor, Err(RequestError::RequestBuildError(error))),
        Ok(request) => if governor.queue.len() >= QUEUE_CAPACITY {
            (governor, Err(RequestError::BufferError))
        } else {
            (
                Governor { queue: governor.queue.push(QueuedRequest { request, reply }), ..governor },
                Ok(()),
            )
        },
    }
}

/// The admission of a submission that has passed the rate limiter.
pub open spec fn seek_permit<R>(governor: Governor<R>, item: QueuedRequest<R>) -> (
    Governor<R>,
    Dispatch<R>,
) {
    let (budget, admission) = acquire(governor.budget);
    match admission {
        Admission::Granted => (
            Governor { budget, stage: Stage::Receiving, ..governor },
            Dispatch::Execute(item),
        ),
        Admission::Exhausted => (
            Governor { stage: Stage::Admitting(item), ..governor },
            Dispatch::AwaitPermit,
        ),
        Admission::Closed => (
            Governor { stage: Stage::Receiving, ..governor },
            Dispatch::Reject(item, RequestError::SemaphoreError),
        ),
    }
}

/// One turn of the dispatch loop at `now`, taken when the loop is not at rest
/// or when its rest is over. With nothing in hand it takes the oldest
/// submission through the rate limiter and then to admission; with a
/// throttled submission in hand it opens a new window for it; with a
/// submission that waits for a permit it asks for the permit again.
pub open spec fn wake_step<R>(governor: Governor<R>, now: u64) -> (Governor<R>, Dispatch<R>) {
    match governor.stage {
        Stage::Receiving => if governor.queue.len() == 0 {
            (governor, Dispatch::Idle)
        } else {
            let item = governor.queue[0];
            let queue = governor.queue.subrange(1, governor.queue.len() as int);
            let (window, decision) = rate_check(
                governor.window,
                now,
                governor.max_requests,
                governor.ratelimit_window,
            );
            match decision {
                RateDecision::Proceed => seek_permit(Governor { queue, window, ..governor }, item),
                RateDecision::Wait(rest) => (
                    Governor { queue, stage: Stage::Throttled(item), ..governor },
                    Dispatch::Sleep(rest),
                ),
            }
        },
        Stage::Throttled(item) => seek_permit(
            Governor { window: RateWindow { last_reset: now, requests: 1 }, ..governor },
            item,
        ),
        Stage::Admitting(item) => seek_permit(governor, item),
    }
}

/// One turn of the dispatch loop at `now`, taken at any time: a loop at rest
/// stays at rest, any other takes its turn.
pub open spec fn dispatch_step<R>(governor: Governor<R>, now: u64) -> (Governor<R>, Dispatch<R>) {
    if governor.stage is Throttled {
        (governor, Dispatch::Resting)
    } else {
        wake_step(governor, now)
    }
}

/// The governor: the single owner of the outbound client, of the queue of
/// submissions, of the rate window and of the concurrency budget.
pub struct RequestManager<R> {
    client: reqwest::Client,
    queue: VecDeque<QueuedRequest<R>>,
    window: RateWindowState,
    budget: ConcurrencyBudget,
    max_requests: u8,
    ratelimit_window: u64,
    held: Option<QueuedRequest<R>>,
    throttled: bool,
}

impl<R> View for RequestManager<R> {
    type V = Governor<R>;

    closed spec fn view(&self) -> Governor<R> {
        Governor {
            queue: self.queue@,
            window: self.window@,
            budget: self.budget@,
            max_requests: self.max_requests,
            ratelimit_window: self.ratelimit_window,
            stage: match self.held {
                None => Stage::Receiving,
                Some(item) => if self.throttled {
                    Stage::Throttled(item)
                } else {
                    Stage::Admitting(item)
                },
            },
        }
    }
}

impl<R> RequestManager<R> {
    /// The governor's invariant, which `new` establishes and every method
    /// keeps.
    pub open spec fn wf(&self) -> bool {
        governor_wf(self@)
    }

    /// The client that requests are built for.
    pub closed spec fn spec_client(&self) -> reqwest::Client {
        self.client
    }

    /// A governor around `client` that lets `concurrent_requests` requests be
    /// in flight at once and `max_requests` through in each window of
    /// `ratelimit_window` nanoseconds.
    pub fn new(
        client: reqwest::Client,
        concurrent_requests: u8,
        max_requests: u8,
        ratelimit_window: u64,
    ) -> (manager: Self)
        ensures
            manager@ == (Governor::<R> {
                queue: Seq::empty(),
                window: RateWindow { last_reset: 0, requests: 0 },
                budget: Budget { permits: concurrent_requests as nat, in_flight: 0, closed: false },
                max_requests,
                ratelimit_window,
                stage: Stage::Receiving,
            }),
            manager.spec_client() == client,
            manager.wf(),
    {
        RequestManager {
            client,
            queue: VecDeque::new(),
            window: RateWindowState::new(),
            budget: ConcurrencyBudget::new(concurrent_requests as usize),
            max_requests,
            ratelimit_window,
            held: None,
            throttled: false,
        }
    }

    /// The client that requests are built for and sent with.
    pub fn client(&self) -> (client: &reqwest::Client)
        ensures
            *client == self.spec_client(),
    {
        &self.client
    }

    /// How many submissions wait for dispatch.
    pub fn queued(&self) -> (count: usize)
        ensures
            count == self@.queue.len(),
    {
        self.queue.len()
    }

    /// How many requests are in flight.
    pub fn in_flight(&self) -> (count: usize)
        ensures
            count == self@.budget.in_flight,
    {
        self.budget.in_flight()
    }

    /// Queues a submission whose request the caller has tried to build.
    pub fn submit(&mut self, built: Result<reqwest::Request, reqwest::Error>, reply: R) -> (outcome:
        Result<(), RequestError>)
        requires
            old(self).wf(),
        ensures
            (final(self)@, outcome) == enqueue(old(self)@, built, reply),
            final(self).spec_client() == old(self).spec_client(),
            final(self).wf(),
    {
        match built {
            Err(error) => Err(RequestError::RequestBuildError(error)),
            Ok(request) => {
                if self.queue.len() >= QUEUE_CAPACITY {
                    Err(RequestError::BufferError)
                } else {
                    self.queue.push_back(QueuedRequest { request, reply });
                    Ok(())
                }
            },
        }
    }

    /// Lets the caller build its request with the governor's client and
    /// queues the submission. The outcome is that of [`Self::submit`] on
    /// whatever the caller built.
    pub fn queue_request<F>(&mut self, caller: F, reply: R) -> (outcome: Result<(), RequestError>)
        where F: FnOnce(&reqwest::Client) -> Result<reqwest::Request, reqwest::Error>
        requires
            old(self).wf(),
            caller.requires((&old(self).spec_client(),)),
        ensures
            exists|built: Result<reqwest::Request, reqwest::Error>|
                caller.ensures((&old(self).spec_client(),), built) && (final(self)@, outcome)
                    == enqueue(old(self)@, built, reply),
            final(self).spec_client() == old(self).spec_client(),
            final(self).wf(),
    {
        let built = caller(&self.client);
        self.submit(built, reply)
    }

    fn take_permit(&mut self, item: QueuedRequest<R>) -> (action: Dispatch<R>)
        requires
            old(self).wf(),
            old(self).held is None,
        ensures
            (final(self)@, action) == seek_permit(old(self)@, item),
            final(self).spec_client() == old(self).spec_client(),
            final(self).wf(),
    {
        match self.budget.try_acquire() {
            Admission::Granted => Dispatch::Execute(item),
            Admission::Exhausted => {
                self.held = Some(item);
                self.throttled = false;
                Dispatch::AwaitPermit
            },
            Admission::Closed => Dispatch::Reject(item, RequestError::SemaphoreError),
        }
    }

    /// Takes one turn of the dispatch loop at `now` and says what to do next.
    /// It may be called at any time: while the loop rests it answers
    /// [`Dispatch::Resting`] and changes nothing. After [`Dispatch::Sleep`]
    /// the loop is to be woken when the rest is over; after
    /// [`Dispatch::AwaitPermit`] the next turn is due when a request was
    /// released.
    pub fn dispatch(&mut self, now: u64) -> (action: Dispatch<R>)
        requires
            old(self).wf(),
        ensures
            (final(self)@, action) == dispatch_step(old(self)@, now),
            final(self).spec_client() == old(self).spec_client(),
            final(self).wf(),
    {
        if self.held.is_some() && self.throttled {
            Dispatch::Resting
        } else {
            self.wake(now)
        }
    }

    /// Wakes the loop at `now`, when its rest is over, and takes a turn. The
    /// submission that rested opens a new rate window.
    pub fn wake(&mut self, now: u64) -> (action: Dispatch<R>)
        requires
            old(self).wf(),
        ensures
            (final(self)@, action) == wake_step(old(self)@, now),
            final(self).spec_client() == old(self).spec_client(),
            final(self).wf(),
    {
        match self.held.take() {
            Some(item) => {
                if self.throttled {
                    self.window.restart(now);
                    self.throttled = false;
                }
                self.take_permit(item)
            },
            None => {
                match self.queue.pop_front() {
                    None => Dispatch::Idle,
                    Some(item) => {
                        match self.window.check(now, self.max_requests, self.ratelimit_window) {
                            RateDecision::Proceed => self.take_permit(item),
                            RateDecision::Wait(rest) => {
                                self.held = Some(item);
                                self.throttled = true;
                                Dispatch::Sleep(rest)
                            },
                        }
                    },
                }
            },
        }
    }

    /// Hands back the permit of a request that has settled, whatever its
    /// outcome.
    pub fn release(&mut self)
        requires
            old(self).wf(),
        ensures
            final(self)@ == (Governor { budget: released(old(self)@.budget), ..old(self)@ }),
            final(self).spec_client() == old(self).spec_client(),
            final(self).wf(),
    {
        self.budget.release();
    }

    /// Shuts the concurrency budget down: every later admission is refused.
    pub fn shut_down(&mut self)
        requires
            old(self).wf(),
        ensures
            final(self)@ == (Governor {
                budget: Budget { closed: true, ..old(self)@.budget },
                ..old(self)@
            }),
            final(self).spec_client() == old(self).spec_client(),
            final(self).wf(),
    {
        self.budget.close();
    }
}

/// A request about to be sent, and the copy to send if the upstream throttles
/// it.
#[derive(Debug)]
pub struct Attempt {
    /// The request to send now.
    pub request: reqwest::Request,
    /// A second request like it, where one could be made.
    pub retry: Option<reqwest::Request>,
}

/// What follows from one attempt to send a request.
#[derive(Debug)]
pub enum Execution {
    /// Hand this response to the caller as it is.
    Deliver(reqwest::Response),
    /// Hand this error to the caller.
    Fail(RequestError),
    /// Rest for `wait`, then send `request`.
    Retry { wait: u64, request: reqwest::Request },
    /// Rest for `wait`, then hand `error` to the caller.
    FailAfter { wait: u64, error: RequestError },
}

/// Whether a status is one of success, 200 to 299.
pub open spec fn is_success(status: u16) -> bool {
    200 <= status && status < 300
}

/// What a response with the given status means. Success is delivered
/// untouched. A throttled request rests and is sent again from its copy, as
/// often as the upstream asks; without a copy it fails with the status after
/// the same rest. Any other status fails at once and carries the code.
pub open spec fn settled(
    status: u16,
    response: reqwest::Response,
    retry: Option<reqwest::Request>,
) -> Execution {
    if is_success(status) {
        Execution::Deliver(response)
    } else if status == TOO_MANY_REQUESTS {
        match retry {
            Some(request) => Execution::Retry { wait: RETRY_BACKOFF, request },
            None => Execution::FailAfter {
                wait: RETRY_BACKOFF,
                error: RequestError::StatusCodeError(status),
            },
        }
    } else {
        Execution::Fail(RequestError::StatusCodeError(status))
    }
}

/// Readies a request for sending: keeps a copy for a later retry where the
/// request allows one.
pub fn begin_attempt(request: reqwest::Request) -> (attempt: Attempt)
    ensures
        attempt.request == request,
        attempt.retry == request_copy(request),
{
    let retry = try_clone_request(&request);
    Attempt { request, retry }
}

/// Settles a response whose status is known.
pub fn settle(status: u16, response: reqwest::Response, retry: Option<reqwest::Request>) -> (next:
    Execution)
    ensures
        next == settled(status, response, retry),
{
    if 200 <= status && status < 300 {
        Execution::Deliver(response)
    } else if status == TOO_MANY_REQUESTS {
        match retry {
            Some(request) => Execution::Retry { wait: RETRY_BACKOFF, request },
            None => Execution::FailAfter {
                wait: RETRY_BACKOFF,
                error: RequestError::StatusCodeError(status),
            },
        }
    } else {
        Execution::Fail(RequestError::StatusCodeError(status))
    }
}

/// Settles one attempt to send a request. A failure to send is final and is
/// never retried; a response is settled by the status it carries.
pub fn execute_request(
    sent: Result<reqwest::Response, reqwest::Error>,
    retry: Option<reqwest::Request>,
) -> (next: Execution)
    ensures
        match sent {
            Err(error) => next == Execution::Fail(RequestError::ReqwestError(error)),
            Ok(response) => next == settled(response_status(response), response, retry),
        },
{
    match sent {
        Err(error) => Execution::Fail(RequestError::ReqwestError(error)),
        Ok(response) => {
            let status = status_of(&response);
            settle(status, response, retry)
        },
    }
}

/// What the caller of the governor gets in the end. `reply` is what arrived
/// for its submission: the outcome of the request, or nothing where the
/// request was given up before anything answered it, which is an error of
/// its own.
pub fn receive_reply(reply: Option<Result<reqwest::Response, RequestError>>) -> (outcome: Result<
    reqwest::Response,
    RequestError,
>)
    ensures
        outcome == match reply {
            Some(outcome) => outcome,
            None => Err(RequestError::RecvError),
        },
{
    match reply {
        Some(outcome) => outcome,
        None => Err(RequestError::RecvError),
    }
}

/// A status other than success and other than the throttling one ends the
/// request at once: no rest, no second attempt, and the caller gets the
/// code.
pub proof fn lemma_failure_is_final(
    status: u16,
    response: reqwest::Response,
    retry: Option<reqwest::Request>,
)
    requires
        !is_success(status),
        status != TOO_MANY_REQUESTS,
    ensures
        settled(status, response, retry) == Execution::Fail(RequestError::StatusCodeError(status)),
{
}

/// A throttling response never reaches the caller while a copy of the
/// request is at hand: the copy is sent after the fixed rest.
pub proof fn lemma_throttling_is_absorbed(response: reqwest::Response, request: reqwest::Request)
    ensures
        settled(TOO_MANY_REQUESTS, response, Some(request)) == (Execution::Retry {
            wait: RETRY_BACKOFF,
            request,
        }),
{
}

/// One request on its way through the rate limiter.
pub struct Passage {
    /// When the request reached the limiter.
    pub arrived: u64,
    /// When its rest was over, if the limiter made it wait.
    pub resumed: u64,
}

/// The instant at which the limiter lets a request through: at once, or when
/// its rest is over.
pub open spec fn passes_at(window: RateWindow, passage: Passage, max_requests: u8, length: u64)
    -> u64 {
    match rate_check(window, passage.arrived, max_requests, length).1 {
        RateDecision::Proceed => passage.arrived,
        RateDecision::Wait(_) => passage.resumed,
    }
}

/// The limiter once it has let a request through. A request that had to
/// wait opens a new window when its rest is over.
pub open spec fn window_after(window: RateWindow, passage: Passage, max_requests: u8, length: u64)
    -> RateWindow {
    match rate_check(window, passage.arrived, max_requests, length) {
        (next, RateDecision::Proceed) => next,
        (_, RateDecision::Wait(_)) => RateWindow { last_reset: passage.resumed, requests: 1 },
    }
}

/// The limiter after a run of requests, one after the other.
pub open spec fn limiter_after(
    start: RateWindow,
    run: Seq<Passage>,
    max_requests: u8,
    length: u64,
) -> RateWindow
    decreases run.len(),
{
    if run.len() == 0 {
        start
    } else {
        window_after(
            limiter_after(start, run.drop_last(), max_requests, length),
            run.last(),
            max_requests,
            length,
        )
    }
}

/// The instant at which the request at `index` of a run is let through.
pub open spec fn passed_at(
    start: RateWindow,
    run: Seq<Passage>,
    max_requests: u8,
    length: u64,
    index: int,
) -> u64 {
    passes_at(limiter_after(start, run.take(index), max_requests, length), run[index], max_requests, length)
}

/// Whether a run goes by the clock: no request reaches the limiter before
/// the window began or before the request ahead of it was let through, and a
/// request that is made to wait rests at least as long as it was told.
pub open spec fn orderly(start: RateWindow, run: Seq<Passage>, max_requests: u8, length: u64)
    -> bool {
    forall|index: int|
        0 <= index < run.len() ==> {
            let window = limiter_after(start, run.take(index), max_requests, length);
            &&& (#[trigger] run[index]).arrived >= window.last_reset
            &&& index > 0 ==> run[index].arrived >= passed_at(
                start,
                run,
                max_requests,
                length,
                index - 1,
            )
            &&& rate_check(window, run[index].arrived, max_requests, length).1 matches RateDecision::Wait(
                rest,
            ) ==> run[index].resumed >= run[index].arrived + rest
        }
}

proof fn lemma_passage(window: RateWindow, passage: Passage, max_requests: u8, length: u64)
    requires
        window.requests <= window_quota(max_requests),
        passage.arrived >= window.last_reset,
        rate_check(window, passage.arrived, max_requests, length).1 matches RateDecision::Wait(rest)
            ==> passage.resumed >= passage.arrived + rest,
    ensures
        ({
            let next = window_after(window, passage, max_requests, length);
            let at = passes_at(window, passage, max_requests, length);
            &&& 1 <= next.requests <= window_quota(max_requests)
            &&& next.last_reset <= at
            &&& passage.arrived <= at
            &&& {
                ||| next.last_reset == window.last_reset && next.requests == window.requests + 1
                ||| next.last_reset == at && next.requests == 1 && at >= window.last_reset + length
            }
        }),
{
}

proof fn lemma_run_prefix(run: Seq<Passage>, index: int)
    requires
        0 <= index < run.len(),
    ensures
        run.take(index + 1).drop_last() == run.take(index),
        run.take(index + 1).last() == run[index],
{
}

/// Along an orderly run the count of the current window stays within the
/// quota.
proof fn lemma_quota_is_kept(
    start: RateWindow,
    run: Seq<Passage>,
    max_requests: u8,
    length: u64,
    index: int,
)
    requires
        start.requests <= window_quota(max_requests),
        orderly(start, run, max_requests, length),
        0 <= index <= run.len(),
    ensures
        limiter_after(start, run.take(index), max_requests, length).requests <= window_quota(
            max_requests,
        ),
    decreases index,
{
    if index > 0 {
        lemma_quota_is_kept(start, run, max_requests, length, index - 1);
        lemma_run_prefix(run, index - 1);
        let window = limiter_after(start, run.take(index - 1), max_requests, length);
        lemma_passage(window, run[index - 1], max_requests, length);
    }
}

/// Where the request at `index` stands relative to the one at `from`: in the
/// same window, in the window that was opened next, or in a later one.
spec fn spaced(
    start: RateWindow,
    run: Seq<Passage>,
    max_requests: u8,
    length: u64,
    from: int,
    index: int,
) -> bool {
    let first = limiter_after(start, run.take(from + 1), max_requests, length);
    let window = limiter_after(start, run.take(index + 1), max_requests, length);
    let first_at = passed_at(start, run, max_requests, length, from);
    let at = passed_at(start, run, max_requests, length, index);
    &&& 1 <= window.requests <= window_quota(max_requests)
    &&& 1 <= first.requests
    &&& window.last_reset <= at
    &&& first_at <= at
    &&& {
        ||| window.last_reset == first.last_reset && window.requests == first.requests + (index
            - from)
        ||| window.last_reset >= first_at && index - from <= window_quota(max_requests) - 1
            + window.requests
        ||| window.last_reset >= first_at + length
    }
}

proof fn lemma_spacing(
    start: RateWindow,
    run: Seq<Passage>,
    max_requests: u8,
    length: u64,
    from: int,
    index: int,
)
    requires
        start.requests <= window_quota(max_requests),
        orderly(start, run, max_requests, length),
        0 <= from <= index < run.len(),
    ensures
        spaced(start, run, max_requests, length, from, index),
    decreases index - from,
{
    lemma_quota_is_kept(start, run, max_requests, length, index);
    lemma_run_prefix(run, index);
    let before = limiter_after(start, run.take(index), max_requests, length);
    lemma_passage(before, run[index], max_requests, length);
    if index > from {
        lemma_spacing(start, run, max_requests, length, from, index - 1);
    }
}

/// The rate limit. Along an orderly run, the requests of one window are at
/// most the quota, and a new window opens no sooner than one window length
/// after the last; so of any `2 * quota + 1` requests in a row, the last is
/// let through at least one window length after the first. Within one window
/// length the limiter thus lets through at most twice the quota: the quota
/// itself, and as much again where a burst straddles the turn of a window.
pub proof fn lemma_rate_is_bounded(
    start: RateWindow,
    run: Seq<Passage>,
    max_requests: u8,
    length: u64,
    first: int,
    last: int,
)
    requires
        start.requests <= window_quota(max_requests),
        orderly(start, run, max_requests, length),
        0 <= first,
        last < run.len(),
        last - first >= 2 * window_quota(max_requests),
    ensures
        passed_at(start, run, max_requests, length, last) - passed_at(
            start,
            run,
            max_requests,
            length,
            first,
        ) >= length,
{
    lemma_spacing(start, run, max_requests, length, first, last);
    lemma_spacing(start, run, max_requests, length, first, first);
}

/// Within one window the limiter lets through no more than the quota: along
/// an orderly run, a request that is let through while the window of an
/// earlier one is still the current one stands that many places further in
/// the window's count, which never exceeds the quota.
pub proof fn lemma_window_holds_quota(
    start: RateWindow,
    run: Seq<Passage>,
    max_requests: u8,
    length: u64,
    first: int,
    last: int,
)
    requires
        start.requests <= window_quota(max_requests),
        orderly(start, run, max_requests, length),
        0 <= first <= last < run.len(),
        last - first >= window_quota(max_requests),
    ensures
        limiter_after(start, run.take(last + 1), max_requests, length).last_reset >= passed_at(
            start,
            run,
            max_requests,
            length,
            first,
        ),
        limiter_after(start, run.take(last + 1), max_requests, length).requests <= window_quota(
            max_requests,
        ),
{
    lemma_spacing(start, run, max_requests, length, first, last);
    lemma_spacing(start, run, max_requests, length, first, first);
}

/// The concurrency bound. A turn of the dispatch loop keeps the governor's
/// invariant, so that never more requests are in flight than the budget has
/// permits; and it hands a request out for sending only by taking a permit
/// that was free.
pub proof fn lemma_budget_is_kept<R>(governor: Governor<R>, now: u64)
    requires
        governor_wf(governor),
    ensures
        governor_wf(wake_step(governor, now).0),
        governor_wf(dispatch_step(governor, now).0),
        wake_step(governor, now).1 is Execute ==> {
            &&& governor.budget.in_flight < governor.budget.permits
            &&& wake_step(governor, now).0.budget.in_flight == governor.budget.in_flight + 1
        },
        !(wake_step(governor, now).1 is Execute) ==> wake_step(governor, now).0.budget
            == governor.budget,
{
}

/// Something that happens to a governor.
pub enum Occurrence<R> {
    /// A caller submitted what it had built, with the handle for the answer.
    Submitted(Result<reqwest::Request, reqwest::Error>, R),
    /// The dispatch loop took a turn at this instant.
    Turn(u64),
    /// The dispatch loop was woken at this instant.
    Woken(u64),
    /// A request settled and handed its permit back.
    Released,
    /// The budget was shut down.
    ShutDown,
}

/// The governor after one occurrence.
pub open spec fn after<R>(governor: Governor<R>, what: Occurrence<R>) -> Governor<R> {
    match what {
        Occurrence::Submitted(built, reply) => enqueue(governor, built, reply).0,
        Occurrence::Turn(now) => dispatch_step(governor, now).0,
        Occurrence::Woken(now) => wake_step(governor, now).0,
        Occurrence::Released => Governor { budget: released(governor.budget), ..governor },
        Occurrence::ShutDown => Governor {
            budget: Budget { closed: true, ..governor.budget },
            ..governor
        },
    }
}

/// The governor after a history of occurrences, the oldest first.
pub open spec fn after_all<R>(governor: Governor<R>, history: Seq<Occurrence<R>>) -> Governor<R>
    decreases history.len(),
{
    if history.len() == 0 {
        governor
    } else {
        after(after_all(governor, history.drop_last()), history.last())
    }
}

/// Whatever happens to a governor, in whatever order, it never has more
/// requests in flight than the budget it was made with has permits, and never
/// more submissions queued than the queue's capacity.
pub proof fn lemma_bounds_hold_throughout<R>(governor: Governor<R>, history: Seq<Occurrence<R>>)
    requires
        governor_wf(governor),
    ensures
        governor_wf(after_all(governor, history)),
        after_all(governor, history).budget.permits == governor.budget.permits,
        after_all(governor, history).budget.in_flight <= governor.budget.permits,
        after_all(governor, history).queue.len() <= QUEUE_CAPACITY,
    decreases history.len(),
{
    if history.len() > 0 {
        lemma_bounds_hold_throughout(governor, history.drop_last());
    }
}

/// Submissions are dispatched in the order of their arrival: a turn that
/// takes a submission from the queue takes the oldest, and a submission
/// joins the queue at its end.
pub proof fn lemma_queue_is_fifo<R>(
    governor: Governor<R>,
    request: reqwest::Request,
    reply: R,
    now: u64,
)
    requires
        governor.stage is Receiving,
        0 < governor.queue.len() < QUEUE_CAPACITY,
    ensures
        enqueue(governor, Ok(request), reply).0.queue.last() == (QueuedRequest { request, reply }),
        dispatch_step(enqueue(governor, Ok(request), reply).0, now).0.queue
            == governor.queue.subrange(1, governor.queue.len() as int).push(
            QueuedRequest { request, reply },
        ),
{
    let longer = governor.queue.push(QueuedRequest { request, reply });
    assert(longer.subrange(1, longer.len() as int) =~= governor.queue.subrange(
        1,
        governor.queue.len() as int,
    ).push(QueuedRequest { request, reply }));
}

} // verus!
