//! Retries of failed model calls.
use vstd::prelude::*;

use crate::event::{AgentEvent, AgentEventView};
use crate::provider::{
    fatal_error, failed_with, EventView, FailedTurn, FailedView, ProviderEvent, StreamTerminal,
    TerminalView, TurnOutput, TurnView,
};
use crate::text::{concat3, dec, decimal};
use crate::time::{tenths_of, Duration};

verus! {

/// When a call is tried again. Only calls that brought nothing are: whoever retries sees to that.
#[derive(Debug, Clone, Copy)]
pub struct RetryPolicy {
    /// How often a call is made at most, the first time included.
    pub max_attempts: u32,
    /// How long to wait after the first failure; it doubles with each further one.
    pub base_delay: Duration,
    pub max_delay: Duration,
    /// A service that asks for a longer wait is not tried again.
    pub max_retry_after: Duration,
    /// The same seed makes the same waits.
    pub jitter_seed: u64,
}

impl Default for RetryPolicy {
    fn default() -> (p: RetryPolicy)
        ensures
            p.max_attempts == 3,
            p.base_delay.nanos == 2_000_000_000,
            p.max_delay.nanos == 30_000_000_000,
            p.max_retry_after.nanos == 60_000_000_000,
            p.jitter_seed == 0x9E37_79B9_7F4A_7C15,
    {
        RetryPolicy {
            max_attempts: 3,
            base_delay: Duration::from_secs(2),
            max_delay: Duration::from_secs(30),
            max_retry_after: Duration::from_secs(60),
            jitter_seed: 0x9E37_79B9_7F4A_7C15,
        }
    }
}

/// The smaller of two numbers.
pub open spec fn smaller(a: int, b: int) -> int {
    if a <= b {
        a
    } else {
        b
    }
}

pub open spec fn two_to(n: nat) -> nat
    decreases n,
{
    if n == 0 {
        1
    } else {
        2 * two_to((n - 1) as nat)
    }
}

/// The mixing steps behind the jitter.
pub open spec fn mixed(seed: u64, attempt: u32) -> u64 {
    let a = vstd::wrapping::u64_specs::wrapping_add(
        seed,
        vstd::wrapping::u64_specs::wrapping_mul((attempt + 1) as u64, 0x9E37_79B9_7F4A_7C15),
    );
    let b = a ^ (a >> 33);
    let c = vstd::wrapping::u64_specs::wrapping_mul(b, 0xFF51_AFD7_ED55_8CCD);
    c ^ (c >> 33)
}

/// The share of a wait that is added to it, in parts of four thousand: less than a quarter.
pub open spec fn jitter_parts(seed: u64, attempt: u32) -> nat {
    (mixed(seed, attempt) % 1000) as nat
}

/// How many times the wait has doubled when the given attempt has failed.
pub open spec fn doublings(attempt: u32) -> nat {
    smaller(
        if attempt == 0 {
            0
        } else {
            attempt - 1
        },
        20,
    ) as nat
}

/// The wait without jitter.
pub open spec fn backoff_of(p: RetryPolicy, attempt: u32) -> int {
    smaller(
        smaller(p.base_delay.nanos * two_to(doublings(attempt)), u128::MAX as int),
        p.max_delay.nanos as int,
    )
}

/// How long to wait before the next attempt; nothing where there is none.
pub open spec fn wait_after(p: RetryPolicy, attempt: u32, retry_after: Option<Duration>) -> Option<
    Duration,
> {
    if attempt >= p.max_attempts {
        None
    } else {
        match retry_after {
            Some(asked) => if asked.nanos > p.max_retry_after.nanos {
                None
            } else {
                Some(asked)
            },
            None => {
                let backoff = backoff_of(p, attempt);
                let jitter = (backoff * jitter_parts(p.jitter_seed, attempt) + 2000) / 4000;
                Some(Duration { nanos: smaller(backoff + jitter, p.max_delay.nanos as int) as u128 })
            },
        }
    }
}

proof fn two_to_is_a_shift(n: u32)
    requires
        n <= 20,
    ensures
        (1u128 << n) == two_to(n as nat),
    decreases n,
{
    if n > 0 {
        two_to_is_a_shift((n - 1) as u32);
        assert((1u128 << n) == 2 * (1u128 << ((n - 1) as u32))) by (bit_vector)
            requires
                0 < n <= 20,
        ;
    } else {
        assert((1u128 << 0u32) == 1) by (bit_vector);
    }
}

impl RetryPolicy {
    fn jitter_share(&self, attempt: u32) -> (r: u64)
        ensures
            r == jitter_parts(self.jitter_seed, attempt),
            r < 1000,
    {
        let step: u64 = (attempt as u64 + 1).wrapping_mul(0x9E37_79B9_7F4A_7C15);
        let a: u64 = self.jitter_seed.wrapping_add(step);
        let b: u64 = a ^ (a >> 33);
        let c: u64 = b.wrapping_mul(0xFF51_AFD7_ED55_8CCD);
        let d: u64 = c ^ (c >> 33);
        d % 1000
    }

    /// How long to wait after the failed attempt `attempt`, counted from 1; nothing where the call
    /// is given up. A wait that the service asks for goes before the policy's own.
    pub fn delay_for(&self, attempt: u32, retry_after: Option<Duration>) -> (r: Option<Duration>)
        ensures
            r == wait_after(*self, attempt, retry_after),
    {
        if attempt >= self.max_attempts {
            return None;
        }
        if let Some(asked) = retry_after {
            if asked.nanos > self.max_retry_after.nanos {
                return None;
            }
            return Some(asked);
        }
        let n: u32 = if attempt == 0 {
            0
        } else {
            attempt - 1
        };
        let exponent: u32 = if n <= 20 {
            n
        } else {
            20
        };
        proof {
            two_to_is_a_shift(exponent);
        }
        let factor: u128 = 1u128 << exponent;
        let grown: u128 = match self.base_delay.nanos.checked_mul(factor) {
            Some(n) => n,
            None => u128::MAX,
        };
        let backoff: u128 = if grown <= self.max_delay.nanos {
            grown
        } else {
            self.max_delay.nanos
        };
        let parts: u128 = self.jitter_share(attempt) as u128;
        let whole: u128 = backoff / 4000;
        let rest: u128 = backoff % 4000;
        assert(whole * parts <= backoff) by (nonlinear_arith)
            requires
                whole == backoff / 4000,
                parts < 1000,
        ;
        assert(rest * parts <= 4000 * 1000) by (nonlinear_arith)
            requires
                rest < 4000,
                parts < 1000,
        ;
        let tail: u128 = (rest * parts + 2000) / 4000;
        let jitter: u128 = (whole * parts).saturating_add(tail);
        assert(whole * parts + tail == (backoff * parts + 2000) / 4000) by (nonlinear_arith)
            requires
                whole == backoff / 4000,
                rest == backoff % 4000,
                tail == (rest * parts + 2000) / 4000,
                parts < 1000,
        {
            assert(backoff == 4000 * whole + rest);
            assert(backoff * parts + 2000 == 4000 * (whole * parts) + (rest * parts + 2000));
        }
        let sum: u128 = backoff.saturating_add(jitter);
        let nanos: u128 = if sum <= self.max_delay.nanos {
            sum
        } else {
            self.max_delay.nanos
        };
        Some(Duration { nanos })
    }
}

// ---- Laws ----

proof fn backoffs_grow(p: RetryPolicy, attempt: u32)
    requires
        attempt < u32::MAX,
        doublings(attempt) < doublings((attempt + 1) as u32),
    ensures
        backoff_of(p, attempt) >= 0,
        backoff_of(p, (attempt + 1) as u32) == p.max_delay.nanos || backoff_of(
            p,
            (attempt + 1) as u32,
        ) >= 2 * backoff_of(p, attempt),
{
    let n = doublings(attempt);
    let base = p.base_delay.nanos as int;
    two_to_positive(n);
    assert(doublings((attempt + 1) as u32) == n + 1);
    assert(two_to(n + 1) == 2 * two_to(n));
    assert(base * (2 * two_to(n)) == 2 * (base * two_to(n))) by (nonlinear_arith);
    assert(base * two_to(n) >= 0) by (nonlinear_arith)
        requires
            base >= 0,
            two_to(n) >= 1,
    ;
}

/// A wait is never shorter than the one before it, as long as it doubles, has reached the longest
/// one, or what is added to it does not shrink.
pub proof fn law_waits_never_shrink(p: RetryPolicy, attempt: u32)
    requires
        attempt < u32::MAX,
        attempt + 1 < p.max_attempts,
        doublings(attempt) < doublings((attempt + 1) as u32) || backoff_of(p, attempt)
            == p.max_delay.nanos || jitter_parts(p.jitter_seed, attempt) <= jitter_parts(
            p.jitter_seed,
            (attempt + 1) as u32,
        ),
    ensures
        wait_after(p, attempt, None) is Some,
        wait_after(p, (attempt + 1) as u32, None) is Some,
        wait_after(p, attempt, None)->0.nanos <= wait_after(
            p,
            (attempt + 1) as u32,
            None,
        )->0.nanos,
{
    let next = (attempt + 1) as u32;
    law_waits_are_bounded(p, attempt);
    law_waits_are_bounded(p, next);
    if doublings(attempt) < doublings(next) {
        backoffs_grow(p, attempt);
    } else {
        assert(doublings(attempt) == doublings(next));
        let backoff = backoff_of(p, attempt);
        let a = jitter_parts(p.jitter_seed, attempt) as int;
        let b = jitter_parts(p.jitter_seed, next) as int;
        if a <= b {
            assert((backoff * a + 2000) / 4000 <= (backoff * b + 2000) / 4000) by (nonlinear_arith)
                requires
                    a <= b,
                    backoff >= 0,
            ;
        }
    }
}

/// No wait of the policy's own is longer than the policy allows, and none is shorter than the
/// doubled delay that fits; what is added to it is less than a quarter of it.
pub proof fn law_waits_are_bounded(p: RetryPolicy, attempt: u32)
    requires
        attempt < p.max_attempts,
    ensures
        wait_after(p, attempt, None) is Some,
        wait_after(p, attempt, None)->0.nanos <= p.max_delay.nanos,
        wait_after(p, attempt, None)->0.nanos >= backoff_of(p, attempt),
        4 * (wait_after(p, attempt, None)->0.nanos - backoff_of(p, attempt)) <= backoff_of(p, attempt) + 2,
{
    let backoff = backoff_of(p, attempt);
    let parts = jitter_parts(p.jitter_seed, attempt) as int;
    let jitter = (backoff * parts + 2000) / 4000;
    assert(two_to(doublings(attempt)) >= 1) by {
        two_to_positive(doublings(attempt));
    }
    assert(p.base_delay.nanos * two_to(doublings(attempt)) >= 0) by (nonlinear_arith)
        requires
            two_to(doublings(attempt)) >= 1,
            p.base_delay.nanos >= 0,
    ;
    assert(0 <= jitter && 4 * jitter <= backoff + 2) by (nonlinear_arith)
        requires
            0 <= parts < 1000,
            backoff >= 0,
            jitter == (backoff * parts + 2000) / 4000,
    {
        assert(backoff * parts <= backoff * 999);
        assert(4000 * jitter <= backoff * parts + 2000);
    }
}

proof fn two_to_positive(n: nat)
    ensures
        two_to(n) >= 1,
    decreases n,
{
    if n > 0 {
        two_to_positive((n - 1) as nat);
    }
}

/// What a service asks for is either waited for exactly or not at all.
pub proof fn law_asked_waits_are_kept_or_refused(p: RetryPolicy, attempt: u32, asked: Duration)
    ensures
        wait_after(p, attempt, Some(asked)) == (if attempt < p.max_attempts && asked.nanos
            <= p.max_retry_after.nanos {
            Some(asked)
        } else {
            None
        }),
{
}

/// There is no attempt behind the last one.
pub proof fn law_attempts_are_bounded(p: RetryPolicy, attempt: u32, retry_after: Option<Duration>)
    requires
        attempt >= p.max_attempts,
    ensures
        wait_after(p, attempt, retry_after) is None,
{
}

// ---- A call and its retries ----

/// What comes after an attempt.
#[derive(Debug)]
pub enum CallStep {
    Done(TurnOutput),
    Cancelled(FailedTurn),
    Failed(FailedTurn),
    /// Wait, then try again; the notice is shown meanwhile.
    Wait { delay: Duration, notice: String },
}

#[verifier::ext_equal]
pub enum CallView {
    Done(TurnView),
    Cancelled(FailedView),
    Failed(FailedView),
    Wait { delay: Duration, notice: Seq<char> },
}

impl DeepView for CallStep {
    type V = CallView;

    open spec fn deep_view(&self) -> CallView {
        match *self {
            CallStep::Done(output) => CallView::Done(output.deep_view()),
            CallStep::Cancelled(failed) => CallView::Cancelled(failed.deep_view()),
            CallStep::Failed(failed) => CallView::Failed(failed.deep_view()),
            CallStep::Wait { delay, notice } => CallView::Wait { delay, notice: notice@ },
        }
    }
}

pub open spec fn retry_notice(message: Seq<char>, delay: Duration, attempt: u32, max_attempts: u32) -> Seq<
    char,
> {
    message + ","@ + tenths_of(delay) + "s 后重试("@ + dec(attempt as nat) + "/"@ + dec(
        (max_attempts - 1) as nat,
    ) + ")"@
}

/// What comes after an attempt has ended. Only a failure that brought nothing at all, and that may
/// be gone the next time, is tried again.
pub open spec fn after_attempt(
    p: RetryPolicy,
    attempt: u32,
    terminal: TerminalView,
    emitted_any: bool,
) -> CallView {
    match terminal {
        TerminalView::Done(output) => CallView::Done(output),
        TerminalView::Aborted(failed) => CallView::Cancelled(failed),
        TerminalView::Error(failed) => {
            let delay = if failed.error.retryable && !emitted_any {
                wait_after(p, attempt, failed.error.retry_after)
            } else {
                None
            };
            match delay {
                None => CallView::Failed(failed),
                Some(delay) => CallView::Wait {
                    delay,
                    notice: retry_notice(failed.error.message, delay, attempt, p.max_attempts),
                },
            }
        },
    }
}

pub fn end_attempt(policy: &RetryPolicy, attempt: u32, terminal: StreamTerminal, emitted_any: bool) -> (r:
    CallStep)
    ensures
        r.deep_view() == after_attempt(*policy, attempt, terminal.deep_view(), emitted_any),
{
    match terminal {
        StreamTerminal::Done(output) => CallStep::Done(output),
        StreamTerminal::Aborted(failed) => CallStep::Cancelled(failed),
        StreamTerminal::Error(failed) => {
            let delay = if failed.error.retryable && !emitted_any {
                policy.delay_for(attempt, failed.error.retry_after)
            } else {
                None
            };
            match delay {
                None => CallStep::Failed(failed),
                Some(delay) => {
                    let mut notice = concat3(
                        failed.error.message.as_str(),
                        ",",
                        delay.show_tenths().as_str(),
                    );
                    notice.push_str("s 后重试(");
                    notice.push_str(decimal(attempt as u64).as_str());
                    notice.push_str("/");
                    notice.push_str(decimal((policy.max_attempts - 1) as u64).as_str());
                    notice.push_str(")");
                    CallStep::Wait { delay, notice }
                },
            }
        },
    }
}

/// Once anything has been shown, a call is never made again.
pub proof fn law_shown_output_is_never_repeated(p: RetryPolicy, attempt: u32, terminal: TerminalView)
    ensures
        !(after_attempt(p, attempt, terminal, true) is Wait),
{
}

/// What is shown of a stream event; calls that are no conversation show nothing.
pub open spec fn shown_event(event: EventView, forward: bool) -> Option<AgentEventView> {
    if !forward {
        None
    } else {
        Some(
            match event {
                EventView::TextDelta(t) => AgentEventView::AssistantDelta(t),
                EventView::ThinkingDelta(t) => AgentEventView::ThinkingDelta(t),
                EventView::ToolCallBegun { name } => AgentEventView::ToolCallPending { name },
            },
        )
    }
}

pub fn forward_event(event: ProviderEvent, forward: bool) -> (r: Option<AgentEvent>)
    ensures
        r.deep_view() == shown_event(event.deep_view(), forward),
{
    if !forward {
        return None;
    }
    Some(
        match event {
            ProviderEvent::TextDelta(t) => AgentEvent::AssistantDelta(t),
            ProviderEvent::ThinkingDelta(t) => AgentEvent::ThinkingDelta(t),
            ProviderEvent::ToolCallBegun { name } => AgentEvent::ToolCallPending { name },
        },
    )
}

// ---- The call as a whole ----

/// A call to the model under way, with its retries.
#[derive(Debug)]
pub struct ModelCall {
    /// The attempt that is made, counted from 1.
    pub attempt: u32,
    /// Whether the attempt has brought anything.
    pub emitted_any: bool,
    /// Whether the stream is shown.
    pub forward: bool,
}

/// One attempt to call the model: what its stream brings, and what is said where another follows.
#[verifier::ext_equal]
pub struct Attempt {
    pub streamed: Seq<EventView>,
    pub retried: Option<Seq<char>>,
}

/// What is shown of a stream.
pub open spec fn stream_shown(streamed: Seq<EventView>, forward: bool) -> Seq<AgentEventView>
    decreases streamed.len(),
{
    if streamed.len() == 0 {
        seq![]
    } else {
        let before = stream_shown(streamed.drop_last(), forward);
        match shown_event(streamed.last(), forward) {
            Some(event) => before.push(event),
            None => before,
        }
    }
}

/// What is shown of some attempts.
pub open spec fn attempts_shown(attempts: Seq<Attempt>, forward: bool) -> Seq<AgentEventView>
    decreases attempts.len(),
{
    if attempts.len() == 0 {
        seq![]
    } else {
        attempts_shown(attempts.drop_last(), forward) + stream_shown(
            attempts.last().streamed,
            forward,
        ) + (
        match attempts.last().retried {
            Some(notice) => seq![AgentEventView::Notice(notice)],
            None => seq![],
        })
    }
}

/// What to do between two attempts.
#[derive(Debug)]
pub enum Nap {
    /// The wait is over.
    Over,
    /// Sleep this long, and look again.
    Sleep(Duration),
    Cancelled(FailedTurn),
}

pub open spec fn first_attempt(forward: bool) -> ModelCall {
    ModelCall { attempt: 1, emitted_any: false, forward }
}

impl ModelCall {
    pub fn new(forward: bool) -> (c: ModelCall)
        ensures
            c == first_attempt(forward),
    {
        ModelCall { attempt: 1, emitted_any: false, forward }
    }

    /// The stream has brought something; what is to be shown of it.
    pub fn on_event(&mut self, event: ProviderEvent) -> (r: Option<AgentEvent>)
        ensures
            r.deep_view() == shown_event(event.deep_view(), old(self).forward),
            *final(self) == (ModelCall { emitted_any: true, ..*old(self) }),
    {
        self.emitted_any = true;
        forward_event(event, self.forward)
    }

    /// The attempt has ended. Before a further one there is a wait.
    pub fn on_end(&mut self, policy: &RetryPolicy, terminal: StreamTerminal) -> (r: CallStep)
        ensures
            r.deep_view() == after_attempt(
                *policy,
                old(self).attempt,
                terminal.deep_view(),
                old(self).emitted_any,
            ),
            r is Wait ==> old(self).attempt < policy.max_attempts && *final(self) == (ModelCall {
                attempt: (old(self).attempt + 1) as u32,
                emitted_any: false,
                ..*old(self)
            }),
            !(r is Wait) ==> *final(self) == *old(self),
    {
        let step = end_attempt(policy, self.attempt, terminal, self.emitted_any);
        if let CallStep::Wait { .. } = step {
            self.attempt = self.attempt + 1;
            self.emitted_any = false;
        }
        step
    }
}

/// How long one look at the cancellation is apart from the next.
pub const NAP_MILLIS: u64 = 100;

/// What to do when `slept` of a wait is over.
pub fn nap(delay: Duration, slept: Duration, cancelled: bool) -> (r: Nap)
    ensures
        r is Over <==> slept.nanos >= delay.nanos,
        r is Cancelled <==> slept.nanos < delay.nanos && cancelled,
        r matches Nap::Cancelled(failed) ==> failed.deep_view() == failed_with(
            fatal_error("模型调用已取消"@),
        ),
        r matches Nap::Sleep(d) ==> d.nanos == NAP_MILLIS * 1_000_000,
{
    if slept.nanos >= delay.nanos {
        Nap::Over
    } else if cancelled {
        Nap::Cancelled(FailedTurn::aborted())
    } else {
        Nap::Sleep(Duration::from_millis(NAP_MILLIS))
    }
}

} // verus!
