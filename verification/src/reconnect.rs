//! Reconnect state machine with exponential backoff.
//!
//! A transient error (connection reset, timeout, closed connection) moves the
//! machine to `BackOff` with the next attempt number while retries remain;
//! a permanent or fatal error, or an exhausted retry budget, stops it. How
//! long to wait before an attempt is the caller's policy, handed in as a
//! function of the attempt number.
use vstd::prelude::*;
use core::time::Duration;
use crate::error::{ErrorCategory, UsbIpError, UsbIpResult};

verus! {

/// State of the reconnect state machine.
#[derive(Debug, Clone, Copy, PartialEq, Eq)]
pub enum ReconnectState {
    /// Forwarding URBs, or establishing the first connection.
    Active,
    /// Waiting before retry number `attempt` (counted from 0).
    BackOff { attempt: u32, next_delay: Duration },
    /// Retries exhausted or a permanent error: not reconnecting.
    Stopped,
}

/// What to do after an operation ended.
#[derive(Debug, Clone, Copy)]
pub enum ReconnectDecision {
    /// Retry after the given delay.
    RetryAfter(Duration),
    /// Do not retry.
    Stop,
}

/// Whether another retry is allowed after `attempt` failures: always when
/// there is no limit, else while `attempt` is below it.
pub open spec fn retry_allowed(max_retries: Option<u32>, attempt: int) -> bool {
    match max_retries {
        None => true,
        Some(max) => attempt < max,
    }
}

/// Whether another retry is allowed after `attempt` failures.
pub fn should_retry(max_retries: Option<u32>, attempt: u32) -> (r: bool)
    ensures
        r == retry_allowed(max_retries, attempt as int),
{
    match max_retries {
        None => true,
        Some(max) => attempt < max,
    }
}

/// The attempt number a transient error in state `s` leads to: 0 from
/// `Active`, one more than the current one from `BackOff` (from `Stopped`
/// no attempt follows).
pub open spec fn attempt_after(s: ReconnectState) -> int {
    match s {
        ReconnectState::BackOff { attempt, .. } => attempt + 1,
        _ => 0,
    }
}

/// The state an error of `category` leads to from `s`, when the wait before
/// attempt `a` is one that `delay_for` may give for `a`. `Stopped` is
/// final: every error leaves it stopped.
pub open spec fn error_transition<F: Fn(u32) -> Duration>(
    s: ReconnectState,
    category: ErrorCategory,
    max_retries: Option<u32>,
    delay_for: F,
    next: ReconnectState,
) -> bool {
    if s is Stopped {
        next == ReconnectState::Stopped
    } else {
        match category {
        ErrorCategory::Transient => {
            let a = attempt_after(s);
            if retry_allowed(max_retries, a) {
                next matches ReconnectState::BackOff { attempt, next_delay } && attempt == a
                    && call_ensures(delay_for, (attempt,), next_delay)
            } else {
                next == ReconnectState::Stopped
            }
        },
        _ => next == ReconnectState::Stopped,
        }
    }
}

/// What an error of `category` in state `s` needs of the caller: a
/// transient error outside `Stopped` must be able to advance the attempt
/// number, and when a retry follows, `delay_for` must accept that attempt.
/// Nothing is needed for any other error.
pub open spec fn error_step_ready<F: Fn(u32) -> Duration>(
    s: ReconnectState,
    category: ErrorCategory,
    max_retries: Option<u32>,
    delay_for: F,
) -> bool {
    category == ErrorCategory::Transient && s !is Stopped ==> {
        &&& s.can_advance()
        &&& retry_allowed(max_retries, attempt_after(s)) ==> call_requires(
            delay_for,
            (attempt_after(s) as u32,),
        )
    }
}

impl ReconnectState {
    /// Whether a transient error can advance the attempt number (it cannot
    /// past `u32::MAX`).
    pub open spec fn can_advance(self) -> bool {
        !(self matches ReconnectState::BackOff { attempt, .. } && attempt == u32::MAX)
    }

    /// The attempt number a transient error in this state leads to.
    pub fn next_attempt(&self) -> (r: u32)
        requires
            self.can_advance(),
        ensures
            r == attempt_after(*self),
    {
        match self {
            ReconnectState::BackOff { attempt, .. } => *attempt + 1,
            _ => 0,
        }
    }

    /// Advance the machine on an error. `delay_for` gives the wait before
    /// a given attempt.
    pub fn on_error<F: Fn(u32) -> Duration>(
        self,
        error: &UsbIpError,
        max_retries: Option<u32>,
        delay_for: F,
    ) -> (r: Self)
        requires
            error_step_ready(self, error.spec_category(), max_retries, delay_for),
        ensures
            error_transition(self, error.spec_category(), max_retries, delay_for, r),
    {
        if let ReconnectState::Stopped = self {
            return ReconnectState::Stopped;
        }
        match error.category() {
            ErrorCategory::Transient => {
                let attempt = self.next_attempt();
                if should_retry(max_retries, attempt) {
                    let delay = delay_for(attempt);
                    ReconnectState::BackOff { attempt, next_delay: delay }
                } else {
                    ReconnectState::Stopped
                }
            },
            ErrorCategory::Permanent | ErrorCategory::Fatal => ReconnectState::Stopped,
        }
    }
}

/// Update the state for an operation's result and return the wait before
/// the next retry: a clean end stops the machine with no retry; an error
/// advances it, and a retry follows exactly when it backs off.
pub fn classify_and_backoff<F: Fn(u32) -> Duration>(
    result: &UsbIpResult<()>,
    state: &mut ReconnectState,
    max_retries: Option<u32>,
    delay_for: F,
) -> (r: Option<Duration>)
    requires
        result matches Err(e) ==> error_step_ready(
            *old(state),
            e.spec_category(),
            max_retries,
            delay_for,
        ),
    ensures
        match result {
            Ok(()) => *final(state) == ReconnectState::Stopped && r is None,
            Err(e) => {
                &&& error_transition(*old(state), e.spec_category(), max_retries, delay_for, *final(state))
                &&& match *final(state) {
                    ReconnectState::BackOff { next_delay, .. } => r == Some(next_delay),
                    _ => r is None,
                }
            },
        },
{
    match result {
        Ok(()) => {
            *state = ReconnectState::Stopped;
            None
        },
        Err(e) => {
            let next = state.on_error(e, max_retries, delay_for);
            *state = next;
            match next {
                ReconnectState::BackOff { next_delay, .. } => Some(next_delay),
                _ => None,
            }
        },
    }
}

/// Decide the next action for an operation's result: a clean end stops
/// without touching the state; an error advances the state, and the
/// decision is to retry after its delay exactly when it backs off.
pub fn decide_reconnect<F: Fn(u32) -> Duration>(
    result: &UsbIpResult<()>,
    state: &mut ReconnectState,
    max_retries: Option<u32>,
    delay_for: F,
) -> (r: ReconnectDecision)
    requires
        result matches Err(e) ==> error_step_ready(
            *old(state),
            e.spec_category(),
            max_retries,
            delay_for,
        ),
    ensures
        match result {
            Ok(()) => *final(state) == *old(state) && r is Stop,
            Err(e) => {
                &&& error_transition(*old(state), e.spec_category(), max_retries, delay_for, *final(state))
                &&& match *final(state) {
                    ReconnectState::BackOff { next_delay, .. } => r == ReconnectDecision::RetryAfter(
                        next_delay,
                    ),
                    _ => r is Stop,
                }
            },
        },
{
    match result {
        Ok(()) => ReconnectDecision::Stop,
        Err(e) => {
            let next = state.on_error(e, max_retries, delay_for);
            *state = next;
            match next {
                ReconnectState::BackOff { next_delay, .. } => ReconnectDecision::RetryAfter(
                    next_delay,
                ),
                _ => ReconnectDecision::Stop,
            }
        },
    }
}

/// What the client's import task does after a run of its URB forwarding
/// ended: a clean end stops it, an error stops it when reconnecting is
/// off, and otherwise the state machine decides as `decide_reconnect`
/// does.
pub fn after_forwarding<F: Fn(u32) -> Duration>(
    result: &UsbIpResult<()>,
    auto_reconnect: bool,
    state: &mut ReconnectState,
    max_retries: Option<u32>,
    delay_for: F,
) -> (r: ReconnectDecision)
    requires
        auto_reconnect ==> (result matches Err(e) ==> error_step_ready(
            *old(state),
            e.spec_category(),
            max_retries,
            delay_for,
        )),
    ensures
        match result {
            Ok(()) => *final(state) == *old(state) && r is Stop,
            Err(e) => if !auto_reconnect {
                *final(state) == *old(state) && r is Stop
            } else {
                &&& error_transition(*old(state), e.spec_category(), max_retries, delay_for, *final(state))
                &&& match *final(state) {
                    ReconnectState::BackOff { next_delay, .. } => r == ReconnectDecision::RetryAfter(
                        next_delay,
                    ),
                    _ => r is Stop,
                }
            },
        },
{
    match result {
        Ok(()) => ReconnectDecision::Stop,
        Err(_) => if !auto_reconnect {
            ReconnectDecision::Stop
        } else {
            decide_reconnect(result, state, max_retries, delay_for)
        },
    }
}

} // verus!

verus! {

/// A permanent or fatal error stops the machine, whatever its state and
/// whatever the delay policy: such a step asks nothing of the policy, and
/// its only outcome is `Stopped`.
pub proof fn law_non_transient_stops<F: Fn(u32) -> Duration>(
    s: ReconnectState,
    category: ErrorCategory,
    max_retries: Option<u32>,
    delay_for: F,
    next: ReconnectState,
)
    requires
        category != ErrorCategory::Transient,
    ensures
        error_step_ready(s, category, max_retries, delay_for),
        error_transition(s, category, max_retries, delay_for, next) <==> next
            == ReconnectState::Stopped,
{
}

/// Successive transient errors count the attempts up by one, from 0 after
/// `Active`.
pub proof fn law_attempts_count_up<F: Fn(u32) -> Duration>(
    s: ReconnectState,
    max_retries: Option<u32>,
    delay_for: F,
    next: ReconnectState,
)
    requires
        error_transition(s, ErrorCategory::Transient, max_retries, delay_for, next),
        next is BackOff,
    ensures
        s !is Stopped,
        next->attempt == (match s {
            ReconnectState::BackOff { attempt, .. } => attempt + 1,
            _ => 0,
        }),
{
}

/// `Stopped` is final: every error, of any category and under any delay
/// policy, leaves the machine stopped, and such a step asks nothing of the
/// policy.
pub proof fn law_stopped_is_final<F: Fn(u32) -> Duration>(
    category: ErrorCategory,
    max_retries: Option<u32>,
    delay_for: F,
    next: ReconnectState,
)
    ensures
        error_step_ready(ReconnectState::Stopped, category, max_retries, delay_for),
        error_transition(ReconnectState::Stopped, category, max_retries, delay_for, next) <==> next
            == ReconnectState::Stopped,
{
}

/// With a retry limit, every backoff is for an attempt below the limit:
/// there are at most that many retries, and a limit of 0 never retries.
pub proof fn law_retries_bounded<F: Fn(u32) -> Duration>(
    s: ReconnectState,
    category: ErrorCategory,
    max: u32,
    delay_for: F,
    next: ReconnectState,
)
    requires
        error_transition(s, category, Some(max), delay_for, next),
        next is BackOff,
    ensures
        next->attempt < max,
        category == ErrorCategory::Transient,
{
}

/// Without a limit, a transient error always backs off, unless the
/// machine has stopped.
pub proof fn law_unlimited_always_retries<F: Fn(u32) -> Duration>(
    s: ReconnectState,
    delay_for: F,
    next: ReconnectState,
)
    requires
        s !is Stopped,
        error_transition(s, ErrorCategory::Transient, None, delay_for, next),
    ensures
        next is BackOff,
{
}

} // verus!
