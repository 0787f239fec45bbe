//! Polling policy: how often to look at the clipboard, and how to back off.

use std::sync::atomic::AtomicBool;
use std::sync::Arc;
use vstd::prelude::*;
use crate::clip::NewClip;
use crate::clipboard::{ClipboardBackend, Payload, Result};

verus! {

/// The shortest pause between two polls, in milliseconds.
pub const MIN_INTERVAL_MS: u64 = 50;

/// The longest pause that failures lead to, in milliseconds.
pub const MAX_BACKOFF_MS: u64 = 10_000;

/// Polls a backend.
///
/// Kept separate from the backends so the polling policy and backoff are written
/// once rather than per platform.
#[derive(Debug)]
pub struct Watcher<B> {
    backend: B,
    interval: u64,
    stop: Arc<AtomicBool>,
    /// Consecutive backend failures, used to back off instead of spinning on a
    /// clipboard that is wedged (a dead X11 selection owner, say).
    consecutive_errors: u32,
}

/// The pause after a number of failures in a row: doubled for each of the first
/// five, up to ten seconds.
pub open spec fn backoff(interval: u64, errors: nat) -> int {
    let widened = interval * doubled(if errors < 5 {
        errors
    } else {
        5
    });
    if errors == 0 {
        interval as int
    } else if widened < MAX_BACKOFF_MS {
        widened
    } else {
        MAX_BACKOFF_MS as int
    }
}

/// Two to some power.
pub open spec fn doubled(n: nat) -> int
    decreases n,
{
    if n == 0 {
        1
    } else {
        2 * doubled((n - 1) as nat)
    }
}

impl<B: ClipboardBackend> Watcher<B> {
    /// The configured pause, in milliseconds.
    pub closed spec fn interval(&self) -> u64 {
        self.interval
    }

    /// How many polls in a row have failed.
    pub closed spec fn errors(&self) -> u32 {
        self.consecutive_errors
    }

    /// The stop signal.
    pub closed spec fn signal(&self) -> Arc<AtomicBool> {
        self.stop
    }

    /// The backend in its present state.
    pub closed spec fn backend(&self) -> B {
        self.backend
    }

    /// Watch a backend with a pause in milliseconds between polls.
    pub fn new(backend: B, interval_ms: u64) -> (res: Self)
        ensures
            res.interval() == if interval_ms < MIN_INTERVAL_MS {
                MIN_INTERVAL_MS
            } else {
                interval_ms
            },
            res.errors() == 0,
            res.backend() == backend,
    {
        let interval = if interval_ms < MIN_INTERVAL_MS {
            MIN_INTERVAL_MS
        } else {
            interval_ms
        };
        Watcher { backend, interval, stop: Arc::new(AtomicBool::new(false)), consecutive_errors: 0 }
    }

    /// A handle that stops the polling from another thread or a signal handler.
    pub fn stop_handle(&self) -> (res: Arc<AtomicBool>)
        ensures
            res == self.signal(),
    {
        Arc::clone(&self.stop)
    }

    /// The backend's own name.
    pub fn backend_name(&self) -> (res: &'static str)
        ensures
            call_ensures(B::name, (&self.backend(),), res),
    {
        self.backend.name()
    }

    /// Read the clipboard once, whether or not it changed. The backend's answer is
    /// handed on.
    pub fn read_now(&mut self) -> (res: Result<Option<NewClip>>)
        ensures
            final(self).interval() == old(self).interval(),
            final(self).errors() == old(self).errors(),
            final(self).signal() == old(self).signal(),
            exists|b: &mut B|
                *b == old(self).backend() && *final(b) == final(self).backend()
                    && #[trigger] call_ensures(B::read_now, (b,), res),
    {
        self.backend.read_now()
    }

    /// Have the backend put a payload on the clipboard. Its answer is handed on.
    pub fn write(&mut self, payload: Payload<'_>) -> (res: Result<()>)
        ensures
            final(self).interval() == old(self).interval(),
            final(self).errors() == old(self).errors(),
            final(self).signal() == old(self).signal(),
            exists|b: &mut B|
                *b == old(self).backend() && *final(b) == final(self).backend()
                    && #[trigger] call_ensures(B::write, (b, payload), res),
    {
        self.backend.write(payload)
    }

    /// One poll cycle. Returns the new clip, if any.
    pub fn poll(&mut self) -> (res: Result<Option<NewClip>>)
        ensures
            final(self).interval() == old(self).interval(),
            final(self).signal() == old(self).signal(),
            final(self).errors() == errors_after(old(self).errors(), res is Ok),
            exists|b: &mut B|
                *b == old(self).backend() && *final(b) == final(self).backend()
                    && #[trigger] call_ensures(B::poll, (b,), res),
    {
        let outcome = self.backend.poll();
        self.consecutive_errors = count_errors(self.consecutive_errors, outcome.is_ok());
        outcome
    }

    /// How long to wait before the next poll in milliseconds, doubling up to ten
    /// seconds while the backend keeps failing.
    pub fn current_interval(&self) -> (res: u64)
        ensures
            res == backoff(self.interval(), self.errors() as nat),
    {
        wait_ms(self.interval, self.consecutive_errors)
    }
}

/// The number of failures in a row after another poll.
pub open spec fn errors_after(errors: u32, ok: bool) -> u32 {
    if ok {
        0
    } else if errors == u32::MAX {
        u32::MAX
    } else {
        (errors + 1) as u32
    }
}

/// The number of failures in a row after another poll.
pub fn count_errors(errors: u32, ok: bool) -> (res: u32)
    ensures
        res == errors_after(errors, ok),
{
    if ok {
        0
    } else {
        errors.saturating_add(1)
    }
}

/// The pause after a number of failures in a row.
pub fn wait_ms(interval: u64, errors: u32) -> (res: u64)
    ensures
        res == backoff(interval, errors as nat),
{
    if errors == 0 {
        return interval;
    }
    let steps = if errors < 5 {
        errors
    } else {
        5
    };
    let mut widened: u128 = interval as u128;
    let mut k: u32 = 0;
    while k < steps
        invariant
            k <= steps <= 5,
            widened == interval * doubled(k as nat),
            interval <= u64::MAX,
            doubled(k as nat) <= 32,
            0 < doubled(k as nat),
            widened <= u64::MAX * 32,
            k == 0 ==> doubled(k as nat) == 1,
            k == 1 ==> doubled(k as nat) == 2,
            k == 2 ==> doubled(k as nat) == 4,
            k == 3 ==> doubled(k as nat) == 8,
            k == 4 ==> doubled(k as nat) == 16,
            k == 5 ==> doubled(k as nat) == 32,
        decreases steps - k,
    {
        assert(interval * (2 * doubled(k as nat)) == 2 * (interval * doubled(k as nat)))
            by (nonlinear_arith);
        widened = widened * 2;
        k += 1;
        assert(interval * doubled(k as nat) <= u64::MAX * 32) by (nonlinear_arith)
            requires
                interval <= u64::MAX,
                0 < doubled(k as nat) <= 32,
        ;
    }
    if widened < MAX_BACKOFF_MS as u128 {
        widened as u64
    } else {
        MAX_BACKOFF_MS
    }
}

/// A pause is never shorter than the floor and, once polls fail, never longer
/// than the cap; one that does not exceed the cap never shrinks while failures
/// go on.
pub proof fn law_backoff_is_bounded(interval: u64, errors: nat)
    requires
        interval >= MIN_INTERVAL_MS,
    ensures
        backoff(interval, errors) >= MIN_INTERVAL_MS,
        errors > 0 ==> backoff(interval, errors) <= MAX_BACKOFF_MS,
        interval <= MAX_BACKOFF_MS ==> backoff(interval, errors) <= backoff(interval, errors + 1),
{
    let a = if errors < 5 {
        errors
    } else {
        5
    };
    let b = if errors + 1 < 5 {
        errors + 1
    } else {
        5
    };
    lemma_doubled(a);
    lemma_doubled(b);
    reveal_with_fuel(doubled, 7);
    assert(interval * doubled(a) >= interval) by (nonlinear_arith)
        requires
            doubled(a) >= 1,
    ;
    assert(interval * doubled(a) <= interval * doubled(b)) by (nonlinear_arith)
        requires
            doubled(a) <= doubled(b),
    ;
}

proof fn lemma_doubled(n: nat)
    ensures
        doubled(n) >= 1,
    decreases n,
{
    if n > 0 {
        lemma_doubled((n - 1) as nat);
    }
}

/// Each failure in a row doubles the pause, five times over and never beyond ten
/// seconds; after that it stays. A poll that works brings the pause back to the
/// configured one.
pub proof fn law_failures_double_the_pause(interval: u64, errors: nat)
    ensures
        backoff(interval, 0) == interval,
        errors < 5 ==> backoff(interval, errors + 1) == (if 2 * backoff(interval, errors)
            < 10_000 {
            2 * backoff(interval, errors)
        } else {
            10_000
        }),
        errors >= 5 ==> backoff(interval, errors + 1) == backoff(interval, errors),
        errors_after(0, true) == 0,
{
    reveal_with_fuel(doubled, 7);
    if errors < 5 {
        assert(doubled(errors + 1) == 2 * doubled(errors));
        assert(interval * doubled(errors + 1) == 2 * (interval * doubled(errors)))
            by (nonlinear_arith)
            requires
                doubled(errors + 1) == 2 * doubled(errors),
        ;
        lemma_doubled(errors);
        assert(interval * doubled(errors) >= 0) by (nonlinear_arith)
            requires
                doubled(errors) >= 1,
        ;
        if errors == 0 {
            assert(interval * doubled(0) == interval) by (nonlinear_arith)
                requires
                    doubled(0) == 1,
            ;
        }
    }
}

/// Failures are counted one by one as long as there are numbers for it, and
/// forgotten with the first poll that works.
pub proof fn law_failures_are_counted(errors: u32)
    ensures
        errors_after(errors, true) == 0,
        errors < u32::MAX ==> errors_after(errors, false) == errors + 1,
        errors == u32::MAX ==> errors_after(errors, false) == errors,
{
}

/// The floor under every pause is fifty milliseconds.
pub proof fn law_pauses_have_a_floor(interval: u64, errors: nat)
    requires
        interval >= 50,
    ensures
        backoff(interval, errors) >= 50,
{
    law_backoff_is_bounded(interval, errors);
}

} // verus!
