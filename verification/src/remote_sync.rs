//! When a wiki is synchronised with its remote, and how often a failed attempt is repeated.

use vstd::arithmetic::power2;
use vstd::prelude::*;

use crate::config::GitSyncConfig;
use crate::duration;
use crate::duration::Duration;

verus! {

/// The synchronisation of a wiki with its remote.
pub struct RemoteSync {
    pub config: Option<GitSyncConfig>,
}

/// What follows a failed attempt.
#[derive(Debug, Clone, Copy, PartialEq, Eq, Structural)]
pub enum Retry {
    GiveUp,
    /// Wait, and try again; the next wait starts from `next_delay`.
    After { sleep: Duration, next_delay: Duration },
}

/// The shorter of two lengths.
pub open spec fn shorter(a: nat, b: nat) -> nat {
    if a <= b {
        a
    } else {
        b
    }
}

/// What follows a failed attempt: none other where the failure is not worth it or the time is up,
/// else one after the delay, or after what is left of the time if that is less. The delay doubles up
/// to its limit.
pub open spec fn is_retry(
    sync: GitSyncConfig,
    delay: Duration,
    retryable: bool,
    elapsed: Duration,
    retry: Retry,
) -> bool {
    if !retryable || elapsed@ >= sync.retry_max_elapsed@ {
        retry is GiveUp
    } else {
        &&& retry is After
        &&& retry->sleep@ == shorter(delay@, (sync.retry_max_elapsed@ - elapsed@) as nat)
        &&& retry->next_delay@ == shorter(
            shorter(2 * delay@, duration::MAX_NANOS as nat),
            sync.retry_max_delay@,
        )
    }
}

impl RemoteSync {
    /// The synchronisation of a wiki, if it is configured.
    pub fn new(config: Option<GitSyncConfig>) -> (res: Self)
        ensures
            res.config == config,
    {
        RemoteSync { config }
    }

    /// Whether the wiki is synchronised with a remote.
    pub fn is_enabled(&self) -> (res: bool)
        ensures
            res == (self.config is Some),
    {
        self.config.is_some()
    }

    /// Whether a request to synchronise wakes the loop that does so.
    pub fn request(&self) -> (res: bool)
        ensures
            res == (self.config is Some),
    {
        self.is_enabled()
    }
}

/// The delay with which the first failed attempt is repeated.
pub fn first_delay(sync: &GitSyncConfig) -> (res: Duration)
    ensures
        res@ == delay_after(*sync, 0),
{
    sync.retry_initial_delay
}

/// What follows a failed attempt, `elapsed` after the first one began.
pub fn after_failure(
    sync: &GitSyncConfig,
    delay: Duration,
    retryable: bool,
    elapsed: Duration,
) -> (res: Retry)
    ensures
        is_retry(*sync, delay, retryable, elapsed, res),
{
    if !retryable || !elapsed.is_shorter(&sync.retry_max_elapsed) {
        return Retry::GiveUp;
    }
    let sleep = delay.min(sync.retry_max_elapsed.saturating_sub(&elapsed));
    let next_delay = delay.doubled().min(sync.retry_max_delay);
    Retry::After { sleep, next_delay }
}

/// A wait never lasts beyond the time that attempts are repeated for, is never empty, and the next
/// one is at least as long unless the limit is reached, which it never exceeds.
pub proof fn waits_are_bounded(
    sync: GitSyncConfig,
    delay: Duration,
    elapsed: Duration,
    retry: Retry,
)
    requires
        is_retry(sync, delay, true, elapsed, retry),
        elapsed@ < sync.retry_max_elapsed@,
        0 < delay@ <= duration::MAX_NANOS,
        0 < sync.retry_max_delay@,
    ensures
        retry is After,
        0 < retry->sleep@ <= delay@,
        elapsed@ + retry->sleep@ <= sync.retry_max_elapsed@,
        0 < retry->next_delay@ <= sync.retry_max_delay@,
        retry->next_delay@ >= delay@ || retry->next_delay@ == sync.retry_max_delay@,
{
}

/// The delay before the attempt that follows `n` failed ones is cut short.
pub open spec fn delay_after(sync: GitSyncConfig, n: nat) -> nat
    decreases n,
{
    if n == 0 {
        sync.retry_initial_delay@
    } else {
        shorter(
            shorter(2 * delay_after(sync, (n - 1) as nat), duration::MAX_NANOS as nat),
            sync.retry_max_delay@,
        )
    }
}

/// The first delay is the configured one, and each failure that is repeated doubles it, up to the
/// configured limit.
pub proof fn delays_double_up_to_their_limit(
    sync: GitSyncConfig,
    n: nat,
    delay: Duration,
    elapsed: Duration,
    retry: Retry,
)
    requires
        delay@ == delay_after(sync, n),
        is_retry(sync, delay, true, elapsed, retry),
        retry is After,
        sync.retry_max_delay@ <= duration::MAX_NANOS,
    ensures
        retry->next_delay@ == delay_after(sync, n + 1),
        retry->next_delay@ == shorter(
            sync.retry_initial_delay@ * power2::pow2(n + 1),
            sync.retry_max_delay@,
        ),
{
    lemma_delay_after(sync, n + 1);
}

proof fn lemma_delay_after(sync: GitSyncConfig, n: nat)
    requires
        n > 0,
        sync.retry_max_delay@ <= duration::MAX_NANOS,
    ensures
        delay_after(sync, n) == shorter(
            sync.retry_initial_delay@ * power2::pow2(n),
            sync.retry_max_delay@,
        ),
    decreases n,
{
    let first = sync.retry_initial_delay@;
    let before = (n - 1) as nat;
    power2::lemma_pow2_unfold(n);
    power2::lemma2_to64();
    assert(first * power2::pow2(n) == 2 * (first * power2::pow2(before))) by (nonlinear_arith)
        requires
            power2::pow2(n) == 2 * power2::pow2(before),
    ;
    if n > 1 {
        lemma_delay_after(sync, before);
    } else {
        assert(first * power2::pow2(before) == first) by (nonlinear_arith)
            requires
                power2::pow2(before) == 1,
        ;
    }
}

/// A failure that is not worth another attempt ends the synchronisation at once, and so does any
/// failure once the time is up.
pub proof fn hopeless_failures_end_it(
    sync: GitSyncConfig,
    delay: Duration,
    retryable: bool,
    elapsed: Duration,
    retry: Retry,
)
    requires
        is_retry(sync, delay, retryable, elapsed, retry),
        !retryable || elapsed@ >= sync.retry_max_elapsed@,
    ensures
        retry == Retry::GiveUp,
{
}

} // verus!
