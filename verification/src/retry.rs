use vstd::prelude::*;
use vstd::arithmetic::div_mod::lemma_div_nonincreasing;
use vstd::arithmetic::div_mod::lemma_div_pos_is_pos;
use rand::RngExt;

verus! {

/// Scale of the fixed-point backoff factor: a factor of `1200` means the
/// delay grows by `1200 / 1000 = 1.2` on every advance.
pub const BACKOFF_SCALE: u64 = 1000;

/// Default initial delay: one second, in nanoseconds.
pub const DEFAULT_SLEEP_NANOS: u64 = 1_000_000_000;

/// Default backoff factor: 1.2, in thousandths.
pub const DEFAULT_BACKOFF_MILLI: u64 = 1200;

/// Default jitter bound: 800 milliseconds, in nanoseconds.
pub const DEFAULT_JITTER_NANOS: u64 = 800_000_000;

/// Pacing policy for one retry session: the delay slept before the next
/// attempt, and the rule by which that delay grows after every failure.
///
/// All durations are in nanoseconds; the backoff factor is a fixed-point
/// number in thousandths (see [`BACKOFF_SCALE`]).
pub struct RetryConfig {
    /// Delay slept before the next retry, in nanoseconds.
    pub sleep_nanos: u64,
    /// Multiplicative growth factor applied after each failure, in thousandths.
    pub backoff_milli: u64,
    /// Exclusive upper bound of the random jitter added after each failure,
    /// in nanoseconds.
    pub jitter_nanos: u64,
}

/// The delay grown by the backoff factor, before jitter: `delay * factor / 1000`,
/// as an unbounded integer (rounding toward zero).
pub open spec fn grown_delay(delay: u64, factor_milli: u64) -> int {
    (delay * factor_milli) / (BACKOFF_SCALE as int)
}

/// The delay after one advance: the grown delay plus the jitter drawn,
/// saturating at `u64::MAX`.
pub open spec fn next_delay(delay: u64, factor_milli: u64, jitter: u64) -> u64 {
    let v = grown_delay(delay, factor_milli) + jitter;
    if v > u64::MAX {
        u64::MAX
    } else {
        v as u64
    }
}

/// Which jitter values a bound admits: any value strictly below a positive
/// bound; exactly zero when the bound is zero (an empty jitter range adds
/// nothing).
pub open spec fn jitter_admitted(bound: u64, jitter: u64) -> bool {
    if bound == 0 {
        jitter == 0
    } else {
        jitter < bound
    }
}

/// How a policy evolves across one advance: the factor and the jitter bound
/// are kept, and the delay becomes the grown delay plus some admitted jitter.
pub open spec fn advanced_from(pre: RetryConfig, post: RetryConfig) -> bool {
    &&& post.backoff_milli == pre.backoff_milli
    &&& post.jitter_nanos == pre.jitter_nanos
    &&& exists|jitter: u64|
        #[trigger] jitter_admitted(pre.jitter_nanos, jitter)
            && post.sleep_nanos == next_delay(pre.sleep_nanos, pre.backoff_milli, jitter)
}

/// Relies on rand's `RngExt::random_range` over `0..bound`: the sample is
/// drawn uniformly from the half-open range, so it is strictly below `bound`;
/// the range is non-empty because `bound > 0`, so the call does not panic.
#[verifier::external_body]
fn random_below(bound: u64) -> (r: u64)
    requires
        bound > 0,
    ensures
        r < bound,
{
    rand::rng().random_range(0..bound)
}

/// Computes the delay after one advance from the jitter already drawn:
/// `delay * factor_milli / 1000 + jitter`, saturating at `u64::MAX`.
fn grow_delay(delay: u64, factor_milli: u64, jitter: u64) -> (r: u64)
    ensures
        r == next_delay(delay, factor_milli, jitter),
{
    proof {
        assert((delay as int) * (factor_milli as int) <= (u64::MAX as int) * (
        u64::MAX as int)) by (nonlinear_arith)
            requires
                delay <= u64::MAX,
                factor_milli <= u64::MAX,
        ;
    }
    let prod: u128 = (delay as u128) * (factor_milli as u128);
    proof {
        lemma_div_nonincreasing(prod as int, BACKOFF_SCALE as int);
    }
    let grown: u128 = prod / (BACKOFF_SCALE as u128);
    let total: u128 = grown + (jitter as u128);
    if total > (u64::MAX as u128) {
        u64::MAX
    } else {
        total as u64
    }
}

impl RetryConfig {
    /// Builds a policy from the three values verbatim; no validation is done.
    /// A factor below [`BACKOFF_SCALE`] makes the delay shrink or stay flat,
    /// which is the caller's responsibility.
    pub fn new(sleep_nanos: u64, backoff_milli: u64, jitter_nanos: u64) -> (c: Self)
        ensures
            c.sleep_nanos == sleep_nanos,
            c.backoff_milli == backoff_milli,
            c.jitter_nanos == jitter_nanos,
    {
        RetryConfig { sleep_nanos, backoff_milli, jitter_nanos }
    }

    /// Blocks through the given `sleep` callable for the current delay, then
    /// grows the delay by the backoff factor plus a random jitter below the
    /// jitter bound.
    pub fn sleep_after_error<S: Fn(u64)>(&mut self, sleep: S)
        requires
            call_requires(sleep, (old(self).sleep_nanos,)),
        ensures
            advanced_from(*old(self), *final(self)),
    {
        sleep(self.sleep_nanos);
        let jitter: u64 = if self.jitter_nanos == 0 {
            0
        } else {
            random_below(self.jitter_nanos)
        };
        self.sleep_nanos = grow_delay(self.sleep_nanos, self.backoff_milli, jitter);
        proof {
            assert(jitter_admitted(old(self).jitter_nanos, jitter));
        }
    }
}

impl Default for RetryConfig {
    /// One second of initial delay, a growth factor of 1.2, and a jitter
    /// bound of 800 milliseconds: a gentle exponential ramp for transient
    /// failures.
    fn default() -> (c: Self)
        ensures
            c.sleep_nanos == DEFAULT_SLEEP_NANOS,
            c.backoff_milli == DEFAULT_BACKOFF_MILLI,
            c.jitter_nanos == DEFAULT_JITTER_NANOS,
    {
        RetryConfig::new(DEFAULT_SLEEP_NANOS, DEFAULT_BACKOFF_MILLI, DEFAULT_JITTER_NANOS)
    }
}

/// Shape of the attempt outcomes of one finished retry session with budget
/// `max_retries`: at least the one unconditional first attempt and at most
/// `max_retries` further ones, every attempt before the last failed, and the
/// session ended either on a success or with the budget exhausted.
pub open spec fn session_outcomes_wf<T, E>(outcomes: Seq<Result<T, E>>, max_retries: nat) -> bool {
    &&& 1 <= outcomes.len() <= max_retries + 1
    &&& forall|i: int| 0 <= i < outcomes.len() - 1 ==> (#[trigger] outcomes[i]) is Err
    &&& outcomes.last() is Ok || outcomes.len() == max_retries + 1
}

/// Whether `r` is a result that a retry session of `func` with budget
/// `max_retries` can end with: the last entry of some well-formed sequence of
/// outcomes, each of them a possible return of `func`.
pub open spec fn session_result_possible<T, E, F: Fn() -> Result<T, E>>(
    func: F,
    max_retries: nat,
    r: Result<T, E>,
) -> bool {
    exists|outcomes: Seq<Result<T, E>>|
        {
            &&& #[trigger] session_outcomes_wf(outcomes, max_retries)
            &&& forall|i: int|
                0 <= i < outcomes.len() ==> call_ensures(func, (), #[trigger] outcomes[i])
            &&& r == outcomes.last()
        }
}

/// Calls `func` once unconditionally and then up to `max_retries` more times,
/// pacing every retry through the policy: before each retry the current delay
/// is slept through `sleep` and then grown (see
/// [`RetryConfig::sleep_after_error`]). The first success is returned at once;
/// when every attempt has failed, the error of the last attempt is returned
/// unchanged.
pub fn execute_with_retries<T, E, F: Fn() -> Result<T, E>, S: Fn(u64) + Copy>(
    func: F,
    retry_config: RetryConfig,
    max_retries: usize,
    sleep: S,
) -> (r: Result<T, E>)
    requires
        call_requires(func, ()),
        forall|d: u64| #[trigger] call_requires(sleep, (d,)),
    ensures
        session_result_possible(func, max_retries as nat, r),
        call_ensures(func, (), r),
{
    let mut retry_config = retry_config;
    let mut exec_result = func();
    let ghost mut outcomes: Seq<Result<T, E>> = seq![exec_result];
    let mut i: usize = 0;
    while i < max_retries
        invariant
            call_requires(func, ()),
            forall|d: u64| #[trigger] call_requires(sleep, (d,)),
            i <= max_retries,
            outcomes.len() == i + 1,
            forall|k: int| 0 <= k < outcomes.len() ==> call_ensures(func, (), #[trigger] outcomes[k]),
            forall|k: int| 0 <= k < outcomes.len() - 1 ==> (#[trigger] outcomes[k]) is Err,
            exec_result == outcomes.last(),
        decreases max_retries - i,
    {
        if exec_result.is_ok() {
            proof {
                assert(session_outcomes_wf(outcomes, max_retries as nat));
            }
            return exec_result;
        }
        retry_config.sleep_after_error(sleep);
        exec_result = func();
        proof {
            outcomes = outcomes.push(exec_result);
        }
        i = i + 1;
    }
    proof {
        assert(session_outcomes_wf(outcomes, max_retries as nat));
    }
    exec_result
}

/// An operation that can only succeed makes a session stop at the very first
/// attempt: any well-formed outcome sequence of such a session has exactly one
/// entry, so no retry and no pacing sleep ever happens, and the returned
/// result is that first success.
pub proof fn lemma_always_successful_operation<T, E, F: Fn() -> Result<T, E>>(
    func: F,
    outcomes: Seq<Result<T, E>>,
    max_retries: nat,
)
    requires
        forall|o: Result<T, E>| #[trigger] call_ensures(func, (), o) ==> o is Ok,
        session_outcomes_wf(outcomes, max_retries),
        forall|i: int| 0 <= i < outcomes.len() ==> call_ensures(func, (), #[trigger] outcomes[i]),
    ensures
        outcomes.len() == 1,
        outcomes.last() is Ok,
{
    assert(outcomes[0] is Ok);
}

/// An operation that can only fail exhausts the whole budget: any well-formed
/// outcome sequence of such a session has exactly `max_retries + 1` entries
/// (one pacing sleep preceded each entry but the first), and the session ends
/// with the error of the last attempt.
pub proof fn lemma_always_failing_operation<T, E, F: Fn() -> Result<T, E>>(
    func: F,
    outcomes: Seq<Result<T, E>>,
    max_retries: nat,
)
    requires
        forall|o: Result<T, E>| #[trigger] call_ensures(func, (), o) ==> o is Err,
        session_outcomes_wf(outcomes, max_retries),
        forall|i: int| 0 <= i < outcomes.len() ==> call_ensures(func, (), #[trigger] outcomes[i]),
    ensures
        outcomes.len() == max_retries + 1,
        outcomes.last() is Err,
{
    assert(call_ensures(func, (), outcomes.last()));
}

/// A session whose first `k` attempts failed and whose attempt `k + 1`
/// succeeded made exactly `k + 1` attempts: the success is the last entry, so
/// no further attempt follows it.
pub proof fn lemma_failures_then_success<T, E>(
    outcomes: Seq<Result<T, E>>,
    max_retries: nat,
    k: int,
)
    requires
        session_outcomes_wf(outcomes, max_retries),
        0 <= k < outcomes.len(),
        forall|i: int| 0 <= i < k ==> (#[trigger] outcomes[i]) is Err,
        outcomes[k] is Ok,
    ensures
        outcomes.len() == k + 1,
        outcomes.last() == outcomes[k],
{
    if k < outcomes.len() - 1 {
        assert(outcomes[k] is Err);
    }
}

/// One advance lands in the backoff window: with jitter bound `bound` and an
/// admitted jitter, the next delay lies in `[grown, grown + bound)` where
/// `grown` is the delay grown by the backoff factor, and equals `grown`
/// exactly when the bound is zero. The window premise keeps the delay below
/// the saturation ceiling of `u64::MAX` nanoseconds.
pub proof fn lemma_next_delay_window(delay: u64, factor_milli: u64, jitter: u64, bound: u64)
    requires
        jitter_admitted(bound, jitter),
        grown_delay(delay, factor_milli) + bound <= u64::MAX,
    ensures
        next_delay(delay, factor_milli, jitter) == grown_delay(delay, factor_milli) + jitter,
        grown_delay(delay, factor_milli) <= next_delay(delay, factor_milli, jitter),
        bound > 0 ==> next_delay(delay, factor_milli, jitter) < grown_delay(delay, factor_milli)
            + bound,
        bound == 0 ==> next_delay(delay, factor_milli, jitter) == grown_delay(
            delay,
            factor_milli,
        ),
{
    assert(0 <= (delay as int) * (factor_milli as int)) by (nonlinear_arith);
    lemma_div_pos_is_pos((delay as int) * (factor_milli as int), BACKOFF_SCALE as int);
}

/// Every policy advance keeps the new delay in the backoff window of the old
/// one: at least the old delay grown by the factor, and short of that by less
/// than the jitter bound; exactly the grown delay when the bound is zero.
/// Applied to each advance of a session in turn, every successive delay stays
/// in the window of its predecessor.
pub proof fn lemma_sleep_after_error_window(pre: RetryConfig, post: RetryConfig)
    requires
        advanced_from(pre, post),
        grown_delay(pre.sleep_nanos, pre.backoff_milli) + pre.jitter_nanos <= u64::MAX,
    ensures
        post.backoff_milli == pre.backoff_milli,
        post.jitter_nanos == pre.jitter_nanos,
        grown_delay(pre.sleep_nanos, pre.backoff_milli) <= post.sleep_nanos,
        pre.jitter_nanos > 0 ==> post.sleep_nanos < grown_delay(pre.sleep_nanos, pre.backoff_milli)
            + pre.jitter_nanos,
        pre.jitter_nanos == 0 ==> post.sleep_nanos == grown_delay(
            pre.sleep_nanos,
            pre.backoff_milli,
        ),
{
    let jitter = choose|jitter: u64|
        #[trigger] jitter_admitted(pre.jitter_nanos, jitter) && post.sleep_nanos == next_delay(
            pre.sleep_nanos,
            pre.backoff_milli,
            jitter,
        );
    lemma_next_delay_window(pre.sleep_nanos, pre.backoff_milli, jitter, pre.jitter_nanos);
}

} // verus!
