//! When to try a key-set request again, and how long to wait first.
//!
//! Factors are fixed-point numbers in thousandths (`1500` stands for 1.5).
use vstd::prelude::*;
use vstd::arithmetic::div_mod::{lemma_div_is_ordered, lemma_fundamental_div_mod_converse};
use vstd::arithmetic::power::{lemma_pow_adds, lemma_pow_positive, pow};
use crate::digits::{digits_of, digits_value, high_digits, high_value_capped, is_digits, lemma_div_drops_digits, times_small};
use crate::error::{EntraIdError, FetchFailure, FetchFailureKind};

verus! {

/// How a key-set request is retried.
#[derive(Debug, Clone, Copy)]
pub struct RetryConfig {
    max_attempts: u32,
    initial_wait_ms: u64,
    backoff_multiplier_permille: u32,
    jitter_min_permille: u32,
    jitter_max_permille: u32,
    max_wait_ms: u64,
}

/// The wait before retrying after attempt number `attempts`, with the given
/// jitter factor: `initial · multiplier^(attempts-1) · jitter`, taken exactly
/// and rounded down once, then capped at the largest wait.
pub open spec fn delay_ms(c: RetryConfig, attempts: u32, jitter_permille: u32) -> int {
    let n: nat = if attempts >= 1 {
        (attempts - 1) as nat
    } else {
        0
    };
    let d = c.spec_initial_wait_ms() * pow(c.spec_backoff_multiplier_permille() as int, n)
        * jitter_permille / pow(1000, n + 1);
    if d < c.spec_max_wait_ms() {
        d
    } else {
        c.spec_max_wait_ms() as int
    }
}

/// A request that failed this way may succeed if tried again: a timeout, a
/// failed connection, a server error (5xx) or Too Many Requests (429).
pub open spec fn retryable(k: FetchFailureKind) -> bool {
    match k {
        FetchFailureKind::Timeout => true,
        FetchFailureKind::Connect => true,
        FetchFailureKind::Status(s) => (500 <= s <= 599) || s == 429,
        FetchFailureKind::Other => false,
    }
}

/// After attempt number `attempts` failed this way, no further attempt is
/// made.
pub open spec fn gives_up(c: RetryConfig, attempts: u32, k: FetchFailureKind) -> bool {
    !retryable(k) || attempts >= c.spec_max_attempts()
}

/// The number of attempts that a fetch makes when its attempts meet the
/// outcomes `outcomes` in turn (`None` for success), counting from attempt
/// number `done + 1`.
pub open spec fn attempts_made(c: RetryConfig, outcomes: Seq<Option<FetchFailureKind>>, done: nat) -> nat
    decreases outcomes.len() - done,
{
    if done >= outcomes.len() {
        done
    } else {
        match outcomes[done as int] {
            None => done + 1,
            Some(k) => if gives_up(c, (done + 1) as u32, k) {
                done + 1
            } else {
                attempts_made(c, outcomes, done + 1)
            },
        }
    }
}

/// Relies on `rand::random_range` over an inclusive range, which returns a
/// value of that range (and panics only on an empty one).
#[verifier::external_body]
fn random_permille(low: u32, high: u32) -> (r: u32)
    requires
        low <= high,
    ensures
        low <= r <= high,
{
    rand::random_range(low..=high)
}

/// What to do after a failed attempt.
#[derive(Debug, Clone, Copy, PartialEq, Eq)]
pub enum RetryDecision {
    /// Report the failure.
    GiveUp,
    /// Wait this many milliseconds, then try again.
    RetryAfter(u64),
}

proof fn lemma_pow_base_monotone(a: int, b: int, e: nat)
    requires
        a >= b >= 0,
    ensures
        pow(a, e) >= pow(b, e) >= 0,
    decreases e,
{
    reveal(pow);
    if e > 0 {
        lemma_pow_base_monotone(a, b, (e - 1) as nat);
        let pa = pow(a, (e - 1) as nat);
        let pb = pow(b, (e - 1) as nat);
        assert(a * pa >= b * pb >= 0) by (nonlinear_arith)
            requires
                a >= b >= 0,
                pa >= pb >= 0,
        ;
    }
}

proof fn lemma_pow_next(b: int, e: nat)
    ensures
        pow(b, e + 1) == b * pow(b, e),
{
    reveal(pow);
}

impl RetryConfig {
    #[verifier::type_invariant]
    spec fn inv(&self) -> bool {
        &&& self.max_attempts >= 1
        &&& self.backoff_multiplier_permille >= 1000
        &&& self.jitter_min_permille <= self.jitter_max_permille
        &&& self.max_wait_ms > 0
    }

    pub closed spec fn spec_max_attempts(&self) -> u32 {
        self.max_attempts
    }

    pub closed spec fn spec_initial_wait_ms(&self) -> u64 {
        self.initial_wait_ms
    }

    pub closed spec fn spec_backoff_multiplier_permille(&self) -> u32 {
        self.backoff_multiplier_permille
    }

    pub closed spec fn spec_jitter_min_permille(&self) -> u32 {
        self.jitter_min_permille
    }

    pub closed spec fn spec_jitter_max_permille(&self) -> u32 {
        self.jitter_max_permille
    }

    pub closed spec fn spec_max_wait_ms(&self) -> u64 {
        self.max_wait_ms
    }

    /// The constraints that construction enforces.
    pub open spec fn valid(&self) -> bool {
        &&& self.spec_max_attempts() >= 1
        &&& self.spec_backoff_multiplier_permille() >= 1000
        &&& self.spec_jitter_min_permille() <= self.spec_jitter_max_permille()
        &&& self.spec_max_wait_ms() > 0
    }

    /// Checks and stores the retry parameters: at least one attempt, a factor
    /// of at least 1 (1000), a jitter range with its low end at most its high
    /// end, and a positive largest wait.
    pub fn new(
        max_attempts: u32,
        initial_wait_ms: u64,
        backoff_multiplier_permille: u32,
        jitter_min_permille: u32,
        jitter_max_permille: u32,
        max_wait_ms: u64,
    ) -> (r: Result<Self, EntraIdError>)
        ensures
            r is Ok <==> (max_attempts >= 1 && backoff_multiplier_permille >= 1000
                && jitter_min_permille <= jitter_max_permille && max_wait_ms > 0),
            r matches Err(e) ==> e is Initialize,
            r matches Ok(c) ==> c.valid() && c.spec_max_attempts() == max_attempts
                && c.spec_initial_wait_ms() == initial_wait_ms
                && c.spec_backoff_multiplier_permille() == backoff_multiplier_permille
                && c.spec_jitter_min_permille() == jitter_min_permille
                && c.spec_jitter_max_permille() == jitter_max_permille
                && c.spec_max_wait_ms() == max_wait_ms,
    {
        if max_attempts == 0 {
            return Err(EntraIdError::Initialize("JWKs request max attempts must be greater than zero"));
        }
        if backoff_multiplier_permille < 1000 {
            return Err(
                EntraIdError::Initialize("JWKs request retry backoff multiplier must be at least 1.0"),
            );
        }
        if jitter_min_permille > jitter_max_permille {
            return Err(EntraIdError::Initialize("Invalid jitter min/max values"));
        }
        if max_wait_ms == 0 {
            return Err(EntraIdError::Initialize("JWKs request retry max wait must be greater than zero"));
        }
        Ok(RetryConfig {
            max_attempts,
            initial_wait_ms,
            backoff_multiplier_permille,
            jitter_min_permille,
            jitter_max_permille,
            max_wait_ms,
        })
    }

    pub fn max_attempts(&self) -> (r: u32)
        ensures
            r == self.spec_max_attempts(),
    {
        self.max_attempts
    }

    /// The wait before retrying after attempt number `attempts`, for a given
    /// jitter factor.
    pub fn delay_with_jitter(&self, attempts: u32, jitter_permille: u32) -> (r: u64)
        ensures
            r == delay_ms(*self, attempts, jitter_permille),
    {
        proof {
            use_type_invariant(self);
        }
        let n: u32 = if attempts >= 1 {
            attempts - 1
        } else {
            0
        };
        let ghost initial = self.initial_wait_ms as int;
        let ghost m = self.backoff_multiplier_permille as int;
        let ghost jj = jitter_permille as int;
        let ghost mw = self.max_wait_ms as int;
        let ghost pn = pow(1000, n as nat);
        let ghost x = initial * pow(m, n as nat) * jj;
        proof {
            lemma_pow_positive(1000, n as nat);
            lemma_pow_next(1000, n as nat);
            lemma_pow_base_monotone(m, 1000, n as nat);
            assert(x >= 0) by (nonlinear_arith)
                requires
                    x == initial * pow(m, n as nat) * jj,
                    initial >= 0,
                    pow(m, n as nat) >= 0,
                    jj >= 0,
            ;
        }
        if jitter_permille == 0 || self.initial_wait_ms == 0 {
            proof {
                assert(x == 0) by (nonlinear_arith)
                    requires
                        x == initial * pow(m, n as nat) * jj,
                        initial == 0 || jj == 0,
                ;
                lemma_fundamental_div_mod_converse(x, 1000 * pn, 0, 0);
            }
            return 0;
        }
        if self.backoff_multiplier_permille == 1000 {
            assert(initial * jj < 0x1_0000_0000_0000_0000_0000_0000) by (nonlinear_arith)
                requires
                    0 <= initial < 0x1_0000_0000_0000_0000,
                    0 <= jj < 0x1_0000_0000,
            ;
            let prod = self.initial_wait_ms as u128 * jitter_permille as u128;
            let q = prod / 1000;
            proof {
                let r = prod % 1000;
                assert(x == q * (1000 * pn) + r * pn && 0 <= r * pn < 1000 * pn) by (nonlinear_arith)
                    requires
                        x == initial * pn * jj,
                        prod == initial * jj,
                        prod == 1000 * q + r,
                        0 <= r < 1000,
                        pn > 0,
                ;
                lemma_fundamental_div_mod_converse(x, 1000 * pn, q as int, r * pn);
            }
            if q < self.max_wait_ms as u128 {
                return q as u64;
            } else {
                return self.max_wait_ms;
            }
        }
        // Past this bound on `initial · multiplier^i / 1000^i`, every later
        // wait is the largest one.
        let bound: u128 = (self.max_wait_ms as u128 + 1) * 1000;
        let mut d = digits_of(self.initial_wait_ms);
        let mut i: u32 = 0;
        proof {
            reveal(pow);
        }
        while i < n
            invariant
                i <= n,
                is_digits(d@),
                digits_value(d@) == initial * pow(m, i as nat),
                m == self.backoff_multiplier_permille,
                1000 <= m < 0x1_0000_0000,
                initial == self.initial_wait_ms,
                bound == (mw + 1) * 1000,
                mw == self.max_wait_ms,
                jj >= 1,
                jj == jitter_permille,
                n as nat == (if attempts >= 1 {
                    (attempts - 1) as nat
                } else {
                    0
                }),
                x == initial * pow(m, n as nat) * jj,
                pn == pow(1000, n as nat),
                pn > 0,
                pow(1000, (n + 1) as nat) == 1000 * pn,
            decreases n - i,
        {
            if high_value_capped(&d, i as usize, bound) >= bound {
                proof {
                    let k = (n - i) as nat;
                    let pi = pow(1000, i as nat);
                    lemma_div_drops_digits(d@, i as nat);
                    lemma_pow_adds(m, i as nat, k);
                    lemma_pow_adds(1000, i as nat, k);
                    lemma_pow_base_monotone(m, 1000, k);
                    lemma_pow_positive(1000, i as nat);
                    let h = digits_value(high_digits(d@, i as nat));
                    let vd = digits_value(d@);
                    let pmk = pow(m, k);
                    let p1k = pow(1000, k);
                    assert(x >= bound * pn) by (nonlinear_arith)
                        requires
                            vd >= pi * h,
                            h >= bound,
                            bound >= 0,
                            pi > 0,
                            vd == initial * pow(m, i as nat),
                            pow(m, n as nat) == pow(m, i as nat) * pmk,
                            pn == pi * p1k,
                            pmk >= p1k >= 0,
                            x == initial * pow(m, n as nat) * jj,
                            jj >= 1,
                    ;
                    assert(bound * pn == (mw + 1) * (1000 * pn)) by (nonlinear_arith)
                        requires
                            bound == (mw + 1) * 1000,
                    ;
                    lemma_fundamental_div_mod_converse(bound * pn, 1000 * pn, mw + 1, 0);
                    lemma_div_is_ordered(bound * pn, x, 1000 * pn);
                }
                return self.max_wait_ms;
            }
            let ghost before = d@;
            d = times_small(&d, self.backoff_multiplier_permille as u64);
            proof {
                lemma_pow_next(m, i as nat);
                assert(initial * pow(m, i as nat) * m == initial * (m * pow(m, i as nat))) by (nonlinear_arith);
            }
            i = i + 1;
        }
        let e = times_small(&d, jitter_permille as u64);
        let top: u32 = n + 1;
        let h = high_value_capped(&e, top as usize, self.max_wait_ms as u128);
        proof {
            lemma_div_drops_digits(e@, top as nat);
        }
        h as u64
    }

    /// The wait before retrying after attempt number `attempts`, with a
    /// jitter factor drawn at random from the configured range.
    pub fn calculate_delay(&self, attempts: u32) -> (r: u64)
        ensures
            exists|j: u32|
                self.spec_jitter_min_permille() <= j <= self.spec_jitter_max_permille() && r
                    == delay_ms(*self, attempts, j),
    {
        proof {
            use_type_invariant(self);
        }
        let j = random_permille(self.jitter_min_permille, self.jitter_max_permille);
        self.delay_with_jitter(attempts, j)
    }

    /// Decides, after attempt number `attempts` failed, whether to give up or
    /// how long to wait before the next attempt.
    pub fn on_fetch_failure(&self, attempts: u32, failure: &FetchFailure) -> (r: RetryDecision)
        ensures
            r is GiveUp <==> gives_up(*self, attempts, failure.kind),
            r matches RetryDecision::RetryAfter(d) ==> exists|j: u32|
                self.spec_jitter_min_permille() <= j <= self.spec_jitter_max_permille() && d
                    == delay_ms(*self, attempts, j),
    {
        if !is_retryable_error(failure) || attempts >= self.max_attempts {
            RetryDecision::GiveUp
        } else {
            RetryDecision::RetryAfter(self.calculate_delay(attempts))
        }
    }
}

/// Whether a failed request may succeed if tried again.
pub fn is_retryable_error(e: &FetchFailure) -> (r: bool)
    ensures
        r == retryable(e.kind),
{
    match e.kind {
        FetchFailureKind::Timeout => true,
        FetchFailureKind::Connect => true,
        FetchFailureKind::Status(s) => (500 <= s && s <= 599) || s == 429,
        FetchFailureKind::Other => false,
    }
}

/// Retries end at the first success: after `failures.len()` retryable
/// failures, fewer than the attempts allowed, a success makes the fetch end
/// with exactly one attempt more than there were failures.
pub proof fn lemma_retries_until_success(c: RetryConfig, failures: Seq<FetchFailureKind>)
    requires
        forall|i: int| 0 <= i < failures.len() ==> retryable(#[trigger] failures[i]),
        failures.len() < c.spec_max_attempts(),
    ensures
        attempts_made(
            c,
            failures.map_values(|k: FetchFailureKind| Some(k)).push(None),
            0,
        ) == failures.len() + 1,
{
    lemma_attempts_after(c, failures, 0);
}

proof fn lemma_attempts_after(c: RetryConfig, failures: Seq<FetchFailureKind>, d: nat)
    requires
        forall|i: int| 0 <= i < failures.len() ==> retryable(#[trigger] failures[i]),
        failures.len() < c.spec_max_attempts(),
        d <= failures.len(),
    ensures
        attempts_made(
            c,
            failures.map_values(|k: FetchFailureKind| Some(k)).push(None),
            d,
        ) == failures.len() + 1,
    decreases failures.len() - d,
{
    let outcomes = failures.map_values(|k: FetchFailureKind| Some(k)).push(None);
    if d < failures.len() {
        lemma_attempts_after(c, failures, d + 1);
        assert(outcomes[d as int] == Some(failures[d as int]));
        assert(!gives_up(c, (d + 1) as u32, failures[d as int]));
    } else {
        assert(outcomes[d as int] == None::<FetchFailureKind>);
    }
}

/// A failure that no retry can mend ends the fetch after its first attempt.
pub proof fn lemma_no_retry_on_permanent_failure(
    c: RetryConfig,
    outcomes: Seq<Option<FetchFailureKind>>,
    k: FetchFailureKind,
)
    requires
        outcomes.len() > 0,
        outcomes[0] == Some(k),
        !retryable(k),
    ensures
        attempts_made(c, outcomes, 0) == 1,
{
}

} // verus!
