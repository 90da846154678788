//! Natural numbers of any size, written in base 1000 with the least
//! significant digit first, so that dividing by a power of 1000 drops digits.
use vstd::prelude::*;
use vstd::arithmetic::power::{lemma_pow_increases, lemma_pow_positive, pow};
use vstd::arithmetic::div_mod::lemma_fundamental_div_mod_converse;

verus! {

/// The number that the digits stand for.
pub open spec fn digits_value(d: Seq<u64>) -> int
    decreases d.len(),
{
    if d.len() == 0 {
        0
    } else {
        d[0] + 1000 * digits_value(d.drop_first())
    }
}

/// Every digit is below 1000.
pub open spec fn is_digits(d: Seq<u64>) -> bool {
    forall|i: int| 0 <= i < d.len() ==> #[trigger] d[i] < 1000
}

/// The digits from position `k` on: the number divided by `1000^k`.
pub open spec fn high_digits(d: Seq<u64>, k: nat) -> Seq<u64> {
    if k >= d.len() {
        Seq::empty()
    } else {
        d.subrange(k as int, d.len() as int)
    }
}

proof fn lemma_push(d: Seq<u64>, x: u64)
    ensures
        digits_value(d.push(x)) == digits_value(d) + pow(1000, d.len()) * x,
    decreases d.len(),
{
    if d.len() == 0 {
        assert(d.push(x).drop_first() =~= Seq::<u64>::empty());
        assert(d.push(x)[0] == x);
        assert(pow(1000, 0) == 1) by {
            reveal(pow);
        }
        assert(digits_value(d.push(x).drop_first()) == 0);
        assert(digits_value(d.push(x)) == x);
        assert(pow(1000, d.len()) * x == x);
    } else {
        assert(d.push(x)[0] == d[0]);
        assert(d.push(x).drop_first() =~= d.drop_first().push(x));
        lemma_push(d.drop_first(), x);
        let p = pow(1000, (d.len() - 1) as nat);
        assert(pow(1000, d.len()) == 1000 * p) by {
            reveal(pow);
        }
        let a = digits_value(d.drop_first());
        assert(1000 * (a + p * x) == 1000 * a + (1000 * p) * x) by (nonlinear_arith);
        assert(digits_value(d) == d[0] + 1000 * a);
        assert(digits_value(d.drop_first().push(x)) == a + p * x);
        assert(digits_value(d.push(x)) == d[0] + 1000 * digits_value(d.drop_first().push(x)));
    }
}

proof fn lemma_value_bounds(d: Seq<u64>)
    requires
        is_digits(d),
    ensures
        0 <= digits_value(d) < pow(1000, d.len()),
    decreases d.len(),
{
    if d.len() == 0 {
        assert(pow(1000, 0) == 1) by {
            reveal(pow);
        }
    } else {
        let t = d.drop_first();
        assert(is_digits(t)) by {
            assert forall|i: int| 0 <= i < t.len() implies #[trigger] t[i] < 1000 by {
                assert(t[i] == d[i + 1]);
            }
        }
        lemma_value_bounds(t);
        let p = pow(1000, t.len());
        assert(pow(1000, d.len()) == 1000 * p) by {
            reveal(pow);
        }
        let a = digits_value(t);
        assert(d[0] < 1000);
        assert(d[0] + 1000 * a < 1000 * p) by (nonlinear_arith)
            requires
                a < p,
                0 <= d[0] < 1000,
                0 <= a,
        ;
    }
}

/// Dividing by `1000^k` keeps the digits from position `k` on.
pub proof fn lemma_div_drops_digits(d: Seq<u64>, k: nat)
    requires
        is_digits(d),
    ensures
        digits_value(d) / pow(1000, k) == digits_value(high_digits(d, k)),
        digits_value(d) >= pow(1000, k) * digits_value(high_digits(d, k)),
        digits_value(high_digits(d, k)) >= 0,
{
    lemma_pow_positive(1000, k);
    if k >= d.len() {
        lemma_value_bounds(d);
        lemma_pow_increases(1000, d.len(), k);
        lemma_fundamental_div_mod_converse(digits_value(d), pow(1000, k), 0, digits_value(d));
        assert(digits_value(high_digits(d, k)) == 0);
    } else {
        lemma_split(d, k);
        let lo = d.subrange(0, k as int);
        assert(is_digits(lo)) by {
            assert forall|i: int| 0 <= i < lo.len() implies #[trigger] lo[i] < 1000 by {
                assert(lo[i] == d[i]);
            }
        }
        lemma_value_bounds(lo);
        let hi = high_digits(d, k);
        assert(is_digits(hi)) by {
            assert forall|i: int| 0 <= i < hi.len() implies #[trigger] hi[i] < 1000 by {
                assert(hi[i] == d[i + k]);
            }
        }
        lemma_value_bounds(hi);
        assert(pow(1000, k) * digits_value(hi) == digits_value(hi) * pow(1000, k)) by (nonlinear_arith);
        assert(digits_value(d) == digits_value(hi) * pow(1000, k) + digits_value(lo));
        lemma_fundamental_div_mod_converse(
            digits_value(d),
            pow(1000, k),
            digits_value(hi),
            digits_value(lo),
        );
        assert(pow(1000, k) * digits_value(hi) == digits_value(hi) * pow(1000, k)) by (nonlinear_arith);
    }
}

proof fn lemma_split(d: Seq<u64>, k: nat)
    requires
        k <= d.len(),
    ensures
        digits_value(d) == digits_value(d.subrange(0, k as int)) + pow(1000, k) * digits_value(
            d.subrange(k as int, d.len() as int),
        ),
    decreases k,
{
    if k == 0 {
        assert(d.subrange(0, 0) =~= Seq::<u64>::empty());
        assert(d.subrange(0, d.len() as int) =~= d);
        assert(pow(1000, 0) == 1) by {
            reveal(pow);
        }
    } else {
        let j = (k - 1) as nat;
        lemma_split(d, j);
        let lo = d.subrange(0, j as int);
        assert(d.subrange(0, k as int) =~= lo.push(d[j as int]));
        lemma_push(lo, d[j as int]);
        let hi = d.subrange(j as int, d.len() as int);
        assert(hi.drop_first() =~= d.subrange(k as int, d.len() as int));
        let p = pow(1000, j);
        assert(pow(1000, k) == 1000 * p) by {
            reveal(pow);
        }
        let b = digits_value(d.subrange(k as int, d.len() as int));
        assert(p * (d[j as int] + 1000 * b) == p * d[j as int] + (1000 * p) * b) by (nonlinear_arith);
    }
}

/// The digits of a machine integer.
pub fn digits_of(x: u64) -> (r: Vec<u64>)
    ensures
        is_digits(r@),
        digits_value(r@) == x,
{
    let mut out: Vec<u64> = Vec::new();
    let mut rest = x;
    assert(pow(1000, 0) == 1) by {
        reveal(pow);
    }
    while rest > 0
        invariant
            is_digits(out@),
            digits_value(out@) + pow(1000, out@.len()) * rest == x,
        decreases rest,
    {
        let ghost before = out@;
        out.push(rest % 1000);
        proof {
            lemma_push(before, (rest % 1000) as u64);
            let p = pow(1000, before.len());
            assert(pow(1000, out@.len()) == 1000 * p) by {
                reveal(pow);
            }
            assert(p * rest == p * (rest % 1000) + (1000 * p) * (rest / 1000)) by (nonlinear_arith)
                requires
                    rest == 1000 * (rest / 1000) + rest % 1000,
            ;
        }
        rest = rest / 1000;
    }
    out
}

/// The digits of `d` times `m`.
pub fn times_small(d: &Vec<u64>, m: u64) -> (r: Vec<u64>)
    requires
        is_digits(d@),
        m < 0x1_0000_0000,
    ensures
        is_digits(r@),
        digits_value(r@) == digits_value(d@) * m,
{
    let mut out: Vec<u64> = Vec::new();
    let mut carry: u64 = 0;
    let mut k: usize = 0;
    assert(d@.subrange(0, 0) =~= Seq::<u64>::empty());
    assert(pow(1000, 0) == 1) by {
        reveal(pow);
    }
    while k < d.len()
        invariant
            k <= d@.len(),
            is_digits(d@),
            m < 0x1_0000_0000,
            out@.len() == k,
            is_digits(out@),
            carry < 0x1_0000_0000,
            digits_value(out@) + pow(1000, k as nat) * carry == digits_value(d@.subrange(0, k as int))
                * m,
        decreases d@.len() - k,
    {
        let dk = d[k];
        assert(dk < 1000);
        assert(dk * m + carry < 1000 * 0x1_0000_0000) by (nonlinear_arith)
            requires
                dk < 1000,
                m < 0x1_0000_0000,
                carry < 0x1_0000_0000,
        ;
        let t = dk * m + carry;
        let ghost before = out@;
        out.push(t % 1000);
        proof {
            lemma_push(before, (t % 1000) as u64);
            let lo = d@.subrange(0, k as int);
            assert(d@.subrange(0, k + 1) =~= lo.push(dk));
            lemma_push(lo, dk);
            let p = pow(1000, k as nat);
            assert(pow(1000, (k + 1) as nat) == 1000 * p) by {
                reveal(pow);
            }
            let vl = digits_value(lo);
            let vo = digits_value(before);
            assert(vo + p * (t % 1000) + (1000 * p) * (t / 1000) == (vl + p * dk) * m) by (nonlinear_arith)
                requires
                    vo + p * carry == vl * m,
                    t == dk * m + carry,
                    t == 1000 * (t / 1000) + t % 1000,
            ;
        }
        carry = t / 1000;
        k = k + 1;
    }
    assert(d@.subrange(0, d@.len() as int) =~= d@);
    while carry > 0
        invariant
            is_digits(out@),
            digits_value(out@) + pow(1000, out@.len()) * carry == digits_value(d@) * m,
        decreases carry,
    {
        let ghost before = out@;
        out.push(carry % 1000);
        proof {
            lemma_push(before, (carry % 1000) as u64);
            let p = pow(1000, before.len());
            assert(pow(1000, out@.len()) == 1000 * p) by {
                reveal(pow);
            }
            assert(p * carry == p * (carry % 1000) + (1000 * p) * (carry / 1000)) by (nonlinear_arith)
                requires
                    carry == 1000 * (carry / 1000) + carry % 1000,
            ;
        }
        carry = carry / 1000;
    }
    out
}

/// The number that the digits from position `k` on stand for, or `cap`
/// if that is smaller.
pub fn high_value_capped(d: &Vec<u64>, k: usize, cap: u128) -> (r: u128)
    requires
        is_digits(d@),
        cap < 0x1_0000_0000_0000_0000_0000_0000,
    ensures
        r == (if digits_value(high_digits(d@, k as nat)) < cap {
            digits_value(high_digits(d@, k as nat))
        } else {
            cap as int
        }),
{
    if k >= d.len() {
        return 0;
    }
    let n = d.len();
    let mut i: usize = n;
    let mut x: u128 = 0;
    assert(d@.subrange(n as int, n as int) =~= Seq::<u64>::empty());
    while i > k
        invariant
            k < n == d@.len(),
            k <= i <= n,
            is_digits(d@),
            cap < 0x1_0000_0000_0000_0000_0000_0000,
            x == (if digits_value(d@.subrange(i as int, n as int)) < cap {
                digits_value(d@.subrange(i as int, n as int))
            } else {
                cap as int
            }),
        decreases i,
    {
        let ghost rest = d@.subrange(i as int, n as int);
        let ghost more = d@.subrange(i - 1, n as int);
        assert(more.drop_first() =~= rest);
        assert(more[0] == d@[i - 1]);
        proof {
            let t = d@.subrange(i as int, n as int);
            assert(is_digits(t)) by {
                assert forall|j: int| 0 <= j < t.len() implies #[trigger] t[j] < 1000 by {
                    assert(t[j] == d@[j + i]);
                }
            }
            lemma_value_bounds(t);
        }
        let digit = d[i - 1];
        assert(digit < 1000);
        let y = x * 1000 + digit as u128;
        x = if y < cap {
            y
        } else {
            cap
        };
        i = i - 1;
    }
    x
}

} // verus!
