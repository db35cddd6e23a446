use vstd::prelude::*;
use vstd::arithmetic::power2::{
    pow2, lemma2_to64, lemma2_to64_rest, lemma_pow2_adds, lemma_pow2_pos, lemma_pow2_strictly_increases, lemma_pow2_unfold,
};

verus! {

/// The exponent of the highest power of two not above `m`.
pub open spec fn top_exponent(m: nat) -> nat {
    choose|e: nat| pow2(e) <= m && m < #[trigger] pow2(e + 1)
}

proof fn lemma_top_exponent(m: nat, e: nat)
    requires
        pow2(e) <= m < pow2(e + 1),
    ensures
        top_exponent(m) == e,
{
    assert(exists|x: nat| pow2(x) <= m && m < #[trigger] pow2(x + 1));
    let t = top_exponent(m);
    assert(pow2(t) <= m && m < pow2(t + 1));
    if t < e && t + 1 < e {
        lemma_pow2_strictly_increases(t + 1, e);
    }
    if e < t && e + 1 < t {
        lemma_pow2_strictly_increases(e + 1, t);
    }
}

/// The 53-bit significand of `m`, whose top bit is at `e`: exact when `m`
/// has at most 53 significant bits, otherwise rounded to nearest with ties
/// to even (it may then reach 2^53).
pub open spec fn significand(m: nat, e: nat) -> nat {
    if e <= 52 {
        m * pow2((52 - e) as nat)
    } else {
        let p = pow2((e - 52) as nat);
        let q = m / p;
        let r = m % p;
        let h = p / 2;
        if r > h || (r == h && q % 2 == 1) {
            q + 1
        } else {
            q
        }
    }
}

/// The IEEE-754 double-precision bits of the double nearest to `m` (or to
/// `-m`), ties to even; zero is `+0.0`.
pub open spec fn float_bits(negative: bool, m: nat) -> int {
    if m == 0 {
        0
    } else {
        let e = top_exponent(m);
        let s = significand(m, e);
        let carried = s == pow2(53);
        let s2 = if carried {
            pow2(52)
        } else {
            s
        };
        let e2 = if carried {
            e + 1
        } else {
            e
        };
        (if negative {
            pow2(63) as int
        } else {
            0
        }) + (e2 + 1023) * pow2(52) + (s2 - pow2(52))
    }
}

/// The double-precision bits of the number nearest to `m`, negated when
/// `negative` holds.
pub fn float_bits_of(negative: bool, m: u64) -> (r: u64)
    ensures
        r as int == float_bits(negative, m as nat),
{
    proof {
        lemma2_to64();
        lemma2_to64_rest();
    }
    if m == 0 {
        return 0;
    }
    let mut e: u64 = 0;
    let mut p: u64 = 1;
    while m / p >= 2
        invariant
            0 < p <= m,
            p as nat == pow2(e as nat),
            e < 64,
            pow2(64) == 0x10000000000000000nat,
        decreases m - p,
    {
        assert(2 * p <= m) by (nonlinear_arith)
            requires
                m / p >= 2,
                p > 0,
        ;
        proof {
            lemma_pow2_unfold((e + 1) as nat);
            if e + 1 > 64 {
                lemma_pow2_strictly_increases(64, (e + 1) as nat);
            }
        }
        p = p * 2;
        e += 1;
    }
    assert(m < 2 * p) by (nonlinear_arith)
        requires
            m / p < 2,
            p > 0,
    ;
    proof {
        lemma2_to64();
        lemma2_to64_rest();
        lemma_pow2_unfold((e + 1) as nat);
        lemma_top_exponent(m as nat, e as nat);
    }
    let sig: u64;
    if e <= 52 {
        let mut s: u64 = m;
        let mut k: u64 = 0;
        while k < 52 - e
            invariant
                e <= 52,
                k <= 52 - e,
                s as nat == m * pow2(k as nat),
                pow2((e + k) as nat) <= s < pow2((e + k + 1) as nat),
                pow2(53) == 0x20000000000000nat,
                pow2(52) == 0x10000000000000nat,
            decreases 52 - e - k,
        {
            proof {
                lemma_pow2_unfold((k + 1) as nat);
                lemma_pow2_unfold((e + k + 1) as nat);
                lemma_pow2_unfold((e + k + 2) as nat);
                if e + k + 1 < 53 {
                    lemma_pow2_strictly_increases((e + k + 1) as nat, 53);
                }
                assert(m * pow2((k + 1) as nat) == (m * pow2(k as nat)) * 2) by (nonlinear_arith)
                    requires
                        pow2((k + 1) as nat) == 2 * pow2(k as nat),
                ;
            }
            s = s * 2;
            k += 1;
        }
        assert(k == 52 - e);
        sig = s;
    } else {
        let shift = e - 52;
        let mut ps: u64 = 1;
        let mut k: u64 = 0;
        while k < shift
            invariant
                k <= shift,
                shift == e - 52,
                e < 64,
                ps as nat == pow2(k as nat),
                pow2(64) == 0x10000000000000000nat,
            decreases shift - k,
        {
            proof {
                lemma_pow2_unfold((k + 1) as nat);
                lemma_pow2_strictly_increases((k + 1) as nat, 64);
            }
            ps = ps * 2;
            k += 1;
        }
        proof {
            lemma_pow2_adds(53, shift as nat);
            lemma_pow2_adds(52, shift as nat);
            lemma_pow2_pos(shift as nat);
            assert((53 + shift) as nat == (e + 1) as nat);
            assert((52 + shift) as nat == e as nat);
        }
        let q = m / ps;
        let r = m % ps;
        let h = ps / 2;
        assert(q < pow2(53)) by (nonlinear_arith)
            requires
                m < pow2(53) * ps,
                ps > 0,
                q == m / ps,
        ;
        assert(q >= pow2(52)) by (nonlinear_arith)
            requires
                m >= pow2(52) * ps,
                ps > 0,
                q == m / ps,
        ;
        sig = if r > h || (r == h && q % 2 == 1) {
            q + 1
        } else {
            q
        };
    }
    assert(pow2(52) <= sig <= pow2(53));
    let carried = sig == 0x20000000000000;
    let s2: u64 = if carried {
        0x10000000000000
    } else {
        sig
    };
    let e2: u64 = if carried {
        e + 1
    } else {
        e
    };
    let sign: u64 = if negative {
        0x8000000000000000
    } else {
        0
    };
    assert(e2 <= 64);
    sign + (e2 + 1023) * 0x10000000000000 + (s2 - 0x10000000000000)
}

} // verus!
