//! JSON numbers compared as `f64`, the way `serde_json::Number::as_f64`
//! and `f64` comparison see them: integers are first rounded to the nearest
//! double (ties to even), then doubles compare by value.

use vstd::prelude::*;
use crate::json::JsonNumber;

verus! {

/// Two to the power `e`.
pub open spec fn p2(e: nat) -> nat
    decreases e,
{
    if e == 0 {
        1
    } else {
        2 * p2((e - 1) as nat)
    }
}

/// The index of the highest set bit of a positive number.
pub open spec fn top_bit(x: nat) -> nat
    decreases x,
{
    if x <= 1 {
        0
    } else {
        1 + top_bit(x / 2)
    }
}

/// The binary64 bits of the double nearest to `x` (ties to even): what
/// `x as f64` gives for an unsigned integer.
pub open spec fn nat_to_f64_bits(x: nat) -> nat {
    if x == 0 {
        0
    } else {
        let k = top_bit(x);
        if k <= 52 {
            ((k + 1023) * p2(52) + x * p2((52 - k) as nat) - p2(52)) as nat
        } else {
            let s = (k - 52) as nat;
            let q = x / p2(s);
            let rem = x % p2(s);
            let half = p2((s - 1) as nat);
            let q2 = if rem > half || (rem == half && q % 2 == 1) {
                q + 1
            } else {
                q
            };
            ((k + 1023) * p2(52) + q2 - p2(52)) as nat
        }
    }
}

/// The binary64 bits of a JSON number as `as_f64` gives them.
pub open spec fn number_bits(n: JsonNumber) -> nat {
    match n {
        JsonNumber::PosInt(u) => nat_to_f64_bits(u as nat),
        JsonNumber::NegInt(i) => if i < 0 {
            p2(63) + nat_to_f64_bits((-i) as nat)
        } else {
            nat_to_f64_bits(i as nat)
        },
        JsonNumber::Float(b) => b as nat,
    }
}

/// A number that orders finite doubles as their values do: the bits of a
/// positive double, the negated magnitude bits of a negative one (both
/// zeros give zero).
pub open spec fn f64_rank(bits: nat) -> int {
    if bits < p2(63) {
        bits as int
    } else {
        -((bits - p2(63)) as int)
    }
}

/// Whether `a > b` as doubles.
pub open spec fn number_gt(a: JsonNumber, b: JsonNumber) -> bool {
    f64_rank(number_bits(a)) > f64_rank(number_bits(b))
}

proof fn lemma_p2_values()
    ensures
        p2(11) == 2048,
        p2(52) == 4503599627370496,
        p2(53) == 9007199254740992,
        p2(63) == 9223372036854775808,
        p2(64) == 18446744073709551616,
{
    reveal_with_fuel(p2, 65);
}

proof fn lemma_top_bit(x: nat, k: nat)
    requires
        p2(k) <= x < 2 * p2(k),
    ensures
        top_bit(x) == k,
    decreases k,
{
    if k > 0 {
        assert(p2((k - 1) as nat) <= x / 2 < 2 * p2((k - 1) as nat));
        lemma_top_bit(x / 2, (k - 1) as nat);
    }
}

proof fn lemma_p2_grows(a: nat, b: nat)
    requires
        a <= b,
    ensures
        p2(a) <= p2(b),
    decreases b,
{
    if a < b {
        lemma_p2_grows(a, (b - 1) as nat);
    }
}

/// `nat_to_f64_bits` for a 64-bit integer.
fn u64_to_f64_bits(x: u64) -> (r: u128)
    ensures
        r == nat_to_f64_bits(x as nat),
        r < p2(63),
{
    proof {
        lemma_p2_values();
    }
    if x == 0 {
        return 0;
    }
    let mut k: u64 = 0;
    let mut p: u64 = 1;
    while p <= x / 2
        invariant
            0 < x,
            p == p2(k as nat),
            1 <= p <= x,
            k < 64,
        decreases x - p,
    {
        proof {
            lemma_p2_values();
            if k >= 63 {
                lemma_p2_grows(63, k as nat);
            }
        }
        p = p * 2;
        k = k + 1;
    }
    proof {
        lemma_top_bit(x as nat, k as nat);
    }
    let p52: u128 = 4503599627370496;
    if k <= 52 {
        let mut m: u128 = 1;
        let mut j: u64 = 0;
        while j < 52 - k
            invariant
                k <= 52,
                j <= 52 - k,
                m == p2(j as nat),
                m <= p2(52),
            decreases 52 - k - j,
        {
            proof {
                lemma_p2_grows((j + 1) as nat, 52);
                lemma_p2_values();
            }
            m = m * 2;
            j = j + 1;
        }
        assert((x as u128) * m <= 18446744073709551615u128 * 4503599627370496u128) by (nonlinear_arith)
            requires
                x <= 18446744073709551615u64,
                m <= 4503599627370496u128,
        ;
        let xm = (x as u128) * m;
        proof {
            lemma_p2_adds(k as nat, (52 - k) as nat);
            lemma_p2_grows(0, (52 - k) as nat);
            let a = p2(k as nat);
            let b = p2((52 - k) as nat);
            assert(x * b >= p2(52) && x * b < 2 * p2(52)) by (nonlinear_arith)
                requires
                    a * b == p2(52),
                    a <= x < 2 * a,
                    b >= 1,
            ;
        }
        ((k as u128) + 1023) * p52 + xm - p52
    } else {
        let s = k - 52;
        let mut ps: u64 = 1;
        let mut j: u64 = 0;
        while j < s
            invariant
                s <= 11,
                j <= s,
                ps == p2(j as nat),
                ps <= 2048,
            decreases s - j,
        {
            proof {
                lemma_p2_grows((j + 1) as nat, 11);
                lemma_p2_values();
            }
            ps = ps * 2;
            j = j + 1;
        }
        proof {
            lemma_p2_grows(0, s as nat);
            lemma_p2_adds(52, s as nat);
            assert(p2(52) * p2(s as nat) <= x < 2 * (p2(52) * p2(s as nat)));
        }
        let q = x / ps;
        let rem = x % ps;
        let half = ps / 2;
        assert(half == p2((s - 1) as nat));
        proof {
            let big = p2(52);
            assert(q >= big && q < 2 * big) by (nonlinear_arith)
                requires
                    q == x / ps,
                    ps > 0,
                    big * ps <= x < 2 * (big * ps),
            ;
        }
        let q2: u64 = if rem > half || (rem == half && q % 2 == 1) {
            q + 1
        } else {
            q
        };
        assert(q2 <= p2(53));
        ((k as u128) + 1023) * p52 + (q2 as u128) - p52
    }
}

proof fn lemma_p2_adds(a: nat, b: nat)
    ensures
        p2(a) * p2(b) == p2(a + b),
    decreases a,
{
    if a > 0 {
        lemma_p2_adds((a - 1) as nat, b);
        assert(p2(a) * p2(b) == 2 * (p2((a - 1) as nat) * p2(b))) by (nonlinear_arith)
            requires
                p2(a) == 2 * p2((a - 1) as nat),
        ;
        assert(((a - 1) as nat + b) as nat == (a + b - 1) as nat);
        assert(p2(a + b) == 2 * p2((a + b - 1) as nat));
        assert(p2(a) * p2(b) == p2(a + b));
    } else {
        assert(p2(a) == 1);
        assert(a + b == b);
        assert(p2(a) * p2(b) == p2(b)) by (nonlinear_arith)
            requires
                p2(a) == 1,
        ;
    }
}

/// `number_bits` of a number.
fn number_bits_exec(n: JsonNumber) -> (r: u128)
    ensures
        r == number_bits(n),
        r < p2(64),
{
    proof {
        lemma_p2_values();
    }
    match n {
        JsonNumber::PosInt(u) => u64_to_f64_bits(u),
        JsonNumber::NegInt(i) => {
            if i < 0 {
                let magnitude = (-(i as i128)) as u64;
                9223372036854775808u128 + u64_to_f64_bits(magnitude)
            } else {
                u64_to_f64_bits(i as u64)
            }
        },
        JsonNumber::Float(b) => b as u128,
    }
}

fn rank_exec(bits: u128) -> (r: i128)
    requires
        bits < p2(64),
    ensures
        r == f64_rank(bits as nat),
{
    proof {
        lemma_p2_values();
    }
    if bits < 9223372036854775808u128 {
        bits as i128
    } else {
        -((bits - 9223372036854775808u128) as i128)
    }
}

/// Whether `a > b` when both are read as `f64` (`as_f64`).
pub fn number_greater(a: JsonNumber, b: JsonNumber) -> (r: bool)
    ensures
        r == number_gt(a, b),
{
    let ra = rank_exec(number_bits_exec(a));
    let rb = rank_exec(number_bits_exec(b));
    ra > rb
}

} // verus!
