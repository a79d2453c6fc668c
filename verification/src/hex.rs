//! Hexadecimal parsing of the two halves of a PostgreSQL log sequence number.

use vstd::prelude::*;

verus! {

/// The value of a hexadecimal digit (`char::to_digit(16)`).
pub open spec fn hex_digit(c: char) -> Option<nat> {
    if '0' <= c && c <= '9' {
        Some((c as nat - '0' as nat) as nat)
    } else if 'a' <= c && c <= 'f' {
        Some((c as nat - 'a' as nat + 10) as nat)
    } else if 'A' <= c && c <= 'F' {
        Some((c as nat - 'A' as nat + 10) as nat)
    } else {
        None
    }
}

/// Every character is a hexadecimal digit.
pub open spec fn all_hex(d: Seq<char>) -> bool {
    forall|i: int| 0 <= i < d.len() ==> hex_digit(#[trigger] d[i]) is Some
}

/// The number that a string of hexadecimal digits denotes.
pub open spec fn hex_value(d: Seq<char>) -> nat
    decreases d.len(),
{
    if d.len() == 0 {
        0
    } else {
        hex_value(d.drop_last()) * 16 + hex_digit(d.last()).unwrap_or(0)
    }
}

/// The digits that `u64::from_str_radix(s, 16)` reads: all of `s`, or what
/// follows one leading `+`.
pub open spec fn hex_body(s: Seq<char>) -> Seq<char> {
    if s.len() > 0 && s[0] == '+' {
        s.drop_first()
    } else {
        s
    }
}

/// `u64::from_str_radix(s, 16)`: an optional `+`, then at least one
/// hexadecimal digit, with a value below 2^64.
pub open spec fn parse_hex_u64(s: Seq<char>) -> Option<nat> {
    let d = hex_body(s);
    if d.len() > 0 && all_hex(d) && hex_value(d) <= u64::MAX {
        Some(hex_value(d))
    } else {
        None
    }
}

/// `u64::from_str_radix(s, 16).unwrap_or(0)`.
pub open spec fn hex_or_zero(s: Seq<char>) -> nat {
    match parse_hex_u64(s) {
        Some(v) => v,
        None => 0,
    }
}

fn digit_of(c: char) -> (r: Option<u64>)
    ensures
        match hex_digit(c) {
            Some(v) => r == Some(v as u64) && v < 16,
            None => r is None,
        },
{
    if '0' <= c && c <= '9' {
        Some((c as u64) - ('0' as u64))
    } else if 'a' <= c && c <= 'f' {
        Some((c as u64) - ('a' as u64) + 10)
    } else if 'A' <= c && c <= 'F' {
        Some((c as u64) - ('A' as u64) + 10)
    } else {
        None
    }
}

proof fn lemma_hex_value_monotone(d: Seq<char>, k: int)
    requires
        0 <= k <= d.len(),
    ensures
        hex_value(d.take(k)) <= hex_value(d),
    decreases d.len() - k,
{
    if k < d.len() {
        lemma_hex_value_monotone(d, k + 1);
        assert(d.take(k + 1).drop_last() == d.take(k));
    } else {
        assert(d.take(k) == d);
    }
}

/// Parses hexadecimal text as `u64::from_str_radix(s, 16)` does.
pub fn parse_hex(s: &[char]) -> (r: Option<u64>)
    ensures
        match parse_hex_u64(s@) {
            Some(v) => r == Some(v as u64),
            None => r is None,
        },
{
    let n = s.len();
    let mut start: usize = 0;
    if n > 0 && s[0] == '+' {
        start = 1;
    }
    let ghost d = hex_body(s@);
    assert(d == s@.skip(start as int));
    if start == n {
        return None;
    }
    let mut acc: u64 = 0;
    let mut i: usize = start;
    while i < n
        invariant
            n == s@.len(),
            start <= i <= n,
            d == s@.skip(start as int),
            d == hex_body(s@),
            acc == hex_value(d.take(i - start)),
            all_hex(d.take(i - start)),
        decreases n - i,
    {
        let k: Ghost<int> = Ghost(i - start);
        assert(d.take(k@ + 1).drop_last() == d.take(k@));
        assert(d[k@] == s@[i as int]);
        match digit_of(s[i]) {
            None => {
                assert(hex_digit(d[k@]) is None);
                assert(!all_hex(d));
                return None;
            },
            Some(v) => {
                match acc.checked_mul(16) {
                    None => {
                        proof {
                            lemma_hex_value_monotone(d, k@ + 1);
                            assert(d.take(k@ + 1).last() == d[k@]);
                            assert(hex_value(d.take(k@ + 1)) >= acc * 16);
                        }
                        return None;
                    },
                    Some(m) => {
                        match m.checked_add(v) {
                            None => {
                                proof {
                                    lemma_hex_value_monotone(d, k@ + 1);
                                }
                                return None;
                            },
                            Some(a) => {
                                assert forall|j: int| 0 <= j < k@ + 1 implies hex_digit(#[trigger] d.take(k@ + 1)[j]) is Some by {
                                    if j < k@ {
                                        assert(d.take(k@ + 1)[j] == d.take(k@)[j]);
                                    }
                                }
                                acc = a;
                            },
                        }
                    },
                }
            },
        }
        i = i + 1;
    }
    assert(d.take(n - start) == d);
    Some(acc)
}

/// Parses hexadecimal text, or yields 0 when it does not parse.
pub fn hex_or_zero_exec(s: &[char]) -> (r: u64)
    ensures
        r == hex_or_zero(s@),
{
    match parse_hex(s) {
        Some(v) => v,
        None => 0,
    }
}

} // verus!

verus! {

/// A machine word read as a natural number.
pub open spec fn nat_of(a: u64) -> nat {
    a as nat
}

} // verus!
