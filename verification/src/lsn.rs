//! Splitting a PostgreSQL log sequence number ("hi/lo") into its two halves.

use vstd::prelude::*;
use crate::hex::{hex_or_zero, hex_or_zero_exec};
use crate::text::chars_of;

verus! {

/// `i` is the position of the one and only `/` in `s`.
pub open spec fn is_only_slash(s: Seq<char>, i: int) -> bool {
    &&& 0 <= i < s.len()
    &&& s[i] == '/'
    &&& forall|j: int| 0 <= j < s.len() && j != i ==> s[j] != '/'
}

/// The two pieces that `s.split('/')` yields when it yields exactly two.
pub open spec fn lsn_split(s: Seq<char>) -> Option<(Seq<char>, Seq<char>)> {
    if exists|i: int| is_only_slash(s, i) {
        let i = choose|i: int| is_only_slash(s, i);
        Some((s.take(i), s.skip(i + 1)))
    } else {
        None
    }
}

/// The numeric halves of an LSN, each read as hexadecimal and taken as 0
/// where it does not parse; `None` unless the text has exactly one `/`.
pub open spec fn lsn_pair(s: Seq<char>) -> Option<(nat, nat)> {
    match lsn_split(s) {
        Some((hi, lo)) => Some((hex_or_zero(hi), hex_or_zero(lo))),
        None => None,
    }
}

proof fn lemma_only_slash_unique(s: Seq<char>, i: int, j: int)
    requires
        is_only_slash(s, i),
        0 <= j < s.len(),
        s[j] == '/',
    ensures
        i == j,
{
}

/// Reads the two halves of an LSN.
pub fn lsn_pair_exec(s: &str) -> (r: Option<(u64, u64)>)
    ensures
        match lsn_pair(s@) {
            Some((hi, lo)) => r == Some((hi as u64, lo as u64)),
            None => r is None,
        },
{
    let v = chars_of(s);
    let n = v.len();
    let mut count: usize = 0;
    let mut pos: usize = 0;
    let mut i: usize = 0;
    while i < n
        invariant
            n == v@.len(),
            v@ == s@,
            i <= n,
            count <= i,
            count == 0 ==> forall|j: int| 0 <= j < i ==> v@[j] != '/',
            count >= 1 ==> pos < i && v@[pos as int] == '/',
            count == 1 ==> forall|j: int| 0 <= j < i && j != pos ==> v@[j] != '/',
            count >= 2 ==> exists|a: int, b: int| 0 <= a < b < i && v@[a] == '/' && v@[b] == '/',
        decreases n - i,
    {
        if v[i] == '/' {
            if count == 0 {
                pos = i;
            } else if count == 1 {
                assert(0 <= pos < i && v@[pos as int] == '/' && v@[i as int] == '/');
            }
            if count < 2 {
                count = count + 1;
            }
        }
        i = i + 1;
    }
    if count == 1 {
        assert(is_only_slash(s@, pos as int));
        let ghost c = choose|k: int| is_only_slash(s@, k);
        proof {
            lemma_only_slash_unique(s@, c, pos as int);
        }
        let hi = hex_or_zero_exec(&v.as_slice()[0..pos]);
        let lo = hex_or_zero_exec(&v.as_slice()[pos + 1..n]);
        assert(v@.subrange(0, pos as int) == s@.take(pos as int));
        assert(v@.subrange(pos + 1, n as int) == s@.skip(pos + 1));
        Some((hi, lo))
    } else {
        assert forall|k: int| !is_only_slash(s@, k) by {
            if is_only_slash(s@, k) {
                if count >= 2 {
                    let (a, b) = choose|a: int, b: int| 0 <= a < b < n && v@[a] == '/' && v@[b] == '/';
                    assert(a == k && b == k);
                }
            }
        }
        None
    }
}

} // verus!
