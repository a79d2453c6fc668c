//! Source positions and their order.

use vstd::prelude::*;
use crate::lsn::{lsn_pair, lsn_pair_exec};
use crate::hex::nat_of;
use crate::text::{append_str, concat2, concat3, decimal, u64_to_string, seq_lt, str_lt, lemma_seq_lt_irreflexive, lemma_seq_lt_asymmetric, lemma_seq_lt_total, lemma_seq_lt_transitive};
use std::cmp::Ordering;

verus! {

/// A position in a source's change stream.
#[derive(Debug, Clone)]
pub enum Position {
    /// A PostgreSQL log sequence number such as `0/16B3748`.
    PostgreSQL { lsn: String },
    /// A MySQL binlog file and offset.
    MySQL { file: String, position: u64 },
    /// A MongoDB change-stream resume token.
    MongoDB { resume_token: String },
}

/// The text order of `str::cmp`.
pub open spec fn text_order(a: Seq<char>, b: Seq<char>) -> Ordering {
    if seq_lt(a, b) {
        Ordering::Less
    } else if a == b {
        Ordering::Equal
    } else {
        Ordering::Greater
    }
}

/// The order of two numbers.
pub open spec fn num_order(a: nat, b: nat) -> Ordering {
    if a < b {
        Ordering::Less
    } else if a == b {
        Ordering::Equal
    } else {
        Ordering::Greater
    }
}

/// The order that `compare_lsn` gives: by the numeric halves when both
/// texts have exactly one `/`, else by text.
pub open spec fn lsn_order(a: Seq<char>, b: Seq<char>) -> Ordering {
    match (lsn_pair(a), lsn_pair(b)) {
        (Some((h1, l1)), Some((h2, l2))) => if h1 == h2 {
            num_order(l1, l2)
        } else {
            num_order(h1, h2)
        },
        _ => text_order(a, b),
    }
}

/// The opposite order.
pub open spec fn reversed(o: Ordering) -> Ordering {
    match o {
        Ordering::Less => Ordering::Greater,
        Ordering::Equal => Ordering::Equal,
        Ordering::Greater => Ordering::Less,
    }
}

/// Whether position `a` lies after position `b` (`Position::is_after`).
pub open spec fn position_after(a: Position, b: Position) -> bool {
    match (a, b) {
        (Position::PostgreSQL { lsn: x }, Position::PostgreSQL { lsn: y }) => match (
            lsn_pair(x@),
            lsn_pair(y@),
        ) {
            (Some((h1, l1)), Some((h2, l2))) => h1 > h2 || (h1 == h2 && l1 > l2),
            _ => false,
        },
        (
            Position::MySQL { file: f1, position: p1 },
            Position::MySQL { file: f2, position: p2 },
        ) => seq_lt(f2@, f1@) || (f1@ == f2@ && p1 > p2),
        _ => false,
    }
}

fn text_cmp(a: &str, b: &str) -> (r: Ordering)
    ensures
        r == text_order(a@, b@),
{
    if str_lt(a, b) {
        Ordering::Less
    } else if str_lt(b, a) {
        proof {
            lemma_seq_lt_irreflexive(a@);
        }
        Ordering::Greater
    } else {
        proof {
            lemma_seq_lt_total(a@, b@);
        }
        Ordering::Equal
    }
}

fn u64_cmp(a: u64, b: u64) -> (r: Ordering)
    ensures
        r == num_order(nat_of(a), nat_of(b)),
{
    if a < b {
        Ordering::Less
    } else if a == b {
        Ordering::Equal
    } else {
        Ordering::Greater
    }
}

/// Compares two PostgreSQL LSNs such as `0/1234567`: by their hexadecimal
/// halves when both have the form `hi/lo`, else as text.
pub fn compare_lsn(lsn1: &str, lsn2: &str) -> (r: Ordering)
    ensures
        r == lsn_order(lsn1@, lsn2@),
{
    match (lsn_pair_exec(lsn1), lsn_pair_exec(lsn2)) {
        (Some((h1, l1)), Some((h2, l2))) => {
            if h1 == h2 {
                u64_cmp(l1, l2)
            } else {
                u64_cmp(h1, h2)
            }
        },
        _ => text_cmp(lsn1, lsn2),
    }
}

impl Position {
    /// A PostgreSQL position at `lsn`.
    pub fn postgresql(lsn: String) -> (p: Position)
        ensures
            p == (Position::PostgreSQL { lsn }),
    {
        Position::PostgreSQL { lsn }
    }

    /// A MySQL position in binlog `file` at `position`.
    pub fn mysql(file: String, position: u64) -> (p: Position)
        ensures
            p == (Position::MySQL { file, position }),
    {
        Position::MySQL { file, position }
    }

    /// A MongoDB position at `token`.
    pub fn mongodb(token: String) -> (p: Position)
        ensures
            p == (Position::MongoDB { resume_token: token }),
    {
        Position::MongoDB { resume_token: token }
    }

    /// A copy of the position.
    pub fn copy(&self) -> (r: Position)
        ensures
            r == *self,
    {
        match self {
            Position::PostgreSQL { lsn } => Position::PostgreSQL { lsn: lsn.clone() },
            Position::MySQL { file, position } => Position::MySQL { file: file.clone(), position: *position },
            Position::MongoDB { resume_token } => Position::MongoDB { resume_token: resume_token.clone() },
        }
    }

    /// Whether this position lies after `other`; positions of different
    /// sources, MongoDB positions and malformed LSNs are never after.
    pub fn is_after(&self, other: &Position) -> (r: bool)
        ensures
            r == position_after(*self, *other),
    {
        match (self, other) {
            (Position::PostgreSQL { lsn: lsn1 }, Position::PostgreSQL { lsn: lsn2 }) => {
                match (lsn_pair_exec(lsn1.as_str()), lsn_pair_exec(lsn2.as_str())) {
                    (Some((hi1, lo1)), Some((hi2, lo2))) => hi1 > hi2 || (hi1 == hi2 && lo1 > lo2),
                    _ => false,
                }
            },
            (
                Position::MySQL { file: f1, position: p1 },
                Position::MySQL { file: f2, position: p2 },
            ) => {
                if str_lt(f2.as_str(), f1.as_str()) {
                    true
                } else if str_lt(f1.as_str(), f2.as_str()) {
                    false
                } else {
                    proof {
                        lemma_seq_lt_total(f1@, f2@);
                    }
                    *p1 > *p2
                }
            },
            _ => false,
        }
    }
}

/// The text of a position, as its `Display` writes it: `pg:` and the LSN,
/// `mysql:` then the file, `:` and the offset, or `mongo:` and the token.
pub open spec fn position_text(p: Position) -> Seq<char> {
    match p {
        Position::PostgreSQL { lsn } => "pg:"@ + lsn@,
        Position::MySQL { file, position } => "mysql:"@ + file@ + ":"@ + decimal(position as nat),
        Position::MongoDB { resume_token } => "mongo:"@ + resume_token@,
    }
}

impl Position {
    /// The position as text (see `position_text`).
    pub fn to_text(&self) -> (r: String)
        ensures
            r@ == position_text(*self),
    {
        match self {
            Position::PostgreSQL { lsn } => concat2("pg:", lsn.as_str()),
            Position::MySQL { file, position } => {
                let mut r = concat3("mysql:", file.as_str(), ":");
                let n = u64_to_string(*position);
                append_str(&mut r, n.as_str());
                r
            },
            Position::MongoDB { resume_token } => concat2("mongo:", resume_token.as_str()),
        }
    }
}

/// No position lies after itself.
pub proof fn law_is_after_irreflexive(p: Position)
    ensures
        !position_after(p, p),
{
    if let Position::MySQL { file, .. } = p {
        lemma_seq_lt_irreflexive(file@);
    }
}

/// Of two positions, at most one lies after the other.
pub proof fn law_is_after_asymmetric(a: Position, b: Position)
    requires
        position_after(a, b),
    ensures
        !position_after(b, a),
{
    if let (Position::MySQL { file: f1, .. }, Position::MySQL { file: f2, .. }) = (a, b) {
        lemma_seq_lt_asymmetric(f1@, f2@);
        lemma_seq_lt_irreflexive(f1@);
    }
}

/// Lying after is transitive.
pub proof fn law_is_after_transitive(a: Position, b: Position, c: Position)
    requires
        position_after(a, b),
        position_after(b, c),
    ensures
        position_after(a, c),
{
    if let (
        Position::MySQL { file: f1, .. },
        Position::MySQL { file: f2, .. },
        Position::MySQL { file: f3, .. },
    ) = (a, b, c) {
        if seq_lt(f2@, f1@) && seq_lt(f3@, f2@) {
            lemma_seq_lt_transitive(f3@, f2@, f1@);
        }
    }
}

/// Swapping the arguments of `compare_lsn` reverses its answer.
pub proof fn law_compare_lsn_antisymmetric(a: Seq<char>, b: Seq<char>)
    ensures
        lsn_order(b, a) == reversed(lsn_order(a, b)),
{
    lemma_seq_lt_asymmetric(a, b);
    lemma_seq_lt_total(a, b);
    lemma_seq_lt_irreflexive(a);
}

/// `compare_lsn` calls an LSN equal only to itself when neither has the form `hi/lo`
/// and places it equal to itself always.
pub proof fn law_compare_lsn_reflexive(a: Seq<char>)
    ensures
        lsn_order(a, a) == Ordering::Equal,
{
    lemma_seq_lt_irreflexive(a);
}

/// For two well-formed PostgreSQL LSNs, `is_after` agrees with `compare_lsn`.
pub proof fn law_is_after_matches_compare_lsn(x: String, y: String)
    requires
        lsn_pair(x@) is Some,
        lsn_pair(y@) is Some,
    ensures
        position_after(Position::PostgreSQL { lsn: x }, Position::PostgreSQL { lsn: y })
            <==> lsn_order(x@, y@) == Ordering::Greater,
{
}

} // verus!
