//! Counting and summing over sequences of pieces.
//!
//! The board generator shuffles its tile list, so everything the library
//! states about a fresh board goes through occurrence counts, which a
//! permutation preserves. This module defines the counts and the few
//! facts about them that the board and session proofs lean on.

use vstd::prelude::*;
use crate::board::Piece;

verus! {

/// How many positions of `s` hold exactly the piece `p`.
pub open spec fn count_val(s: Seq<Piece>, p: Piece) -> nat
    decreases s.len(),
{
    if s.len() == 0 {
        0
    } else {
        count_val(s.drop_last(), p) + if s.last() == p {
            1nat
        } else {
            0nat
        }
    }
}

/// How many positions of `s` hold a numbered tile (of any value).
pub open spec fn count_numbers(s: Seq<Piece>) -> nat
    decreases s.len(),
{
    if s.len() == 0 {
        0
    } else {
        count_numbers(s.drop_last()) + if s.last() is Number {
            1nat
        } else {
            0nat
        }
    }
}

/// The score a captured piece is worth: its value for a numbered tile,
/// nothing otherwise.
pub open spec fn piece_value(p: Piece) -> int {
    match p {
        Piece::Number(v) => v as int,
        Piece::Cross => 0,
        Piece::Empty => 0,
    }
}

/// The total value of a sequence of captured pieces.
pub open spec fn sum_values(s: Seq<Piece>) -> int
    decreases s.len(),
{
    if s.len() == 0 {
        0
    } else {
        sum_values(s.drop_last()) + piece_value(s.last())
    }
}

pub broadcast proof fn lemma_count_val_push(s: Seq<Piece>, a: Piece, p: Piece)
    ensures
        #[trigger] count_val(s.push(a), p) == count_val(s, p) + if a == p {
            1nat
        } else {
            0nat
        },
{
    assert(s.push(a).drop_last() =~= s);
}

pub broadcast proof fn lemma_sum_values_push(s: Seq<Piece>, a: Piece)
    ensures
        #[trigger] sum_values(s.push(a)) == sum_values(s) + piece_value(a),
{
    assert(s.push(a).drop_last() =~= s);
}

/// A value's occurrence count in a sequence is its multiplicity in the
/// sequence's multiset; so equal multisets mean equal counts everywhere.
pub proof fn lemma_count_val_matches_multiset(s: Seq<Piece>, p: Piece)
    ensures
        count_val(s, p) == s.to_multiset().count(p),
    decreases s.len(),
{
    broadcast use vstd::seq_lib::group_to_multiset_ensures;

    if s.len() == 0 {
        assert(s.to_multiset().count(p) <= s.to_multiset().len()) by {
            broadcast use vstd::multiset::axiom_count_le_len;

        }
    } else {
        let t = s.drop_last();
        lemma_count_val_matches_multiset(t, p);
        assert(t.push(s.last()) =~= s);
        assert(t.push(s.last()).to_multiset() =~= t.to_multiset().insert(s.last()));
    }
}

/// No position of `s` holds `p` exactly when `p`'s count is zero.
pub proof fn lemma_count_val_zero(s: Seq<Piece>, p: Piece)
    ensures
        count_val(s, p) == 0 <==> (forall|i: int| 0 <= i < s.len() ==> s[i] != p),
    decreases s.len(),
{
    if s.len() > 0 {
        lemma_count_val_zero(s.drop_last(), p);
        assert(s.last() == s[s.len() - 1]);
        assert(forall|i: int| 0 <= i < s.len() - 1 ==> s.drop_last()[i] == s[i]);
    }
}

/// A count of one pins the position: two positions holding `p` coincide.
pub proof fn lemma_count_val_unique(s: Seq<Piece>, p: Piece, i: int, j: int)
    requires
        count_val(s, p) == 1,
        0 <= i < s.len(),
        0 <= j < s.len(),
        s[i] == p,
        s[j] == p,
    ensures
        i == j,
    decreases s.len(),
{
    if i != j {
        let t = s.drop_last();
        let n = s.len() - 1;
        assert(s.last() == s[n]);
        assert(forall|k: int| 0 <= k < n ==> t[k] == s[k]);
        lemma_count_val_zero(t, p);
        if i == n {
            assert(count_val(t, p) == 0);
            assert(t[j] == p);
        } else if j == n {
            assert(count_val(t, p) == 0);
            assert(t[i] == p);
        } else {
            assert(count_val(t, p) != 0);
            assert(count_val(s, p) >= count_val(t, p));
            lemma_count_val_unique(t, p, i, j);
        }
    }
}

/// Every cell is a numbered tile, the marker, or empty, so the three
/// counts partition the length.
pub proof fn lemma_census_partition(s: Seq<Piece>)
    ensures
        count_numbers(s) + count_val(s, Piece::Cross) + count_val(s, Piece::Empty) == s.len(),
    decreases s.len(),
{
    if s.len() > 0 {
        lemma_census_partition(s.drop_last());
    }
}

} // verus!
