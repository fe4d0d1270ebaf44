//! The score: a counter that only grows.
//!
//! A locked piece is worth a flat amount. Cleared rows are worth a bonus
//! that doubles with each further row cleared by the same piece.

use vstd::arithmetic::power2::{lemma2_to64, lemma2_to64_rest, lemma_pow2_strictly_increases, pow2};
use vstd::bits::lemma_u64_shl_is_mul;
use vstd::prelude::*;

verus! {

/// Points for locking a piece.
pub const PIECE_POINTS: u64 = 25;

/// The bonus for clearing `n` rows with one piece: nothing for no row, and
/// `100 * 2^n` otherwise.
pub open spec fn line_bonus(n: nat) -> nat {
    if n == 0 {
        0
    } else {
        pow2(n) * 100
    }
}

/// The running score.
#[derive(Debug)]
pub struct ScoreTracker {
    total: u64,
}

impl View for ScoreTracker {
    type V = nat;

    /// The points awarded so far.
    closed spec fn view(&self) -> nat {
        self.total as nat
    }
}

impl ScoreTracker {
    /// A score of zero.
    pub fn new() -> (score: ScoreTracker)
        ensures
            score@ == 0,
    {
        ScoreTracker { total: 0 }
    }

    /// The points awarded so far.
    pub fn total(&self) -> (points: u64)
        ensures
            points == self@,
    {
        self.total
    }

    /// Awards the flat amount for a locked piece.
    pub fn add_piece_locked(&mut self)
        requires
            old(self)@ + PIECE_POINTS <= u64::MAX,
        ensures
            final(self)@ == old(self)@ + PIECE_POINTS,
    {
        self.total = self.total + PIECE_POINTS;
    }

    /// Awards the bonus for `n` rows cleared by one piece. No row, no bonus.
    pub fn add_lines_cleared(&mut self, n: usize)
        requires
            old(self)@ + line_bonus(n as nat) <= u64::MAX,
        ensures
            final(self)@ == old(self)@ + line_bonus(n as nat),
    {
        if n > 0 {
            proof {
                lemma2_to64_rest();
                if n > 64 {
                    lemma_pow2_strictly_increases(64, n as nat);
                }
                assert(n < 64);
                lemma_u64_shl_is_mul(1, n as u64);
            }
            let doubled: u64 = 1u64 << (n as u64);
            self.total = self.total + doubled * 100;
        }
    }
}

/// The bonus for one to four rows, the most that one piece can clear.
pub proof fn law_line_bonus_values()
    ensures
        line_bonus(0) == 0,
        line_bonus(1) == 200,
        line_bonus(2) == 400,
        line_bonus(3) == 800,
        line_bonus(4) == 1600,
{
    lemma2_to64();
}

} // verus!
