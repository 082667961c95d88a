use vstd::prelude::*;

use crate::tetromino::Shape;

verus! {

/// Floor of the square root, defined inductively: the largest `r` with
/// `r * r <= n`.
pub open spec fn sqrt_floor(n: nat) -> nat
    decreases n,
{
    if n == 0 {
        0
    } else {
        let r = sqrt_floor((n - 1) as nat);
        if (r + 1) * (r + 1) <= n {
            r + 1
        } else {
            r
        }
    }
}

/// `sqrt_floor(n)` squared is at most `n`, and the next square is above it.
pub proof fn lemma_sqrt_floor_bounds(n: nat)
    ensures
        sqrt_floor(n) * sqrt_floor(n) <= n,
        n < (sqrt_floor(n) + 1) * (sqrt_floor(n) + 1),
    decreases n,
{
    if n == 0 {
        assert(sqrt_floor(0) == 0);
        assert(n < (sqrt_floor(n) + 1) * (sqrt_floor(n) + 1)) by (nonlinear_arith)
            requires
                n == 0,
                sqrt_floor(n) == 0,
        ;
    } else {
        lemma_sqrt_floor_bounds((n - 1) as nat);
        let r = sqrt_floor((n - 1) as nat);
        if (r + 1) * (r + 1) <= n {
            assert(sqrt_floor(n) == r + 1);
            assert((r + 1) * (r + 1) + 1 <= (r + 2) * (r + 2)) by (nonlinear_arith);
            assert(sqrt_floor(n) + 1 == r + 2);
            assert(n < (r + 2) * (r + 2));
            assert(n < (sqrt_floor(n) + 1) * (sqrt_floor(n) + 1)) by (nonlinear_arith)
                requires
                    n < (r + 2) * (r + 2),
                    sqrt_floor(n) + 1 == r + 2,
            ;
        } else {
            assert(sqrt_floor(n) == r);
            assert(r * r <= n);
            assert(n < (r + 1) * (r + 1));
            assert(n < (sqrt_floor(n) + 1) * (sqrt_floor(n) + 1)) by (nonlinear_arith)
                requires
                    n < (r + 1) * (r + 1),
                    sqrt_floor(n) + 1 == r + 1,
            ;
        }
    }
}

/// Any `r` whose square brackets `n` is `sqrt_floor(n)`.
pub proof fn lemma_sqrt_floor_unique(n: nat, r: nat)
    requires
        r * r <= n,
        n < (r + 1) * (r + 1),
    ensures
        r == sqrt_floor(n),
{
    lemma_sqrt_floor_bounds(n);
    let s = sqrt_floor(n);
    if r < s {
        assert((r + 1) * (r + 1) <= s * s) by (nonlinear_arith)
            requires
                r + 1 <= s,
        ;
    }
    if s < r {
        assert((s + 1) * (s + 1) <= r * r) by (nonlinear_arith)
            requires
                s + 1 <= r,
        ;
    }
}

/// Floor of the square root, executable twin of `sqrt_floor`.
fn isqrt(n: u32) -> (r: u32)
    ensures
        r as nat == sqrt_floor(n as nat),
{
    let mut r: u32 = 0;
    loop
        invariant
            r <= 65535,
            (r as int) * (r as int) <= n as int,
        decreases 65536 - r,
    {
        let next: u64 = (r as u64) + 1;
        proof {
            assert((next as int) * (next as int) <= 0x1_0000_0000int) by (nonlinear_arith)
                requires
                    0 <= next as int <= 65536,
            ;
        }
        if next * next <= n as u64 {
            proof {
                assert((r as int + 1) * (r as int + 1) <= n as int ==> r as int + 1 <= 65535)
                    by (nonlinear_arith)
                    requires
                        n <= 0xffff_ffffu32,
                ;
            }
            r = r + 1;
        } else {
            proof {
                lemma_sqrt_floor_unique(n as nat, r as nat);
            }
            return r;
        }
    }
}

/// A T-spin: a T piece whose landing position was blocked from above
/// immediately before locking.
pub open spec fn is_tspin(piece: Shape, covered: bool) -> bool {
    piece is T && covered
}

/// The combo counter after a placement that cleared `cleared` lines.
pub open spec fn combo_after(combo: int, cleared: int) -> int {
    if cleared > 0 {
        combo + 1
    } else {
        0
    }
}

/// The back-to-back counter after a placement: it grows on a hard clear
/// (tetris or T-spin), breaks on an ordinary clear, and is preserved when
/// nothing was cleared.
pub open spec fn b2b_after(b2b: int, cleared: int, tspin: bool) -> int {
    if cleared > 0 {
        if cleared == 4 || tspin {
            b2b + 1
        } else {
            0
        }
    } else {
        b2b
    }
}

/// The back-to-back bonus granted by an (already updated) streak counter.
pub open spec fn b2b_bonus(b2b: int) -> int {
    if b2b > 0 {
        sqrt_floor((b2b - 1) as nat) as int
    } else {
        0
    }
}

/// Garbage lines sent for a placement, computed from the already updated
/// combo and back-to-back counters:
/// 4 lines give `3 + combo + bonus`; a T-spin of 1/2/3 lines gives
/// `2|4|6 + combo/2 + bonus`; an ordinary clear of 1/2/3 lines gives
/// `cleared - 1 + combo/2 + bonus`; no clear sends nothing.
pub open spec fn attack_value(cleared: int, tspin: bool, combo: int, b2b: int) -> int {
    let bonus = b2b_bonus(b2b);
    if cleared == 0 {
        0
    } else if cleared == 4 {
        3 + combo + bonus
    } else if tspin {
        (if cleared == 1 {
            2int
        } else if cleared == 2 {
            4int
        } else {
            6int
        }) + combo / 2 + bonus
    } else {
        (cleared - 1) + combo / 2 + bonus
    }
}

/// The label shown for a placement, or none when nothing was cleared.
pub open spec fn label_of(cleared: int, tspin: bool) -> Option<Seq<char>> {
    if cleared == 4 {
        Some("TETRIS"@)
    } else if tspin && cleared == 1 {
        Some("T-SPIN SINGLE"@)
    } else if tspin && cleared == 2 {
        Some("T-SPIN DOUBLE"@)
    } else if tspin && cleared == 3 {
        Some("T-SPIN TRIPLE"@)
    } else if cleared == 1 {
        Some("SINGLE"@)
    } else if cleared == 2 {
        Some("DOUBLE"@)
    } else if cleared == 3 {
        Some("TRIPLE"@)
    } else {
        None
    }
}

/// Combo and back-to-back state of one board.
#[derive(Debug, Clone, Copy, PartialEq, Eq, Structural)]
pub struct ScoreHandler {
    /// Consecutive line-clearing placements.
    pub combo: u32,
    /// Consecutive hard clears (tetris or T-spin).
    pub b2b: u32,
}

impl ScoreHandler {
    /// Fresh score state: both counters zero.
    pub fn new() -> (r: Self)
        ensures
            r == (ScoreHandler { combo: 0, b2b: 0 }),
    {
        Self { combo: 0, b2b: 0 }
    }

    /// Analyze one placement and return the number of garbage lines to send
    /// together with the label to display. Must be called for every locked
    /// piece, cleared lines or not, so the counters stay in step.
    ///
    /// The counter bounds below only keep the counters and the attack value
    /// inside `u32`; they are far beyond anything a game can reach.
    pub fn analyze(&mut self, cleared: u32, piece: Shape, covered: bool) -> (r: (u32, Option<
        String,
    >))
        requires
            cleared <= 4,
            old(self).combo <= 0xfffe_0000u32,
            old(self).b2b <= 0xfffe_0000u32,
        ensures
            final(self).combo == combo_after(old(self).combo as int, cleared as int),
            final(self).b2b == b2b_after(
                old(self).b2b as int,
                cleared as int,
                is_tspin(piece, covered),
            ),
            r.0 == attack_value(
                cleared as int,
                is_tspin(piece, covered),
                final(self).combo as int,
                final(self).b2b as int,
            ),
            match label_of(cleared as int, is_tspin(piece, covered)) {
                Some(t) => r.1 matches Some(s) && s@ == t,
                None => r.1 is None,
            },
    {
        let tspin = match piece {
            Shape::T => covered,
            _ => false,
        };

        if cleared > 0 {
            self.combo = self.combo + 1;
            if cleared == 4 || tspin {
                self.b2b = self.b2b + 1;
            } else {
                self.b2b = 0;
            }
        } else {
            self.combo = 0;
        }

        let b2b_bonus: u32 = if self.b2b > 0 {
            proof {
                lemma_sqrt_floor_bounds((self.b2b - 1) as nat);
                assert(sqrt_floor((self.b2b - 1) as nat) <= 65535) by (nonlinear_arith)
                    requires
                        sqrt_floor((self.b2b - 1) as nat) * sqrt_floor((self.b2b - 1) as nat)
                            <= self.b2b - 1 < 0x1_0000_0000,
                ;
            }
            isqrt(self.b2b - 1)
        } else {
            0
        };

        if cleared == 0 {
            (0, None)
        } else if cleared == 4 {
            (3 + self.combo + b2b_bonus, Some("TETRIS".to_owned()))
        } else if tspin {
            if cleared == 1 {
                (2 + self.combo / 2 + b2b_bonus, Some("T-SPIN SINGLE".to_owned()))
            } else if cleared == 2 {
                (4 + self.combo / 2 + b2b_bonus, Some("T-SPIN DOUBLE".to_owned()))
            } else {
                (6 + self.combo / 2 + b2b_bonus, Some("T-SPIN TRIPLE".to_owned()))
            }
        } else {
            let x = cleared - 1 + self.combo / 2 + b2b_bonus;
            if cleared == 1 {
                (x, Some("SINGLE".to_owned()))
            } else if cleared == 2 {
                (x, Some("DOUBLE".to_owned()))
            } else {
                (x, Some("TRIPLE".to_owned()))
            }
        }
    }
}

} // verus!
