//! The injected source of uniform random draws.
//!
//! A draw is a `u32` that stands for the fraction `draw / 2^32` of the unit
//! interval. The source replays a cycle of draws handed to it by the
//! embedding application, so that a tick is a function of the grid and of the
//! draws, and can be reproduced from a fixed list.
use vstd::prelude::*;

verus! {

/// Number of values a draw can take: draws are fractions of this.
pub const DRAW_SPAN: u64 = 0x1_0000_0000;

/// The mathematical state of a [`RandomSource`]: the cycle it replays and the
/// position of the draw it hands out next.
pub struct Draws {
    pub cycle: Seq<u32>,
    pub cursor: nat,
}

impl Draws {
    /// The draw that the source hands out next; an empty cycle yields zeros.
    pub open spec fn peek(self) -> u32 {
        if self.cursor < self.cycle.len() {
            self.cycle[self.cursor as int]
        } else {
            0
        }
    }

    /// The source after one draw has been handed out.
    pub open spec fn rest(self) -> Draws {
        Draws {
            cycle: self.cycle,
            cursor: if self.cursor + 1 < self.cycle.len() {
                self.cursor + 1
            } else {
                0
            },
        }
    }
}

/// The draw mapped onto `0..n`: the integer part of `n * draw / 2^32`.
pub open spec fn scaled(draw: u32, n: u32) -> int {
    (draw as int * n as int) / (DRAW_SPAN as int)
}

/// Whether the draw falls in the lowest `per_mille` thousandths of the unit
/// interval.
pub open spec fn hits(draw: u32, per_mille: u32) -> bool {
    draw as int * 1000 < per_mille as int * (DRAW_SPAN as int)
}

/// The horizontal direction that a draw selects: left for the lower half of
/// the unit interval, right for the upper half.
pub open spec fn side(draw: u32) -> int {
    if hits(draw, 500) {
        -1
    } else {
        1
    }
}

/// The step along one axis that a draw selects for a gas: each of `+1`, `-1`
/// and `0` for one third of the unit interval, in that order.
pub open spec fn drift(draw: u32) -> int {
    let third = scaled(draw, 3);
    if third == 0 {
        1
    } else if third == 1 {
        -1
    } else {
        0
    }
}

/// A scaled draw is a valid index into `0..n`.
pub proof fn lemma_scaled_in_range(draw: u32, n: u32)
    ensures
        0 <= scaled(draw, n),
        n > 0 ==> scaled(draw, n) < n,
        n == 0 ==> scaled(draw, n) == 0,
{
    let span = DRAW_SPAN as int;
    let product = draw as int * n as int;
    assert(0 <= product && (n > 0 ==> product < n as int * span)) by (nonlinear_arith)
        requires
            0 <= draw < span,
            0 <= n,
            product == draw as int * n as int,
    ;
    if n > 0 {
        assert(product / span < n as int) by (nonlinear_arith)
            requires
                0 <= product < n as int * span,
                span > 0,
        ;
    } else {
        assert(product == 0) by (nonlinear_arith)
            requires
                n == 0,
                product == draw as int * n as int,
        ;
    }
    assert(0 <= product / span) by (nonlinear_arith)
        requires
            0 <= product,
            span > 0,
    ;
}

/// A replayable source of uniform draws.
pub struct RandomSource {
    draws: Vec<u32>,
    cursor: usize,
}

impl View for RandomSource {
    type V = Draws;

    closed spec fn view(&self) -> Draws {
        Draws {
            cycle: self.draws@,
            cursor: if self.cursor < self.draws@.len() {
                self.cursor as nat
            } else {
                0
            },
        }
    }
}

impl RandomSource {
    /// A source that replays `draws` from the start, over and over.
    pub fn new(draws: Vec<u32>) -> (source: RandomSource)
        ensures
            source@ == (Draws { cycle: draws@, cursor: 0 }),
    {
        RandomSource { draws, cursor: 0 }
    }

    /// Hands out the next draw.
    pub fn next_u32(&mut self) -> (draw: u32)
        ensures
            draw == old(self)@.peek(),
            final(self)@ == old(self)@.rest(),
    {
        let n: usize = self.draws.len();
        if n == 0 {
            return 0;
        }
        let at: usize = if self.cursor < n {
            self.cursor
        } else {
            0
        };
        let draw: u32 = self.draws[at];
        self.cursor = if at + 1 < n {
            at + 1
        } else {
            0
        };
        draw
    }

    /// Hands out the next draw, mapped onto `0..n`.
    pub fn next_below(&mut self, n: u32) -> (value: u32)
        ensures
            value == scaled(old(self)@.peek(), n),
            n > 0 ==> value < n,
            final(self)@ == old(self)@.rest(),
    {
        let draw: u32 = self.next_u32();
        proof {
            lemma_scaled_in_range(draw, n);
        }
        assert(draw as u64 * n as u64 <= 0xffff_ffff * 0xffff_ffff) by (nonlinear_arith)
            requires
                draw <= 0xffff_ffff,
                n <= 0xffff_ffff,
        ;
        let product: u64 = draw as u64 * n as u64;
        (product / DRAW_SPAN) as u32
    }

    /// Hands out the next draw and tells whether it falls in the lowest
    /// `per_mille` thousandths of the unit interval.
    pub fn next_chance(&mut self, per_mille: u32) -> (hit: bool)
        ensures
            hit == hits(old(self)@.peek(), per_mille),
            final(self)@ == old(self)@.rest(),
    {
        let draw: u32 = self.next_u32();
        draw as u64 * 1000 < per_mille as u64 * DRAW_SPAN
    }

    /// Hands out the next draw as a horizontal direction, `-1` or `1`.
    pub fn next_side(&mut self) -> (d: i32)
        ensures
            d == side(old(self)@.peek()),
            final(self)@ == old(self)@.rest(),
    {
        if self.next_chance(500) {
            -1
        } else {
            1
        }
    }
}

} // verus!
