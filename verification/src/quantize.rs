//! Uniform quantization of one channel to evenly spaced levels.

use crate::error::{DitherResult, Error};
use crate::pixel::{sample_spec, FULL};
use vstd::prelude::*;

verus! {

/// The distance between two neighbouring levels when the range of a channel
/// is cut into `n` equal parts.
pub open spec fn step_of(n: u8) -> int {
    FULL as int / n as int
}

/// The level and the residual of the sample `x` for `n` parts. The levels
/// are the multiples of the step. `x` goes to the nearer of the level at or
/// below it and the level at or above it, to the upper one where it is as
/// near to both; the residual is its signed distance from that level. A
/// lower level below zero is given as zero, an upper level above the full
/// range as the full range, and the residual is left as it was.
pub open spec fn uniform(n: u8, x: i64) -> (i64, i64) {
    let step = step_of(n);
    let below = x as int % step;
    let above = if below == 0 {
        0
    } else {
        step - below
    };
    if below < above {
        (
            if x - below < 0 {
                0i64
            } else {
                (x - below) as i64
            },
            below as i64,
        )
    } else {
        (
            if x + above > FULL {
                FULL
            } else {
                (x + above) as i64
            },
            (-above) as i64,
        )
    }
}

/// A uniform quantizer: the range of a channel cut into one to seven equal
/// parts.
#[derive(Debug, PartialEq, Eq)]
pub struct UniformQuantizer {
    n: u8,
}

impl UniformQuantizer {
    #[verifier::type_invariant]
    spec fn well_formed(&self) -> bool {
        1 <= self.n <= 7
    }

    /// The number of parts.
    pub closed spec fn spec_levels(&self) -> u8 {
        self.n
    }

    /// The number of parts.
    pub fn levels(&self) -> (n: u8)
        ensures
            n == self.spec_levels(),
            1 <= n <= 7,
    {
        proof {
            use_type_invariant(self);
        }
        self.n
    }

    /// The level nearest to `x` and the residual that is left.
    pub fn quantize(&self, x: i64) -> (r: (i64, i64))
        ensures
            r == uniform(self.spec_levels(), x),
    {
        let step: i64 = level_step(self.levels());
        assert(0 <= (x as int) % (step as int) && (x as int) % (step as int) < step) by (nonlinear_arith)
            requires
                step > 0,
        ;
        let below: i128 = match x.checked_rem_euclid(step) {
            Some(b) => b as i128,
            None => 0,
        };
        let above: i128 = if below == 0 {
            0
        } else {
            step as i128 - below
        };
        if below < above {
            let floor: i128 = x as i128 - below;
            (
                if floor < 0 {
                    0
                } else {
                    floor as i64
                },
                below as i64,
            )
        } else {
            let ceil: i128 = x as i128 + above;
            (
                if ceil > FULL as i128 {
                    FULL
                } else {
                    ceil as i64
                },
                (-above) as i64,
            )
        }
    }
}

/// The steps for the seven counts of parts.
pub proof fn lemma_steps()
    ensures
        step_of(1) == 856800,
        step_of(2) == 428400,
        step_of(3) == 285600,
        step_of(4) == 214200,
        step_of(5) == 171360,
        step_of(6) == 142800,
        step_of(7) == 122400,
{
}

impl Clone for UniformQuantizer {
    fn clone(&self) -> (copy: Self)
        ensures
            copy.spec_levels() == self.spec_levels(),
    {
        proof {
            use_type_invariant(self);
        }
        UniformQuantizer { n: self.n }
    }
}

/// The distance between two neighbouring levels for `n` parts.
pub fn level_step(n: u8) -> (step: i64)
    requires
        1 <= n <= 7,
    ensures
        step == step_of(n),
        step * n == FULL,
        step > 0,
{
    proof {
        lemma_steps();
    }
    if n == 1 {
        856800
    } else if n == 2 {
        428400
    } else if n == 3 {
        285600
    } else if n == 4 {
        214200
    } else if n == 5 {
        171360
    } else if n == 6 {
        142800
    } else {
        122400
    }
}

/// The uniform quantizer for `n` parts, for `n` from 1 to 7; any other count
/// is refused.
pub fn create_quantize_n_bits_func(n: u8) -> (r: DitherResult<UniformQuantizer>)
    ensures
        match r {
            Ok(q) => 1 <= n <= 7 && q.spec_levels() == n,
            Err(e) => (n == 0 || n > 7) && e == Error::BadBitDepth(n),
        },
{
    if n == 0 || n > 7 {
        Err(Error::BadBitDepth(n))
    } else {
        Ok(UniformQuantizer { n })
    }
}

/// Within the range of a channel, the level of a sample is one of the
/// evenly spaced levels of the range, at most half a step away from the
/// sample, and the residual is what the sample has above it.
pub proof fn lemma_uniform_in_range(n: u8, x: i64)
    requires
        1 <= n <= 7,
        0 <= x <= FULL,
    ensures
        uniform(n, x).0 + uniform(n, x).1 == x,
        0 <= uniform(n, x).0 <= FULL,
        uniform(n, x).0 as int % step_of(n) == 0,
        -step_of(n) <= 2 * uniform(n, x).1 < step_of(n),
{
    lemma_steps();
    let step = step_of(n);
    assert(step * n == FULL);
    let below = x as int % step;
    if n == 1 {
        lemma_level(x as int, 856800, 1);
    } else if n == 2 {
        lemma_level(x as int, 428400, 2);
    } else if n == 3 {
        lemma_level(x as int, 285600, 3);
    } else if n == 4 {
        lemma_level(x as int, 214200, 4);
    } else if n == 5 {
        lemma_level(x as int, 171360, 5);
    } else if n == 6 {
        lemma_level(x as int, 142800, 6);
    } else {
        lemma_level(x as int, 122400, 7);
    }
}

/// The multiples of `step` around `x`: the one at or below it, and the next
/// one, which is not above `n` steps where `x` is not.
proof fn lemma_level(x: int, step: int, n: int)
    by (nonlinear_arith)
    requires
        step > 0,
        n > 0,
        0 <= x <= step * n,
    ensures
        0 <= x % step < step,
        (x - x % step) % step == 0,
        (x - x % step + step) % step == 0,
        0 <= x - x % step,
        x % step != 0 ==> x - x % step + step <= step * n,
{
    let q = x / step;
    assert(x == step * q + x % step);
    assert(x - x % step == step * q);
    assert(x - x % step + step == step * (q + 1));
    if x % step != 0 {
        assert(q < n);
        assert(step * (q + 1) <= step * n);
    }
}

/// With a single part there are two levels, none and all. Every sample of
/// the range below its middle goes to none and keeps itself as residual;
/// every sample from the middle on goes to all.
pub proof fn lemma_two_levels(x: i64)
    requires
        0 <= x <= FULL,
    ensures
        2 * x < FULL ==> uniform(1, x) == (0i64, x),
        2 * x >= FULL ==> uniform(1, x) == (FULL, (x - FULL) as i64),
{
    lemma_steps();
}

/// With a single part, the 8-bit values up to 127 go to 0 and those from 128
/// on go to 255.
pub proof fn lemma_two_levels_of_bytes(v: u8)
    ensures
        v <= 127 ==> uniform(1, sample_spec(v)).0 == sample_spec(0),
        v >= 128 ==> uniform(1, sample_spec(v)).0 == sample_spec(255),
{
    lemma_two_levels(sample_spec(v));
}

} // verus!
