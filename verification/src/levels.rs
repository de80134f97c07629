//! The settings that the chip takes as bit patterns: the matrix geometry, the
//! LED current and the audio input gain.

use vstd::prelude::*;

verus! {

/// The matrix geometries that the chip can drive, named rows by columns.
#[derive(Clone, Copy, Debug, PartialEq, Eq, Structural)]
pub enum MatrixDimensions {
    M8x8,
    M7x9,
    M6x10,
    M5x11,
}

impl MatrixDimensions {
    /// The number of rows.
    pub open spec fn rows(self) -> u8 {
        match self {
            MatrixDimensions::M8x8 => 8,
            MatrixDimensions::M7x9 => 7,
            MatrixDimensions::M6x10 => 6,
            MatrixDimensions::M5x11 => 5,
        }
    }

    /// The number of columns.
    pub open spec fn columns(self) -> u8 {
        match self {
            MatrixDimensions::M8x8 => 8,
            MatrixDimensions::M7x9 => 9,
            MatrixDimensions::M6x10 => 10,
            MatrixDimensions::M5x11 => 11,
        }
    }

    /// The two bits that select the geometry in the configuration register.
    pub open spec fn spec_code(self) -> u8 {
        match self {
            MatrixDimensions::M8x8 => 0b00,
            MatrixDimensions::M7x9 => 0b01,
            MatrixDimensions::M6x10 => 0b10,
            MatrixDimensions::M5x11 => 0b11,
        }
    }

    /// The two bits that select the geometry in the configuration register.
    #[verifier::when_used_as_spec(spec_code)]
    pub fn code(self) -> (c: u8)
        ensures
            c == self.spec_code(),
    {
        match self {
            MatrixDimensions::M8x8 => 0b00,
            MatrixDimensions::M7x9 => 0b01,
            MatrixDimensions::M6x10 => 0b10,
            MatrixDimensions::M5x11 => 0b11,
        }
    }

    /// Rows and columns, in this order.
    pub fn size(self) -> (s: (u8, u8))
        ensures
            s.0 == self.rows(),
            s.1 == self.columns(),
    {
        match self {
            MatrixDimensions::M8x8 => (8, 8),
            MatrixDimensions::M7x9 => (7, 9),
            MatrixDimensions::M6x10 => (6, 10),
            MatrixDimensions::M5x11 => (5, 11),
        }
    }
}

/// The LED current, from 5 mA to 75 mA in steps of 5 mA.
#[derive(Clone, Copy, Debug, PartialEq, Eq, Structural)]
pub enum LightingIntensity {
    C05mA,
    C10mA,
    C15mA,
    C20mA,
    C25mA,
    C30mA,
    C35mA,
    C40mA,
    C45mA,
    C50mA,
    C55mA,
    C60mA,
    C65mA,
    C70mA,
    C75mA,
}

impl LightingIntensity {
    /// The place of the level among the fifteen, the dimmest at 0.
    pub open spec fn rank(self) -> int {
        match self {
            LightingIntensity::C05mA => 0,
            LightingIntensity::C10mA => 1,
            LightingIntensity::C15mA => 2,
            LightingIntensity::C20mA => 3,
            LightingIntensity::C25mA => 4,
            LightingIntensity::C30mA => 5,
            LightingIntensity::C35mA => 6,
            LightingIntensity::C40mA => 7,
            LightingIntensity::C45mA => 8,
            LightingIntensity::C50mA => 9,
            LightingIntensity::C55mA => 10,
            LightingIntensity::C60mA => 11,
            LightingIntensity::C65mA => 12,
            LightingIntensity::C70mA => 13,
            LightingIntensity::C75mA => 14,
        }
    }

    /// The level at a place; places are taken modulo fifteen.
    pub open spec fn at_rank(rank: int) -> LightingIntensity {
        let k = rank % 15;
        if k == 0 {
            LightingIntensity::C05mA
        } else if k == 1 {
            LightingIntensity::C10mA
        } else if k == 2 {
            LightingIntensity::C15mA
        } else if k == 3 {
            LightingIntensity::C20mA
        } else if k == 4 {
            LightingIntensity::C25mA
        } else if k == 5 {
            LightingIntensity::C30mA
        } else if k == 6 {
            LightingIntensity::C35mA
        } else if k == 7 {
            LightingIntensity::C40mA
        } else if k == 8 {
            LightingIntensity::C45mA
        } else if k == 9 {
            LightingIntensity::C50mA
        } else if k == 10 {
            LightingIntensity::C55mA
        } else if k == 11 {
            LightingIntensity::C60mA
        } else if k == 12 {
            LightingIntensity::C65mA
        } else if k == 13 {
            LightingIntensity::C70mA
        } else {
            LightingIntensity::C75mA
        }
    }

    /// The level `steps` places further up the cycle; a negative number goes
    /// down.
    pub open spec fn shifted(self, steps: int) -> LightingIntensity {
        Self::at_rank(self.rank() + steps)
    }

    /// The four bits that select the level in the lighting-effects register.
    pub open spec fn spec_code(self) -> u8 {
        match self {
            LightingIntensity::C05mA => 0b1000,
            LightingIntensity::C10mA => 0b1001,
            LightingIntensity::C15mA => 0b1010,
            LightingIntensity::C20mA => 0b1011,
            LightingIntensity::C25mA => 0b1100,
            LightingIntensity::C30mA => 0b1101,
            LightingIntensity::C35mA => 0b1110,
            LightingIntensity::C40mA => 0b0000,
            LightingIntensity::C45mA => 0b0001,
            LightingIntensity::C50mA => 0b0010,
            LightingIntensity::C55mA => 0b0011,
            LightingIntensity::C60mA => 0b0100,
            LightingIntensity::C65mA => 0b0101,
            LightingIntensity::C70mA => 0b0110,
            LightingIntensity::C75mA => 0b0111,
        }
    }

    /// The four bits that select the level in the lighting-effects register.
    #[verifier::when_used_as_spec(spec_code)]
    pub fn code(self) -> (c: u8)
        ensures
            c == self.spec_code(),
            c <= 0x0E,
    {
        match self {
            LightingIntensity::C05mA => 0b1000,
            LightingIntensity::C10mA => 0b1001,
            LightingIntensity::C15mA => 0b1010,
            LightingIntensity::C20mA => 0b1011,
            LightingIntensity::C25mA => 0b1100,
            LightingIntensity::C30mA => 0b1101,
            LightingIntensity::C35mA => 0b1110,
            LightingIntensity::C40mA => 0b0000,
            LightingIntensity::C45mA => 0b0001,
            LightingIntensity::C50mA => 0b0010,
            LightingIntensity::C55mA => 0b0011,
            LightingIntensity::C60mA => 0b0100,
            LightingIntensity::C65mA => 0b0101,
            LightingIntensity::C70mA => 0b0110,
            LightingIntensity::C75mA => 0b0111,
        }
    }

    /// The next brighter level; after the brightest comes the dimmest.
    pub fn next(&self) -> (r: LightingIntensity)
        ensures
            r == self.shifted(1),
    {
        match self {
            LightingIntensity::C05mA => LightingIntensity::C10mA,
            LightingIntensity::C10mA => LightingIntensity::C15mA,
            LightingIntensity::C15mA => LightingIntensity::C20mA,
            LightingIntensity::C20mA => LightingIntensity::C25mA,
            LightingIntensity::C25mA => LightingIntensity::C30mA,
            LightingIntensity::C30mA => LightingIntensity::C35mA,
            LightingIntensity::C35mA => LightingIntensity::C40mA,
            LightingIntensity::C40mA => LightingIntensity::C45mA,
            LightingIntensity::C45mA => LightingIntensity::C50mA,
            LightingIntensity::C50mA => LightingIntensity::C55mA,
            LightingIntensity::C55mA => LightingIntensity::C60mA,
            LightingIntensity::C60mA => LightingIntensity::C65mA,
            LightingIntensity::C65mA => LightingIntensity::C70mA,
            LightingIntensity::C70mA => LightingIntensity::C75mA,
            LightingIntensity::C75mA => LightingIntensity::C05mA,
        }
    }

    /// The next dimmer level; before the dimmest comes the brightest.
    pub fn prev(&self) -> (r: LightingIntensity)
        ensures
            r == self.shifted(-1),
    {
        match self {
            LightingIntensity::C75mA => LightingIntensity::C70mA,
            LightingIntensity::C70mA => LightingIntensity::C65mA,
            LightingIntensity::C65mA => LightingIntensity::C60mA,
            LightingIntensity::C60mA => LightingIntensity::C55mA,
            LightingIntensity::C55mA => LightingIntensity::C50mA,
            LightingIntensity::C50mA => LightingIntensity::C45mA,
            LightingIntensity::C45mA => LightingIntensity::C40mA,
            LightingIntensity::C40mA => LightingIntensity::C35mA,
            LightingIntensity::C35mA => LightingIntensity::C30mA,
            LightingIntensity::C30mA => LightingIntensity::C25mA,
            LightingIntensity::C25mA => LightingIntensity::C20mA,
            LightingIntensity::C20mA => LightingIntensity::C15mA,
            LightingIntensity::C15mA => LightingIntensity::C10mA,
            LightingIntensity::C10mA => LightingIntensity::C05mA,
            LightingIntensity::C05mA => LightingIntensity::C75mA,
        }
    }
}

/// A level is the one found at its own place.
pub proof fn lemma_rank_round_trip(level: LightingIntensity)
    ensures
        0 <= level.rank() < 15,
        LightingIntensity::at_rank(level.rank()) == level,
{
}

/// The place of the level found at `rank` is `rank` modulo fifteen.
pub proof fn lemma_rank_of_at_rank(rank: int)
    ensures
        LightingIntensity::at_rank(rank).rank() == rank % 15,
{
}

/// Steps add up: going `a` places and then `b` places is going `a + b`.
pub proof fn lemma_shifted_adds(level: LightingIntensity, a: int, b: int)
    ensures
        level.shifted(a).shifted(b) == level.shifted(a + b),
{
    lemma_rank_of_at_rank(level.rank() + a);
    assert(((level.rank() + a) % 15 + b) % 15 == (level.rank() + a + b) % 15) by {
        vstd::arithmetic::div_mod::lemma_add_mod_noop(level.rank() + a, b, 15);
        vstd::arithmetic::div_mod::lemma_add_mod_noop((level.rank() + a) % 15, b, 15);
        vstd::arithmetic::div_mod::lemma_mod_twice(level.rank() + a, 15);
    }
}

/// Going a whole number of rounds, up or down, ends at the level where it
/// started: fifteen steps up and fifteen steps down among them.
pub proof fn lemma_full_rounds(level: LightingIntensity, rounds: int)
    ensures
        level.shifted(15 * rounds) == level,
{
    lemma_rank_round_trip(level);
    assert((level.rank() + 15 * rounds) % 15 == level.rank()) by {
        vstd::arithmetic::div_mod::lemma_mod_multiples_vanish(rounds, level.rank(), 15);
    }
}

/// The level reached from `level` by `times` steps of `step` places each.
pub open spec fn repeated(level: LightingIntensity, step: int, times: nat) -> LightingIntensity
    decreases times,
{
    if times == 0 {
        level
    } else {
        repeated(level, step, (times - 1) as nat).shifted(step)
    }
}

/// Steps taken one after the other add up.
pub proof fn lemma_repeated(level: LightingIntensity, step: int, times: nat)
    ensures
        repeated(level, step, times) == level.shifted(step * times),
    decreases times,
{
    if times == 0 {
        lemma_full_rounds(level, 0);
    } else {
        lemma_repeated(level, step, (times - 1) as nat);
        lemma_shifted_adds(level, step * (times - 1), step);
        assert(step * (times - 1) + step == step * times) by (nonlinear_arith);
    }
}

/// Fifteen times the next level, or fifteen times the previous one, is the
/// level where it started.
pub proof fn lemma_fifteen_steps(level: LightingIntensity)
    ensures
        repeated(level, 1, 15) == level,
        repeated(level, -1, 15) == level,
{
    lemma_repeated(level, 1, 15);
    lemma_repeated(level, -1, 15);
    lemma_full_rounds(level, 1);
    lemma_full_rounds(level, -1);
}

/// One step up and one step down undo each other, in either order.
pub proof fn lemma_next_prev_inverse(level: LightingIntensity)
    ensures
        level.shifted(1).shifted(-1) == level,
        level.shifted(-1).shifted(1) == level,
{
    lemma_shifted_adds(level, 1, -1);
    lemma_shifted_adds(level, -1, 1);
    lemma_full_rounds(level, 0);
}

/// The audio input gain, from -6 dB to 18 dB in steps of 3 dB.
#[derive(Clone, Copy, Debug, PartialEq, Eq, Structural)]
pub enum AudioInputGain {
    G00dB,
    G03dB,
    G06dB,
    G09dB,
    G12dB,
    G15dB,
    G18dB,
    GMinus6dB,
}

impl AudioInputGain {
    /// The gain's bits in the lighting-effects register: bits 4 to 6.
    pub open spec fn spec_code(self) -> u8 {
        match self {
            AudioInputGain::G00dB => 0b0_000_0000,
            AudioInputGain::G03dB => 0b0_001_0000,
            AudioInputGain::G06dB => 0b0_010_0000,
            AudioInputGain::G09dB => 0b0_011_0000,
            AudioInputGain::G12dB => 0b0_100_0000,
            AudioInputGain::G15dB => 0b0_101_0000,
            AudioInputGain::G18dB => 0b0_110_0000,
            AudioInputGain::GMinus6dB => 0b0_111_0000,
        }
    }

    /// The gain's bits in the lighting-effects register: bits 4 to 6.
    #[verifier::when_used_as_spec(spec_code)]
    pub fn code(self) -> (c: u8)
        ensures
            c == self.spec_code(),
    {
        match self {
            AudioInputGain::G00dB => 0b0_000_0000,
            AudioInputGain::G03dB => 0b0_001_0000,
            AudioInputGain::G06dB => 0b0_010_0000,
            AudioInputGain::G09dB => 0b0_011_0000,
            AudioInputGain::G12dB => 0b0_100_0000,
            AudioInputGain::G15dB => 0b0_101_0000,
            AudioInputGain::G18dB => 0b0_110_0000,
            AudioInputGain::GMinus6dB => 0b0_111_0000,
        }
    }
}

} // verus!
