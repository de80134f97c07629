//! The chip's register map, and how each setting is folded into a register
//! byte.

use vstd::prelude::*;

use crate::levels::{AudioInputGain, LightingIntensity, MatrixDimensions};

verus! {

/// The largest number of columns among the geometries.
pub const MAX_COLUMNS: usize = 11;

/// The configuration register.
pub const CONFIGURATION_ADDRESS: u8 = 0x00;

/// The register that, once written, shows the columns sent before.
pub const UPDATE_COLUMN_ADDRESS: u8 = 0x0C;

/// The lighting-effects register: intensity below, audio gain above.
pub const LIGHTING_EFFECT_ADDRESS: u8 = 0x0D;

/// The audio equaliser register.
pub const AUDIO_EQ_ADDRESS: u8 = 0x0F;

/// The intensity that the chip starts with.
pub const DEFAULT_LIGHTING_INTENSITY: LightingIntensity = LightingIntensity::C40mA;

/// The audio input gain that the chip starts with.
pub const DEFAULT_AUDIO_INPUT_GAIN: AudioInputGain = AudioInputGain::G00dB;

/// The configuration register as the chip starts.
pub const DEFAULT_CONFIGURATION_REGISTER: u8 = 0;

/// The lighting-effects register as the chip starts: the default gain and the
/// default intensity, both all zeros.
pub const DEFAULT_LIGHTING_EFFECT_REGISTER: u8 = 0;

/// The audio-input bit of the configuration register.
pub const AUDIO_INPUT_BIT: u8 = 0b0000_0100;

/// The shutdown bit of the configuration register.
pub const SHUTDOWN_BIT: u8 = 0b1000_0000;

/// The enable bit of the audio equaliser register.
pub const AUDIO_EQ_ENABLE_BIT: u8 = 0b0100_0000;

/// The configuration byte for a geometry, with or without audio input.
pub open spec fn spec_initial_configuration(dimensions: MatrixDimensions, audio_input: bool) -> u8 {
    (if audio_input {
        AUDIO_INPUT_BIT
    } else {
        0u8
    }) | dimensions.code()
}

/// The configuration byte for a geometry, with or without audio input.
#[verifier::when_used_as_spec(spec_initial_configuration)]
pub fn initial_configuration(dimensions: MatrixDimensions, audio_input: bool) -> (c: u8)
    ensures
        c == spec_initial_configuration(dimensions, audio_input),
{
    let audio_input_mask: u8 = if audio_input {
        AUDIO_INPUT_BIT
    } else {
        0
    };
    audio_input_mask | dimensions.code()
}

/// The configuration byte as a sum: the geometry's code, and four more with
/// audio input. It is zero, the value the chip starts with, only for the 8 by
/// 8 matrix without audio input.
pub proof fn lemma_initial_configuration_value(dimensions: MatrixDimensions, audio_input: bool)
    ensures
        initial_configuration(dimensions, audio_input) == dimensions.code() + (if audio_input {
            4int
        } else {
            0int
        }),
        initial_configuration(dimensions, audio_input) == DEFAULT_CONFIGURATION_REGISTER <==> (
        dimensions == MatrixDimensions::M8x8 && !audio_input),
{
    let d = dimensions.code();
    assert(d <= 3 ==> (0b100u8 | d) == d + 4 && (0u8 | d) == d) by (bit_vector);
}

/// The lighting-effects byte with its intensity bits replaced.
pub open spec fn spec_with_intensity(register: u8, level: LightingIntensity) -> u8 {
    (register & 0b1111_0000u8) | level.code()
}

/// The lighting-effects byte with its intensity bits replaced.
#[verifier::when_used_as_spec(spec_with_intensity)]
pub fn with_intensity(register: u8, level: LightingIntensity) -> (r: u8)
    ensures
        r == spec_with_intensity(register, level),
{
    (register & 0b1111_0000u8) | level.code()
}

/// The lighting-effects byte with its gain bits replaced.
pub open spec fn spec_with_gain(register: u8, gain: AudioInputGain) -> u8 {
    (register & 0b1000_1111u8) | gain.code()
}

/// The lighting-effects byte with its gain bits replaced.
#[verifier::when_used_as_spec(spec_with_gain)]
pub fn with_gain(register: u8, gain: AudioInputGain) -> (r: u8)
    ensures
        r == spec_with_gain(register, gain),
{
    (register & 0b1000_1111u8) | gain.code()
}

/// The intensity bits of a lighting-effects byte.
pub open spec fn intensity_bits(register: u8) -> u8 {
    register & 0b0000_1111u8
}

/// The gain bits of a lighting-effects byte.
pub open spec fn gain_bits(register: u8) -> u8 {
    register & 0b0111_0000u8
}

/// An intensity code fills the low four bits only, a gain code bits 4 to 6.
pub proof fn lemma_codes_in_place(level: LightingIntensity, gain: AudioInputGain)
    ensures
        intensity_bits(level.code()) == level.code(),
        gain_bits(gain.code()) == gain.code(),
{
    let a = level.code();
    let b = gain.code();
    assert(a <= 0x0F ==> a & 0b0000_1111u8 == a) by (bit_vector);
    assert(b % 16 == 0 && b < 128 ==> b & 0b0111_0000u8 == b) by (bit_vector);
}

/// Setting the intensity leaves the gain bits, and bit 7, as they were, and
/// puts the level's code in the intensity bits.
pub proof fn lemma_intensity_keeps_gain(register: u8, level: LightingIntensity)
    ensures
        gain_bits(with_intensity(register, level)) == gain_bits(register),
        intensity_bits(with_intensity(register, level)) == level.code(),
        with_intensity(register, level) & 0x80 == register & 0x80,
{
    let a = level.code();
    assert(a <= 0x0F ==> ((register & 0b1111_0000u8) | a) & 0b0111_0000u8 == register
        & 0b0111_0000u8) by (bit_vector);
    assert(a <= 0x0F ==> ((register & 0b1111_0000u8) | a) & 0b0000_1111u8 == a) by (bit_vector);
    assert(a <= 0x0F ==> ((register & 0b1111_0000u8) | a) & 0x80 == register & 0x80)
        by (bit_vector);
}

/// Setting the gain leaves the intensity bits, and bit 7, as they were, and
/// puts the gain's code in the gain bits.
pub proof fn lemma_gain_keeps_intensity(register: u8, gain: AudioInputGain)
    ensures
        intensity_bits(with_gain(register, gain)) == intensity_bits(register),
        gain_bits(with_gain(register, gain)) == gain.code(),
        with_gain(register, gain) & 0x80 == register & 0x80,
{
    let b = gain.code();
    assert(b % 16 == 0 && b < 128 ==> ((register & 0b1000_1111u8) | b) & 0b0000_1111u8 == register
        & 0b0000_1111u8) by (bit_vector);
    assert(b % 16 == 0 && b < 128 ==> ((register & 0b1000_1111u8) | b) & 0b0111_0000u8 == b)
        by (bit_vector);
    assert(b % 16 == 0 && b < 128 ==> ((register & 0b1000_1111u8) | b) & 0x80 == register & 0x80)
        by (bit_vector);
}

/// Setting the same intensity again changes nothing, so the second time
/// there is nothing to write.
pub proof fn lemma_intensity_twice(register: u8, level: LightingIntensity)
    ensures
        with_intensity(with_intensity(register, level), level) == with_intensity(register, level),
{
    let a = level.code();
    assert((((register & 0b1111_0000u8) | a) & 0b1111_0000u8) | a == (register & 0b1111_0000u8)
        | a) by (bit_vector);
}

/// Setting the same gain again changes nothing.
pub proof fn lemma_gain_twice(register: u8, gain: AudioInputGain)
    ensures
        with_gain(with_gain(register, gain), gain) == with_gain(register, gain),
{
    let b = gain.code();
    assert((((register & 0b1000_1111u8) | b) & 0b1000_1111u8) | b == (register & 0b1000_1111u8)
        | b) by (bit_vector);
}

/// With bit 7 clear, an intensity and then a gain, or a gain and then an
/// intensity, leave the register at the gain's code or'ed with the level's.
pub proof fn lemma_intensity_and_gain(register: u8, level: LightingIntensity, gain: AudioInputGain)
    requires
        register & 0x80 == 0,
    ensures
        with_gain(with_intensity(register, level), gain) == gain.code() | level.code(),
        with_intensity(with_gain(register, gain), level) == gain.code() | level.code(),
{
    let a = level.code();
    let b = gain.code();
    assert(register & 0x80 == 0 && a <= 0x0F && b % 16 == 0 && b < 128 ==> (((register
        & 0b1111_0000u8) | a) & 0b1000_1111u8) | b == b | a) by (bit_vector);
    assert(register & 0x80 == 0 && a <= 0x0F && b % 16 == 0 && b < 128 ==> (((register
        & 0b1000_1111u8) | b) & 0b1111_0000u8) | a == b | a) by (bit_vector);
}

/// The initial configuration has the shutdown bit clear, and setting or
/// clearing that bit leaves the geometry and audio bits alone.
pub proof fn lemma_shutdown_bit(dimensions: MatrixDimensions, audio_input: bool, register: u8)
    ensures
        initial_configuration(dimensions, audio_input) & 0x7F == initial_configuration(
            dimensions,
            audio_input,
        ),
        (register | SHUTDOWN_BIT) & 0x7F == register & 0x7F,
        (register & 0x7F) & 0x7F == register & 0x7F,
{
    let d = dimensions.code();
    assert(d <= 3 ==> ((0b100u8 | d) & 0x7F == (0b100u8 | d)) && ((0u8 | d) & 0x7F == (0u8 | d)))
        by (bit_vector);
    assert((register | 0x80u8) & 0x7F == register & 0x7F) by (bit_vector);
    assert((register & 0x7F) & 0x7F == register & 0x7Fu8) by (bit_vector);
}

} // verus!
