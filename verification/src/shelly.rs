//! Shelly 3EM energy meter: where its total active power is, and how its
//! two registers make the 32-bit value.

use vstd::prelude::*;
use crate::registers::{high_word, low_word};

verus! {

/// The input register where the Shelly 3EM keeps its total active power
/// (an `f32` over two registers, low word first).
pub const TOTAL_ACTIVE_POWER_REGISTER: u16 = 1013;

/// The 32-bit value of two registers that hold it low word first.
pub open spec fn low_first_bits(low: u16, high: u16) -> u32 {
    (low + high * 0x10000) as u32
}

/// The Shelly holds a value low word first, the reverse of the SunSpec
/// meters: its two registers are the low and then the high word.
pub proof fn law_low_word_first(bits: u32)
    ensures
        low_first_bits(low_word(bits), high_word(bits)) == bits,
        low_first_bits(0xFFFF, 0) == 0xFFFF,
{
}

/// Joins two registers holding a 32-bit value low word first (the bits of
/// an `f32`).
pub fn merge_u16_bits(a: u16, b: u16) -> (bits: u32)
    ensures
        bits == low_first_bits(a, b),
{
    a as u32 + (b as u32) * 0x10000
}

/// The bits of the total active power from the registers read at
/// `TOTAL_ACTIVE_POWER_REGISTER`.
pub fn total_power_bits(registers: &Vec<u16>) -> (bits: u32)
    requires
        registers@.len() >= 2,
    ensures
        bits == low_first_bits(registers@[0], registers@[1]),
{
    merge_u16_bits(registers[0], registers[1])
}

} // verus!
