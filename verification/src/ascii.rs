//! The letters and signs that the format spells in ASCII.

use vstd::prelude::*;

verus! {

/// The letter `B`.
pub const UPPER_B: u8 = 0x42;

/// The letter `C`.
pub const UPPER_C: u8 = 0x43;

/// The letter `D`.
pub const UPPER_D: u8 = 0x44;

/// The letter `E`.
pub const UPPER_E: u8 = 0x45;

/// The letter `F`.
pub const UPPER_F: u8 = 0x46;

/// The letter `I`.
pub const UPPER_I: u8 = 0x49;

/// The letter `L`.
pub const UPPER_L: u8 = 0x4c;

/// The letter `S`.
pub const UPPER_S: u8 = 0x53;

/// The letter `U`.
pub const UPPER_U: u8 = 0x55;

/// The letter `X`.
pub const UPPER_X: u8 = 0x58;

/// The sign `=`.
pub const EQUALS: u8 = 0x3d;

/// The zero byte.
pub const NUL: u8 = 0;

} // verus!
