//! The directional pad: from the eight-way hat code to four independent bits.
//!
//! The pad reports one of eight directions or its centre. The keys follow
//! four independent switches, so a diagonal has to count as its two
//! neighbours held together.

use vstd::prelude::*;

verus! {

/// A position of the directional pad, as a set of cardinal directions.
#[derive(Clone, Copy, Debug, PartialEq, Eq, Structural)]
pub enum Dpad {
    Off,
    U,
    R,
    D,
    L,
    UR,
    DR,
    UL,
    DL,
}

impl Dpad {
    /// The direction mask of a position: bit 0 is up, bit 1 right, bit 2 down
    /// and bit 3 left.
    pub open spec fn spec_mask(self) -> u8 {
        match self {
            Dpad::Off => 0x00,
            Dpad::U => 0x01,
            Dpad::R => 0x02,
            Dpad::D => 0x04,
            Dpad::L => 0x08,
            Dpad::UR => 0x03,
            Dpad::DR => 0x06,
            Dpad::UL => 0x09,
            Dpad::DL => 0x0C,
        }
    }

    /// The direction mask of a position.
    #[verifier::when_used_as_spec(spec_mask)]
    pub fn mask(self) -> (mask: u8)
        ensures
            mask == self.spec_mask(),
    {
        match self {
            Dpad::Off => 0x00,
            Dpad::U => 0x01,
            Dpad::R => 0x02,
            Dpad::D => 0x04,
            Dpad::L => 0x08,
            Dpad::UR => 0x03,
            Dpad::DR => 0x06,
            Dpad::UL => 0x09,
            Dpad::DL => 0x0C,
        }
    }
}

/// The position that a hat code stands for. The codes 0 to 7 run clockwise
/// from "up" in steps of 45 degrees; every other code is the centre.
pub open spec fn hat_position(code: u8) -> Dpad {
    if code == 0 {
        Dpad::U
    } else if code == 1 {
        Dpad::UR
    } else if code == 2 {
        Dpad::R
    } else if code == 3 {
        Dpad::DR
    } else if code == 4 {
        Dpad::D
    } else if code == 5 {
        Dpad::DL
    } else if code == 6 {
        Dpad::L
    } else if code == 7 {
        Dpad::UL
    } else {
        Dpad::Off
    }
}

/// The direction mask of a hat code.
pub open spec fn direction_mask(code: u8) -> u8 {
    hat_position(code).mask()
}

/// Normalises a hat code. No code is rejected: what is not a direction is the
/// centre.
pub fn convert_dpad(dpad: u8) -> (position: Dpad)
    ensures
        position == hat_position(dpad),
{
    match dpad {
        0 => Dpad::U,
        1 => Dpad::UR,
        2 => Dpad::R,
        3 => Dpad::DR,
        4 => Dpad::D,
        5 => Dpad::DL,
        6 => Dpad::L,
        7 => Dpad::UL,
        _ => Dpad::Off,
    }
}

proof fn lemma_bits_of_masks(mask: u8)
    by (bit_vector)
    ensures
        mask & 0x01 != 0 <==> mask % 2 == 1,
        mask & 0x02 != 0 <==> (mask / 2) % 2 == 1,
        mask & 0x04 != 0 <==> (mask / 4) % 2 == 1,
        mask & 0x08 != 0 <==> (mask / 8) % 2 == 1,
        mask & 0xF0 == 0 <==> mask < 16,
{
}

/// Every hat code is normalised, and to these bits: "up" is set for the
/// codes 0, 1 and 7, "right" for 1, 2 and 3, "down" for 3, 4 and 5, "left"
/// for 5, 6 and 7, and no other bit is ever set. So a cardinal code sets one
/// bit, a diagonal code the bits of its two neighbours, and every code from 8
/// on sets none.
pub proof fn lemma_direction_bits(code: u8)
    ensures
        direction_mask(code) & Dpad::U.mask() != 0 <==> code == 0 || code == 1 || code == 7,
        direction_mask(code) & Dpad::R.mask() != 0 <==> code == 1 || code == 2 || code == 3,
        direction_mask(code) & Dpad::D.mask() != 0 <==> code == 3 || code == 4 || code == 5,
        direction_mask(code) & Dpad::L.mask() != 0 <==> code == 5 || code == 6 || code == 7,
        direction_mask(code) & 0xF0 == 0,
{
    lemma_bits_of_masks(direction_mask(code));
}

} // verus!
