//! The key mapper: which key of the keyboard stands for which button.
//!
//! The mapping is fixed. Each group of buttons has a table of definitions,
//! and the order of a table is the order in which the keys of one poll are
//! pressed and released.

use crate::dpad::Dpad;
use tfc::Key;
use vstd::prelude::*;

verus! {

/// Whether a key goes down or comes up.
#[derive(Clone, Copy, Debug, PartialEq, Eq, Structural)]
pub enum Direction {
    Down,
    Up,
}

/// One request to the keyboard: press or release one key.
#[derive(Clone, Copy, Debug, PartialEq, Eq)]
pub struct KeyEvent {
    pub key: Key,
    pub direction: Direction,
}

/// One entry of a table: the bit of a logical button in the mask of its
/// group, and the key that follows it.
#[derive(Clone, Copy, Debug, PartialEq, Eq)]
pub struct ButtonDefinition {
    pub bit: u8,
    pub key: Key,
}

/// The face and shoulder buttons.
#[derive(Clone, Copy, Debug, PartialEq, Eq, Structural)]
pub enum Buttons {
    Y,
    B,
    A,
    X,
    L,
    R,
    ZL,
    ZR,
}

impl Buttons {
    /// The bit of the button in the first byte of a report.
    pub open spec fn spec_bit(self) -> u8 {
        match self {
            Buttons::Y => 0x01,
            Buttons::B => 0x02,
            Buttons::A => 0x04,
            Buttons::X => 0x08,
            Buttons::L => 0x10,
            Buttons::R => 0x20,
            Buttons::ZL => 0x40,
            Buttons::ZR => 0x80,
        }
    }

    /// The key that follows the button.
    pub open spec fn spec_key(self) -> Key {
        match self {
            Buttons::Y => Key::P,
            Buttons::B => Key::O,
            Buttons::A => Key::I,
            Buttons::X => Key::U,
            Buttons::L => Key::Y,
            Buttons::R => Key::T,
            Buttons::ZL => Key::R,
            Buttons::ZR => Key::E,
        }
    }

    /// The table entry of the button.
    pub open spec fn spec_definition(self) -> ButtonDefinition {
        ButtonDefinition { bit: self.spec_bit(), key: self.spec_key() }
    }

    /// The bit of the button in the first byte of a report.
    #[verifier::when_used_as_spec(spec_bit)]
    pub fn bit(self) -> (bit: u8)
        ensures
            bit == self.spec_bit(),
    {
        match self {
            Buttons::Y => 0x01,
            Buttons::B => 0x02,
            Buttons::A => 0x04,
            Buttons::X => 0x08,
            Buttons::L => 0x10,
            Buttons::R => 0x20,
            Buttons::ZL => 0x40,
            Buttons::ZR => 0x80,
        }
    }

    /// The key that follows the button.
    #[verifier::when_used_as_spec(spec_key)]
    pub fn key(self) -> (key: Key)
        ensures
            key == self.spec_key(),
    {
        match self {
            Buttons::Y => Key::P,
            Buttons::B => Key::O,
            Buttons::A => Key::I,
            Buttons::X => Key::U,
            Buttons::L => Key::Y,
            Buttons::R => Key::T,
            Buttons::ZL => Key::R,
            Buttons::ZR => Key::E,
        }
    }

    /// The table entry of the button.
    #[verifier::when_used_as_spec(spec_definition)]
    pub fn definition(self) -> (definition: ButtonDefinition)
        ensures
            definition == self.spec_definition(),
    {
        ButtonDefinition { bit: self.bit(), key: self.key() }
    }
}

/// The extra buttons.
#[derive(Clone, Copy, Debug, PartialEq, Eq, Structural)]
pub enum Extra {
    Minus,
    Plus,
    LSB,
    RSB,
    Home,
}

impl Extra {
    /// The bit of the button in the second byte of a report.
    pub open spec fn spec_bit(self) -> u8 {
        match self {
            Extra::Minus => 0x01,
            Extra::Plus => 0x02,
            Extra::LSB => 0x04,
            Extra::RSB => 0x08,
            Extra::Home => 0x10,
        }
    }

    /// The key that follows the button.
    pub open spec fn spec_key(self) -> Key {
        match self {
            Extra::Minus => Key::L,
            Extra::Plus => Key::K,
            Extra::LSB => Key::J,
            Extra::RSB => Key::H,
            Extra::Home => Key::G,
        }
    }

    /// The table entry of the button.
    pub open spec fn spec_definition(self) -> ButtonDefinition {
        ButtonDefinition { bit: self.spec_bit(), key: self.spec_key() }
    }

    /// The bit of the button in the second byte of a report.
    #[verifier::when_used_as_spec(spec_bit)]
    pub fn bit(self) -> (bit: u8)
        ensures
            bit == self.spec_bit(),
    {
        match self {
            Extra::Minus => 0x01,
            Extra::Plus => 0x02,
            Extra::LSB => 0x04,
            Extra::RSB => 0x08,
            Extra::Home => 0x10,
        }
    }

    /// The key that follows the button.
    #[verifier::when_used_as_spec(spec_key)]
    pub fn key(self) -> (key: Key)
        ensures
            key == self.spec_key(),
    {
        match self {
            Extra::Minus => Key::L,
            Extra::Plus => Key::K,
            Extra::LSB => Key::J,
            Extra::RSB => Key::H,
            Extra::Home => Key::G,
        }
    }

    /// The table entry of the button.
    #[verifier::when_used_as_spec(spec_definition)]
    pub fn definition(self) -> (definition: ButtonDefinition)
        ensures
            definition == self.spec_definition(),
    {
        ButtonDefinition { bit: self.bit(), key: self.key() }
    }
}

/// The table of the face and shoulder buttons.
pub open spec fn button_definitions() -> Seq<ButtonDefinition> {
    seq![
        Buttons::Y.definition(),
        Buttons::B.definition(),
        Buttons::A.definition(),
        Buttons::X.definition(),
        Buttons::L.definition(),
        Buttons::R.definition(),
        Buttons::ZL.definition(),
        Buttons::ZR.definition(),
    ]
}

/// The table of the extra buttons.
pub open spec fn extra_definitions() -> Seq<ButtonDefinition> {
    seq![
        Extra::Minus.definition(),
        Extra::Plus.definition(),
        Extra::LSB.definition(),
        Extra::RSB.definition(),
        Extra::Home.definition(),
    ]
}

/// The table of the directional pad: one entry for each cardinal direction,
/// over the bits of the direction mask.
pub open spec fn dpad_definitions() -> Seq<ButtonDefinition> {
    seq![
        ButtonDefinition { bit: Dpad::U.mask(), key: Key::W },
        ButtonDefinition { bit: Dpad::D.mask(), key: Key::S },
        ButtonDefinition { bit: Dpad::L.mask(), key: Key::A },
        ButtonDefinition { bit: Dpad::R.mask(), key: Key::D },
    ]
}

/// The place of a key in the order in which the keys of one poll are handled:
/// the keys of the face and shoulder buttons first, then those of the extra
/// buttons, then those of the directional pad, each group in the order of its
/// table. A key that follows no button has no place among them.
pub open spec fn key_rank(key: Key) -> int {
    match key {
        Key::P => 0,
        Key::O => 1,
        Key::I => 2,
        Key::U => 3,
        Key::Y => 4,
        Key::T => 5,
        Key::R => 6,
        Key::E => 7,
        Key::L => 8,
        Key::K => 9,
        Key::J => 10,
        Key::H => 11,
        Key::G => 12,
        Key::W => 13,
        Key::S => 14,
        Key::A => 15,
        Key::D => 16,
        _ => -1,
    }
}

/// Whether the keys of a table have the places `base`, `base + 1` and so on.
pub open spec fn ranked_from(table: Seq<ButtonDefinition>, base: int) -> bool {
    forall|i: int| 0 <= i < table.len() ==> key_rank((#[trigger] table[i]).key) == base + i
}

/// The three tables hold seventeen different keys, in the order of their
/// places.
pub proof fn lemma_tables_are_ranked()
    ensures
        ranked_from(button_definitions(), 0),
        ranked_from(extra_definitions(), 8),
        ranked_from(dpad_definitions(), 13),
{
}

/// The union of the bits of a table: the bits of a mask that belong to a
/// logical button.
pub open spec fn table_mask(table: Seq<ButtonDefinition>) -> u8
    decreases table.len(),
{
    if table.len() == 0 {
        0
    } else {
        table_mask(table.drop_last()) | table.last().bit
    }
}

/// The bits of the face and shoulder buttons: all eight.
pub const BUTTONS_MASK: u8 = 0xFF;

/// The bits of the extra buttons.
pub const EXTRA_MASK: u8 = 0x1F;

/// The bits of the direction mask.
pub const DPAD_MASK: u8 = 0x0F;

/// The three masks are the unions of the bits of the three tables.
pub proof fn lemma_table_masks()
    ensures
        table_mask(button_definitions()) == BUTTONS_MASK,
        table_mask(extra_definitions()) == EXTRA_MASK,
        table_mask(dpad_definitions()) == DPAD_MASK,
{
    reveal_with_fuel(table_mask, 9);
    assert(0u8 | 0x01 | 0x02 | 0x04 | 0x08 | 0x10 | 0x20 | 0x40 | 0x80 == 0xFF) by (bit_vector);
    assert(0u8 | 0x01 | 0x02 | 0x04 | 0x08 | 0x10 == 0x1F) by (bit_vector);
    assert(0u8 | 0x01 | 0x04 | 0x08 | 0x02 == 0x0F) by (bit_vector);
}

/// The table of the face and shoulder buttons.
pub fn button_table() -> (table: [ButtonDefinition; 8])
    ensures
        table@ == button_definitions(),
{
    let table = [
        Buttons::Y.definition(),
        Buttons::B.definition(),
        Buttons::A.definition(),
        Buttons::X.definition(),
        Buttons::L.definition(),
        Buttons::R.definition(),
        Buttons::ZL.definition(),
        Buttons::ZR.definition(),
    ];
    assert(table@ =~= button_definitions());
    table
}

/// The table of the extra buttons.
pub fn extra_table() -> (table: [ButtonDefinition; 5])
    ensures
        table@ == extra_definitions(),
{
    let table = [
        Extra::Minus.definition(),
        Extra::Plus.definition(),
        Extra::LSB.definition(),
        Extra::RSB.definition(),
        Extra::Home.definition(),
    ];
    assert(table@ =~= extra_definitions());
    table
}

/// The table of the directional pad.
pub fn dpad_table() -> (table: [ButtonDefinition; 4])
    ensures
        table@ == dpad_definitions(),
{
    let table = [
        ButtonDefinition { bit: Dpad::U.mask(), key: Key::W },
        ButtonDefinition { bit: Dpad::D.mask(), key: Key::S },
        ButtonDefinition { bit: Dpad::L.mask(), key: Key::A },
        ButtonDefinition { bit: Dpad::R.mask(), key: Key::D },
    ];
    assert(table@ =~= dpad_definitions());
    table
}

} // verus!
