//! The report decoder: from the eight bytes of a report to an input snapshot.

use vstd::prelude::*;

verus! {

/// Number of bytes in one report.
pub const REPORT_LEN: usize = 8;

/// Code of the directional pad when it is centred.
pub const DPAD_CENTERED: u8 = 15;

/// Position of a stick axis at rest.
pub const AXIS_MIDPOINT: u8 = 128;

/// What the controller showed at one poll.
///
/// Every byte pattern is a legal snapshot. The stick axes and the last byte
/// are carried along and play no part in the key emulation.
#[derive(Clone, Copy, Debug, PartialEq, Eq, Structural)]
pub struct Input {
    /// Bitmask of the face and shoulder buttons.
    pub buttons: u8,
    /// Bitmask of the extra buttons.
    pub extra: u8,
    /// Hat code of the directional pad.
    pub dpad: u8,
    pub lstick1: u8,
    pub lstick2: u8,
    pub rstick1: u8,
    pub rstick2: u8,
    pub unused: u8,
}

impl Input {
    /// The snapshot that a report of the given bytes stands for: one field per
    /// byte, in the order of the bytes.
    pub open spec fn decoded(data: Seq<u8>) -> Input
        recommends
            data.len() == REPORT_LEN,
    {
        Input {
            buttons: data[0],
            extra: data[1],
            dpad: data[2],
            lstick1: data[3],
            lstick2: data[4],
            rstick1: data[5],
            rstick2: data[6],
            unused: data[7],
        }
    }

    /// The snapshot of a controller that nobody touches: no button down, the
    /// directional pad centred, both sticks at rest.
    pub open spec fn neutral() -> Input {
        Input {
            buttons: 0,
            extra: 0,
            dpad: DPAD_CENTERED,
            lstick1: AXIS_MIDPOINT,
            lstick2: AXIS_MIDPOINT,
            rstick1: AXIS_MIDPOINT,
            rstick2: AXIS_MIDPOINT,
            unused: 0,
        }
    }

    /// The snapshot that one poll cycle works on: the decoded report, or the
    /// neutral snapshot where the read gave none.
    pub open spec fn of_read(report: Option<[u8; 8]>) -> Input {
        match report {
            Some(data) => Input::decoded(data@),
            None => Input::neutral(),
        }
    }

    /// Decodes a report.
    pub fn new(data: [u8; 8]) -> (input: Input)
        ensures
            input == Input::decoded(data@),
    {
        Input {
            buttons: data[0],
            extra: data[1],
            dpad: data[2],
            lstick1: data[3],
            lstick2: data[4],
            rstick1: data[5],
            rstick2: data[6],
            unused: data[7],
        }
    }

    /// The snapshot for the outcome of a read: a failed read counts as a
    /// controller that nobody touches.
    pub fn from_read(report: Option<[u8; 8]>) -> (input: Input)
        ensures
            input == Input::of_read(report),
    {
        match report {
            Some(data) => Input::new(data),
            None => Input::default(),
        }
    }
}

impl Default for Input {
    /// The neutral snapshot.
    fn default() -> (input: Input)
        ensures
            input == Input::neutral(),
    {
        Input {
            buttons: 0,
            extra: 0,
            dpad: DPAD_CENTERED,
            lstick1: AXIS_MIDPOINT,
            lstick2: AXIS_MIDPOINT,
            rstick1: AXIS_MIDPOINT,
            rstick2: AXIS_MIDPOINT,
            unused: 0,
        }
    }
}

} // verus!
