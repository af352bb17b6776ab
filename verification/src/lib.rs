//! Keyboard emulation for a USB game controller.
//!
//! A controller sends a fixed-size report on every poll. This library decodes
//! the report, compares it with what it last told the keyboard, and turns
//! every difference into one key press or release, so that the keys follow
//! the buttons without repeated or missing events.
//!
//! The modules follow the data: [`report`] decodes the bytes, [`dpad`]
//! normalises the directional pad, [`keys`] holds the fixed button-to-key
//! tables, [`transition`] finds what changed, [`controller`] owns the recorded
//! state, [`keyboard`] hands events to the host, [`history`] says where the
//! keys of the host stand, [`poll`] decides what one poll cycle does, and
//! [`discovery`] picks the device.

pub mod controller;
pub mod discovery;
pub mod dpad;
pub mod history;
pub mod keyboard;
pub mod keys;
pub mod poll;
pub mod report;
pub mod transition;
