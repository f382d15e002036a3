//! The event bus vocabulary: the one closed, tagged event type that every
//! producer sends and the single consumer loop drains.

use vstd::prelude::*;

use crate::satnogs::Data;
use crate::sysinfo::SysInfo;

verus! {

/// Severity of a log line, mirroring the usual five levels.
pub const LOG_ERROR: u8 = 1;

pub const LOG_WARN: u8 = 2;

pub const LOG_INFO: u8 = 3;

pub const LOG_DEBUG: u8 = 4;

pub const LOG_TRACE: u8 = 5;

/// A terminal input event, reduced to what the key bindings read.
#[derive(Clone, Copy, Debug, PartialEq, Eq, Structural)]
pub enum InputEvent {
    /// A plain character key.
    Char(char),
    /// A character key with Control held.
    Ctrl(char),
    /// Any other input: ignored by the bindings.
    Other,
}

/// Everything a producer can put on the bus.
pub enum Event {
    /// A key or other terminal input.
    Input(InputEvent),
    /// A log line: severity and message.
    Log((u8, String)),
    /// A network worker result.
    CommandResponse(Data),
    /// The terminal geometry changed.
    Resize,
    /// A rotator reading: azimuth and elevation in milli-degrees.
    RotatorPosition(i64, i64),
    /// A host metrics snapshot for the named stations.
    SystemInfo(Vec<u64>, SysInfo),
    /// The once-per-second clock.
    Tick,
    /// A capture file appeared: its observation id and frequency axis in
    /// milli-Hz.
    WaterfallCreated(u64, Vec<i64>),
    /// One waterfall row: its timestamp and the bit patterns of its power
    /// bins.
    WaterfallData(i64, Vec<u32>),
    /// The capture file was closed.
    WaterfallClosed(u64),
    /// End the consumer loop.
    Shutdown,
}

} // verus!
