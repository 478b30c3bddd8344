//! A verified supervisor for USB-serial device read sessions.
//!
//! The library discovers which attached serial interfaces are supported
//! boards, diffs successive scans of the device set, tracks which ports the
//! operator wants read continuously, enforces at most one live read session
//! per port, and drives each session through a reset-handshake / line-reading
//! protocol with an idle timeout and a completion sentinel.
//!
//! All decisions are made here, over plain values, and are verified; the
//! surrounding binary performs the actual port enumeration, serial I/O and
//! notification delivery, and feeds the outcomes back in as events.

pub mod classify;
pub mod device;
pub mod laws;
pub mod notify;
pub mod records;
pub mod session;
pub mod supervisor;
pub mod text;

use vstd::prelude::*;

verus! {

/// Interval between two device scans, in milliseconds.
pub const POLL_INTERVAL_MS: u64 = 3000;

/// A session is considered idle once more than this many milliseconds have
/// passed without a completed, non-empty line.
pub const IDLE_TIMEOUT_MS: u64 = 10000;

/// How long the reset control signal is held during the handshake,
/// in milliseconds.
pub const HANDSHAKE_SETTLE_MS: u64 = 250;

/// Per-read timeout handed to the serial interface, in milliseconds.
pub const READ_TIMEOUT_MS: u64 = 1000;

} // verus!
