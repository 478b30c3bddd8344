//! The per-port read session state machine.
//!
//! A session opens the interface, performs a reset handshake, then reads
//! newline-delimited records until a terminal condition. The surrounding
//! task layer performs the actual I/O and feeds each outcome in as a
//! [`SessionEvent`]; every decision — what to emit, when to stop, how the
//! idle timer moves — is made and verified here.

use vstd::prelude::*;
use vstd::string::*;
use crate::IDLE_TIMEOUT_MS;
use crate::notify::{Notification, NotificationV, nviews};
use crate::text::{contains_seq, contains_substr, trim_spec, trim_str};

verus! {

/// The phase a read session is in. The last five phases are terminal.
#[derive(Debug, Clone, Copy, PartialEq, Eq, Structural)]
pub enum SessionPhase {
    /// Acquiring exclusive ownership of the interface.
    Opening,
    /// Holding the reset control signal so the controller reboots.
    HandshakeReset,
    /// Reading newline-delimited records.
    Reading,
    /// The device-side protocol reported completion (successful termination).
    CycleComplete,
    /// The device end disappeared (end of stream).
    Disconnected,
    /// The idle threshold elapsed with no completed record.
    TimedOut,
    /// Opening, handshake or reading failed with an unrecoverable error.
    FatalError,
    /// An external abort signal was observed.
    ManuallyStopped,
}

/// Whether the phase is terminal.
pub open spec fn is_terminal(phase: SessionPhase) -> bool {
    match phase {
        SessionPhase::Opening => false,
        SessionPhase::HandshakeReset => false,
        SessionPhase::Reading => false,
        _ => true,
    }
}

/// Whether reaching this terminal phase clears the operator's desire to read
/// the port. Every self-caused termination does; an external stop does not,
/// because the caller that signalled it already adjusted the desired set.
pub open spec fn clears_desire(phase: SessionPhase) -> bool {
    is_terminal(phase) && phase != SessionPhase::ManuallyStopped
}

/// Executable form of [`is_terminal`].
pub fn phase_is_terminal(phase: &SessionPhase) -> (r: bool)
    ensures
        r == is_terminal(*phase),
{
    match phase {
        SessionPhase::Opening => false,
        SessionPhase::HandshakeReset => false,
        SessionPhase::Reading => false,
        _ => true,
    }
}

/// What the surrounding task layer observed on behalf of the session.
#[derive(Debug)]
pub enum SessionEvent {
    /// The interface was opened at the requested baud rate.
    Opened,
    /// Opening the interface or toggling the reset signal failed.
    SetupFailed { error: String },
    /// The reset signal was held and released; reading can begin.
    ResetDone { now_ms: u64 },
    /// A full newline-terminated record arrived (raw, untrimmed).
    Line { text: String, now_ms: u64 },
    /// No full record was ready within the per-read timeout.
    ReadTimeout { now_ms: u64 },
    /// A zero-length read: the device end disappeared.
    Eof,
    /// Any other I/O error while reading.
    IoError { error: String },
    /// The supervisor signalled an external abort.
    AbortSignal,
}

/// The mathematical value of a [`SessionEvent`].
pub enum SessionEventV {
    Opened,
    SetupFailed { error: Seq<char> },
    ResetDone { now_ms: u64 },
    Line { text: Seq<char>, now_ms: u64 },
    ReadTimeout { now_ms: u64 },
    Eof,
    IoError { error: Seq<char> },
    AbortSignal,
}

impl View for SessionEvent {
    type V = SessionEventV;

    open spec fn view(&self) -> SessionEventV {
        match self {
            SessionEvent::Opened => SessionEventV::Opened,
            SessionEvent::SetupFailed { error } => SessionEventV::SetupFailed { error: error@ },
            SessionEvent::ResetDone { now_ms } => SessionEventV::ResetDone { now_ms: *now_ms },
            SessionEvent::Line { text, now_ms } => SessionEventV::Line {
                text: text@,
                now_ms: *now_ms,
            },
            SessionEvent::ReadTimeout { now_ms } => SessionEventV::ReadTimeout { now_ms: *now_ms },
            SessionEvent::Eof => SessionEventV::Eof,
            SessionEvent::IoError { error } => SessionEventV::IoError { error: error@ },
            SessionEvent::AbortSignal => SessionEventV::AbortSignal,
        }
    }
}

/// A read session for one port.
#[derive(Debug)]
pub struct ReadSession {
    /// The port being read.
    pub port: String,
    /// The baud rate the interface was requested at.
    pub baud: u32,
    /// The current phase.
    pub phase: SessionPhase,
    /// When the last non-empty record arrived, in milliseconds; the idle
    /// timer measures from here.
    pub last_data_ms: u64,
}

/// The mathematical value of a [`ReadSession`].
pub struct SessionV {
    pub port: Seq<char>,
    pub baud: u32,
    pub phase: SessionPhase,
    pub last_data_ms: u64,
}

impl View for ReadSession {
    type V = SessionV;

    open spec fn view(&self) -> SessionV {
        SessionV { port: self.port@, baud: self.baud, phase: self.phase, last_data_ms: self.last_data_ms }
    }
}

/// The marker substring within a record that signals device-side protocol
/// completion.
pub open spec fn sentinel() -> Seq<char> {
    "cycles completed"@
}

/// The error text reported when the device end disappears.
pub open spec fn eof_text() -> Seq<char> {
    "Connection lost (EOF)"@
}

/// The error text reported when the idle threshold elapses.
pub open spec fn idle_error_text() -> Seq<char> {
    "Idle timeout: no data received"@
}

/// The user-facing message carried by the timeout notification.
pub open spec fn idle_message_text() -> Seq<char> {
    "No data received for 10 seconds; the session was stopped."@
}

/// Whether an event is meaningful in a phase.
pub open spec fn accepts(phase: SessionPhase, ev: SessionEventV) -> bool {
    match phase {
        SessionPhase::Opening => ev is Opened || ev is SetupFailed || ev is AbortSignal,
        SessionPhase::HandshakeReset => ev is ResetDone || ev is SetupFailed
            || ev is AbortSignal,
        SessionPhase::Reading => ev is Line || ev is ReadTimeout || ev is Eof || ev is IoError
            || ev is AbortSignal,
        _ => false,
    }
}

/// The idle timer has expired: strictly more than the idle threshold has
/// passed since the last non-empty record.
pub open spec fn idle_expired(last_data_ms: u64, now_ms: u64) -> bool {
    now_ms > last_data_ms + IDLE_TIMEOUT_MS
}

/// The state and notifications a session step yields.
pub struct SessionStepV {
    pub state: SessionV,
    pub notes: Seq<NotificationV>,
}

/// The session transition function: the next state and the notifications to
/// emit, for a session in state `s` observing event `ev`.
pub open spec fn spec_step(s: SessionV, ev: SessionEventV) -> SessionStepV {
    match ev {
        SessionEventV::Opened => SessionStepV {
            state: SessionV { phase: SessionPhase::HandshakeReset, ..s },
            notes: Seq::empty(),
        },
        SessionEventV::SetupFailed { error } => SessionStepV {
            state: SessionV { phase: SessionPhase::FatalError, ..s },
            notes: seq![
                NotificationV::Disconnected { port: s.port, error },
                NotificationV::ReadError { port: s.port, error },
            ],
        },
        SessionEventV::ResetDone { now_ms } => SessionStepV {
            state: SessionV { phase: SessionPhase::Reading, last_data_ms: now_ms, ..s },
            notes: Seq::empty(),
        },
        SessionEventV::Line { text, now_ms } => {
            let record = trim_spec(text);
            if record.len() == 0 {
                SessionStepV { state: s, notes: Seq::empty() }
            } else if contains_seq(record, sentinel()) {
                SessionStepV {
                    state: SessionV {
                        phase: SessionPhase::CycleComplete,
                        last_data_ms: now_ms,
                        ..s
                    },
                    notes: seq![
                        NotificationV::DataReceived { port: s.port, data: record },
                        NotificationV::CycleComplete { port: s.port },
                    ],
                }
            } else {
                SessionStepV {
                    state: SessionV { last_data_ms: now_ms, ..s },
                    notes: seq![NotificationV::DataReceived { port: s.port, data: record }],
                }
            }
        },
        SessionEventV::ReadTimeout { now_ms } => {
            if idle_expired(s.last_data_ms, now_ms) {
                SessionStepV {
                    state: SessionV { phase: SessionPhase::TimedOut, ..s },
                    notes: seq![
                        NotificationV::Disconnected { port: s.port, error: idle_error_text() },
                        NotificationV::Timeout { port: s.port, message: idle_message_text() },
                    ],
                }
            } else {
                SessionStepV { state: s, notes: Seq::empty() }
            }
        },
        SessionEventV::Eof => SessionStepV {
            state: SessionV { phase: SessionPhase::Disconnected, ..s },
            notes: seq![NotificationV::Disconnected { port: s.port, error: eof_text() }],
        },
        SessionEventV::IoError { error } => SessionStepV {
            state: SessionV { phase: SessionPhase::FatalError, ..s },
            notes: seq![NotificationV::Disconnected { port: s.port, error }],
        },
        SessionEventV::AbortSignal => SessionStepV {
            state: SessionV { phase: SessionPhase::ManuallyStopped, ..s },
            notes: Seq::empty(),
        },
    }
}

impl ReadSession {
    /// A fresh session for the port, about to open the interface.
    pub fn new(port: String, baud: u32) -> (s: ReadSession)
        ensures
            s@ == (SessionV { port: port@, baud, phase: SessionPhase::Opening, last_data_ms: 0 }),
    {
        ReadSession { port, baud, phase: SessionPhase::Opening, last_data_ms: 0 }
    }

    /// Advances the session by one observed event, returning the
    /// notifications to emit, in order.
    pub fn step(&mut self, ev: SessionEvent) -> (notes: Vec<Notification>)
        requires
            accepts(old(self)@.phase, ev@),
        ensures
            final(self)@ == spec_step(old(self)@, ev@).state,
            nviews(notes@) == spec_step(old(self)@, ev@).notes,
    {
        let mut notes: Vec<Notification> = Vec::new();
        match ev {
            SessionEvent::Opened => {
                self.phase = SessionPhase::HandshakeReset;
            },
            SessionEvent::SetupFailed { error } => {
                self.phase = SessionPhase::FatalError;
                notes.push(Notification::Disconnected {
                    port: self.port.clone(),
                    error: error.clone(),
                });
                notes.push(Notification::ReadError { port: self.port.clone(), error });
            },
            SessionEvent::ResetDone { now_ms } => {
                self.phase = SessionPhase::Reading;
                self.last_data_ms = now_ms;
            },
            SessionEvent::Line { text, now_ms } => {
                let record = trim_str(text.as_str());
                if record.unicode_len() != 0 {
                    self.last_data_ms = now_ms;
                    notes.push(Notification::DataReceived {
                        port: self.port.clone(),
                        data: record.to_owned(),
                    });
                    if contains_substr(record, "cycles completed") {
                        self.phase = SessionPhase::CycleComplete;
                        notes.push(Notification::CycleComplete { port: self.port.clone() });
                    }
                }
            },
            SessionEvent::ReadTimeout { now_ms } => {
                if now_ms > IDLE_TIMEOUT_MS && now_ms - IDLE_TIMEOUT_MS > self.last_data_ms {
                    self.phase = SessionPhase::TimedOut;
                    notes.push(Notification::Disconnected {
                        port: self.port.clone(),
                        error: String::from_str("Idle timeout: no data received"),
                    });
                    notes.push(Notification::Timeout {
                        port: self.port.clone(),
                        message: String::from_str(
                            "No data received for 10 seconds; the session was stopped.",
                        ),
                    });
                }
            },
            SessionEvent::Eof => {
                self.phase = SessionPhase::Disconnected;
                notes.push(Notification::Disconnected {
                    port: self.port.clone(),
                    error: String::from_str("Connection lost (EOF)"),
                });
            },
            SessionEvent::IoError { error } => {
                self.phase = SessionPhase::FatalError;
                notes.push(Notification::Disconnected { port: self.port.clone(), error });
            },
            SessionEvent::AbortSignal => {
                self.phase = SessionPhase::ManuallyStopped;
            },
        }
        proof {
            assert(nviews(notes@) =~= spec_step(old(self)@, ev@).notes);
        }
        notes
    }
}

} // verus!
