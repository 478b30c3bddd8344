//! Notifications the supervisor publishes to its sink, the actions it asks
//! the surrounding task layer to perform, and the library's error type.

use vstd::prelude::*;
use vstd::string::*;
use crate::device::{DeviceV, UsbDevice, dviews};

verus! {

/// A named event with a structured payload, published to the notification
/// sink. The surrounding layer delivers these; the library only decides
/// which to emit, with what payload, in what order.
#[derive(Debug, PartialEq, Eq)]
pub enum Notification {
    /// The observed device set changed between two scans.
    DevicesChanged { added: Vec<UsbDevice>, removed: Vec<UsbDevice> },
    /// A scan finished; carries the current device list.
    ScanComplete { devices: Vec<UsbDevice> },
    /// A read session was started for the port.
    SessionStarted { port: String },
    /// A read session ended for the port.
    SessionStopped { port: String, reason: Option<String> },
    /// A non-empty line was read from the port.
    DataReceived { port: String, data: String },
    /// The device-side protocol reported completion on the port.
    CycleComplete { port: String },
    /// The connection to the port was lost or could not be made.
    Disconnected { port: String, error: String },
    /// The session went idle for too long.
    Timeout { port: String, message: String },
    /// A session ended with an error.
    ReadError { port: String, error: String },
}

/// The mathematical value of a [`Notification`].
pub enum NotificationV {
    DevicesChanged { added: Seq<DeviceV>, removed: Seq<DeviceV> },
    ScanComplete { devices: Seq<DeviceV> },
    SessionStarted { port: Seq<char> },
    SessionStopped { port: Seq<char>, reason: Option<Seq<char>> },
    DataReceived { port: Seq<char>, data: Seq<char> },
    CycleComplete { port: Seq<char> },
    Disconnected { port: Seq<char>, error: Seq<char> },
    Timeout { port: Seq<char>, message: Seq<char> },
    ReadError { port: Seq<char>, error: Seq<char> },
}

impl View for Notification {
    type V = NotificationV;

    open spec fn view(&self) -> NotificationV {
        match self {
            Notification::DevicesChanged { added, removed } => NotificationV::DevicesChanged {
                added: dviews(added@),
                removed: dviews(removed@),
            },
            Notification::ScanComplete { devices } => NotificationV::ScanComplete {
                devices: dviews(devices@),
            },
            Notification::SessionStarted { port } => NotificationV::SessionStarted { port: port@ },
            Notification::SessionStopped { port, reason } => NotificationV::SessionStopped {
                port: port@,
                reason: reason.deep_view(),
            },
            Notification::DataReceived { port, data } => NotificationV::DataReceived {
                port: port@,
                data: data@,
            },
            Notification::CycleComplete { port } => NotificationV::CycleComplete { port: port@ },
            Notification::Disconnected { port, error } => NotificationV::Disconnected {
                port: port@,
                error: error@,
            },
            Notification::Timeout { port, message } => NotificationV::Timeout {
                port: port@,
                message: message@,
            },
            Notification::ReadError { port, error } => NotificationV::ReadError {
                port: port@,
                error: error@,
            },
        }
    }
}

/// The views of a sequence of notifications.
pub open spec fn nviews(s: Seq<Notification>) -> Seq<NotificationV> {
    s.map_values(|n: Notification| n@)
}

/// What the surrounding task layer must do after a supervisor operation:
/// spawn a read session task, or abort a running one.
#[derive(Debug, PartialEq, Eq)]
pub enum Action {
    /// Spawn a read session task for the port at the given baud rate.
    Spawn { port: String, baud: u32 },
    /// Signal the running read session task for the port to abort.
    Abort { port: String },
}

/// The mathematical value of an [`Action`].
pub enum ActionV {
    Spawn { port: Seq<char>, baud: u32 },
    Abort { port: Seq<char> },
}

impl View for Action {
    type V = ActionV;

    open spec fn view(&self) -> ActionV {
        match self {
            Action::Spawn { port, baud } => ActionV::Spawn { port: port@, baud: *baud },
            Action::Abort { port } => ActionV::Abort { port: port@ },
        }
    }
}

/// The views of a sequence of actions.
pub open spec fn aviews(s: Seq<Action>) -> Seq<ActionV> {
    s.map_values(|a: Action| a@)
}

/// The unified error enum for the application.
#[derive(Debug, PartialEq, Eq)]
pub enum AppError {
    /// Errors related to the USB/serial communication layer.
    Serial(String),
    /// Errors related to file I/O operations.
    Io(String),
    /// Errors related to application state management.
    Internal(String),
    /// Errors of the windowing/runtime embedding layer.
    Tauri(String),
    /// Errors when a resource is not found or is busy.
    Resource(String),
    /// A generic catch-all error for unexpected problems.
    Unknown(String),
}

/// The mathematical value of an [`AppError`].
pub enum AppErrorV {
    Serial(Seq<char>),
    Io(Seq<char>),
    Internal(Seq<char>),
    Tauri(Seq<char>),
    Resource(Seq<char>),
    Unknown(Seq<char>),
}

impl View for AppError {
    type V = AppErrorV;

    open spec fn view(&self) -> AppErrorV {
        match self {
            AppError::Serial(s) => AppErrorV::Serial(s@),
            AppError::Io(s) => AppErrorV::Io(s@),
            AppError::Internal(s) => AppErrorV::Internal(s@),
            AppError::Tauri(s) => AppErrorV::Tauri(s@),
            AppError::Resource(s) => AppErrorV::Resource(s@),
            AppError::Unknown(s) => AppErrorV::Unknown(s@),
        }
    }
}

impl AppError {
    /// The category prefix of this error's message.
    pub open spec fn spec_prefix(&self) -> Seq<char> {
        match self@ {
            AppErrorV::Serial(_) => "Serial Port Error: "@,
            AppErrorV::Io(_) => "File System Error: "@,
            AppErrorV::Internal(_) => "Internal State Error: "@,
            AppErrorV::Tauri(_) => "Tauri Runtime Error: "@,
            AppErrorV::Resource(_) => "Resource Not Available: "@,
            AppErrorV::Unknown(_) => "Unknown Error: "@,
        }
    }

    /// The detail text this error carries.
    pub open spec fn spec_detail(&self) -> Seq<char> {
        match self@ {
            AppErrorV::Serial(s) => s,
            AppErrorV::Io(s) => s,
            AppErrorV::Internal(s) => s,
            AppErrorV::Tauri(s) => s,
            AppErrorV::Resource(s) => s,
            AppErrorV::Unknown(s) => s,
        }
    }

    /// The full message: the category prefix followed by the detail text.
    pub fn message(&self) -> (r: String)
        ensures
            r@ == self.spec_prefix() + self.spec_detail(),
    {
        let (prefix, detail) = match self {
            AppError::Serial(s) => ("Serial Port Error: ", s),
            AppError::Io(s) => ("File System Error: ", s),
            AppError::Internal(s) => ("Internal State Error: ", s),
            AppError::Tauri(s) => ("Tauri Runtime Error: ", s),
            AppError::Resource(s) => ("Resource Not Available: ", s),
            AppError::Unknown(s) => ("Unknown Error: ", s),
        };
        String::from_str(prefix).concat(detail.as_str())
    }
}

} // verus!
