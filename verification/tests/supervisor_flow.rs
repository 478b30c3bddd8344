use device_supervisor::device::UsbDevice;
use device_supervisor::notify::{Action, AppError, Notification};
use device_supervisor::records::default_settings;
use device_supervisor::session::{ReadSession, SessionEvent, SessionPhase, phase_is_terminal};
use device_supervisor::supervisor::Supervisor;

fn device(port: &str) -> UsbDevice {
    UsbDevice {
        port: port.to_string(),
        vid: 0x2341,
        pid: 0x0043,
        serial_number: None,
        product: Some("Arduino Uno".to_string()),
        status: "connected".to_string(),
        board_name: "Arduino Uno".to_string(),
    }
}

#[test]
fn start_read_and_complete_cycle() {
    // Start a session on a port with no registry entry, feed it "x", an
    // empty line, then a sentinel line, and watch it finish cleanly.
    let mut sup = Supervisor::new();
    let port = "COM3".to_string();
    let out = sup.start_session(&port, 9600);
    assert!(out.result.is_ok());
    assert_eq!(out.notes, vec![Notification::SessionStarted { port: "COM3".to_string() }]);
    assert_eq!(out.actions, vec![Action::Spawn { port: "COM3".to_string(), baud: 9600 }]);
    assert_eq!(sup.session_count(), 1);
    assert_eq!(sup.desired_count(), 1);

    let mut sess = ReadSession::new(port.clone(), 9600);
    assert!(sess.step(SessionEvent::Opened).is_empty());
    assert!(sess.step(SessionEvent::ResetDone { now_ms: 0 }).is_empty());

    let n = sess.step(SessionEvent::Line { text: "x\r\n".to_string(), now_ms: 10 });
    assert_eq!(
        n,
        vec![Notification::DataReceived { port: "COM3".to_string(), data: "x".to_string() }]
    );

    let n = sess.step(SessionEvent::Line { text: "\r\n".to_string(), now_ms: 20 });
    assert!(n.is_empty());

    let n = sess.step(SessionEvent::Line { text: "3 cycles completed\r\n".to_string(), now_ms: 30 });
    assert_eq!(
        n,
        vec![
            Notification::DataReceived {
                port: "COM3".to_string(),
                data: "3 cycles completed".to_string(),
            },
            Notification::CycleComplete { port: "COM3".to_string() },
        ]
    );
    assert_eq!(sess.phase, SessionPhase::CycleComplete);
    assert!(phase_is_terminal(&sess.phase));

    let fin = sup.session_terminated(&port, &sess.phase);
    assert!(fin.result.is_ok());
    assert_eq!(
        fin.notes,
        vec![Notification::SessionStopped { port: "COM3".to_string(), reason: None }]
    );
    assert_eq!(sup.session_count(), 0);
    assert_eq!(sup.desired_count(), 0);
}

#[test]
fn second_start_on_same_port_is_rejected() {
    let mut sup = Supervisor::new();
    let port = "COM3".to_string();
    assert!(sup.start_session(&port, 9600).result.is_ok());
    let again = sup.start_session(&port, 115200);
    match again.result {
        Err(AppError::Resource(msg)) => assert_eq!(msg, "Already reading from this port"),
        _ => panic!("expected a busy error"),
    }
    assert!(again.actions.is_empty());
    assert!(again.notes.is_empty());
    assert_eq!(sup.session_count(), 1);
    // the desire stays recorded once
    assert_eq!(sup.desired_count(), 1);
}

#[test]
fn stop_without_session_is_rejected() {
    let mut sup = Supervisor::new();
    let port = "COM9".to_string();
    let out = sup.stop_session(&port);
    match out.result {
        Err(AppError::Resource(msg)) => assert_eq!(msg, "Not reading from this port"),
        _ => panic!("expected a not-active error"),
    }
}

#[test]
fn stop_aborts_and_announces_once() {
    let mut sup = Supervisor::new();
    let port = "COM3".to_string();
    assert!(sup.start_session(&port, 9600).result.is_ok());
    let out = sup.stop_session(&port);
    assert!(out.result.is_ok());
    assert_eq!(out.actions, vec![Action::Abort { port: "COM3".to_string() }]);
    assert_eq!(
        out.notes,
        vec![Notification::SessionStopped { port: "COM3".to_string(), reason: None }]
    );
    assert_eq!(sup.session_count(), 0);
    assert_eq!(sup.desired_count(), 0);
    // the aborted session's own cleanup announces nothing more
    let fin = sup.session_terminated(&port, &SessionPhase::ManuallyStopped);
    assert!(fin.notes.is_empty());
}

#[test]
fn unchanged_scan_is_silent() {
    let mut sup = Supervisor::new();
    let first = sup.scan_update(vec![device("COM3")]);
    assert!(first.changed);
    let second = sup.scan_update(vec![device("COM3")]);
    assert!(!second.changed);
    assert!(second.added.is_empty());
    assert!(second.removed.is_empty());
    assert!(second.notes.is_empty());
    assert!(second.actions.is_empty());
}

#[test]
fn new_device_is_announced_once() {
    let mut sup = Supervisor::new();
    assert!(!sup.scan_update(vec![]).changed);
    let out = sup.scan_update(vec![device("COM3")]);
    assert!(out.changed);
    assert_eq!(out.added.len(), 1);
    assert_eq!(out.added[0].port, "COM3");
    assert!(out.removed.is_empty());
    assert_eq!(out.notes.len(), 1);
    match &out.notes[0] {
        Notification::DevicesChanged { added, removed } => {
            assert_eq!(added.len(), 1);
            assert_eq!(added[0].port, "COM3");
            assert!(removed.is_empty());
        },
        other => panic!("unexpected notification: {:?}", other),
    }
}

#[test]
fn removal_aborts_session_and_keeps_desire() {
    // Scan A observes COM3, scan B observes nothing: added=[], removed=[COM3],
    // changed, and the running session is force-aborted with one stop.
    let mut sup = Supervisor::new();
    sup.scan_update(vec![device("COM3")]);
    let port = "COM3".to_string();
    assert!(sup.start_session(&port, 9600).result.is_ok());

    let out = sup.scan_update(vec![]);
    assert!(out.changed);
    assert!(out.added.is_empty());
    assert_eq!(out.removed.len(), 1);
    assert_eq!(out.removed[0].port, "COM3");
    assert_eq!(out.actions, vec![Action::Abort { port: "COM3".to_string() }]);
    assert_eq!(out.notes.len(), 2);
    assert_eq!(
        out.notes[0],
        Notification::SessionStopped {
            port: "COM3".to_string(),
            reason: Some("Device physically removed".to_string()),
        }
    );
    assert!(matches!(&out.notes[1], Notification::DevicesChanged { .. }));
    assert_eq!(sup.session_count(), 0);
    // the desire survives physical removal
    assert!(sup.is_desired(&port));
    // the aborted session's own cleanup announces no second stop
    let fin = sup.session_terminated(&port, &SessionPhase::ManuallyStopped);
    assert!(fin.notes.is_empty());
}

#[test]
fn replug_auto_restarts_exactly_once() {
    let mut sup = Supervisor::new();
    sup.poll_cycle(vec![device("COM3")], true);
    let port = "COM3".to_string();
    assert!(sup.start_session(&port, 57600).result.is_ok());
    // unplug: session aborted, desire kept
    sup.poll_cycle(vec![], false);
    sup.session_terminated(&port, &SessionPhase::ManuallyStopped);
    assert_eq!(sup.session_count(), 0);
    assert!(sup.is_desired(&port));
    // replug: reconciliation starts it again, once, at the remembered rate
    let out = sup.poll_cycle(vec![device("COM3")], false);
    let starts: Vec<&Notification> = out
        .notes
        .iter()
        .filter(|n| matches!(n, Notification::SessionStarted { port: p } if p == "COM3"))
        .collect();
    assert_eq!(starts.len(), 1);
    let spawns: Vec<&Action> = out.actions.iter().filter(|a| matches!(a, Action::Spawn { .. })).collect();
    assert_eq!(spawns.len(), 1);
    assert_eq!(*spawns[0], Action::Spawn { port: "COM3".to_string(), baud: 57600 });
    assert!(sup.is_session_active(&port));
}

#[test]
fn idle_timeout_clears_desire_and_blocks_restart() {
    let mut sup = Supervisor::new();
    sup.poll_cycle(vec![device("COM3")], true);
    let port = "COM3".to_string();
    assert!(sup.start_session(&port, 9600).result.is_ok());

    let mut sess = ReadSession::new(port.clone(), 9600);
    sess.step(SessionEvent::Opened);
    sess.step(SessionEvent::ResetDone { now_ms: 0 });
    let n = sess.step(SessionEvent::ReadTimeout { now_ms: 10_001 });
    assert_eq!(sess.phase, SessionPhase::TimedOut);
    assert_eq!(n.len(), 2);

    let fin = sup.session_terminated(&port, &sess.phase);
    assert_eq!(
        fin.notes,
        vec![Notification::SessionStopped { port: "COM3".to_string(), reason: None }]
    );
    assert!(!sup.is_desired(&port));

    // the device is still present, but nothing is auto-restarted
    let out = sup.poll_cycle(vec![device("COM3")], false);
    assert!(out.actions.is_empty());
    assert!(!out
        .notes
        .iter()
        .any(|n| matches!(n, Notification::SessionStarted { .. })));
    assert_eq!(sup.session_count(), 0);
}

#[test]
fn poll_cycle_announces_scan_completion() {
    let mut sup = Supervisor::new();
    // on-demand scan: announced even when nothing changed
    let out = sup.poll_cycle(vec![], true);
    assert_eq!(out.notes.len(), 1);
    assert!(matches!(&out.notes[0], Notification::ScanComplete { devices } if devices.is_empty()));
    // background cycle with no change: silent
    let out = sup.poll_cycle(vec![], false);
    assert!(out.notes.is_empty());
    // background cycle with a change: announced after the change notification
    let out = sup.poll_cycle(vec![device("COM3")], false);
    assert_eq!(out.notes.len(), 2);
    assert!(matches!(&out.notes[0], Notification::DevicesChanged { .. }));
    assert!(matches!(&out.notes[1], Notification::ScanComplete { devices } if devices.len() == 1));
}

#[test]
fn watcher_flag_rejects_double_transitions() {
    let mut sup = Supervisor::new();
    assert!(!sup.watcher_running());
    match sup.stop_watcher() {
        Err(AppError::Resource(msg)) => assert_eq!(msg, "Watcher not running"),
        _ => panic!("expected an error"),
    }
    assert!(sup.start_watcher().is_ok());
    assert!(sup.watcher_running());
    match sup.start_watcher() {
        Err(AppError::Resource(msg)) => assert_eq!(msg, "Watcher already running"),
        _ => panic!("expected an error"),
    }
    assert!(sup.stop_watcher().is_ok());
    assert!(!sup.watcher_running());
}

#[test]
fn error_messages_carry_their_category() {
    let e = AppError::Resource("Not reading from this port".to_string());
    assert_eq!(e.message(), "Resource Not Available: Not reading from this port");
    let e = AppError::Serial("boom".to_string());
    assert_eq!(e.message(), "Serial Port Error: boom");
}

#[test]
fn default_settings_values() {
    let s = default_settings();
    assert_eq!(s.theme, "system");
    assert_eq!(s.baud_rate_default, 9600);
    assert!(s.auto_connect_enabled);
    assert_eq!(s.default_doctor_name, "");
    assert_eq!(s.log_level, "info");
    assert_eq!(s.log_file_location, "");
    assert_eq!(s.sqlite_file_path, "");
}
