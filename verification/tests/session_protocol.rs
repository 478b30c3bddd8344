use device_supervisor::notify::Notification;
use device_supervisor::session::{ReadSession, SessionEvent, SessionPhase};
use device_supervisor::IDLE_TIMEOUT_MS;

fn open_session(port: &str) -> ReadSession {
    let mut s = ReadSession::new(port.to_string(), 9600);
    assert_eq!(s.phase, SessionPhase::Opening);
    let n = s.step(SessionEvent::Opened);
    assert!(n.is_empty());
    assert_eq!(s.phase, SessionPhase::HandshakeReset);
    let n = s.step(SessionEvent::ResetDone { now_ms: 1000 });
    assert!(n.is_empty());
    assert_eq!(s.phase, SessionPhase::Reading);
    s
}

#[test]
fn open_failure_is_fatal_and_reported() {
    let mut s = ReadSession::new("COM3".to_string(), 9600);
    let n = s.step(SessionEvent::SetupFailed { error: "Access denied".to_string() });
    assert_eq!(s.phase, SessionPhase::FatalError);
    assert_eq!(
        n,
        vec![
            Notification::Disconnected {
                port: "COM3".to_string(),
                error: "Access denied".to_string(),
            },
            Notification::ReadError {
                port: "COM3".to_string(),
                error: "Access denied".to_string(),
            },
        ]
    );
}

#[test]
fn nonempty_record_is_emitted_trimmed() {
    let mut s = open_session("COM3");
    let n = s.step(SessionEvent::Line { text: " hello \r\n".to_string(), now_ms: 2000 });
    assert_eq!(s.phase, SessionPhase::Reading);
    assert_eq!(
        n,
        vec![Notification::DataReceived { port: "COM3".to_string(), data: "hello".to_string() }]
    );
    assert_eq!(s.last_data_ms, 2000);
}

#[test]
fn empty_record_is_ignored_and_keeps_idle_timer() {
    let mut s = open_session("COM3");
    let n = s.step(SessionEvent::Line { text: "\r\n".to_string(), now_ms: 5000 });
    assert!(n.is_empty());
    assert_eq!(s.phase, SessionPhase::Reading);
    assert_eq!(s.last_data_ms, 1000);
}

#[test]
fn sentinel_record_completes_the_cycle() {
    let mut s = open_session("COM3");
    let n = s.step(SessionEvent::Line { text: "3 cycles completed\r\n".to_string(), now_ms: 2500 });
    assert_eq!(s.phase, SessionPhase::CycleComplete);
    assert_eq!(
        n,
        vec![
            Notification::DataReceived {
                port: "COM3".to_string(),
                data: "3 cycles completed".to_string(),
            },
            Notification::CycleComplete { port: "COM3".to_string() },
        ]
    );
}

#[test]
fn read_timeout_within_threshold_continues() {
    let mut s = open_session("COM3");
    let n = s.step(SessionEvent::ReadTimeout { now_ms: 1000 + IDLE_TIMEOUT_MS });
    assert!(n.is_empty());
    assert_eq!(s.phase, SessionPhase::Reading);
}

#[test]
fn read_timeout_past_threshold_times_out() {
    let mut s = open_session("COM3");
    let n = s.step(SessionEvent::ReadTimeout { now_ms: 1001 + IDLE_TIMEOUT_MS });
    assert_eq!(s.phase, SessionPhase::TimedOut);
    assert_eq!(n.len(), 2);
    assert_eq!(
        n[0],
        Notification::Disconnected {
            port: "COM3".to_string(),
            error: "Idle timeout: no data received".to_string(),
        }
    );
    assert!(matches!(&n[1], Notification::Timeout { port, .. } if port == "COM3"));
}

#[test]
fn data_resets_the_idle_timer() {
    let mut s = open_session("COM3");
    let n = s.step(SessionEvent::Line { text: "x".to_string(), now_ms: 9000 });
    assert_eq!(n.len(), 1);
    let n = s.step(SessionEvent::ReadTimeout { now_ms: 9000 + IDLE_TIMEOUT_MS });
    assert!(n.is_empty());
    assert_eq!(s.phase, SessionPhase::Reading);
    let n = s.step(SessionEvent::ReadTimeout { now_ms: 9001 + IDLE_TIMEOUT_MS });
    assert_eq!(s.phase, SessionPhase::TimedOut);
    assert_eq!(n.len(), 2);
}

#[test]
fn eof_disconnects() {
    let mut s = open_session("COM3");
    let n = s.step(SessionEvent::Eof);
    assert_eq!(s.phase, SessionPhase::Disconnected);
    assert_eq!(
        n,
        vec![Notification::Disconnected {
            port: "COM3".to_string(),
            error: "Connection lost (EOF)".to_string(),
        }]
    );
}

#[test]
fn io_error_is_fatal() {
    let mut s = open_session("COM3");
    let n = s.step(SessionEvent::IoError { error: "device reports readiness".to_string() });
    assert_eq!(s.phase, SessionPhase::FatalError);
    assert_eq!(
        n,
        vec![Notification::Disconnected {
            port: "COM3".to_string(),
            error: "device reports readiness".to_string(),
        }]
    );
}

#[test]
fn abort_signal_stops_silently() {
    let mut s = open_session("COM3");
    let n = s.step(SessionEvent::AbortSignal);
    assert!(n.is_empty());
    assert_eq!(s.phase, SessionPhase::ManuallyStopped);
}
