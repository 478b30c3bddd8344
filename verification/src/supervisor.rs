//! The session supervisor: the snapshot of the last scan, the set of ports
//! the operator wants read, and the registry of running sessions, together
//! with the operations that reconcile them.
//!
//! Each operation returns the actions the surrounding task layer must
//! perform (spawn or abort a session task) and the notifications to publish,
//! in order. The transition of every operation is stated as a spec function
//! over the supervisor's mathematical value, and each executable operation
//! is proved to follow it exactly.

use vstd::prelude::*;
use vstd::string::*;
use crate::device::{DeviceV, UsbDevice, dviews};
use crate::notify::{Action, ActionV, AppError, AppErrorV, Notification, NotificationV, aviews, nviews};
use crate::session::{SessionPhase, clears_desire, is_terminal};

verus! {

/// One desired-session entry: the operator wants this port read
/// continuously, at this baud rate.
#[derive(Debug)]
pub struct Desire {
    /// The port to read.
    pub port: String,
    /// The baud rate to read it at.
    pub baud: u32,
}

/// The mathematical value of a [`Desire`].
pub struct DesireV {
    pub port: Seq<char>,
    pub baud: u32,
}

impl View for Desire {
    type V = DesireV;

    open spec fn view(&self) -> DesireV {
        DesireV { port: self.port@, baud: self.baud }
    }
}

/// The views of a sequence of strings.
pub open spec fn sviews(s: Seq<String>) -> Seq<Seq<char>> {
    s.map_values(|x: String| x@)
}

/// The views of a sequence of desires.
pub open spec fn desviews(s: Seq<Desire>) -> Seq<DesireV> {
    s.map_values(|d: Desire| d@)
}

/// Some device in the sequence has this port.
pub open spec fn has_port(devs: Seq<DeviceV>, port: Seq<char>) -> bool {
    exists|i: int| 0 <= i < devs.len() && devs[i].port == port
}

/// The registry holds this port.
pub open spec fn reg_has(reg: Seq<Seq<char>>, port: Seq<char>) -> bool {
    exists|i: int| 0 <= i < reg.len() && reg[i] == port
}

/// The desired set holds this port.
pub open spec fn desired_has(des: Seq<DesireV>, port: Seq<char>) -> bool {
    exists|i: int| 0 <= i < des.len() && des[i].port == port
}

/// The baud rate the desired set records for this port (meaningful only when
/// [`desired_has`] holds; unique under well-formedness).
pub open spec fn desire_baud(des: Seq<DesireV>, port: Seq<char>) -> u32 {
    des[choose|i: int| 0 <= i < des.len() && des[i].port == port].baud
}

/// No two devices share a port.
pub open spec fn distinct_ports(devs: Seq<DeviceV>) -> bool {
    forall|i: int, j: int| 0 <= i < j < devs.len() ==> devs[i].port != devs[j].port
}

/// No two entries are equal.
pub open spec fn distinct_seqs(s: Seq<Seq<char>>) -> bool {
    forall|i: int, j: int| 0 <= i < j < s.len() ==> s[i] != s[j]
}

/// No two desires share a port.
pub open spec fn distinct_desires(des: Seq<DesireV>) -> bool {
    forall|i: int, j: int| 0 <= i < j < des.len() ==> des[i].port != des[j].port
}

/// The registry with this port taken out (the sequence is unchanged when the
/// port is absent).
pub open spec fn remove_port(reg: Seq<Seq<char>>, port: Seq<char>) -> Seq<Seq<char>> {
    if reg_has(reg, port) {
        reg.remove(choose|i: int| 0 <= i < reg.len() && reg[i] == port)
    } else {
        reg
    }
}

/// The desired set with this port taken out.
pub open spec fn remove_desire(des: Seq<DesireV>, port: Seq<char>) -> Seq<DesireV> {
    if desired_has(des, port) {
        des.remove(choose|i: int| 0 <= i < des.len() && des[i].port == port)
    } else {
        des
    }
}

/// The session supervisor's state.
pub struct Supervisor {
    /// The device set observed on the previous scan.
    snapshot: Vec<UsbDevice>,
    /// The ports the operator wants read continuously.
    desired: Vec<Desire>,
    /// The ports with a live read session, at most one entry per port.
    registry: Vec<String>,
    /// Whether the background poll loop is running.
    watcher_active: bool,
}

/// The mathematical value of a [`Supervisor`].
pub struct SupervisorV {
    pub snapshot: Seq<DeviceV>,
    pub desired: Seq<DesireV>,
    pub registry: Seq<Seq<char>>,
    pub watcher_active: bool,
}

impl View for Supervisor {
    type V = SupervisorV;

    closed spec fn view(&self) -> SupervisorV {
        SupervisorV {
            snapshot: dviews(self.snapshot@),
            desired: desviews(self.desired@),
            registry: sviews(self.registry@),
            watcher_active: self.watcher_active,
        }
    }
}

impl SupervisorV {
    /// Well-formedness: no duplicate port anywhere. In particular the
    /// registry never holds two entries for the same port.
    pub open spec fn wf(self) -> bool {
        &&& distinct_ports(self.snapshot)
        &&& distinct_desires(self.desired)
        &&& distinct_seqs(self.registry)
    }

    /// The initial state: nothing observed, nothing desired, nothing
    /// running, watcher stopped.
    pub open spec fn init() -> SupervisorV {
        SupervisorV {
            snapshot: Seq::empty(),
            desired: Seq::empty(),
            registry: Seq::empty(),
            watcher_active: false,
        }
    }
}

impl Supervisor {
    /// Well-formedness of the concrete state.
    pub open spec fn wf(&self) -> bool {
        self@.wf()
    }

    /// A fresh supervisor.
    pub fn new() -> (s: Supervisor)
        ensures
            s@ == SupervisorV::init(),
            s.wf(),
    {
        let s = Supervisor {
            snapshot: Vec::new(),
            desired: Vec::new(),
            registry: Vec::new(),
            watcher_active: false,
        };
        proof {
            assert(s@.snapshot =~= SupervisorV::init().snapshot);
            assert(s@.desired =~= SupervisorV::init().desired);
            assert(s@.registry =~= SupervisorV::init().registry);
        }
        s
    }
}

/// The index of the port in the registry, if present; under
/// well-formedness, the only one.
fn find_port_index(v: &Vec<String>, port: &String) -> (r: Option<usize>)
    ensures
        match r {
            Some(i) => i < v@.len() && v@[i as int]@ == port@ && (forall|j: int|
                0 <= j < i ==> v@[j]@ != port@),
            None => forall|j: int| 0 <= j < v@.len() ==> v@[j]@ != port@,
        },
{
    let mut i: usize = 0;
    while i < v.len()
        invariant
            i <= v@.len(),
            forall|j: int| 0 <= j < i ==> v@[j]@ != port@,
        decreases v@.len() - i,
    {
        if v[i].eq(port) {
            return Some(i);
        }
        i = i + 1;
    }
    None
}

/// The index of the port in the desired set, if present.
fn find_desire_index(v: &Vec<Desire>, port: &String) -> (r: Option<usize>)
    ensures
        match r {
            Some(i) => i < v@.len() && v@[i as int]@.port == port@ && (forall|j: int|
                0 <= j < i ==> v@[j]@.port != port@),
            None => forall|j: int| 0 <= j < v@.len() ==> v@[j]@.port != port@,
        },
{
    let mut i: usize = 0;
    while i < v.len()
        invariant
            i <= v@.len(),
            forall|j: int| 0 <= j < i ==> v@[j]@.port != port@,
        decreases v@.len() - i,
    {
        if v[i].port.eq(port) {
            return Some(i);
        }
        i = i + 1;
    }
    None
}

/// Whether some device in the list has this port.
fn devices_have_port(v: &Vec<UsbDevice>, port: &String) -> (r: bool)
    ensures
        r == has_port(dviews(v@), port@),
{
    let mut i: usize = 0;
    while i < v.len()
        invariant
            i <= v@.len(),
            forall|j: int| 0 <= j < i ==> dviews(v@)[j].port != port@,
        decreases v@.len() - i,
    {
        if v[i].port.eq(port) {
            proof {
                assert(dviews(v@)[i as int].port == port@);
            }
            return true;
        }
        i = i + 1;
    }
    false
}

/// A copy of a device list whose elements equal the originals.
pub fn clone_devices(v: &Vec<UsbDevice>) -> (r: Vec<UsbDevice>)
    ensures
        r@ == v@,
{
    let mut r: Vec<UsbDevice> = Vec::new();
    let mut i: usize = 0;
    while i < v.len()
        invariant
            i <= v@.len(),
            r@ == v@.take(i as int),
        decreases v@.len() - i,
    {
        r.push(v[i].clone());
        proof {
            assert(r@ =~= v@.take(i + 1));
        }
        i = i + 1;
    }
    proof {
        assert(v@.take(v@.len() as int) =~= v@);
    }
    r
}

/// The error detail reported when a start is requested for a port that
/// already has a live session.
pub open spec fn busy_text() -> Seq<char> {
    "Already reading from this port"@
}

/// The error detail reported when a stop is requested for a port with no
/// live session.
pub open spec fn not_active_text() -> Seq<char> {
    "Not reading from this port"@
}

/// The error detail reported when the watcher is started twice.
pub open spec fn watcher_running_text() -> Seq<char> {
    "Watcher already running"@
}

/// The error detail reported when the watcher is stopped while not running.
pub open spec fn watcher_stopped_text() -> Seq<char> {
    "Watcher not running"@
}

/// The reason attached to a stop forced by physical device removal.
pub open spec fn removed_reason() -> Seq<char> {
    "Device physically removed"@
}

/// The result of a supervisor operation: whether it succeeded, what the task
/// layer must do, and what to publish.
pub struct Outcome {
    /// Success, or the error to hand to the immediate caller.
    pub result: Result<(), AppError>,
    /// Task-layer actions, in order.
    pub actions: Vec<Action>,
    /// Notifications to publish, in order.
    pub notes: Vec<Notification>,
}

/// The spec-level counterpart of an operation's outcome.
pub struct OutcomeV {
    pub state: SupervisorV,
    pub ok: bool,
    pub actions: Seq<ActionV>,
    pub notes: Seq<NotificationV>,
}

/// The transition of `start_session`: the desire is recorded (idempotently);
/// a session is spawned and registered unless the port already has one, in
/// which case the request fails with no further state change.
pub open spec fn st_start(s: SupervisorV, port: Seq<char>, baud: u32) -> OutcomeV {
    let desired2 = if desired_has(s.desired, port) {
        s.desired
    } else {
        s.desired.push(DesireV { port, baud })
    };
    if reg_has(s.registry, port) {
        OutcomeV {
            state: SupervisorV { desired: desired2, ..s },
            ok: false,
            actions: Seq::empty(),
            notes: Seq::empty(),
        }
    } else {
        OutcomeV {
            state: SupervisorV { desired: desired2, registry: s.registry.push(port), ..s },
            ok: true,
            actions: seq![ActionV::Spawn { port, baud }],
            notes: seq![NotificationV::SessionStarted { port }],
        }
    }
}

/// The transition of `stop_session`: the desire is dropped; if a session is
/// registered it is aborted, deregistered and announced as stopped,
/// otherwise the request fails.
pub open spec fn st_stop(s: SupervisorV, port: Seq<char>) -> OutcomeV {
    let desired2 = remove_desire(s.desired, port);
    if reg_has(s.registry, port) {
        OutcomeV {
            state: SupervisorV {
                desired: desired2,
                registry: remove_port(s.registry, port),
                ..s
            },
            ok: true,
            actions: seq![ActionV::Abort { port }],
            notes: seq![NotificationV::SessionStopped { port, reason: None }],
        }
    } else {
        OutcomeV {
            state: SupervisorV { desired: desired2, ..s },
            ok: false,
            actions: Seq::empty(),
            notes: Seq::empty(),
        }
    }
}

/// The transition of `session_terminated`: the session's own registry entry
/// is dropped (a no-op when the device-removal cleanup already dropped it);
/// a self-caused termination also drops the desire; "session stopped" is
/// published only by the call that actually removed the entry, and not for
/// an externally stopped session, whose stopper already published it.
pub open spec fn st_terminated(s: SupervisorV, port: Seq<char>, phase: SessionPhase) -> OutcomeV {
    let had = reg_has(s.registry, port);
    OutcomeV {
        state: SupervisorV {
            registry: remove_port(s.registry, port),
            desired: if clears_desire(phase) {
                remove_desire(s.desired, port)
            } else {
                s.desired
            },
            ..s
        },
        ok: had,
        actions: Seq::empty(),
        notes: if had && phase != SessionPhase::ManuallyStopped {
            seq![NotificationV::SessionStopped { port, reason: None }]
        } else {
            Seq::empty()
        },
    }
}

impl Supervisor {
    /// Whether a session is registered for the port.
    pub fn is_session_active(&self, port: &String) -> (r: bool)
        ensures
            r == reg_has(self@.registry, port@),
    {
        let r = find_port_index(&self.registry, port);
        proof {
            if r is Some {
                assert(sviews(self.registry@)[r->Some_0 as int] == port@);
            }
        }
        match r {
            Some(_) => true,
            None => false,
        }
    }

    /// Whether the operator currently wants the port read.
    pub fn is_desired(&self, port: &String) -> (r: bool)
        ensures
            r == desired_has(self@.desired, port@),
    {
        let r = find_desire_index(&self.desired, port);
        proof {
            if r is Some {
                assert(desviews(self.desired@)[r->Some_0 as int].port == port@);
            }
        }
        match r {
            Some(_) => true,
            None => false,
        }
    }

    /// The number of registered sessions.
    pub fn session_count(&self) -> (r: usize)
        ensures
            r == self@.registry.len(),
    {
        self.registry.len()
    }

    /// The number of desired-session entries.
    pub fn desired_count(&self) -> (r: usize)
        ensures
            r == self@.desired.len(),
    {
        self.desired.len()
    }

    /// Whether the background poll loop is running.
    pub fn watcher_running(&self) -> (r: bool)
        ensures
            r == self@.watcher_active,
    {
        self.watcher_active
    }

    /// The device set observed on the previous scan.
    pub fn snapshot_devices(&self) -> (r: &Vec<UsbDevice>)
        ensures
            dviews(r@) == self@.snapshot,
    {
        &self.snapshot
    }

    /// Records the desire to read the port and starts a session for it,
    /// unless one is already live, in which case only the (idempotent)
    /// desire is recorded and a busy error is returned.
    pub fn start_session(&mut self, port: &String, baud: u32) -> (r: Outcome)
        requires
            old(self).wf(),
        ensures
            final(self).wf(),
            final(self)@ == st_start(old(self)@, port@, baud).state,
            r.result is Ok <==> st_start(old(self)@, port@, baud).ok,
            r.result is Err ==> (r.result matches Err(e) && e@ == AppErrorV::Resource(
                busy_text(),
            )),
            aviews(r.actions@) == st_start(old(self)@, port@, baud).actions,
            nviews(r.notes@) == st_start(old(self)@, port@, baud).notes,
    {
        let ghost st = st_start(old(self)@, port@, baud);
        match find_desire_index(&self.desired, port) {
            Some(i) => {
                proof {
                    assert(desviews(self.desired@)[i as int].port == port@);
                    assert(desviews(self.desired@) =~= st.state.desired);
                }
            },
            None => {
                proof {
                    assert forall|j: int| 0 <= j < desviews(self.desired@).len()
                        implies desviews(self.desired@)[j].port != port@ by {
                        assert(self.desired@[j]@.port != port@);
                    }
                    assert(!desired_has(old(self)@.desired, port@));
                }
                self.desired.push(Desire { port: port.clone(), baud });
                proof {
                    assert(desviews(self.desired@) =~= st.state.desired);
                }
            },
        }
        let mut actions: Vec<Action> = Vec::new();
        let mut notes: Vec<Notification> = Vec::new();
        let result = match find_port_index(&self.registry, port) {
            Some(i) => {
                proof {
                    assert(sviews(self.registry@)[i as int] == port@);
                    assert(reg_has(old(self)@.registry, port@));
                }
                Err(AppError::Resource(String::from_str("Already reading from this port")))
            },
            None => {
                proof {
                    assert forall|j: int| 0 <= j < sviews(self.registry@).len()
                        implies sviews(self.registry@)[j] != port@ by {
                        assert(self.registry@[j]@ != port@);
                    }
                    assert(!reg_has(old(self)@.registry, port@));
                }
                self.registry.push(port.clone());
                actions.push(Action::Spawn { port: port.clone(), baud });
                notes.push(Notification::SessionStarted { port: port.clone() });
                proof {
                    assert(sviews(self.registry@) =~= st.state.registry);
                }
                Ok(())
            },
        };
        proof {
            assert(aviews(actions@) =~= st.actions);
            assert(nviews(notes@) =~= st.notes);
            assert(final(self)@ == st.state);
        }
        Outcome { result, actions, notes }
    }

    /// Drops the desire to read the port; aborts, deregisters and announces
    /// the live session if there is one, and fails otherwise.
    pub fn stop_session(&mut self, port: &String) -> (r: Outcome)
        requires
            old(self).wf(),
        ensures
            final(self).wf(),
            final(self)@ == st_stop(old(self)@, port@).state,
            r.result is Ok <==> st_stop(old(self)@, port@).ok,
            r.result is Err ==> (r.result matches Err(e) && e@ == AppErrorV::Resource(
                not_active_text(),
            )),
            aviews(r.actions@) == st_stop(old(self)@, port@).actions,
            nviews(r.notes@) == st_stop(old(self)@, port@).notes,
    {
        let ghost st = st_stop(old(self)@, port@);
        match find_desire_index(&self.desired, port) {
            Some(i) => {
                proof {
                    lemma_remove_desire_at(desviews(self.desired@), port@, i as int);
                }
                self.desired.remove(i);
                proof {
                    assert(desviews(self.desired@) =~= remove_desire(
                        old(self)@.desired,
                        port@,
                    ));
                }
            },
            None => {
                proof {
                    assert(desviews(self.desired@) =~= remove_desire(
                        old(self)@.desired,
                        port@,
                    ));
                }
            },
        }
        let mut actions: Vec<Action> = Vec::new();
        let mut notes: Vec<Notification> = Vec::new();
        let result = match find_port_index(&self.registry, port) {
            Some(i) => {
                proof {
                    lemma_remove_port_at(sviews(self.registry@), port@, i as int);
                }
                self.registry.remove(i);
                actions.push(Action::Abort { port: port.clone() });
                notes.push(Notification::SessionStopped { port: port.clone(), reason: None });
                proof {
                    assert(sviews(self.registry@) =~= remove_port(old(self)@.registry, port@));
                }
                Ok(())
            },
            None => {
                Err(AppError::Resource(String::from_str("Not reading from this port")))
            },
        };
        proof {
            assert(aviews(actions@) =~= st.actions);
            assert(nviews(notes@) =~= st.notes);
            lemma_remove_port_distinct(old(self)@.registry, port@);
            lemma_remove_desire_distinct(old(self)@.desired, port@);
            assert(final(self)@ == st.state);
        }
        Outcome { result, actions, notes }
    }

    /// A read session for the port reached the given terminal phase and
    /// cleans itself up.
    pub fn session_terminated(&mut self, port: &String, phase: &SessionPhase) -> (r: Outcome)
        requires
            old(self).wf(),
            is_terminal(*phase),
        ensures
            final(self).wf(),
            final(self)@ == st_terminated(old(self)@, port@, *phase).state,
            r.result is Ok <==> st_terminated(old(self)@, port@, *phase).ok,
            r.result is Err ==> (r.result matches Err(e) && e@ == AppErrorV::Resource(
                not_active_text(),
            )),
            aviews(r.actions@) == st_terminated(old(self)@, port@, *phase).actions,
            nviews(r.notes@) == st_terminated(old(self)@, port@, *phase).notes,
    {
        let ghost st = st_terminated(old(self)@, port@, *phase);
        let externally_stopped = match phase {
            SessionPhase::ManuallyStopped => true,
            _ => false,
        };
        if !externally_stopped {
            match find_desire_index(&self.desired, port) {
                Some(i) => {
                    proof {
                        lemma_remove_desire_at(desviews(self.desired@), port@, i as int);
                    }
                    self.desired.remove(i);
                },
                None => {},
            }
            proof {
                assert(desviews(self.desired@) =~= remove_desire(old(self)@.desired, port@));
            }
        }
        let mut notes: Vec<Notification> = Vec::new();
        let result = match find_port_index(&self.registry, port) {
            Some(i) => {
                proof {
                    lemma_remove_port_at(sviews(self.registry@), port@, i as int);
                }
                self.registry.remove(i);
                if !externally_stopped {
                    notes.push(Notification::SessionStopped { port: port.clone(), reason: None });
                }
                proof {
                    assert(sviews(self.registry@) =~= remove_port(old(self)@.registry, port@));
                }
                Ok(())
            },
            None => {
                Err(AppError::Resource(String::from_str("Not reading from this port")))
            },
        };
        proof {
            assert(nviews(notes@) =~= st.notes);
            lemma_remove_port_distinct(old(self)@.registry, port@);
            lemma_remove_desire_distinct(old(self)@.desired, port@);
            assert(final(self)@ == st.state);
            assert(aviews(Seq::<Action>::empty()) =~= st.actions);
        }
        Outcome { result, actions: Vec::new(), notes }
    }

    /// Marks the background poll loop as running; fails if it already is.
    pub fn start_watcher(&mut self) -> (r: Result<(), AppError>)
        requires
            old(self).wf(),
        ensures
            final(self).wf(),
            final(self)@ == (SupervisorV { watcher_active: true, ..old(self)@ }),
            r is Ok <==> !old(self)@.watcher_active,
            r is Err ==> (r matches Err(e) && e@ == AppErrorV::Resource(watcher_running_text())),
    {
        if self.watcher_active {
            Err(AppError::Resource(String::from_str("Watcher already running")))
        } else {
            self.watcher_active = true;
            Ok(())
        }
    }

    /// Marks the background poll loop as stopped; fails if it was not
    /// running.
    pub fn stop_watcher(&mut self) -> (r: Result<(), AppError>)
        requires
            old(self).wf(),
        ensures
            final(self).wf(),
            final(self)@ == (SupervisorV { watcher_active: false, ..old(self)@ }),
            r is Ok <==> old(self)@.watcher_active,
            r is Err ==> (r matches Err(e) && e@ == AppErrorV::Resource(watcher_stopped_text())),
    {
        if !self.watcher_active {
            Err(AppError::Resource(String::from_str("Watcher not running")))
        } else {
            self.watcher_active = false;
            Ok(())
        }
    }
}

/// The devices of `cur` whose port is absent from `prev`, in scan order.
pub open spec fn added_of(prev: Seq<DeviceV>, cur: Seq<DeviceV>) -> Seq<DeviceV>
    decreases cur.len(),
{
    if cur.len() == 0 {
        Seq::empty()
    } else {
        added_of(prev, cur.drop_last()) + (if !has_port(prev, cur.last().port) {
            seq![cur.last()]
        } else {
            Seq::empty()
        })
    }
}

/// The devices of `prev` whose port is absent from `cur`, in snapshot order.
pub open spec fn removed_of(prev: Seq<DeviceV>, cur: Seq<DeviceV>) -> Seq<DeviceV>
    decreases prev.len(),
{
    if prev.len() == 0 {
        Seq::empty()
    } else {
        removed_of(prev.drop_last(), cur) + (if !has_port(cur, prev.last().port) {
            seq![prev.last()]
        } else {
            Seq::empty()
        })
    }
}

/// The result of tearing down sessions for removed devices: the registry
/// left over, the aborts to perform and the stops to announce.
pub struct RemovalV {
    pub registry: Seq<Seq<char>>,
    pub actions: Seq<ActionV>,
    pub notes: Seq<NotificationV>,
}

/// Tears down, in order, the session of every removed device that has one:
/// its registry entry goes, an abort is requested, and exactly one stop with
/// the removal reason is announced — by this cleanup and no one else,
/// because deregistering is what licenses the announcement.
pub open spec fn spec_removals(reg: Seq<Seq<char>>, removed: Seq<DeviceV>) -> RemovalV
    decreases removed.len(),
{
    if removed.len() == 0 {
        RemovalV { registry: reg, actions: Seq::empty(), notes: Seq::empty() }
    } else {
        let port = removed[0].port;
        let hit = reg_has(reg, port);
        let rest = spec_removals(remove_port(reg, port), removed.drop_first());
        RemovalV {
            registry: rest.registry,
            actions: (if hit {
                seq![ActionV::Abort { port }]
            } else {
                Seq::empty()
            }) + rest.actions,
            notes: (if hit {
                seq![
                    NotificationV::SessionStopped { port, reason: Some(removed_reason()) },
                ]
            } else {
                Seq::empty()
            }) + rest.notes,
        }
    }
}

/// The transition of `scan_update`, the snapshot differ: the snapshot is
/// replaced unconditionally; when the device set changed, removed devices'
/// sessions are torn down and one devices-changed notification closes the
/// announcements. The desired set is untouched — a desire survives physical
/// removal, which is what allows auto-restart on replug.
pub open spec fn st_scan(s: SupervisorV, cur: Seq<DeviceV>) -> OutcomeV {
    let added = added_of(s.snapshot, cur);
    let removed = removed_of(s.snapshot, cur);
    if added.len() == 0 && removed.len() == 0 {
        OutcomeV {
            state: SupervisorV { snapshot: cur, ..s },
            ok: true,
            actions: Seq::empty(),
            notes: Seq::empty(),
        }
    } else {
        let rem = spec_removals(s.registry, removed);
        OutcomeV {
            state: SupervisorV { snapshot: cur, registry: rem.registry, ..s },
            ok: true,
            actions: rem.actions,
            notes: rem.notes + seq![NotificationV::DevicesChanged { added, removed }],
        }
    }
}

/// The result of the reconciliation walk: the registry grown by the started
/// ports, the spawns to perform and the starts to announce.
pub struct ReconcileV {
    pub registry: Seq<Seq<char>>,
    pub actions: Seq<ActionV>,
    pub notes: Seq<NotificationV>,
}

/// Walks the observed devices in order and starts a session for every one
/// whose port is desired but not registered.
pub open spec fn spec_reconcile(
    devs: Seq<DeviceV>,
    desired: Seq<DesireV>,
    reg: Seq<Seq<char>>,
) -> ReconcileV
    decreases devs.len(),
{
    if devs.len() == 0 {
        ReconcileV { registry: reg, actions: Seq::empty(), notes: Seq::empty() }
    } else {
        let port = devs[0].port;
        let start = desired_has(desired, port) && !reg_has(reg, port);
        let reg2 = if start {
            reg.push(port)
        } else {
            reg
        };
        let rest = spec_reconcile(devs.drop_first(), desired, reg2);
        ReconcileV {
            registry: rest.registry,
            actions: (if start {
                seq![ActionV::Spawn { port, baud: desire_baud(desired, port) }]
            } else {
                Seq::empty()
            }) + rest.actions,
            notes: (if start {
                seq![NotificationV::SessionStarted { port }]
            } else {
                Seq::empty()
            }) + rest.notes,
        }
    }
}

/// The transition of `reconcile`: auto-restarts a session for every
/// observed, desired, inactive port.
pub open spec fn st_reconcile(s: SupervisorV) -> OutcomeV {
    let r = spec_reconcile(s.snapshot, s.desired, s.registry);
    OutcomeV {
        state: SupervisorV { registry: r.registry, ..s },
        ok: true,
        actions: r.actions,
        notes: r.notes,
    }
}

/// The transition of `poll_cycle`: the differ runs first, then — when the
/// set changed or completion was explicitly requested — the scan-complete
/// announcement, then reconciliation over the refreshed snapshot.
pub open spec fn st_poll(s: SupervisorV, cur: Seq<DeviceV>, announce: bool) -> OutcomeV {
    let sc = st_scan(s, cur);
    let changed = added_of(s.snapshot, cur).len() > 0 || removed_of(s.snapshot, cur).len() > 0;
    let mid = if changed || announce {
        sc.notes + seq![NotificationV::ScanComplete { devices: cur }]
    } else {
        sc.notes
    };
    let rc = st_reconcile(sc.state);
    OutcomeV {
        state: rc.state,
        ok: true,
        actions: sc.actions + rc.actions,
        notes: mid + rc.notes,
    }
}

/// What a scan yields: the deltas, the task-layer actions and the
/// notifications, in order.
pub struct ScanOutcome {
    /// Whether the device set changed since the previous scan.
    pub changed: bool,
    /// Devices present now and absent before.
    pub added: Vec<UsbDevice>,
    /// Devices present before and absent now.
    pub removed: Vec<UsbDevice>,
    /// Task-layer actions, in order.
    pub actions: Vec<Action>,
    /// Notifications to publish, in order.
    pub notes: Vec<Notification>,
}

impl Supervisor {
    /// Compares the scanned device set to the previous snapshot, tears down
    /// sessions of removed devices, replaces the snapshot, and reports the
    /// deltas. The desired set is deliberately untouched.
    pub fn scan_update(&mut self, current: Vec<UsbDevice>) -> (r: ScanOutcome)
        requires
            old(self).wf(),
            distinct_ports(dviews(current@)),
        ensures
            final(self).wf(),
            final(self)@ == st_scan(old(self)@, dviews(current@)).state,
            dviews(r.added@) == added_of(old(self)@.snapshot, dviews(current@)),
            dviews(r.removed@) == removed_of(old(self)@.snapshot, dviews(current@)),
            r.changed == (added_of(old(self)@.snapshot, dviews(current@)).len() > 0
                || removed_of(old(self)@.snapshot, dviews(current@)).len() > 0),
            aviews(r.actions@) == st_scan(old(self)@, dviews(current@)).actions,
            nviews(r.notes@) == st_scan(old(self)@, dviews(current@)).notes,
    {
        let ghost s0 = old(self)@;
        let ghost curv = dviews(current@);
        let mut added: Vec<UsbDevice> = Vec::new();
        let mut i: usize = 0;
        while i < current.len()
            invariant
                curv == dviews(current@),
                i <= current@.len(),
                *self == *old(self),
                dviews(added@) == added_of(s0.snapshot, curv.take(i as int)),
                s0 == old(self)@,
            decreases current@.len() - i,
        {
            if !devices_have_port(&self.snapshot, &current[i].port) {
                proof {
                    assert(curv[i as int].port == current@[i as int]@.port);
                }
                added.push(current[i].clone());
            }
            i = i + 1;
            proof {
                assert(curv.take(i as int).drop_last() =~= curv.take(i - 1));
                assert(curv.take(i as int).last() == curv[i - 1]);
                assert(dviews(added@) =~= added_of(s0.snapshot, curv.take(i as int)));
            }
        }
        proof {
            assert(curv.take(curv.len() as int) =~= curv);
        }
        let mut removed: Vec<UsbDevice> = Vec::new();
        let mut k: usize = 0;
        while k < self.snapshot.len()
            invariant
                curv == dviews(current@),
                k <= self.snapshot@.len(),
                *self == *old(self),
                dviews(removed@) == removed_of(s0.snapshot.take(k as int), curv),
                s0 == old(self)@,
            decreases self.snapshot@.len() - k,
        {
            if !devices_have_port(&current, &self.snapshot[k].port) {
                proof {
                    assert(s0.snapshot[k as int].port == self.snapshot@[k as int]@.port);
                }
                removed.push(self.snapshot[k].clone());
            }
            k = k + 1;
            proof {
                assert(s0.snapshot.take(k as int).drop_last() =~= s0.snapshot.take(k - 1));
                assert(s0.snapshot.take(k as int).last() == s0.snapshot[k - 1]);
                assert(dviews(removed@) =~= removed_of(s0.snapshot.take(k as int), curv));
            }
        }
        proof {
            assert(s0.snapshot.take(s0.snapshot.len() as int) =~= s0.snapshot);
        }
        let ghost addv = added_of(s0.snapshot, curv);
        let ghost remv = removed_of(s0.snapshot, curv);
        let changed = added.len() > 0 || removed.len() > 0;
        let mut actions: Vec<Action> = Vec::new();
        let mut notes: Vec<Notification> = Vec::new();
        if changed {
            let ghost total = spec_removals(s0.registry, remv);
            proof {
                assert(remv.skip(0) =~= remv);
                assert(aviews(actions@) =~= Seq::<ActionV>::empty());
                assert(nviews(notes@) =~= Seq::<NotificationV>::empty());
                assert(Seq::<ActionV>::empty() + total.actions =~= total.actions);
                assert(Seq::<NotificationV>::empty() + total.notes =~= total.notes);
            }
            let mut n: usize = 0;
            while n < removed.len()
                invariant
                    n <= removed@.len(),
                    remv == dviews(removed@),
                    distinct_seqs(sviews(self.registry@)),
                    self.snapshot == old(self).snapshot,
                    self.desired == old(self).desired,
                    self.watcher_active == old(self).watcher_active,
                    total == spec_removals(s0.registry, remv),
                    total.registry == spec_removals(
                        sviews(self.registry@),
                        remv.skip(n as int),
                    ).registry,
                    total.actions == aviews(actions@) + spec_removals(
                        sviews(self.registry@),
                        remv.skip(n as int),
                    ).actions,
                    total.notes == nviews(notes@) + spec_removals(
                        sviews(self.registry@),
                        remv.skip(n as int),
                    ).notes,
                decreases removed@.len() - n,
            {
                let ghost reg_before = sviews(self.registry@);
                let ghost tail = remv.skip(n as int);
                proof {
                    assert(tail[0] == remv[n as int]);
                    assert(tail.drop_first() =~= remv.skip(n + 1));
                    assert(remv[n as int].port == removed@[n as int]@.port);
                }
                let port = &removed[n].port;
                match find_port_index(&self.registry, port) {
                    Some(idx) => {
                        proof {
                            assert(reg_before[idx as int] == port@);
                            assert(reg_has(reg_before, port@));
                            lemma_remove_port_at(reg_before, port@, idx as int);
                            lemma_remove_port_distinct(reg_before, port@);
                        }
                        self.registry.remove(idx);
                        proof {
                            assert(sviews(self.registry@) =~= remove_port(reg_before, port@));
                        }
                        actions.push(Action::Abort { port: port.clone() });
                        notes.push(Notification::SessionStopped {
                            port: port.clone(),
                            reason: Some(String::from_str("Device physically removed")),
                        });
                    },
                    None => {
                        proof {
                            assert forall|j: int| 0 <= j < reg_before.len()
                                implies reg_before[j] != port@ by {
                                assert(self.registry@[j]@ != port@);
                            }
                            assert(!reg_has(reg_before, port@));
                            assert(remove_port(reg_before, port@) == reg_before);
                        }
                    },
                }
                n = n + 1;
                proof {
                    assert(aviews(actions@) + spec_removals(
                        sviews(self.registry@),
                        remv.skip(n as int),
                    ).actions =~= total.actions);
                    assert(nviews(notes@) + spec_removals(
                        sviews(self.registry@),
                        remv.skip(n as int),
                    ).notes =~= total.notes);
                }
            }
            proof {
                assert(remv.skip(remv.len() as int) =~= Seq::<DeviceV>::empty());
                assert(aviews(actions@) + Seq::<ActionV>::empty() =~= aviews(actions@));
                assert(nviews(notes@) + Seq::<NotificationV>::empty() =~= nviews(notes@));
            }
            let added_copy = clone_devices(&added);
            let removed_copy = clone_devices(&removed);
            notes.push(Notification::DevicesChanged { added: added_copy, removed: removed_copy });
            proof {
                assert(nviews(notes@) =~= total.notes + seq![
                    NotificationV::DevicesChanged { added: addv, removed: remv },
                ]);
            }
        }
        self.snapshot = current;
        proof {
            assert(final(self)@ == st_scan(s0, curv).state);
            assert(aviews(actions@) == st_scan(s0, curv).actions);
            assert(nviews(notes@) == st_scan(s0, curv).notes);
        }
        ScanOutcome { changed, added, removed, actions, notes }
    }

    /// Starts a session for every observed device whose port is desired but
    /// has none, announcing each start.
    pub fn reconcile(&mut self) -> (r: Outcome)
        requires
            old(self).wf(),
        ensures
            final(self).wf(),
            final(self)@ == st_reconcile(old(self)@).state,
            r.result is Ok,
            aviews(r.actions@) == st_reconcile(old(self)@).actions,
            nviews(r.notes@) == st_reconcile(old(self)@).notes,
    {
        let ghost s0 = old(self)@;
        let ghost total = spec_reconcile(s0.snapshot, s0.desired, s0.registry);
        let mut actions: Vec<Action> = Vec::new();
        let mut notes: Vec<Notification> = Vec::new();
        proof {
            assert(s0.snapshot.skip(0) =~= s0.snapshot);
            assert(aviews(actions@) =~= Seq::<ActionV>::empty());
            assert(nviews(notes@) =~= Seq::<NotificationV>::empty());
            assert(Seq::<ActionV>::empty() + total.actions =~= total.actions);
            assert(Seq::<NotificationV>::empty() + total.notes =~= total.notes);
        }
        let mut i: usize = 0;
        while i < self.snapshot.len()
            invariant
                i <= self.snapshot@.len(),
                distinct_seqs(sviews(self.registry@)),
                self.snapshot == old(self).snapshot,
                self.desired == old(self).desired,
                self.watcher_active == old(self).watcher_active,
                s0 == old(self)@,
                s0.wf(),
                total == spec_reconcile(s0.snapshot, s0.desired, s0.registry),
                total.registry == spec_reconcile(
                    s0.snapshot.skip(i as int),
                    s0.desired,
                    sviews(self.registry@),
                ).registry,
                total.actions == aviews(actions@) + spec_reconcile(
                    s0.snapshot.skip(i as int),
                    s0.desired,
                    sviews(self.registry@),
                ).actions,
                total.notes == nviews(notes@) + spec_reconcile(
                    s0.snapshot.skip(i as int),
                    s0.desired,
                    sviews(self.registry@),
                ).notes,
            decreases self.snapshot@.len() - i,
        {
            let ghost reg_before = sviews(self.registry@);
            let ghost tail = s0.snapshot.skip(i as int);
            proof {
                assert(tail[0] == s0.snapshot[i as int]);
                assert(tail.drop_first() =~= s0.snapshot.skip(i + 1));
                assert(s0.snapshot[i as int].port == self.snapshot@[i as int]@.port);
            }
            let port = self.snapshot[i].port.clone();
            let desire = find_desire_index(&self.desired, &port);
            let active = find_port_index(&self.registry, &port);
            proof {
                match desire {
                    Some(j) => {
                        assert(desviews(self.desired@)[j as int].port == port@);
                    },
                    None => {
                        assert forall|j: int| 0 <= j < s0.desired.len()
                            implies s0.desired[j].port != port@ by {
                            assert(self.desired@[j]@.port != port@);
                        }
                    },
                }
                match active {
                    Some(j) => {
                        assert(reg_before[j as int] == port@);
                    },
                    None => {
                        assert forall|j: int| 0 <= j < reg_before.len()
                            implies reg_before[j] != port@ by {
                            assert(self.registry@[j]@ != port@);
                        }
                    },
                }
            }
            match (desire, active) {
                (Some(j), None) => {
                    proof {
                        let w = choose|w: int|
                            0 <= w < s0.desired.len() && s0.desired[w].port == port@;
                        if w != j {
                            if w < j {
                                assert(s0.desired[w].port != s0.desired[j as int].port);
                            } else {
                                assert(s0.desired[j as int].port != s0.desired[w].port);
                            }
                        }
                        assert(desire_baud(s0.desired, port@) == s0.desired[j as int].baud);
                    }
                    let baud = self.desired[j].baud;
                    self.registry.push(port.clone());
                    proof {
                        assert(sviews(self.registry@) =~= reg_before.push(port@));
                    }
                    actions.push(Action::Spawn { port: port.clone(), baud });
                    notes.push(Notification::SessionStarted { port });
                },
                _ => {},
            }
            i = i + 1;
            proof {
                assert(aviews(actions@) + spec_reconcile(
                    s0.snapshot.skip(i as int),
                    s0.desired,
                    sviews(self.registry@),
                ).actions =~= total.actions);
                assert(nviews(notes@) + spec_reconcile(
                    s0.snapshot.skip(i as int),
                    s0.desired,
                    sviews(self.registry@),
                ).notes =~= total.notes);
            }
        }
        proof {
            assert(s0.snapshot.skip(s0.snapshot.len() as int) =~= Seq::<DeviceV>::empty());
            assert(aviews(actions@) + Seq::<ActionV>::empty() =~= aviews(actions@));
            assert(nviews(notes@) + Seq::<NotificationV>::empty() =~= nviews(notes@));
            assert(final(self)@ == st_reconcile(s0).state);
        }
        Outcome { result: Ok(()), actions, notes }
    }

    /// One full poll cycle: diff and update against the scanned device set,
    /// announce scan completion when the set changed (or unconditionally,
    /// for an on-demand scan), then reconcile desired ports.
    pub fn poll_cycle(&mut self, current: Vec<UsbDevice>, announce: bool) -> (r: ScanOutcome)
        requires
            old(self).wf(),
            distinct_ports(dviews(current@)),
        ensures
            final(self).wf(),
            final(self)@ == st_poll(old(self)@, dviews(current@), announce).state,
            dviews(r.added@) == added_of(old(self)@.snapshot, dviews(current@)),
            dviews(r.removed@) == removed_of(old(self)@.snapshot, dviews(current@)),
            r.changed == (added_of(old(self)@.snapshot, dviews(current@)).len() > 0
                || removed_of(old(self)@.snapshot, dviews(current@)).len() > 0),
            aviews(r.actions@) == st_poll(old(self)@, dviews(current@), announce).actions,
            nviews(r.notes@) == st_poll(old(self)@, dviews(current@), announce).notes,
    {
        let ghost s0 = old(self)@;
        let ghost curv = dviews(current@);
        let current_copy = clone_devices(&current);
        let scan = self.scan_update(current);
        let changed = scan.changed;
        let mut actions = scan.actions;
        let mut notes = scan.notes;
        if changed || announce {
            notes.push(Notification::ScanComplete { devices: current_copy });
        }
        let mut rec = self.reconcile();
        actions.append(&mut rec.actions);
        notes.append(&mut rec.notes);
        proof {
            assert(aviews(actions@) =~= st_poll(s0, curv, announce).actions);
            assert(nviews(notes@) =~= st_poll(s0, curv, announce).notes);
        }
        ScanOutcome { changed, added: scan.added, removed: scan.removed, actions, notes }
    }
}

/// When the port's first occurrence is at `i`, removal by port is removal at
/// `i`.
pub(crate) proof fn lemma_remove_port_at(reg: Seq<Seq<char>>, port: Seq<char>, i: int)
    requires
        distinct_seqs(reg),
        0 <= i < reg.len(),
        reg[i] == port,
    ensures
        remove_port(reg, port) == reg.remove(i),
{
    assert(reg_has(reg, port));
    let k = choose|k: int| 0 <= k < reg.len() && reg[k] == port;
    if k != i {
        if k < i {
            assert(reg[k] != reg[i]);
        } else {
            assert(reg[i] != reg[k]);
        }
    }
}

pub(crate) proof fn lemma_remove_desire_at(des: Seq<DesireV>, port: Seq<char>, i: int)
    requires
        distinct_desires(des),
        0 <= i < des.len(),
        des[i].port == port,
    ensures
        remove_desire(des, port) == des.remove(i),
{
    assert(desired_has(des, port));
    let k = choose|k: int| 0 <= k < des.len() && des[k].port == port;
    if k != i {
        if k < i {
            assert(des[k].port != des[i].port);
        } else {
            assert(des[i].port != des[k].port);
        }
    }
}

/// Removing a port keeps the registry free of duplicates.
pub(crate) proof fn lemma_remove_port_distinct(reg: Seq<Seq<char>>, port: Seq<char>)
    requires
        distinct_seqs(reg),
    ensures
        distinct_seqs(remove_port(reg, port)),
{
    if reg_has(reg, port) {
        let k = choose|k: int| 0 <= k < reg.len() && reg[k] == port;
        let r = reg.remove(k);
        assert forall|i: int, j: int| 0 <= i < j < r.len() implies r[i] != r[j] by {
            let i0 = if i < k { i } else { i + 1 };
            let j0 = if j < k { j } else { j + 1 };
            assert(r[i] == reg[i0]);
            assert(r[j] == reg[j0]);
        }
    }
}

pub(crate) proof fn lemma_remove_desire_distinct(des: Seq<DesireV>, port: Seq<char>)
    requires
        distinct_desires(des),
    ensures
        distinct_desires(remove_desire(des, port)),
{
    if desired_has(des, port) {
        let k = choose|k: int| 0 <= k < des.len() && des[k].port == port;
        let r = des.remove(k);
        assert forall|i: int, j: int| 0 <= i < j < r.len() implies r[i].port != r[j].port by {
            let i0 = if i < k { i } else { i + 1 };
            let j0 = if j < k { j } else { j + 1 };
            assert(r[i] == des[i0]);
            assert(r[j] == des[j0]);
        }
    }
}

} // verus!
