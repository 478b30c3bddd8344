//! The laws the supervisor and session machines obey, stated over the spec
//! transitions and proved once and for all.

use vstd::prelude::*;
use crate::device::DeviceV;
use crate::notify::NotificationV;
use crate::session::{
    SessionEventV, SessionPhase, SessionV, idle_expired, is_terminal, sentinel, spec_step,
};
use crate::text::{contains_seq, trim_spec};
use crate::supervisor::{
    SupervisorV, added_of, removed_of, spec_removals, spec_reconcile, st_scan, st_start,
    st_stop, st_terminated, st_reconcile, st_poll, has_port, reg_has, desired_has, remove_port,
    remove_desire, distinct_ports, distinct_seqs, distinct_desires,
    lemma_remove_port_distinct, lemma_remove_desire_distinct,
};

verus! {

/// How many notifications in the sequence are "session stopped" for this
/// port.
pub open spec fn count_stopped_for(notes: Seq<NotificationV>, port: Seq<char>) -> int
    decreases notes.len(),
{
    if notes.len() == 0 {
        0
    } else {
        (match notes[0] {
            NotificationV::SessionStopped { port: p, reason: _ } => if p == port {
                1int
            } else {
                0int
            },
            _ => 0int,
        }) + count_stopped_for(notes.drop_first(), port)
    }
}

/// How many notifications in the sequence are "session started" for this
/// port.
pub open spec fn count_started_for(notes: Seq<NotificationV>, port: Seq<char>) -> int
    decreases notes.len(),
{
    if notes.len() == 0 {
        0
    } else {
        (match notes[0] {
            NotificationV::SessionStarted { port: p } => if p == port {
                1int
            } else {
                0int
            },
            _ => 0int,
        }) + count_started_for(notes.drop_first(), port)
    }
}

proof fn lemma_count_stopped_concat(a: Seq<NotificationV>, b: Seq<NotificationV>, port: Seq<char>)
    ensures
        count_stopped_for(a + b, port) == count_stopped_for(a, port) + count_stopped_for(b, port),
    decreases a.len(),
{
    if a.len() == 0 {
        assert(a + b =~= b);
    } else {
        assert((a + b).drop_first() =~= a.drop_first() + b);
        assert((a + b)[0] == a[0]);
        lemma_count_stopped_concat(a.drop_first(), b, port);
    }
}

proof fn lemma_count_started_concat(a: Seq<NotificationV>, b: Seq<NotificationV>, port: Seq<char>)
    ensures
        count_started_for(a + b, port) == count_started_for(a, port) + count_started_for(b, port),
    decreases a.len(),
{
    if a.len() == 0 {
        assert(a + b =~= b);
    } else {
        assert((a + b).drop_first() =~= a.drop_first() + b);
        assert((a + b)[0] == a[0]);
        lemma_count_started_concat(a.drop_first(), b, port);
    }
}

proof fn lemma_count_stopped_single(n: NotificationV, port: Seq<char>)
    ensures
        count_stopped_for(seq![n], port) == (match n {
            NotificationV::SessionStopped { port: p, reason: _ } => if p == port {
                1int
            } else {
                0int
            },
            _ => 0int,
        }),
{
    assert(seq![n].drop_first() =~= Seq::<NotificationV>::empty());
    assert(count_stopped_for(Seq::<NotificationV>::empty(), port) == 0);
    assert(seq![n][0] == n);
}

proof fn lemma_count_started_single(n: NotificationV, port: Seq<char>)
    ensures
        count_started_for(seq![n], port) == (match n {
            NotificationV::SessionStarted { port: p } => if p == port {
                1int
            } else {
                0int
            },
            _ => 0int,
        }),
{
    assert(seq![n].drop_first() =~= Seq::<NotificationV>::empty());
    assert(count_started_for(Seq::<NotificationV>::empty(), port) == 0);
    assert(seq![n][0] == n);
}

/// A sequence without a "session started" for the port counts zero of them.
proof fn lemma_count_started_zero(notes: Seq<NotificationV>, port: Seq<char>)
    requires
        forall|k: int| 0 <= k < notes.len() ==> !(#[trigger] notes[k] matches
            NotificationV::SessionStarted { port: p } && p == port),
    ensures
        count_started_for(notes, port) == 0,
    decreases notes.len(),
{
    if notes.len() > 0 {
        assert forall|k: int| 0 <= k < notes.drop_first().len()
            implies !(#[trigger] notes.drop_first()[k] matches
                NotificationV::SessionStarted { port: p } && p == port) by {
            assert(notes.drop_first()[k] == notes[k + 1]);
        }
        lemma_count_started_zero(notes.drop_first(), port);
    }
}

/// Membership in a concatenation splits over its halves.
proof fn lemma_has_port_concat(a: Seq<DeviceV>, b: Seq<DeviceV>, port: Seq<char>)
    ensures
        has_port(a + b, port) == (has_port(a, port) || has_port(b, port)),
{
    if has_port(a, port) {
        let i = choose|i: int| 0 <= i < a.len() && a[i].port == port;
        assert((a + b)[i].port == port);
    }
    if has_port(b, port) {
        let i = choose|i: int| 0 <= i < b.len() && b[i].port == port;
        assert((a + b)[a.len() + i].port == port);
    }
    if has_port(a + b, port) {
        let i = choose|i: int| 0 <= i < (a + b).len() && (a + b)[i].port == port;
        if i < a.len() {
            assert(a[i].port == port);
        } else {
            assert(b[i - a.len()].port == port);
        }
    }
}

/// A device's port is in the added list exactly when it is observed now and
/// was not observed before.
proof fn lemma_added_of_membership(prev: Seq<DeviceV>, cur: Seq<DeviceV>, port: Seq<char>)
    ensures
        has_port(added_of(prev, cur), port) == (has_port(cur, port) && !has_port(prev, port)),
    decreases cur.len(),
{
    if cur.len() == 0 {
        assert(!has_port(cur, port));
        assert(!has_port(added_of(prev, cur), port));
    } else {
        lemma_added_of_membership(prev, cur.drop_last(), port);
        let tail: Seq<DeviceV> = if !has_port(prev, cur.last().port) {
            seq![cur.last()]
        } else {
            Seq::empty()
        };
        lemma_has_port_concat(added_of(prev, cur.drop_last()), tail, port);
        assert(has_port(cur, port) == (has_port(cur.drop_last(), port) || cur.last().port
            == port)) by {
            if has_port(cur, port) {
                let i = choose|i: int| 0 <= i < cur.len() && cur[i].port == port;
                if i < cur.len() - 1 {
                    assert(cur.drop_last()[i].port == port);
                }
            }
            if has_port(cur.drop_last(), port) {
                let i = choose|i: int|
                    0 <= i < cur.drop_last().len() && cur.drop_last()[i].port == port;
                assert(cur[i].port == port);
            }
        }
        if tail.len() == 1 {
            assert(has_port(tail, port) == (cur.last().port == port)) by {
                if tail[0].port == port {
                }
            }
        } else {
            assert(!has_port(tail, port));
        }
    }
}

/// A device's port is in the removed list exactly when it was observed
/// before and is not observed now.
proof fn lemma_removed_of_membership(prev: Seq<DeviceV>, cur: Seq<DeviceV>, port: Seq<char>)
    ensures
        has_port(removed_of(prev, cur), port) == (has_port(prev, port) && !has_port(cur, port)),
    decreases prev.len(),
{
    if prev.len() == 0 {
        assert(!has_port(prev, port));
        assert(!has_port(removed_of(prev, cur), port));
    } else {
        lemma_removed_of_membership(prev.drop_last(), cur, port);
        let tail: Seq<DeviceV> = if !has_port(cur, prev.last().port) {
            seq![prev.last()]
        } else {
            Seq::empty()
        };
        lemma_has_port_concat(removed_of(prev.drop_last(), cur), tail, port);
        assert(has_port(prev, port) == (has_port(prev.drop_last(), port) || prev.last().port
            == port)) by {
            if has_port(prev, port) {
                let i = choose|i: int| 0 <= i < prev.len() && prev[i].port == port;
                if i < prev.len() - 1 {
                    assert(prev.drop_last()[i].port == port);
                }
            }
            if has_port(prev.drop_last(), port) {
                let i = choose|i: int|
                    0 <= i < prev.drop_last().len() && prev.drop_last()[i].port == port;
                assert(prev[i].port == port);
            }
        }
        if tail.len() == 1 {
            assert(has_port(tail, port) == (prev.last().port == port)) by {
                if tail[0].port == port {
                }
            }
        } else {
            assert(!has_port(tail, port));
        }
    }
}

/// The removed list of a well-formed snapshot has no duplicate port.
proof fn lemma_removed_of_distinct(prev: Seq<DeviceV>, cur: Seq<DeviceV>)
    requires
        distinct_ports(prev),
    ensures
        distinct_ports(removed_of(prev, cur)),
    decreases prev.len(),
{
    if prev.len() > 0 {
        assert(distinct_ports(prev.drop_last())) by {
            assert forall|i: int, j: int| 0 <= i < j < prev.drop_last().len()
                implies prev.drop_last()[i].port != prev.drop_last()[j].port by {
                assert(prev[i].port != prev[j].port);
            }
        }
        lemma_removed_of_distinct(prev.drop_last(), cur);
        let left = removed_of(prev.drop_last(), cur);
        let r = removed_of(prev, cur);
        if !has_port(cur, prev.last().port) {
            assert forall|i: int, j: int| 0 <= i < j < r.len() implies r[i].port != r[j].port by {
                if j < left.len() {
                    assert(r[i] == left[i] && r[j] == left[j]);
                } else {
                    assert(r[j] == prev.last());
                    assert(r[i] == left[i]);
                    assert(has_port(left, left[i].port));
                    lemma_removed_of_membership(prev.drop_last(), cur, left[i].port);
                    assert(has_port(prev.drop_last(), left[i].port));
                    let w = choose|w: int|
                        0 <= w < prev.drop_last().len() && prev.drop_last()[w].port
                            == left[i].port;
                    assert(prev[w].port != prev.last().port);
                }
            }
        } else {
            assert(r =~= left);
        }
    }
}

/// Removing one port from a duplicate-free registry removes exactly that
/// port's membership.
proof fn lemma_remove_port_membership(reg: Seq<Seq<char>>, q: Seq<char>, p: Seq<char>)
    requires
        distinct_seqs(reg),
    ensures
        reg_has(remove_port(reg, q), p) == (reg_has(reg, p) && p != q),
{
    if reg_has(reg, q) {
        let k = choose|k: int| 0 <= k < reg.len() && reg[k] == q;
        let r = reg.remove(k);
        if reg_has(r, p) {
            let i = choose|i: int| 0 <= i < r.len() && r[i] == p;
            let i0 = if i < k { i } else { i + 1 };
            assert(reg[i0] == p);
            if p == q {
                if i0 < k {
                    assert(reg[i0] != reg[k]);
                } else {
                    assert(reg[k] != reg[i0]);
                }
            }
        }
        if reg_has(reg, p) && p != q {
            let i = choose|i: int| 0 <= i < reg.len() && reg[i] == p;
            if i < k {
                assert(r[i] == p);
            } else {
                assert(i != k);
                assert(r[i - 1] == p);
            }
        }
    }
}

/// Dropping one port from a duplicate-free desired set removes exactly that
/// port's membership.
proof fn lemma_remove_desire_membership(
    des: Seq<crate::supervisor::DesireV>,
    q: Seq<char>,
    p: Seq<char>,
)
    requires
        distinct_desires(des),
    ensures
        desired_has(remove_desire(des, q), p) == (desired_has(des, p) && p != q),
{
    if desired_has(des, q) {
        let k = choose|k: int| 0 <= k < des.len() && des[k].port == q;
        let r = des.remove(k);
        if desired_has(r, p) {
            let i = choose|i: int| 0 <= i < r.len() && r[i].port == p;
            let i0 = if i < k { i } else { i + 1 };
            assert(des[i0].port == p);
            if p == q {
                if i0 < k {
                    assert(des[i0].port != des[k].port);
                } else {
                    assert(des[k].port != des[i0].port);
                }
            }
        }
        if desired_has(des, p) && p != q {
            let i = choose|i: int| 0 <= i < des.len() && des[i].port == p;
            if i < k {
                assert(r[i].port == p);
            } else {
                assert(i != k);
                assert(r[i - 1].port == p);
            }
        }
    }
}

/// Every notification of the removal cleanup is a "session stopped".
proof fn lemma_removal_notes_all_stopped(reg: Seq<Seq<char>>, removed: Seq<DeviceV>)
    ensures
        forall|k: int| 0 <= k < spec_removals(reg, removed).notes.len()
            ==> spec_removals(reg, removed).notes[k] is SessionStopped,
    decreases removed.len(),
{
    if removed.len() > 0 {
        let port = removed[0].port;
        lemma_removal_notes_all_stopped(remove_port(reg, port), removed.drop_first());
    }
}

/// The removal cleanup stops the port's session exactly once when the port
/// is removed and has one, and never otherwise; afterwards the port is
/// registered exactly when it was registered and not removed.
proof fn lemma_removals_count(reg: Seq<Seq<char>>, removed: Seq<DeviceV>, port: Seq<char>)
    requires
        distinct_seqs(reg),
        distinct_ports(removed),
    ensures
        count_stopped_for(spec_removals(reg, removed).notes, port) == (
        if has_port(removed, port) && reg_has(reg, port) {
            1int
        } else {
            0int
        }),
        reg_has(spec_removals(reg, removed).registry, port) == (reg_has(reg, port)
            && !has_port(removed, port)),
        distinct_seqs(spec_removals(reg, removed).registry),
    decreases removed.len(),
{
    if removed.len() == 0 {
        assert(!has_port(removed, port));
    } else {
        let q = removed[0].port;
        let hit = reg_has(reg, q);
        let reg2 = remove_port(reg, q);
        lemma_remove_port_distinct(reg, q);
        assert(distinct_ports(removed.drop_first())) by {
            assert forall|i: int, j: int| 0 <= i < j < removed.drop_first().len()
                implies removed.drop_first()[i].port != removed.drop_first()[j].port by {
                assert(removed[i + 1].port != removed[j + 1].port);
            }
        }
        lemma_removals_count(reg2, removed.drop_first(), port);
        lemma_remove_port_membership(reg, q, port);
        let head: Seq<NotificationV> = if hit {
            seq![
                NotificationV::SessionStopped {
                    port: q,
                    reason: Some(crate::supervisor::removed_reason()),
                },
            ]
        } else {
            Seq::empty()
        };
        let rest = spec_removals(reg2, removed.drop_first());
        lemma_count_stopped_concat(head, rest.notes, port);
        if hit {
            lemma_count_stopped_single(
                NotificationV::SessionStopped {
                    port: q,
                    reason: Some(crate::supervisor::removed_reason()),
                },
                port,
            );
        }
        assert(has_port(removed, port) == (q == port || has_port(removed.drop_first(), port)))
            by {
            if has_port(removed, port) {
                let i = choose|i: int| 0 <= i < removed.len() && removed[i].port == port;
                if i > 0 {
                    assert(removed.drop_first()[i - 1].port == port);
                }
            }
            if has_port(removed.drop_first(), port) {
                let i = choose|i: int|
                    0 <= i < removed.drop_first().len() && removed.drop_first()[i].port == port;
                assert(removed[i + 1].port == port);
            }
        }
        if q == port {
            assert(!has_port(removed.drop_first(), port)) by {
                if has_port(removed.drop_first(), port) {
                    let i = choose|i: int|
                        0 <= i < removed.drop_first().len() && removed.drop_first()[i].port
                            == port;
                    assert(removed[0].port != removed[i + 1].port);
                }
            }
        }
    }
}

/// The reconciliation walk starts the port's session exactly once when the
/// port is observed, desired and inactive, and never otherwise; afterwards
/// the port is registered when it was, or when it was started.
proof fn lemma_reconcile_count(
    devs: Seq<DeviceV>,
    desired: Seq<crate::supervisor::DesireV>,
    reg: Seq<Seq<char>>,
    port: Seq<char>,
)
    ensures
        count_started_for(spec_reconcile(devs, desired, reg).notes, port) == (
        if has_port(devs, port) && desired_has(desired, port) && !reg_has(reg, port) {
            1int
        } else {
            0int
        }),
        reg_has(spec_reconcile(devs, desired, reg).registry, port) == (reg_has(reg, port) || (
        has_port(devs, port) && desired_has(desired, port))),
    decreases devs.len(),
{
    if devs.len() > 0 {
        let q = devs[0].port;
        let start = desired_has(desired, q) && !reg_has(reg, q);
        let reg2: Seq<Seq<char>> = if start {
            reg.push(q)
        } else {
            reg
        };
        lemma_reconcile_count(devs.drop_first(), desired, reg2, port);
        assert(reg_has(reg.push(q), port) == (reg_has(reg, port) || q == port)) by {
            if reg_has(reg, port) {
                let i = choose|i: int| 0 <= i < reg.len() && reg[i] == port;
                assert(reg.push(q)[i] == port);
            }
            assert(reg.push(q)[reg.len() as int] == q);
            if reg_has(reg.push(q), port) {
                let i = choose|i: int| 0 <= i < reg.push(q).len() && reg.push(q)[i] == port;
                if i < reg.len() {
                    assert(reg[i] == port);
                }
            }
        }
        assert(has_port(devs, port) == (q == port || has_port(devs.drop_first(), port))) by {
            if has_port(devs, port) {
                let i = choose|i: int| 0 <= i < devs.len() && devs[i].port == port;
                if i > 0 {
                    assert(devs.drop_first()[i - 1].port == port);
                }
            }
            if has_port(devs.drop_first(), port) {
                let i = choose|i: int|
                    0 <= i < devs.drop_first().len() && devs.drop_first()[i].port == port;
                assert(devs[i + 1].port == port);
            }
        }
        let head: Seq<NotificationV> = if start {
            seq![NotificationV::SessionStarted { port: q }]
        } else {
            Seq::empty()
        };
        let rest = spec_reconcile(devs.drop_first(), desired, reg2);
        lemma_count_started_concat(head, rest.notes, port);
        if start {
            lemma_count_started_single(NotificationV::SessionStarted { port: q }, port);
        }
    }
}

/// No notification of the snapshot differ is a "session started": the differ
/// only stops sessions and announces the change.
proof fn lemma_scan_starts_nothing(s: SupervisorV, cur: Seq<DeviceV>, port: Seq<char>)
    ensures
        count_started_for(st_scan(s, cur).notes, port) == 0,
{
    let removed = removed_of(s.snapshot, cur);
    let added = added_of(s.snapshot, cur);
    if added.len() == 0 && removed.len() == 0 {
    } else {
        let rem = spec_removals(s.registry, removed);
        lemma_removal_notes_all_stopped(s.registry, removed);
        lemma_count_started_zero(rem.notes, port);
        lemma_count_started_concat(
            rem.notes,
            seq![NotificationV::DevicesChanged { added, removed }],
            port,
        );
        lemma_count_started_single(NotificationV::DevicesChanged { added, removed }, port);
    }
}

/// For all ports, the registry never holds two entries for the same port: a
/// well-formed state stays well-formed under every supervisor transition,
/// and a start request for an already-registered port fails without touching
/// the registry or spawning anything.
pub proof fn law_registry_never_doubles(
    s: SupervisorV,
    port: Seq<char>,
    baud: u32,
    cur: Seq<DeviceV>,
    phase: SessionPhase,
    announce: bool,
)
    requires
        s.wf(),
        distinct_ports(cur),
        is_terminal(phase),
    ensures
        st_start(s, port, baud).state.wf(),
        st_stop(s, port).state.wf(),
        st_terminated(s, port, phase).state.wf(),
        st_scan(s, cur).state.wf(),
        st_reconcile(s).state.wf(),
        st_poll(s, cur, announce).state.wf(),
        reg_has(s.registry, port) ==> !st_start(s, port, baud).ok,
        reg_has(s.registry, port) ==> st_start(s, port, baud).state.registry == s.registry,
        reg_has(s.registry, port) ==> st_start(s, port, baud).actions.len() == 0,
{
    law_start_wf(s, port, baud);
    law_stop_wf(s, port);
    law_terminated_wf(s, port, phase);
    law_scan_wf(s, cur);
    law_reconcile_wf(s);
    law_reconcile_wf(st_scan(s, cur).state);
}

proof fn law_start_wf(s: SupervisorV, port: Seq<char>, baud: u32)
    requires
        s.wf(),
    ensures
        st_start(s, port, baud).state.wf(),
{
    let r = st_start(s, port, baud);
    if !desired_has(s.desired, port) {
        let d2 = s.desired.push(crate::supervisor::DesireV { port, baud });
        assert(distinct_desires(d2)) by {
            assert forall|i: int, j: int| 0 <= i < j < d2.len() implies d2[i].port != d2[j].port
                by {
                if j < s.desired.len() {
                    assert(s.desired[i].port != s.desired[j].port);
                } else {
                    assert(d2[j].port == port);
                    assert(d2[i] == s.desired[i]);
                }
            }
        }
    }
    if !reg_has(s.registry, port) {
        let r2 = s.registry.push(port);
        assert(distinct_seqs(r2)) by {
            assert forall|i: int, j: int| 0 <= i < j < r2.len() implies r2[i] != r2[j] by {
                if j < s.registry.len() {
                    assert(s.registry[i] != s.registry[j]);
                } else {
                    assert(r2[j] == port);
                    assert(r2[i] == s.registry[i]);
                }
            }
        }
    }
}

proof fn law_stop_wf(s: SupervisorV, port: Seq<char>)
    requires
        s.wf(),
    ensures
        st_stop(s, port).state.wf(),
{
    lemma_remove_port_distinct(s.registry, port);
    lemma_remove_desire_distinct(s.desired, port);
}

proof fn law_terminated_wf(s: SupervisorV, port: Seq<char>, phase: SessionPhase)
    requires
        s.wf(),
    ensures
        st_terminated(s, port, phase).state.wf(),
{
    lemma_remove_port_distinct(s.registry, port);
    lemma_remove_desire_distinct(s.desired, port);
}

proof fn law_scan_wf(s: SupervisorV, cur: Seq<DeviceV>)
    requires
        s.wf(),
        distinct_ports(cur),
    ensures
        st_scan(s, cur).state.wf(),
{
    let removed = removed_of(s.snapshot, cur);
    lemma_removed_of_distinct(s.snapshot, cur);
    lemma_removals_count(s.registry, removed, Seq::empty());
}

proof fn law_reconcile_wf(s: SupervisorV)
    requires
        s.wf(),
    ensures
        st_reconcile(s).state.wf(),
{
    lemma_reconcile_distinct(s.snapshot, s.desired, s.registry);
}

proof fn lemma_reconcile_distinct(
    devs: Seq<DeviceV>,
    desired: Seq<crate::supervisor::DesireV>,
    reg: Seq<Seq<char>>,
)
    requires
        distinct_seqs(reg),
    ensures
        distinct_seqs(spec_reconcile(devs, desired, reg).registry),
    decreases devs.len(),
{
    if devs.len() > 0 {
        let q = devs[0].port;
        let start = desired_has(desired, q) && !reg_has(reg, q);
        let reg2: Seq<Seq<char>> = if start {
            reg.push(q)
        } else {
            reg
        };
        assert(distinct_seqs(reg2)) by {
            if start {
                assert forall|i: int, j: int| 0 <= i < j < reg2.len() implies reg2[i] != reg2[j]
                    by {
                    if j < reg.len() {
                        assert(reg[i] != reg[j]);
                    } else {
                        assert(reg2[j] == q);
                        assert(reg2[i] == reg[i]);
                    }
                }
            }
        }
        lemma_reconcile_distinct(devs.drop_first(), desired, reg2);
    }
}

/// A device set whose ports all were observed before, and whose prior
/// observation's ports are all still observed, produces no deltas, no
/// notification and no action; only the snapshot is refreshed.
pub proof fn law_unchanged_scan_is_silent(s: SupervisorV, cur: Seq<DeviceV>)
    requires
        s.wf(),
        forall|i: int| 0 <= i < cur.len() ==> has_port(s.snapshot, cur[i].port),
        forall|i: int| 0 <= i < s.snapshot.len() ==> has_port(cur, s.snapshot[i].port),
    ensures
        added_of(s.snapshot, cur).len() == 0,
        removed_of(s.snapshot, cur).len() == 0,
        st_scan(s, cur).notes.len() == 0,
        st_scan(s, cur).actions.len() == 0,
        st_scan(s, cur).state.registry == s.registry,
        st_scan(s, cur).state.desired == s.desired,
        st_scan(s, cur).state.snapshot == cur,
{
    let added = added_of(s.snapshot, cur);
    let removed = removed_of(s.snapshot, cur);
    if added.len() > 0 {
        let p = added.last().port;
        assert(has_port(added, p));
        lemma_added_of_membership(s.snapshot, cur, p);
        let i = choose|i: int| 0 <= i < cur.len() && cur[i].port == p;
        assert(has_port(s.snapshot, cur[i].port));
    }
    if removed.len() > 0 {
        let p = removed.last().port;
        assert(has_port(removed, p));
        lemma_removed_of_membership(s.snapshot, cur, p);
        let i = choose|i: int| 0 <= i < s.snapshot.len() && s.snapshot[i].port == p;
        assert(has_port(cur, s.snapshot[i].port));
    }
}

/// A device observed now and absent from the prior snapshot is announced in
/// exactly one devices-changed notification — the scan's last — whose added
/// list carries its port; every earlier notification is a session stop.
pub proof fn law_new_device_is_announced(s: SupervisorV, cur: Seq<DeviceV>, i: int)
    requires
        s.wf(),
        distinct_ports(cur),
        0 <= i < cur.len(),
        !has_port(s.snapshot, cur[i].port),
    ensures
        st_scan(s, cur).notes.len() >= 1,
        st_scan(s, cur).notes.last() matches NotificationV::DevicesChanged { added, removed }
            && has_port(added, cur[i].port) && removed == removed_of(s.snapshot, cur),
        forall|k: int| 0 <= k < st_scan(s, cur).notes.len() - 1
            ==> st_scan(s, cur).notes[k] is SessionStopped,
{
    let added = added_of(s.snapshot, cur);
    let removed = removed_of(s.snapshot, cur);
    lemma_added_of_membership(s.snapshot, cur, cur[i].port);
    assert(has_port(cur, cur[i].port));
    assert(added.len() > 0) by {
        let w = choose|w: int| 0 <= w < added.len() && added[w].port == cur[i].port;
    }
    let rem = spec_removals(s.registry, removed);
    let changed_note = seq![NotificationV::DevicesChanged { added, removed }];
    lemma_removal_notes_all_stopped(s.registry, removed);
    assert(st_scan(s, cur).notes == rem.notes + changed_note);
    assert((rem.notes + changed_note).last() == changed_note[0]);
    assert forall|k: int| 0 <= k < (rem.notes + changed_note).len() - 1
        implies (rem.notes + changed_note)[k] is SessionStopped by {
        assert((rem.notes + changed_note)[k] == rem.notes[k]);
    }
}

/// Removing a device with an active session stops that session exactly once
/// (the aborted session's own later cleanup announces nothing more),
/// deregisters it, and leaves the desired set alone — the operator's intent
/// survives physical removal.
pub proof fn law_removed_device_stops_once(
    s: SupervisorV,
    cur: Seq<DeviceV>,
    port: Seq<char>,
    phase: SessionPhase,
)
    requires
        s.wf(),
        distinct_ports(cur),
        has_port(s.snapshot, port),
        !has_port(cur, port),
        reg_has(s.registry, port),
        is_terminal(phase),
    ensures
        count_stopped_for(st_scan(s, cur).notes, port) == 1,
        !reg_has(st_scan(s, cur).state.registry, port),
        st_scan(s, cur).state.desired == s.desired,
        st_terminated(st_scan(s, cur).state, port, phase).notes.len() == 0,
{
    let removed = removed_of(s.snapshot, cur);
    let added = added_of(s.snapshot, cur);
    lemma_removed_of_membership(s.snapshot, cur, port);
    assert(has_port(removed, port));
    assert(removed.len() > 0) by {
        let w = choose|w: int| 0 <= w < removed.len() && removed[w].port == port;
    }
    lemma_removed_of_distinct(s.snapshot, cur);
    lemma_removals_count(s.registry, removed, port);
    let rem = spec_removals(s.registry, removed);
    let changed_note = seq![NotificationV::DevicesChanged { added, removed }];
    lemma_count_stopped_concat(rem.notes, changed_note, port);
    lemma_count_stopped_single(NotificationV::DevicesChanged { added, removed }, port);
}

/// A desired port that reconnects with no active session is auto-started
/// exactly once, by the reconciliation of the poll cycle that first observes
/// it, and is registered afterwards.
pub proof fn law_replug_restarts_once(
    s: SupervisorV,
    cur: Seq<DeviceV>,
    i: int,
    announce: bool,
)
    requires
        s.wf(),
        distinct_ports(cur),
        0 <= i < cur.len(),
        desired_has(s.desired, cur[i].port),
        !reg_has(s.registry, cur[i].port),
        !has_port(s.snapshot, cur[i].port),
    ensures
        count_started_for(st_poll(s, cur, announce).notes, cur[i].port) == 1,
        reg_has(st_poll(s, cur, announce).state.registry, cur[i].port),
{
    let port = cur[i].port;
    let sc = st_scan(s, cur);
    let removed = removed_of(s.snapshot, cur);
    lemma_removed_of_distinct(s.snapshot, cur);
    lemma_removed_of_membership(s.snapshot, cur, port);
    lemma_removals_count(s.registry, removed, port);
    assert(!reg_has(sc.state.registry, port)) by {
        let added = added_of(s.snapshot, cur);
        if added.len() == 0 && removed.len() == 0 {
        }
    }
    assert(sc.state.desired == s.desired);
    assert(has_port(sc.state.snapshot, port));
    lemma_scan_starts_nothing(s, cur, port);
    let changed = added_of(s.snapshot, cur).len() > 0 || removed_of(s.snapshot, cur).len() > 0;
    let mid: Seq<NotificationV> = if changed || announce {
        sc.notes + seq![NotificationV::ScanComplete { devices: cur }]
    } else {
        sc.notes
    };
    if changed || announce {
        lemma_count_started_concat(
            sc.notes,
            seq![NotificationV::ScanComplete { devices: cur }],
            port,
        );
        lemma_count_started_single(NotificationV::ScanComplete { devices: cur }, port);
    }
    assert(count_started_for(mid, port) == 0);
    let rc = st_reconcile(sc.state);
    lemma_reconcile_count(sc.state.snapshot, sc.state.desired, sc.state.registry, port);
    assert(count_started_for(rc.notes, port) == 1);
    lemma_count_started_concat(mid, rc.notes, port);
}

/// An idle timeout terminates the session, clears the operator's desire for
/// the port, and no later poll cycle — however many devices it observes —
/// auto-restarts a session for it.
pub proof fn law_idle_timeout_is_final(
    sup: SupervisorV,
    sess: SessionV,
    now_ms: u64,
    cur: Seq<DeviceV>,
    announce: bool,
)
    requires
        sup.wf(),
        distinct_ports(cur),
        sess.phase == SessionPhase::Reading,
        idle_expired(sess.last_data_ms, now_ms),
    ensures
        spec_step(sess, SessionEventV::ReadTimeout { now_ms }).state.phase
            == SessionPhase::TimedOut,
        !desired_has(st_terminated(sup, sess.port, SessionPhase::TimedOut).state.desired,
            sess.port),
        count_started_for(
            st_poll(st_terminated(sup, sess.port, SessionPhase::TimedOut).state, cur, announce)
                .notes,
            sess.port,
        ) == 0,
{
    let port = sess.port;
    let after = st_terminated(sup, port, SessionPhase::TimedOut).state;
    lemma_remove_desire_membership(sup.desired, port, port);
    law_terminated_wf(sup, port, SessionPhase::TimedOut);
    let sc = st_scan(after, cur);
    lemma_scan_starts_nothing(after, cur, port);
    let changed = added_of(after.snapshot, cur).len() > 0 || removed_of(
        after.snapshot,
        cur,
    ).len() > 0;
    let mid: Seq<NotificationV> = if changed || announce {
        sc.notes + seq![NotificationV::ScanComplete { devices: cur }]
    } else {
        sc.notes
    };
    if changed || announce {
        lemma_count_started_concat(
            sc.notes,
            seq![NotificationV::ScanComplete { devices: cur }],
            port,
        );
        lemma_count_started_single(NotificationV::ScanComplete { devices: cur }, port);
    }
    let rc = st_reconcile(sc.state);
    lemma_reconcile_count(sc.state.snapshot, sc.state.desired, sc.state.registry, port);
    assert(count_started_for(rc.notes, port) == 0);
    lemma_count_started_concat(mid, rc.notes, port);
}

/// A record carrying the completion sentinel ends the session in
/// `CycleComplete`, clears the desire, and the full notification run is the
/// record itself, then "cycle complete", then — strictly after it — the one
/// "session stopped".
pub proof fn law_sentinel_completes_in_order(
    sup: SupervisorV,
    sess: SessionV,
    text: Seq<char>,
    now_ms: u64,
)
    requires
        sup.wf(),
        sess.phase == SessionPhase::Reading,
        trim_spec(text).len() > 0,
        contains_seq(trim_spec(text), sentinel()),
        reg_has(sup.registry, sess.port),
    ensures
        spec_step(sess, SessionEventV::Line { text, now_ms }).state.phase
            == SessionPhase::CycleComplete,
        ({
            let all = spec_step(sess, SessionEventV::Line { text, now_ms }).notes
                + st_terminated(sup, sess.port, SessionPhase::CycleComplete).notes;
            &&& all.len() == 3
            &&& all[0] == (NotificationV::DataReceived { port: sess.port, data: trim_spec(text) })
            &&& all[1] == (NotificationV::CycleComplete { port: sess.port })
            &&& all[2] == (NotificationV::SessionStopped { port: sess.port, reason: None })
        }),
        !desired_has(
            st_terminated(sup, sess.port, SessionPhase::CycleComplete).state.desired,
            sess.port,
        ),
{
    lemma_remove_desire_membership(sup.desired, sess.port, sess.port);
}

} // verus!
