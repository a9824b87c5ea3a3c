//! The scheduling decisions: the search worker's state machine around the
//! pause signal, the updater's cycle phases, and the notify listener's
//! pairing of drained refresh requests with server rows. The surrounding
//! loops perform I/O and feed events back in; every decision is taken here.

use crate::store::PingRequestRowV;
use vstd::prelude::*;

verus! {

// ------------------------------------------------------------------
// the search worker
// ------------------------------------------------------------------
/// A search worker's state: idle between iterations, parked on the pause
/// signal, probing an address, or ingesting a discovered server.
#[derive(Clone, Copy, Debug, PartialEq, Eq)]
pub enum WorkerState {
    Running,
    Paused,
    InProbe,
    InIngest,
}

/// What a worker observes: the pause signal's current value (read only
/// between iterations), or the outcome of its own probe or ingest.
#[derive(Clone, Copy, Debug, PartialEq, Eq)]
pub enum WorkerEvent {
    Pause(bool),
    ProbeSucceeded,
    ProbeFailed,
    IngestFinished,
}

/// What the worker does next: park until the signal flips, open a probe on
/// a freshly sampled address, feed the live socket into ingest, or nothing.
#[derive(Clone, Copy, Debug, PartialEq, Eq)]
pub enum WorkerAction {
    Wait,
    StartProbe,
    StartIngest,
    Idle,
}

/// The worker's transition table. A probe starts only on reading an
/// unpaused signal; a paused signal parks the worker; probe and ingest
/// outcomes return it to the signal read. Events that cannot occur in a
/// state change nothing.
pub open spec fn worker_step_spec(s: WorkerState, e: WorkerEvent) -> (WorkerState, WorkerAction) {
    match (s, e) {
        (WorkerState::Running, WorkerEvent::Pause(true)) => (WorkerState::Paused, WorkerAction::Wait),
        (WorkerState::Running, WorkerEvent::Pause(false)) => (
            WorkerState::InProbe,
            WorkerAction::StartProbe,
        ),
        (WorkerState::Paused, WorkerEvent::Pause(false)) => (
            WorkerState::InProbe,
            WorkerAction::StartProbe,
        ),
        (WorkerState::Paused, WorkerEvent::Pause(true)) => (WorkerState::Paused, WorkerAction::Wait),
        (WorkerState::InProbe, WorkerEvent::ProbeSucceeded) => (
            WorkerState::InIngest,
            WorkerAction::StartIngest,
        ),
        (WorkerState::InProbe, WorkerEvent::ProbeFailed) => (
            WorkerState::Running,
            WorkerAction::Idle,
        ),
        (WorkerState::InIngest, WorkerEvent::IngestFinished) => (
            WorkerState::Running,
            WorkerAction::Idle,
        ),
        (s2, _) => (s2, WorkerAction::Idle),
    }
}

/// Step a worker on one observation.
pub fn worker_step(s: WorkerState, e: WorkerEvent) -> (r: (WorkerState, WorkerAction))
    ensures
        r == worker_step_spec(s, e),
{
    match (s, e) {
        (WorkerState::Running, WorkerEvent::Pause(true)) => (WorkerState::Paused, WorkerAction::Wait),
        (WorkerState::Running, WorkerEvent::Pause(false)) => (
            WorkerState::InProbe,
            WorkerAction::StartProbe,
        ),
        (WorkerState::Paused, WorkerEvent::Pause(false)) => (
            WorkerState::InProbe,
            WorkerAction::StartProbe,
        ),
        (WorkerState::Paused, WorkerEvent::Pause(true)) => (WorkerState::Paused, WorkerAction::Wait),
        (WorkerState::InProbe, WorkerEvent::ProbeSucceeded) => (
            WorkerState::InIngest,
            WorkerAction::StartIngest,
        ),
        (WorkerState::InProbe, WorkerEvent::ProbeFailed) => (
            WorkerState::Running,
            WorkerAction::Idle,
        ),
        (WorkerState::InIngest, WorkerEvent::IngestFinished) => (
            WorkerState::Running,
            WorkerAction::Idle,
        ),
        (s2, _) => (s2, WorkerAction::Idle),
    }
}

/// The actions a worker takes along a sequence of observations.
pub open spec fn worker_actions(s: WorkerState, events: Seq<WorkerEvent>) -> Seq<WorkerAction>
    decreases events.len(),
{
    if events.len() == 0 {
        Seq::empty()
    } else {
        let (s2, a) = worker_step_spec(s, events[0]);
        seq![a] + worker_actions(s2, events.skip(1))
    }
}

/// A probe begins only on a fresh read of the signal showing unpaused: the
/// worker observes the signal before every new probe.
pub proof fn lemma_probe_needs_unpaused_signal(s: WorkerState, e: WorkerEvent)
    ensures
        worker_step_spec(s, e).1 == WorkerAction::StartProbe ==> e == WorkerEvent::Pause(false),
{
}

/// No action in the sequence starts a probe or an ingest.
pub open spec fn no_probe_actions(acts: Seq<WorkerAction>) -> bool {
    forall|j: int|
        0 <= j < acts.len() ==> (#[trigger] acts[j]) != WorkerAction::StartProbe && acts[j]
            != WorkerAction::StartIngest
}

/// The pause contract: once a worker has parked on a paused signal, it
/// starts no probe and no ingest until it observes the signal flip back to
/// unpaused — however many other observations arrive in between.
pub proof fn lemma_pause_contract(events: Seq<WorkerEvent>)
    requires
        forall|j: int| 0 <= j < events.len() ==> events[j] != WorkerEvent::Pause(false),
    ensures
        no_probe_actions(worker_actions(WorkerState::Paused, events)),
    decreases events.len(),
{
    if events.len() > 0 {
        assert(events[0] != WorkerEvent::Pause(false));
        let (s2, a) = worker_step_spec(WorkerState::Paused, events[0]);
        assert(s2 == WorkerState::Paused);
        assert(a == WorkerAction::Wait || a == WorkerAction::Idle);
        assert forall|j: int| 0 <= j < events.skip(1).len() implies events.skip(1)[j]
            != WorkerEvent::Pause(false) by {
            assert(events.skip(1)[j] == events[j + 1]);
        }
        lemma_pause_contract(events.skip(1));
        let acts = worker_actions(WorkerState::Paused, events);
        let tail = worker_actions(WorkerState::Paused, events.skip(1));
        assert(acts == seq![a] + tail);
        assert forall|j: int| 0 <= j < acts.len() implies (#[trigger] acts[j])
            != WorkerAction::StartProbe && acts[j] != WorkerAction::StartIngest by {
            if j > 0 {
                assert(acts[j] == tail[j - 1]);
                assert(tail[j - 1] != WorkerAction::StartProbe && tail[j - 1]
                    != WorkerAction::StartIngest);
            } else {
                assert(acts[0] == a);
            }
        }
    }
}

// ------------------------------------------------------------------
// the updater
// ------------------------------------------------------------------
/// The updater's place in its cycle.
#[derive(Clone, Copy, Debug, PartialEq, Eq)]
pub enum UpdaterPhase {
    Idle,
    PausingWorkers,
    DrainingTargets,
    Updating,
    Resuming,
    Sleeping,
}

/// What the updater does next: flip the pause signal, wait for in-flight
/// workers to drain, take the queued external targets, fan the updates out,
/// flip the signal back, or sleep until the next cycle.
#[derive(Clone, Copy, Debug, PartialEq, Eq)]
pub enum UpdaterAction {
    EmitPause,
    WaitQuiesce,
    TakeExternalTargets,
    RunUpdates,
    EmitResume,
    SleepCycle,
}

/// The updater's cycle: pause the workers (when the search module runs),
/// wait, drain the external targets, run the updates, resume the workers,
/// sleep. Without the search module the two signal steps fall away.
pub open spec fn updater_step_spec(p: UpdaterPhase, search_module: bool) -> (
    UpdaterAction,
    UpdaterPhase,
) {
    match p {
        UpdaterPhase::Idle => if search_module {
            (UpdaterAction::EmitPause, UpdaterPhase::PausingWorkers)
        } else {
            (UpdaterAction::TakeExternalTargets, UpdaterPhase::Updating)
        },
        UpdaterPhase::PausingWorkers => (UpdaterAction::WaitQuiesce, UpdaterPhase::DrainingTargets),
        UpdaterPhase::DrainingTargets => (UpdaterAction::TakeExternalTargets, UpdaterPhase::Updating),
        UpdaterPhase::Updating => (UpdaterAction::RunUpdates, UpdaterPhase::Resuming),
        UpdaterPhase::Resuming => if search_module {
            (UpdaterAction::EmitResume, UpdaterPhase::Sleeping)
        } else {
            (UpdaterAction::SleepCycle, UpdaterPhase::Idle)
        },
        UpdaterPhase::Sleeping => (UpdaterAction::SleepCycle, UpdaterPhase::Idle),
    }
}

/// Step the updater.
pub fn updater_step(p: UpdaterPhase, search_module: bool) -> (r: (UpdaterAction, UpdaterPhase))
    ensures
        r == updater_step_spec(p, search_module),
{
    match p {
        UpdaterPhase::Idle => if search_module {
            (UpdaterAction::EmitPause, UpdaterPhase::PausingWorkers)
        } else {
            (UpdaterAction::TakeExternalTargets, UpdaterPhase::Updating)
        },
        UpdaterPhase::PausingWorkers => (UpdaterAction::WaitQuiesce, UpdaterPhase::DrainingTargets),
        UpdaterPhase::DrainingTargets => (UpdaterAction::TakeExternalTargets, UpdaterPhase::Updating),
        UpdaterPhase::Updating => (UpdaterAction::RunUpdates, UpdaterPhase::Resuming),
        UpdaterPhase::Resuming => if search_module {
            (UpdaterAction::EmitResume, UpdaterPhase::Sleeping)
        } else {
            (UpdaterAction::SleepCycle, UpdaterPhase::Idle)
        },
        UpdaterPhase::Sleeping => (UpdaterAction::SleepCycle, UpdaterPhase::Idle),
    }
}

/// The actions of one full updater cycle from `Idle`.
pub open spec fn updater_cycle(search_module: bool) -> Seq<UpdaterAction> {
    let (a1, p1) = updater_step_spec(UpdaterPhase::Idle, search_module);
    let (a2, p2) = updater_step_spec(p1, search_module);
    let (a3, p3) = updater_step_spec(p2, search_module);
    let (a4, p4) = updater_step_spec(p3, search_module);
    if search_module {
        let (a5, p5) = updater_step_spec(p4, search_module);
        let (a6, _p6) = updater_step_spec(p5, search_module);
        seq![a1, a2, a3, a4, a5, a6]
    } else {
        seq![a1, a2, a3, a4]
    }
}

/// With the search module running, one cycle pauses the workers first,
/// waits, drains the external targets, runs the updates, and only then
/// resumes the workers and sleeps — in exactly that order; without it, the
/// cycle drains, updates and sleeps with no signal traffic.
pub proof fn lemma_updater_cycle_order(search_module: bool)
    ensures
        search_module ==> updater_cycle(true) =~= seq![
            UpdaterAction::EmitPause,
            UpdaterAction::WaitQuiesce,
            UpdaterAction::TakeExternalTargets,
            UpdaterAction::RunUpdates,
            UpdaterAction::EmitResume,
            UpdaterAction::SleepCycle,
        ],
        !search_module ==> updater_cycle(false) =~= seq![
            UpdaterAction::TakeExternalTargets,
            UpdaterAction::RunUpdates,
            UpdaterAction::SleepCycle,
            UpdaterAction::TakeExternalTargets,
        ],
{
}

// ------------------------------------------------------------------
// the notify listener's pairing
// ------------------------------------------------------------------
/// What the update path needs of a server row: its id, address and port.
#[derive(Clone, Debug, PartialEq, Eq)]
pub struct ServerRef {
    pub id: i64,
    pub ip: String,
    pub port: i64,
}

pub struct ServerRefV {
    pub id: int,
    pub ip: Seq<char>,
    pub port: int,
}

impl View for ServerRef {
    type V = ServerRefV;

    open spec fn view(&self) -> ServerRefV {
        ServerRefV { id: self.id as int, ip: self.ip@, port: self.port as int }
    }
}

/// The first server ref with the given id.
pub open spec fn find_ref(servers: Seq<ServerRefV>, id: int) -> Option<int>
    decreases servers.len(),
{
    if servers.len() == 0 {
        None
    } else if servers[0].id == id {
        Some(0)
    } else {
        match find_ref(servers.skip(1), id) {
            Some(i) => Some(i + 1),
            None => None,
        }
    }
}

/// What `find_ref` finds.
pub proof fn lemma_find_ref(servers: Seq<ServerRefV>, id: int)
    ensures
        match find_ref(servers, id) {
            Some(i) => 0 <= i < servers.len() && servers[i].id == id && forall|k: int|
                0 <= k < i ==> (#[trigger] servers[k]).id != id,
            None => forall|k: int| 0 <= k < servers.len() ==> (#[trigger] servers[k]).id != id,
        },
    decreases servers.len(),
{
    if servers.len() > 0 && servers[0].id != id {
        lemma_find_ref(servers.skip(1), id);
        assert forall|k: int| 1 <= k < servers.len() implies servers.skip(1)[k - 1]
            == servers[k] by {}
    }
}

/// Each drained refresh request paired with its server: requests keep their
/// order, a request whose server id resolves yields that server and its
/// `with_connection` flag, and one that does not resolve is skipped.
pub open spec fn pair_pings(pings: Seq<PingRequestRowV>, servers: Seq<ServerRefV>) -> Seq<
    (ServerRefV, bool),
>
    decreases pings.len(),
{
    if pings.len() == 0 {
        Seq::empty()
    } else {
        let rest = pair_pings(pings.skip(1), servers);
        match find_ref(servers, pings[0].server_id) {
            Some(i) => seq![(servers[i], pings[0].with_connection)] + rest,
            None => rest,
        }
    }
}

/// Resolve drained refresh requests against the server list. Requests whose
/// server id is unknown are skipped; the rest come back in request order
/// with their `with_connection` flag.
pub fn match_pings_to_servers(
    pings: &Vec<crate::store::PingRequestRow>,
    servers: &Vec<ServerRef>,
) -> (r: Vec<(ServerRef, bool)>)
    ensures
        r@.map_values(|p: (ServerRef, bool)| (p.0@, p.1)) == pair_pings(
            pings@.map_values(|p: crate::store::PingRequestRow| p@),
            servers@.map_values(|s: ServerRef| s@),
        ),
{
    let ghost pv = pings@.map_values(|p: crate::store::PingRequestRow| p@);
    let ghost sv = servers@.map_values(|s: ServerRef| s@);
    let mut out: Vec<(ServerRef, bool)> = Vec::new();
    let n = pings.len();
    let mut i: usize = 0;
    proof {
        assert(pv.skip(0) =~= pv);
        assert(out@.map_values(|p: (ServerRef, bool)| (p.0@, p.1)) =~= Seq::<(
            ServerRefV,
            bool,
        )>::empty());
    }
    while i < n
        invariant
            0 <= i <= n,
            n == pings@.len(),
            pv == pings@.map_values(|p: crate::store::PingRequestRow| p@),
            sv == servers@.map_values(|s: ServerRef| s@),
            pair_pings(pv, sv) == out@.map_values(|p: (ServerRef, bool)| (p.0@, p.1)) + pair_pings(
                pv.skip(i as int),
                sv,
            ),
        decreases n - i,
    {
        proof {
            assert(pv.skip(i as int)[0] == pv[i as int]);
            assert(pv.skip(i as int).skip(1) =~= pv.skip(i as int + 1));
        }
        match find_server_ref(servers, pings[i].server_id) {
            Some(k) => {
                let sref = ServerRef {
                    id: servers[k].id,
                    ip: servers[k].ip.clone(),
                    port: servers[k].port,
                };
                let ghost outv = out@.map_values(|p: (ServerRef, bool)| (p.0@, p.1));
                let with_connection = pings[i].with_connection;
                out.push((sref, with_connection));
                proof {
                    assert(out@.map_values(|p: (ServerRef, bool)| (p.0@, p.1)) =~= outv.push(
                        (sv[k as int], pv[i as int].with_connection),
                    ));
                    assert(outv + (seq![(sv[k as int], pv[i as int].with_connection)] + pair_pings(
                        pv.skip(i as int + 1),
                        sv,
                    )) =~= outv.push((sv[k as int], pv[i as int].with_connection)) + pair_pings(
                        pv.skip(i as int + 1),
                        sv,
                    ));
                }
            },
            None => {},
        }
        i = i + 1;
    }
    proof {
        assert(pv.skip(n as int) =~= Seq::<PingRequestRowV>::empty());
        assert(out@.map_values(|p: (ServerRef, bool)| (p.0@, p.1)) + Seq::<(
            ServerRefV,
            bool,
        )>::empty() =~= out@.map_values(|p: (ServerRef, bool)| (p.0@, p.1)));
    }
    out
}

/// The index of the first server ref with the given id.
fn find_server_ref(servers: &Vec<ServerRef>, id: i64) -> (r: Option<usize>)
    ensures
        match r {
            Some(i) => i < servers@.len() && find_ref(
                servers@.map_values(|s: ServerRef| s@),
                id as int,
            ) == Some(i as int),
            None => find_ref(servers@.map_values(|s: ServerRef| s@), id as int) is None,
        },
{
    let ghost sv = servers@.map_values(|s: ServerRef| s@);
    proof {
        lemma_find_ref(sv, id as int);
    }
    let n = servers.len();
    let mut i: usize = 0;
    while i < n
        invariant
            0 <= i <= n,
            n == servers@.len(),
            sv == servers@.map_values(|s: ServerRef| s@),
            forall|k: int| 0 <= k < i ==> (#[trigger] sv[k]).id != id as int,
        decreases n - i,
    {
        if servers[i].id == id {
            proof {
                assert(sv[i as int] == servers@[i as int]@);
                lemma_find_ref(sv, id as int);
                match find_ref(sv, id as int) {
                    Some(j) => {
                        if j < i {
                            assert(sv[j].id != id as int);
                        }
                        if j > i {
                            assert(sv[i as int].id != id as int);
                        }
                    },
                    None => {
                        assert(sv[i as int].id != id as int);
                    },
                }
            }
            return Some(i);
        }
        i = i + 1;
    }
    proof {
        lemma_find_ref(sv, id as int);
    }
    None
}

} // verus!
