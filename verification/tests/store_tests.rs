//! The store's write paths against live data: idempotent ingest, offline
//! marking, drain atomicity, the notify pairing, the sampler's reservation
//! set, and the scheduling state machines.

use mine_search::sampler::{generate_random_ip, is_reserved_ip, Ip4};
use rand::SeedableRng;
use mine_search::schedule::{
    match_pings_to_servers, updater_step, worker_step, ServerRef, UpdaterAction, UpdaterPhase,
    WorkerAction, WorkerEvent, WorkerState,
};
use mine_search::status::{parse_status, ExtraData, Status};
use mine_search::store::Store;

fn paper_status() -> Status {
    let mut raw = String::from("{\"version\":{\"name\":\"Paper 1.20.2\",\"protocol\":764},");
    raw.push_str("\"players\":{\"online\":3,\"max\":20,\"sample\":[");
    raw.push_str("{\"id\":\"069a79f4-44e9-4726-a5be-fca90e38aaf5\",\"name\":\"alice\"}]},");
    raw.push_str("\"description\":{\"text\":\"Hello\"}}");
    parse_status(raw.as_str()).expect("fixture parses")
}

fn offline_extra() -> ExtraData {
    ExtraData { is_online_mode: false, disconnect_reason: None }
}

#[test]
fn ingest_creates_server_snapshot_and_players() {
    // E1: offline-mode Paper server
    let mut store = Store::new();
    let status = paper_status();
    let sid = store.ingest(String::from("1.2.3.4"), 25565, &status, &offline_extra(), Some(42), 1000);
    assert_eq!(store.servers.len(), 1);
    let row = &store.servers[0];
    assert_eq!(row.id, sid);
    assert_eq!(row.ip, "1.2.3.4");
    assert_eq!(row.version_name, "Paper 1.20.2");
    assert_eq!(row.protocol, 764);
    assert!(!row.is_online_mode);
    assert!(!row.is_forge);
    assert!(row.is_online);
    assert_eq!(row.ping, Some(42));
    assert_eq!(row.created_at, 1000);
    assert_eq!(row.updated_at, 1000);
    assert_eq!(store.snapshots.len(), 1);
    assert_eq!(store.snapshots[0].server_id, sid);
    assert_eq!(store.snapshots[0].players_online, 3);
    assert_eq!(store.snapshots[0].players_max, 20);
    assert_eq!(store.players.len(), 1);
    assert_eq!(store.players[0].name, "alice");
    assert_eq!(store.players[0].server_id, sid);
}

#[test]
fn ingest_twice_is_idempotent() {
    let mut store = Store::new();
    let status = paper_status();
    let sid1 = store.ingest(String::from("1.2.3.4"), 25565, &status, &offline_extra(), None, 1000);
    let sid2 = store.ingest(String::from("1.2.3.4"), 25565, &status, &offline_extra(), None, 2000);
    assert_eq!(sid1, sid2);
    // exactly one server row, two snapshots, the sample once
    assert_eq!(store.servers.len(), 1);
    assert_eq!(store.snapshots.len(), 2);
    assert_eq!(store.players.len(), 1);
    // updated_at strictly advances; created_at stays
    assert_eq!(store.servers[0].created_at, 1000);
    assert_eq!(store.servers[0].updated_at, 2000);
}

#[test]
fn ingest_online_mode_forge_server() {
    // E2 and E4 rolled together: EncryptionRequest answer, forgeData status
    let mut raw = String::from("{\"version\":{\"name\":\"Forge\",\"protocol\":764},");
    raw.push_str("\"players\":{\"online\":0,\"max\":64},");
    raw.push_str("\"description\":\"modded\",\"forgeData\":{\"x\":1}}");
    let status = parse_status(raw.as_str()).expect("parses");
    let extra = ExtraData { is_online_mode: true, disconnect_reason: None };
    let mut store = Store::new();
    store.ingest(String::from("9.9.9.9"), 25565, &status, &extra, None, 5);
    assert!(store.servers[0].is_online_mode);
    assert!(store.servers[0].is_forge);
}

#[test]
fn update_failure_marks_offline_without_snapshot() {
    let mut store = Store::new();
    let status = paper_status();
    let sid = store.ingest(String::from("1.2.3.4"), 25565, &status, &offline_extra(), None, 1000);
    assert!(store.servers[0].is_online);
    store.update_server(sid, None, None, 2000);
    assert!(!store.servers[0].is_online);
    // no snapshot is appended on a failed probe
    assert_eq!(store.snapshots.len(), 1);
    assert_eq!(store.players.len(), 1);
}

#[test]
fn update_success_refreshes_row_players_and_history() {
    let mut store = Store::new();
    let status = paper_status();
    let sid = store.ingest(String::from("1.2.3.4"), 25565, &status, &offline_extra(), None, 1000);
    store.update_server(sid, None, None, 1500);
    assert!(!store.servers[0].is_online);

    let mut raw = String::from("{\"version\":{\"name\":\"Paper 1.20.4\",\"protocol\":765},");
    raw.push_str("\"players\":{\"online\":5,\"max\":20,\"sample\":[");
    raw.push_str("{\"id\":\"i1\",\"name\":\"alice\"},{\"id\":\"i2\",\"name\":\"carol\"}]},");
    raw.push_str("\"description\":\"new motd\"}");
    let fresh = parse_status(raw.as_str()).expect("parses");
    store.update_server(sid, Some((&fresh, Some(7))), None, 2000);

    assert_eq!(store.snapshots.len(), 2);
    assert_eq!(store.snapshots[1].players_online, 5);
    // alice refreshed, carol inserted
    assert_eq!(store.players.len(), 2);
    assert_eq!(store.players[0].name, "alice");
    assert_eq!(store.players[0].last_seen_at, 2000);
    assert_eq!(store.players[1].name, "carol");
    let row = &store.servers[0];
    assert_eq!(row.version_name, "Paper 1.20.4");
    assert_eq!(row.protocol, 765);
    assert!(row.is_online);
    assert_eq!(row.ping, Some(7));
    assert_eq!(row.updated_at, 2000);
}

#[test]
fn update_with_connection_writes_extras() {
    let mut store = Store::new();
    let status = paper_status();
    let sid = store.ingest(String::from("1.2.3.4"), 25565, &status, &offline_extra(), None, 1000);
    let extra = ExtraData { is_online_mode: true, disconnect_reason: None };
    store.update_server(sid, Some((&status, None)), Some(&extra), 2000);
    assert!(store.servers[0].is_online_mode);
}

#[test]
fn ping_requests_drain_exactly_once() {
    let mut store = Store::new();
    store.enqueue_ping_request(1, 10, false);
    store.enqueue_ping_request(2, 11, true);
    let first = store.drain_ping_requests();
    assert_eq!(first.len(), 2);
    assert_eq!(first[0].server_id, 10);
    assert_eq!(first[1].server_id, 11);
    assert!(first[1].with_connection);
    // an immediately following batch takes nothing
    let second = store.drain_ping_requests();
    assert!(second.is_empty());
}

#[test]
fn scan_targets_drain_by_quick_flag() {
    let mut store = Store::new();
    store.enqueue_scan_target(1, String::from("1.1.1.1"), 25565, true);
    store.enqueue_scan_target(2, String::from("2.2.2.2"), 25565, false);
    store.enqueue_scan_target(3, String::from("3.3.3.3"), 25565, true);
    let quick = store.drain_scan_targets(true);
    assert_eq!(quick.len(), 2);
    assert_eq!(quick[0].ip, "1.1.1.1");
    assert_eq!(quick[1].ip, "3.3.3.3");
    // the slow one is still queued; quick ones are gone
    assert!(store.drain_scan_targets(true).is_empty());
    let slow = store.drain_scan_targets(false);
    assert_eq!(slow.len(), 1);
    assert_eq!(slow[0].ip, "2.2.2.2");
}

#[test]
fn notify_pairing_resolves_and_skips() {
    let mut store = Store::new();
    store.enqueue_ping_request(1, 10, true);
    store.enqueue_ping_request(2, 99, false);
    store.enqueue_ping_request(3, 11, false);
    let pings = store.drain_ping_requests();
    let servers: Vec<ServerRef> = vec![
        ServerRef { id: 10, ip: String::from("1.1.1.1"), port: 25565 },
        ServerRef { id: 11, ip: String::from("2.2.2.2"), port: 25566 },
    ];
    let paired = match_pings_to_servers(&pings, &servers);
    // the request with the unknown id 99 is skipped
    assert_eq!(paired.len(), 2);
    assert_eq!(paired[0].0.ip, "1.1.1.1");
    assert!(paired[0].1);
    assert_eq!(paired[1].0.ip, "2.2.2.2");
    assert!(!paired[1].1);
}

#[test]
fn sampler_never_yields_reserved_addresses() {
    let mut rng = rand_chacha::ChaCha8Rng::seed_from_u64(0xfeed);
    let mut distinct: u32 = 0;
    let mut last: Option<Ip4> = None;
    for _ in 0..1_000_000u32 {
        let ip = generate_random_ip(&mut rng);
        assert!(!is_reserved_ip(&ip));
        if last != Some(ip) {
            distinct += 1;
        }
        last = Some(ip);
    }
    assert!(distinct > 1000, "the generator must actually vary");
}

#[test]
fn reservation_table_matches_spec() {
    let reserved: Vec<Ip4> = vec![
        Ip4 { o0: 0, o1: 1, o2: 2, o3: 3 },
        Ip4 { o0: 224, o1: 0, o2: 0, o3: 1 },
        Ip4 { o0: 255, o1: 255, o2: 255, o3: 255 },
        Ip4 { o0: 10, o1: 20, o2: 30, o3: 40 },
        Ip4 { o0: 127, o1: 0, o2: 0, o3: 1 },
        Ip4 { o0: 172, o1: 16, o2: 0, o3: 1 },
        Ip4 { o0: 172, o1: 31, o2: 255, o3: 1 },
        Ip4 { o0: 192, o1: 168, o2: 1, o3: 1 },
        Ip4 { o0: 192, o1: 0, o2: 2, o3: 9 },
        Ip4 { o0: 169, o1: 254, o2: 3, o3: 3 },
        Ip4 { o0: 100, o1: 64, o2: 0, o3: 0 },
        Ip4 { o0: 100, o1: 127, o2: 9, o3: 9 },
        Ip4 { o0: 198, o1: 18, o2: 0, o3: 0 },
        Ip4 { o0: 198, o1: 19, o2: 1, o3: 1 },
        Ip4 { o0: 198, o1: 51, o2: 100, o3: 7 },
        Ip4 { o0: 203, o1: 0, o2: 113, o3: 8 },
    ];
    for ip in &reserved {
        assert!(is_reserved_ip(ip), "{:?} must be reserved", ip);
    }
    let public: Vec<Ip4> = vec![
        Ip4 { o0: 1, o1: 1, o2: 1, o3: 1 },
        Ip4 { o0: 8, o1: 8, o2: 8, o3: 8 },
        Ip4 { o0: 100, o1: 63, o2: 0, o3: 0 },
        Ip4 { o0: 100, o1: 128, o2: 0, o3: 0 },
        Ip4 { o0: 172, o1: 15, o2: 0, o3: 1 },
        Ip4 { o0: 172, o1: 32, o2: 0, o3: 1 },
        Ip4 { o0: 192, o1: 0, o2: 3, o3: 1 },
        Ip4 { o0: 198, o1: 20, o2: 0, o3: 1 },
        Ip4 { o0: 223, o1: 255, o2: 255, o3: 255 },
    ];
    for ip in &public {
        assert!(!is_reserved_ip(ip), "{:?} must be public", ip);
    }
}

#[test]
fn worker_observes_pause_before_probing() {
    // P8 as a scenario: a paused signal parks the worker, and while it stays
    // paused no probe or ingest ever starts
    let (s, a) = worker_step(WorkerState::Running, WorkerEvent::Pause(true));
    assert_eq!(s, WorkerState::Paused);
    assert_eq!(a, WorkerAction::Wait);
    let (s, a) = worker_step(s, WorkerEvent::Pause(true));
    assert_eq!(s, WorkerState::Paused);
    assert_eq!(a, WorkerAction::Wait);
    // only the unpaused edge releases it, straight into a probe
    let (s, a) = worker_step(s, WorkerEvent::Pause(false));
    assert_eq!(s, WorkerState::InProbe);
    assert_eq!(a, WorkerAction::StartProbe);
    // a successful probe forwards the socket into ingest
    let (s, a) = worker_step(s, WorkerEvent::ProbeSucceeded);
    assert_eq!(s, WorkerState::InIngest);
    assert_eq!(a, WorkerAction::StartIngest);
    let (s, a) = worker_step(s, WorkerEvent::IngestFinished);
    assert_eq!(s, WorkerState::Running);
    assert_eq!(a, WorkerAction::Idle);
    // a failed probe goes straight back to the signal read
    let (s, _) = worker_step(s, WorkerEvent::Pause(false));
    let (s, a) = worker_step(s, WorkerEvent::ProbeFailed);
    assert_eq!(s, WorkerState::Running);
    assert_eq!(a, WorkerAction::Idle);
}

#[test]
fn updater_cycle_pauses_before_updating_and_resumes_after() {
    let mut phase = UpdaterPhase::Idle;
    let mut actions: Vec<UpdaterAction> = Vec::new();
    for _ in 0..6 {
        let (a, next) = updater_step(phase, true);
        actions.push(a);
        phase = next;
    }
    assert_eq!(
        actions,
        vec![
            UpdaterAction::EmitPause,
            UpdaterAction::WaitQuiesce,
            UpdaterAction::TakeExternalTargets,
            UpdaterAction::RunUpdates,
            UpdaterAction::EmitResume,
            UpdaterAction::SleepCycle,
        ]
    );
    assert_eq!(phase, UpdaterPhase::Idle);

    // without the search module the signal is never touched
    let mut phase = UpdaterPhase::Idle;
    let mut actions: Vec<UpdaterAction> = Vec::new();
    for _ in 0..3 {
        let (a, next) = updater_step(phase, false);
        actions.push(a);
        phase = next;
    }
    assert_eq!(
        actions,
        vec![
            UpdaterAction::TakeExternalTargets,
            UpdaterAction::RunUpdates,
            UpdaterAction::SleepCycle,
        ]
    );
}

#[test]
fn app_error_constructors() {
    let db = mine_search::error::AppError::db("loading servers");
    assert_eq!(db.kind(), "database");
    match db {
        mine_search::error::AppError::Database(c) => assert_eq!(c, "loading servers"),
        other => panic!("unexpected error: {:?}", other),
    }
    let internal = mine_search::error::AppError::internal("join failed");
    assert_eq!(internal.kind(), "internal");
    match internal {
        mine_search::error::AppError::Internal(c) => assert_eq!(c, "join failed"),
        other => panic!("unexpected error: {:?}", other),
    }
    assert_eq!(mine_search::error::AppError::Unauthorized.kind(), "unauthorized");
}
