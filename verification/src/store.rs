//! A model of the relational store the worker writes: servers keyed by
//! unique ip, append-only player-count snapshots, players keyed by server
//! and name, and the two externally fed queues. Every write path of the
//! worker is an operation here with its exact conflict semantics, so the
//! upsert rules of the ingest and update paths are pinned down and the
//! idempotence and drain laws are proved over them.

use crate::json::{Json, JsonV};
use vstd::prelude::*;

verus! {

/// A player's operator-assigned standing.
#[derive(Clone, Copy, Debug, PartialEq, Eq)]
pub enum PlayerStatus {
    NoStatus,
    Regular,
    Admin,
}

/// One server row, keyed by its unique `ip`.
#[derive(Debug)]
pub struct ServerRow {
    pub id: i64,
    pub ip: String,
    pub port: i64,
    pub version_name: String,
    pub protocol: i64,
    pub description: Json,
    pub favicon: Option<String>,
    pub ping: Option<i64>,
    pub is_online_mode: bool,
    pub disconnect_reason: Option<Json>,
    pub is_checked: bool,
    pub is_spoofable: Option<bool>,
    pub is_crashed: bool,
    pub is_online: bool,
    pub is_forge: bool,
    pub created_at: i64,
    pub updated_at: i64,
}

/// One player-count observation; append-only history.
#[derive(PartialEq, Eq, Structural, Clone, Copy)]
pub struct SnapshotRow {
    pub id: i64,
    pub server_id: i64,
    pub players_online: i64,
    pub players_max: i64,
    pub recorded_at: i64,
}

/// One player sighting, keyed by `(server_id, name)`.
#[derive(Clone, Debug)]
pub struct PlayerRow {
    pub id: i64,
    pub server_id: i64,
    pub name: String,
    pub status: PlayerStatus,
    pub last_seen_at: i64,
}

/// One externally queued scan target.
#[derive(Clone, Debug)]
pub struct ScanTargetRow {
    pub id: i64,
    pub ip: String,
    pub port: i64,
    pub quick: bool,
}

/// One externally queued per-server refresh request.
#[derive(PartialEq, Eq, Structural, Clone, Copy)]
pub struct PingRequestRow {
    pub id: i64,
    pub server_id: i64,
    pub with_connection: bool,
}

// ------------------------------------------------------------------
// abstract shapes
// ------------------------------------------------------------------
pub struct ServerRowV {
    pub id: int,
    pub ip: Seq<char>,
    pub port: int,
    pub version_name: Seq<char>,
    pub protocol: int,
    pub description: JsonV,
    pub favicon: Option<Seq<char>>,
    pub ping: Option<int>,
    pub is_online_mode: bool,
    pub disconnect_reason: Option<JsonV>,
    pub is_checked: bool,
    pub is_spoofable: Option<bool>,
    pub is_crashed: bool,
    pub is_online: bool,
    pub is_forge: bool,
    pub created_at: int,
    pub updated_at: int,
}

pub struct PlayerRowV {
    pub id: int,
    pub server_id: int,
    pub name: Seq<char>,
    pub status: PlayerStatus,
    pub last_seen_at: int,
}

pub struct ScanTargetRowV {
    pub id: int,
    pub ip: Seq<char>,
    pub port: int,
    pub quick: bool,
}

pub struct SnapshotRowV {
    pub id: int,
    pub server_id: int,
    pub players_online: int,
    pub players_max: int,
    pub recorded_at: int,
}

pub struct PingRequestRowV {
    pub id: int,
    pub server_id: int,
    pub with_connection: bool,
}

impl View for SnapshotRow {
    type V = SnapshotRowV;

    open spec fn view(&self) -> SnapshotRowV {
        SnapshotRowV {
            id: self.id as int,
            server_id: self.server_id as int,
            players_online: self.players_online as int,
            players_max: self.players_max as int,
            recorded_at: self.recorded_at as int,
        }
    }
}

impl View for PingRequestRow {
    type V = PingRequestRowV;

    open spec fn view(&self) -> PingRequestRowV {
        PingRequestRowV {
            id: self.id as int,
            server_id: self.server_id as int,
            with_connection: self.with_connection,
        }
    }
}

impl View for ServerRow {
    type V = ServerRowV;

    open spec fn view(&self) -> ServerRowV {
        ServerRowV {
            id: self.id as int,
            ip: self.ip@,
            port: self.port as int,
            version_name: self.version_name@,
            protocol: self.protocol as int,
            description: self.description@,
            favicon: match self.favicon {
                Some(s) => Some(s@),
                None => None,
            },
            ping: match self.ping {
                Some(p) => Some(p as int),
                None => None,
            },
            is_online_mode: self.is_online_mode,
            disconnect_reason: match self.disconnect_reason {
                Some(d) => Some(d@),
                None => None,
            },
            is_checked: self.is_checked,
            is_spoofable: self.is_spoofable,
            is_crashed: self.is_crashed,
            is_online: self.is_online,
            is_forge: self.is_forge,
            created_at: self.created_at as int,
            updated_at: self.updated_at as int,
        }
    }
}

impl View for PlayerRow {
    type V = PlayerRowV;

    open spec fn view(&self) -> PlayerRowV {
        PlayerRowV {
            id: self.id as int,
            server_id: self.server_id as int,
            name: self.name@,
            status: self.status,
            last_seen_at: self.last_seen_at as int,
        }
    }
}

impl View for ScanTargetRow {
    type V = ScanTargetRowV;

    open spec fn view(&self) -> ScanTargetRowV {
        ScanTargetRowV { id: self.id as int, ip: self.ip@, port: self.port as int, quick: self.quick }
    }
}

/// The store's abstract state.
pub struct StoreV {
    pub servers: Seq<ServerRowV>,
    pub snapshots: Seq<SnapshotRowV>,
    pub players: Seq<PlayerRowV>,
    pub scan_targets: Seq<ScanTargetRowV>,
    pub ping_requests: Seq<PingRequestRowV>,
    pub next_server_id: int,
    pub next_snapshot_id: int,
    pub next_player_id: int,
}

/// The store: the five tables and the id counters.
pub struct Store {
    pub servers: Vec<ServerRow>,
    pub snapshots: Vec<SnapshotRow>,
    pub players: Vec<PlayerRow>,
    pub scan_targets: Vec<ScanTargetRow>,
    pub ping_requests: Vec<PingRequestRow>,
    pub next_server_id: i64,
    pub next_snapshot_id: i64,
    pub next_player_id: i64,
}

impl View for Store {
    type V = StoreV;

    open spec fn view(&self) -> StoreV {
        StoreV {
            servers: self.servers@.map_values(|r: ServerRow| r@),
            snapshots: self.snapshots@.map_values(|r: SnapshotRow| r@),
            players: self.players@.map_values(|r: PlayerRow| r@),
            scan_targets: self.scan_targets@.map_values(|r: ScanTargetRow| r@),
            ping_requests: self.ping_requests@.map_values(|r: PingRequestRow| r@),
            next_server_id: self.next_server_id as int,
            next_snapshot_id: self.next_snapshot_id as int,
            next_player_id: self.next_player_id as int,
        }
    }
}

// ------------------------------------------------------------------
// well-formedness
// ------------------------------------------------------------------
/// The store's invariant: ips are unique among servers, server ids are
/// unique and below the counter, snapshot ids grow strictly (append-only
/// order) and stay below the counter, players are unique per
/// `(server_id, name)`, and the counters are non-negative.
pub open spec fn wf_state(s: StoreV) -> bool {
    &&& forall|k1: int, k2: int|
        0 <= k1 < k2 < s.servers.len() ==> (#[trigger] s.servers[k1]).ip != (
        #[trigger] s.servers[k2]).ip
    &&& forall|k1: int, k2: int|
        0 <= k1 < k2 < s.servers.len() ==> (#[trigger] s.servers[k1]).id != (
        #[trigger] s.servers[k2]).id
    &&& forall|k: int| 0 <= k < s.servers.len() ==> (#[trigger] s.servers[k]).id < s.next_server_id
    &&& forall|k1: int, k2: int|
        0 <= k1 < k2 < s.snapshots.len() ==> (#[trigger] s.snapshots[k1]).id < (
        #[trigger] s.snapshots[k2]).id
    &&& forall|k: int|
        0 <= k < s.snapshots.len() ==> (#[trigger] s.snapshots[k]).id < s.next_snapshot_id
    &&& forall|k1: int, k2: int|
        0 <= k1 < k2 < s.players.len() ==> !((#[trigger] s.players[k1]).server_id == (
        #[trigger] s.players[k2]).server_id && s.players[k1].name == s.players[k2].name)
    &&& forall|k: int| 0 <= k < s.players.len() ==> (#[trigger] s.players[k]).id < s.next_player_id
    &&& 0 <= s.next_server_id
    &&& 0 <= s.next_snapshot_id
    &&& 0 <= s.next_player_id
}

impl Store {
    /// An empty store.
    pub fn new() -> (r: Store)
        ensures
            r@.servers.len() == 0,
            r@.snapshots.len() == 0,
            r@.players.len() == 0,
            r@.scan_targets.len() == 0,
            r@.ping_requests.len() == 0,
            r@.next_server_id == 1,
            r@.next_snapshot_id == 1,
            r@.next_player_id == 1,
            wf_state(r@),
    {
        let r = Store {
            servers: Vec::new(),
            snapshots: Vec::new(),
            players: Vec::new(),
            scan_targets: Vec::new(),
            ping_requests: Vec::new(),
            next_server_id: 1,
            next_snapshot_id: 1,
            next_player_id: 1,
        };
        proof {
            assert(r@.servers =~= Seq::<ServerRowV>::empty());
            assert(r@.players =~= Seq::<PlayerRowV>::empty());
            assert(r@.scan_targets =~= Seq::<ScanTargetRowV>::empty());
            assert(r@.snapshots =~= Seq::<SnapshotRowV>::empty());
            assert(r@.ping_requests =~= Seq::<PingRequestRowV>::empty());
        }
        r
    }

    /// The invariant, checked nowhere and assumed everywhere: operations
    /// require and preserve it.
    pub open spec fn wf(&self) -> bool {
        wf_state(self@)
    }
}

// ------------------------------------------------------------------
// lookups
// ------------------------------------------------------------------
/// The first index holding `ip`.
pub open spec fn find_ip(servers: Seq<ServerRowV>, ip: Seq<char>) -> Option<int>
    decreases servers.len(),
{
    if servers.len() == 0 {
        None
    } else if servers[0].ip == ip {
        Some(0)
    } else {
        match find_ip(servers.skip(1), ip) {
            Some(i) => Some(i + 1),
            None => None,
        }
    }
}

/// What `find_ip` finds: the first index holding `ip`, if any.
pub proof fn lemma_find_ip(servers: Seq<ServerRowV>, ip: Seq<char>)
    ensures
        match find_ip(servers, ip) {
            Some(i) => 0 <= i < servers.len() && servers[i].ip == ip && forall|k: int|
                0 <= k < i ==> (#[trigger] servers[k]).ip != ip,
            None => forall|k: int| 0 <= k < servers.len() ==> (#[trigger] servers[k]).ip != ip,
        },
    decreases servers.len(),
{
    if servers.len() > 0 && servers[0].ip != ip {
        lemma_find_ip(servers.skip(1), ip);
        assert forall|k: int| 1 <= k < servers.len() implies servers.skip(1)[k - 1]
            == servers[k] by {}
    }
}

/// The first index holding the server `id`.
pub open spec fn find_id(servers: Seq<ServerRowV>, id: int) -> Option<int>
    decreases servers.len(),
{
    if servers.len() == 0 {
        None
    } else if servers[0].id == id {
        Some(0)
    } else {
        match find_id(servers.skip(1), id) {
            Some(i) => Some(i + 1),
            None => None,
        }
    }
}

/// What `find_id` finds.
pub proof fn lemma_find_id(servers: Seq<ServerRowV>, id: int)
    ensures
        match find_id(servers, id) {
            Some(i) => 0 <= i < servers.len() && servers[i].id == id && forall|k: int|
                0 <= k < i ==> (#[trigger] servers[k]).id != id,
            None => forall|k: int| 0 <= k < servers.len() ==> (#[trigger] servers[k]).id != id,
        },
    decreases servers.len(),
{
    if servers.len() > 0 && servers[0].id != id {
        lemma_find_id(servers.skip(1), id);
        assert forall|k: int| 1 <= k < servers.len() implies servers.skip(1)[k - 1]
            == servers[k] by {}
    }
}

/// The first index of the player keyed `(server_id, name)`.
pub open spec fn find_player(players: Seq<PlayerRowV>, server_id: int, name: Seq<char>) -> Option<
    int,
>
    decreases players.len(),
{
    if players.len() == 0 {
        None
    } else if players[0].server_id == server_id && players[0].name == name {
        Some(0)
    } else {
        match find_player(players.skip(1), server_id, name) {
            Some(i) => Some(i + 1),
            None => None,
        }
    }
}

// ------------------------------------------------------------------
// one observation, abstractly
// ------------------------------------------------------------------
/// What one successful probe observed, abstractly: the fields written into
/// the server row, the counts for the snapshot, and the sampled names.
pub struct ObservationV {
    pub version_name: Seq<char>,
    pub protocol: int,
    pub description: JsonV,
    pub favicon: Option<Seq<char>>,
    pub ping: Option<int>,
    pub online: int,
    pub max: int,
    pub names: Seq<Seq<char>>,
    pub is_forge: bool,
}

/// The abstract content of a decoded status plus the measured ping.
pub open spec fn obs_of(status: crate::status::Status, ping: Option<i64>) -> ObservationV {
    ObservationV {
        version_name: status.version.name@,
        protocol: status.version.protocol as int,
        description: status.description@,
        favicon: match status.favicon {
            Some(f) => Some(f@),
            None => None,
        },
        ping: match ping {
            Some(p) => Some(p as int),
            None => None,
        },
        online: status.players.online as int,
        max: status.players.max as int,
        names: match status.players.sample {
            Some(v) => v@.map_values(|p: crate::status::Player| p.name@),
            None => Seq::empty(),
        },
        is_forge: status.forge_data is Some || status.modinfo is Some,
    }
}

/// The abstract content of the login probe's answer.
pub struct ExtraV {
    pub is_online_mode: bool,
    pub reason: Option<JsonV>,
}

pub open spec fn extra_view(e: crate::status::ExtraData) -> ExtraV {
    ExtraV {
        is_online_mode: e.is_online_mode,
        reason: match e.disconnect_reason {
            Some(d) => Some(d@),
            None => None,
        },
    }
}

// ------------------------------------------------------------------
// the write paths, abstractly
// ------------------------------------------------------------------
/// Upsert a server by ip: a colliding insert turns into an update of
/// `updated_at`, `is_online` and `favicon` alone; a fresh insert takes the
/// next id and all observed fields. Returns the new state and the row's id.
pub open spec fn upsert_server_model(
    s: StoreV,
    ip: Seq<char>,
    port: int,
    o: ObservationV,
    e: ExtraV,
    now: int,
) -> (StoreV, int) {
    match find_ip(s.servers, ip) {
        Some(i) => {
            let row = ServerRowV { updated_at: now, is_online: true, favicon: o.favicon, ..s.servers[i] };
            (StoreV { servers: s.servers.update(i, row), ..s }, s.servers[i].id)
        },
        None => {
            let row = ServerRowV {
                id: s.next_server_id,
                ip: ip,
                port: port,
                version_name: o.version_name,
                protocol: o.protocol,
                description: o.description,
                favicon: o.favicon,
                ping: o.ping,
                is_online_mode: e.is_online_mode,
                disconnect_reason: e.reason,
                is_checked: false,
                is_spoofable: None,
                is_crashed: false,
                is_online: true,
                is_forge: o.is_forge,
                created_at: now,
                updated_at: now,
            };
            (
                StoreV {
                    servers: s.servers.push(row),
                    next_server_id: s.next_server_id + 1,
                    ..s
                },
                s.next_server_id,
            )
        },
    }
}

/// Append one player-count snapshot.
pub open spec fn insert_snapshot_model(
    s: StoreV,
    server_id: int,
    online: int,
    max: int,
    now: int,
) -> StoreV {
    let row = SnapshotRowV {
        id: s.next_snapshot_id,
        server_id: server_id,
        players_online: online,
        players_max: max,
        recorded_at: now,
    };
    StoreV { snapshots: s.snapshots.push(row), next_snapshot_id: s.next_snapshot_id + 1, ..s }
}

/// Insert one sampled player with conflict-do-nothing on `(server_id, name)`.
pub open spec fn ingest_player_model(s: StoreV, server_id: int, name: Seq<char>, now: int) -> StoreV {
    match find_player(s.players, server_id, name) {
        Some(_) => s,
        None => {
            let row = PlayerRowV {
                id: s.next_player_id,
                server_id: server_id,
                name: name,
                status: PlayerStatus::NoStatus,
                last_seen_at: now,
            };
            StoreV { players: s.players.push(row), next_player_id: s.next_player_id + 1, ..s }
        },
    }
}

/// Insert a whole sample with conflict-do-nothing, in order.
pub open spec fn ingest_players_model(
    s: StoreV,
    server_id: int,
    names: Seq<Seq<char>>,
    now: int,
) -> StoreV
    decreases names.len(),
{
    if names.len() == 0 {
        s
    } else {
        ingest_players_model(ingest_player_model(s, server_id, names[0], now), server_id, names.skip(1), now)
    }
}

/// Upsert one sampled player: a conflict on `(server_id, name)` refreshes
/// `last_seen_at` instead.
pub open spec fn upsert_player_model(s: StoreV, server_id: int, name: Seq<char>, now: int) -> StoreV {
    match find_player(s.players, server_id, name) {
        Some(i) => {
            let row = PlayerRowV { last_seen_at: now, ..s.players[i] };
            StoreV { players: s.players.update(i, row), ..s }
        },
        None => {
            let row = PlayerRowV {
                id: s.next_player_id,
                server_id: server_id,
                name: name,
                status: PlayerStatus::NoStatus,
                last_seen_at: now,
            };
            StoreV { players: s.players.push(row), next_player_id: s.next_player_id + 1, ..s }
        },
    }
}

/// Upsert a whole sample, in order.
pub open spec fn upsert_players_model(
    s: StoreV,
    server_id: int,
    names: Seq<Seq<char>>,
    now: int,
) -> StoreV
    decreases names.len(),
{
    if names.len() == 0 {
        s
    } else {
        upsert_players_model(upsert_player_model(s, server_id, names[0], now), server_id, names.skip(1), now)
    }
}

/// The whole ingest path: upsert the server by ip, append a snapshot, then
/// insert the sample with conflict-do-nothing — in that order.
pub open spec fn ingest_model(
    s: StoreV,
    ip: Seq<char>,
    port: int,
    o: ObservationV,
    e: ExtraV,
    now: int,
) -> (StoreV, int) {
    let (s1, sid) = upsert_server_model(s, ip, port, o, e, now);
    let s2 = insert_snapshot_model(s1, sid, o.online, o.max, now);
    let s3 = ingest_players_model(s2, sid, o.names, now);
    (s3, sid)
}

/// A failed refresh: the server row is marked offline and nothing else
/// changes — no snapshot is appended.
pub open spec fn mark_offline_model(s: StoreV, server_id: int) -> StoreV {
    match find_id(s.servers, server_id) {
        Some(i) => {
            let row = ServerRowV { is_online: false, ..s.servers[i] };
            StoreV { servers: s.servers.update(i, row), ..s }
        },
        None => s,
    }
}

/// A successful refresh: append a snapshot, upsert the sample refreshing
/// `last_seen_at`, then update the server row's observed fields — in that
/// order.
pub open spec fn update_success_model(
    s: StoreV,
    server_id: int,
    o: ObservationV,
    now: int,
) -> StoreV {
    let s1 = insert_snapshot_model(s, server_id, o.online, o.max, now);
    let s2 = upsert_players_model(s1, server_id, o.names, now);
    match find_id(s2.servers, server_id) {
        Some(i) => {
            let row = ServerRowV {
                version_name: o.version_name,
                protocol: o.protocol,
                description: o.description,
                updated_at: now,
                is_online: true,
                is_forge: o.is_forge,
                favicon: o.favicon,
                ping: o.ping,
                ..s2.servers[i]
            };
            StoreV { servers: s2.servers.update(i, row), ..s2 }
        },
        None => s2,
    }
}

/// The login-probe extras written after a refresh.
pub open spec fn apply_extra_model(s: StoreV, server_id: int, e: ExtraV) -> StoreV {
    match find_id(s.servers, server_id) {
        Some(i) => {
            let row = ServerRowV {
                is_online_mode: e.is_online_mode,
                disconnect_reason: e.reason,
                ..s.servers[i]
            };
            StoreV { servers: s.servers.update(i, row), ..s }
        },
        None => s,
    }
}

/// What `find_player` finds.
pub proof fn lemma_find_player(players: Seq<PlayerRowV>, server_id: int, name: Seq<char>)
    ensures
        match find_player(players, server_id, name) {
            Some(i) => 0 <= i < players.len() && players[i].server_id == server_id
                && players[i].name == name && forall|k: int|
                0 <= k < i ==> !((#[trigger] players[k]).server_id == server_id && players[k].name
                    == name),
            None => forall|k: int|
                0 <= k < players.len() ==> !((#[trigger] players[k]).server_id == server_id
                    && players[k].name == name),
        },
    decreases players.len(),
{
    if players.len() > 0 && !(players[0].server_id == server_id && players[0].name == name) {
        lemma_find_player(players.skip(1), server_id, name);
        assert forall|k: int| 1 <= k < players.len() implies players.skip(1)[k - 1]
            == players[k] by {}
    }
}

/// Keep or drop: the queued targets whose `quick` flag matches.
pub open spec fn targets_matching(ts: Seq<ScanTargetRowV>, quick: bool) -> Seq<ScanTargetRowV>
    decreases ts.len(),
{
    if ts.len() == 0 {
        Seq::empty()
    } else {
        let rest = targets_matching(ts.skip(1), quick);
        if ts[0].quick == quick {
            seq![ts[0]] + rest
        } else {
            rest
        }
    }
}

/// Drain every queued refresh request in one batch: all rows are returned
/// and the table is left empty.
pub open spec fn drain_pings_model(s: StoreV) -> (Seq<PingRequestRowV>, StoreV) {
    (s.ping_requests, StoreV { ping_requests: Seq::empty(), ..s })
}

/// Drain the queued scan targets with the given `quick` flag: exactly those
/// rows are returned, in order, and the others stay.
pub open spec fn drain_targets_model(s: StoreV, quick: bool) -> (Seq<ScanTargetRowV>, StoreV) {
    (
        targets_matching(s.scan_targets, quick),
        StoreV { scan_targets: targets_matching(s.scan_targets, !quick), ..s },
    )
}

/// One refresh of a known server: a failed probe only marks the row
/// offline; a successful one appends a snapshot, upserts the sample and
/// rewrites the observed fields, then the login extras when that probe ran.
pub open spec fn update_model(
    s: StoreV,
    server_id: int,
    probe: Option<ObservationV>,
    extra: Option<ExtraV>,
    now: int,
) -> StoreV {
    match probe {
        None => mark_offline_model(s, server_id),
        Some(o) => {
            let s1 = update_success_model(s, server_id, o, now);
            match extra {
                Some(e) => apply_extra_model(s1, server_id, e),
                None => s1,
            }
        },
    }
}

// ------------------------------------------------------------------
// laws
// ------------------------------------------------------------------
/// Where the first occurrence is, the search finds it.
proof fn lemma_find_ip_at(servers: Seq<ServerRowV>, ip: Seq<char>, i: int)
    requires
        0 <= i < servers.len(),
        servers[i].ip == ip,
        forall|k: int| 0 <= k < i ==> (#[trigger] servers[k]).ip != ip,
    ensures
        find_ip(servers, ip) == Some(i),
{
    lemma_find_ip(servers, ip);
    match find_ip(servers, ip) {
        Some(j) => {
            if j < i {
                assert(servers[j].ip != ip);
            }
            if j > i {
                assert(servers[i].ip != ip);
            }
        },
        None => {
            assert(servers[i].ip != ip);
        },
    }
}

/// Where the first occurrence is, the search by id finds it.
proof fn lemma_find_id_at(servers: Seq<ServerRowV>, id: int, i: int)
    requires
        0 <= i < servers.len(),
        servers[i].id == id,
        forall|k: int| 0 <= k < i ==> (#[trigger] servers[k]).id != id,
    ensures
        find_id(servers, id) == Some(i),
{
    lemma_find_id(servers, id);
    match find_id(servers, id) {
        Some(k) => {
            if k < i {
                assert(servers[k].id != id);
            }
            if k > i {
                assert(servers[i].id != id);
            }
        },
        None => {
            assert(servers[i].id != id);
        },
    }
}

/// Where the first occurrence is, the player search finds it.
proof fn lemma_find_player_at(players: Seq<PlayerRowV>, server_id: int, name: Seq<char>, i: int)
    requires
        0 <= i < players.len(),
        players[i].server_id == server_id,
        players[i].name == name,
        forall|k: int|
            0 <= k < i ==> !((#[trigger] players[k]).server_id == server_id && players[k].name
                == name),
    ensures
        find_player(players, server_id, name) == Some(i),
{
    lemma_find_player(players, server_id, name);
    match find_player(players, server_id, name) {
        Some(k) => {
            if k < i {
                assert(!(players[k].server_id == server_id && players[k].name == name));
            }
            if k > i {
                assert(!(players[i].server_id == server_id && players[i].name == name));
            }
        },
        None => {
            assert(!(players[i].server_id == server_id && players[i].name == name));
        },
    }
}

/// Where a row with the key exists, the player search succeeds.
proof fn lemma_find_player_witness(players: Seq<PlayerRowV>, server_id: int, name: Seq<char>, i: int)
    requires
        0 <= i < players.len(),
        players[i].server_id == server_id,
        players[i].name == name,
    ensures
        find_player(players, server_id, name) is Some,
{
    lemma_find_player(players, server_id, name);
    if find_player(players, server_id, name) is None {
        assert(!(players[i].server_id == server_id && players[i].name == name));
    }
}

/// Inserting the sample touches only the players table and its counter.
proof fn lemma_ingest_players_frame(s: StoreV, server_id: int, names: Seq<Seq<char>>, now: int)
    ensures
        ({
            let r = ingest_players_model(s, server_id, names, now);
            &&& r.servers == s.servers
            &&& r.snapshots == s.snapshots
            &&& r.scan_targets == s.scan_targets
            &&& r.ping_requests == s.ping_requests
            &&& r.next_server_id == s.next_server_id
            &&& r.next_snapshot_id == s.next_snapshot_id
        }),
    decreases names.len(),
{
    if names.len() > 0 {
        lemma_ingest_players_frame(
            ingest_player_model(s, server_id, names[0], now),
            server_id,
            names.skip(1),
            now,
        );
    }
}

/// A present player stays present through one conflict-do-nothing insert.
proof fn lemma_ingest_player_keeps(
    s: StoreV,
    server_id: int,
    name: Seq<char>,
    now: int,
    sid: int,
    n: Seq<char>,
)
    requires
        find_player(s.players, sid, n) is Some,
    ensures
        find_player(ingest_player_model(s, server_id, name, now).players, sid, n) is Some,
{
    lemma_find_player(s.players, sid, n);
    let i = find_player(s.players, sid, n).unwrap();
    let r = ingest_player_model(s, server_id, name, now);
    assert(r.players[i].server_id == sid && r.players[i].name == n);
    lemma_find_player_witness(r.players, sid, n, i);
}

/// A present player stays present through a whole sample insert.
proof fn lemma_ingest_players_keeps(
    s: StoreV,
    server_id: int,
    names: Seq<Seq<char>>,
    now: int,
    sid: int,
    n: Seq<char>,
)
    requires
        find_player(s.players, sid, n) is Some,
    ensures
        find_player(ingest_players_model(s, server_id, names, now).players, sid, n) is Some,
    decreases names.len(),
{
    if names.len() > 0 {
        lemma_ingest_player_keeps(s, server_id, names[0], now, sid, n);
        lemma_ingest_players_keeps(
            ingest_player_model(s, server_id, names[0], now),
            server_id,
            names.skip(1),
            now,
            sid,
            n,
        );
    }
}

/// After the sample is inserted, every sampled name is present.
proof fn lemma_ingest_players_all_present(
    s: StoreV,
    server_id: int,
    names: Seq<Seq<char>>,
    now: int,
)
    ensures
        forall|j: int|
            0 <= j < names.len() ==> find_player(
                ingest_players_model(s, server_id, names, now).players,
                server_id,
                #[trigger] names[j],
            ) is Some,
    decreases names.len(),
{
    if names.len() > 0 {
        let s1 = ingest_player_model(s, server_id, names[0], now);
        lemma_find_player(s.players, server_id, names[0]);
        if find_player(s.players, server_id, names[0]) is None {
            lemma_find_player_witness(s1.players, server_id, names[0], s.players.len() as int);
        }
        lemma_ingest_players_keeps(s1, server_id, names.skip(1), now, server_id, names[0]);
        lemma_ingest_players_all_present(s1, server_id, names.skip(1), now);
        assert forall|j: int| 0 <= j < names.len() implies find_player(
            ingest_players_model(s, server_id, names, now).players,
            server_id,
            #[trigger] names[j],
        ) is Some by {
            if j > 0 {
                assert(names.skip(1)[j - 1] == names[j]);
            }
        }
    }
}

/// Inserting a sample whose names are all present changes nothing.
proof fn lemma_ingest_players_noop(s: StoreV, server_id: int, names: Seq<Seq<char>>, now: int)
    requires
        forall|j: int|
            0 <= j < names.len() ==> find_player(s.players, server_id, #[trigger] names[j]) is Some,
    ensures
        ingest_players_model(s, server_id, names, now) == s,
    decreases names.len(),
{
    if names.len() > 0 {
        assert(find_player(s.players, server_id, names[0]) is Some);
        assert(ingest_player_model(s, server_id, names[0], now) == s);
        assert forall|j: int| 0 <= j < names.skip(1).len() implies find_player(
            s.players,
            server_id,
            #[trigger] names.skip(1)[j],
        ) is Some by {
            assert(names.skip(1)[j] == names[j + 1]);
        }
        lemma_ingest_players_noop(s, server_id, names.skip(1), now);
    }
}

/// Idempotent ingest: discovering the same server twice — the same
/// observation, at a later clock — leaves exactly one server row more than
/// before, appends exactly two snapshots carrying its counts, inserts the
/// player sample only once, and strictly advances the row's `updated_at`.
pub proof fn lemma_ingest_idempotent(
    s: StoreV,
    ip: Seq<char>,
    port: int,
    o: ObservationV,
    e: ExtraV,
    now1: int,
    now2: int,
)
    requires
        wf_state(s),
        find_ip(s.servers, ip) is None,
        now1 < now2,
    ensures
        ({
            let (s1, sid1) = ingest_model(s, ip, port, o, e, now1);
            let (s2, sid2) = ingest_model(s1, ip, port, o, e, now2);
            &&& sid2 == sid1
            &&& s2.servers.len() == s.servers.len() + 1
            &&& s2.snapshots.len() == s.snapshots.len() + 2
            &&& s2.players == s1.players
            &&& forall|j: int|
                0 <= j < o.names.len() ==> find_player(
                    s2.players,
                    sid1,
                    #[trigger] o.names[j],
                ) is Some
            &&& s2.servers[s.servers.len() as int].ip == ip
            &&& s1.servers[s.servers.len() as int].updated_at == now1
            &&& s2.servers[s.servers.len() as int].updated_at == now2
            &&& s2.servers[s.servers.len() as int].created_at == now1
            &&& s2.snapshots[s.snapshots.len() as int].server_id == sid1
            &&& s2.snapshots[(s.snapshots.len() + 1) as int].server_id == sid1
            &&& s2.snapshots[s.snapshots.len() as int].players_online == o.online
            &&& s2.snapshots[(s.snapshots.len() + 1) as int].players_online == o.online
        }),
{
    let idx = s.servers.len() as int;
    lemma_find_ip(s.servers, ip);
    let (sa, sid1) = upsert_server_model(s, ip, port, o, e, now1);
    let sb = insert_snapshot_model(sa, sid1, o.online, o.max, now1);
    let s1 = ingest_players_model(sb, sid1, o.names, now1);
    lemma_ingest_players_frame(sb, sid1, o.names, now1);
    assert(s1.servers == sa.servers);
    assert(s1.servers[idx].ip == ip);
    assert forall|k: int| 0 <= k < idx implies (#[trigger] s1.servers[k]).ip != ip by {
        assert(s1.servers[k] == s.servers[k]);
    }
    lemma_find_ip_at(s1.servers, ip, idx);
    let (sc, sid2) = upsert_server_model(s1, ip, port, o, e, now2);
    assert(sid2 == s1.servers[idx].id == sid1);
    let sd = insert_snapshot_model(sc, sid2, o.online, o.max, now2);
    let s2 = ingest_players_model(sd, sid2, o.names, now2);
    lemma_ingest_players_frame(sd, sid2, o.names, now2);
    lemma_ingest_players_all_present(sb, sid1, o.names, now1);
    assert(sd.players == s1.players);
    assert forall|j: int| 0 <= j < o.names.len() implies find_player(
        sd.players,
        sid2,
        #[trigger] o.names[j],
    ) is Some by {}
    lemma_ingest_players_noop(sd, sid2, o.names, now2);
    assert(s2.players == s1.players);
    assert(s2.snapshots == s.snapshots.push(sb.snapshots.last()).push(sd.snapshots.last()));
}

/// Offline marking: a refresh whose probe failed flips the row's
/// `is_online` to false, appends no snapshot, and touches nothing else.
pub proof fn lemma_offline_marking(s: StoreV, server_id: int, now: int)
    ensures
        ({
            let s2 = update_model(s, server_id, Option::<ObservationV>::None, Option::<ExtraV>::None, now);
            &&& s2.snapshots == s.snapshots
            &&& s2.players == s.players
            &&& s2.scan_targets == s.scan_targets
            &&& s2.ping_requests == s.ping_requests
            &&& (match find_id(s.servers, server_id) {
                Some(i) => s2.servers == s.servers.update(
                    i,
                    ServerRowV { is_online: false, ..s.servers[i] },
                ) && s2.servers[i].is_online == false,
                None => s2 == s,
            })
        }),
{
    lemma_find_id(s.servers, server_id);
}

/// Notify drain atomicity: one batch takes every queued refresh request and
/// leaves the table empty, so a second batch takes nothing — no row is
/// processed twice.
pub proof fn lemma_notify_drain_atomic(s: StoreV)
    ensures
        drain_pings_model(s).0 == s.ping_requests,
        drain_pings_model(s).1.ping_requests.len() == 0,
        drain_pings_model(drain_pings_model(s).1).0.len() == 0,
{
}

/// Rows left by one drain never match the drained flag.
proof fn lemma_matching_of_rest(ts: Seq<ScanTargetRowV>, quick: bool)
    ensures
        targets_matching(targets_matching(ts, !quick), quick) == Seq::<ScanTargetRowV>::empty(),
    decreases ts.len(),
{
    if ts.len() > 0 {
        lemma_matching_of_rest(ts.skip(1), quick);
        if ts[0].quick == !quick {
            let kept = seq![ts[0]] + targets_matching(ts.skip(1), !quick);
            assert(kept[0] == ts[0]);
            assert(kept.skip(1) =~= targets_matching(ts.skip(1), !quick));
        }
    }
}

/// Target drain atomicity: one batch takes exactly the queued targets with
/// the drained flag, and a second batch over the remainder takes nothing.
pub proof fn lemma_target_drain_atomic(s: StoreV, quick: bool)
    ensures
        drain_targets_model(s, quick).0 == targets_matching(s.scan_targets, quick),
        drain_targets_model(drain_targets_model(s, quick).1, quick).0.len() == 0,
{
    lemma_matching_of_rest(s.scan_targets, quick);
}

fn clone_opt_string(s: &Option<String>) -> (r: Option<String>)
    ensures
        r == *s,
{
    match s {
        Some(x) => Some(x.clone()),
        None => None,
    }
}

fn clone_opt_json(s: &Option<Json>) -> (r: Option<Json>)
    ensures
        match *s {
            Some(j) => r matches Some(k) && k@ == j@,
            None => r is None,
        },
{
    match s {
        Some(x) => Some(x.deep_copy()),
        None => None,
    }
}

impl Store {
    /// The index of the row holding `ip`.
    fn find_server_ip(&self, ip: &str) -> (r: Option<usize>)
        ensures
            match r {
                Some(i) => find_ip(self@.servers, ip@) == Some(i as int),
                None => find_ip(self@.servers, ip@) is None,
            },
    {
        proof {
            lemma_find_ip(self@.servers, ip@);
        }
        let n = self.servers.len();
        let mut i: usize = 0;
        while i < n
            invariant
                0 <= i <= n,
                n == self.servers@.len(),
                forall|k: int| 0 <= k < i ==> (#[trigger] self@.servers[k]).ip != ip@,
            decreases n - i,
        {
            if crate::json::str_eq(self.servers[i].ip.as_str(), ip) {
                proof {
                    assert(self@.servers[i as int] == self.servers@[i as int]@);
                    lemma_find_ip_at(self@.servers, ip@, i as int);
                }
                return Some(i);
            }
            i = i + 1;
        }
        proof {
            lemma_find_ip(self@.servers, ip@);
        }
        None
    }

    /// The index of the row holding the server `id`.
    fn find_server_id(&self, id: i64) -> (r: Option<usize>)
        ensures
            match r {
                Some(i) => find_id(self@.servers, id as int) == Some(i as int),
                None => find_id(self@.servers, id as int) is None,
            },
    {
        proof {
            lemma_find_id(self@.servers, id as int);
        }
        let n = self.servers.len();
        let mut i: usize = 0;
        while i < n
            invariant
                0 <= i <= n,
                n == self.servers@.len(),
                forall|k: int| 0 <= k < i ==> (#[trigger] self@.servers[k]).id != id as int,
            decreases n - i,
        {
            if self.servers[i].id == id {
                proof {
                    assert(self@.servers[i as int] == self.servers@[i as int]@);
                    lemma_find_id_at(self@.servers, id as int, i as int);
                }
                return Some(i);
            }
            i = i + 1;
        }
        proof {
            lemma_find_id(self@.servers, id as int);
        }
        None
    }

    /// The index of the player keyed `(server_id, name)`.
    fn find_player_idx(&self, server_id: i64, name: &str) -> (r: Option<usize>)
        ensures
            match r {
                Some(i) => find_player(self@.players, server_id as int, name@) == Some(i as int),
                None => find_player(self@.players, server_id as int, name@) is None,
            },
    {
        proof {
            lemma_find_player(self@.players, server_id as int, name@);
        }
        let n = self.players.len();
        let mut i: usize = 0;
        while i < n
            invariant
                0 <= i <= n,
                n == self.players@.len(),
                forall|k: int|
                    0 <= k < i ==> !((#[trigger] self@.players[k]).server_id == server_id as int
                        && self@.players[k].name == name@),
            decreases n - i,
        {
            if self.players[i].server_id == server_id && crate::json::str_eq(
                self.players[i].name.as_str(),
                name,
            ) {
                proof {
                    assert(self@.players[i as int] == self.players@[i as int]@);
                    lemma_find_player_at(self@.players, server_id as int, name@, i as int);
                }
                return Some(i);
            }
            i = i + 1;
        }
        proof {
            lemma_find_player(self@.players, server_id as int, name@);
        }
        None
    }

    /// Upsert the server row keyed by `ip`, per `upsert_server_model`, and
    /// return the row's id.
    pub fn upsert_server(
        &mut self,
        ip: String,
        port: i64,
        status: &crate::status::Status,
        extra: &crate::status::ExtraData,
        ping: Option<i64>,
        now: i64,
    ) -> (r: i64)
        requires
            old(self).wf(),
            old(self).next_server_id < i64::MAX,
        ensures
            final(self).wf(),
            final(self)@ == upsert_server_model(
                old(self)@,
                ip@,
                port as int,
                obs_of(*status, ping),
                extra_view(*extra),
                now as int,
            ).0,
            r as int == upsert_server_model(
                old(self)@,
                ip@,
                port as int,
                obs_of(*status, ping),
                extra_view(*extra),
                now as int,
            ).1,
    {
        proof {
            lemma_find_ip(self@.servers, ip@);
        }
        match self.find_server_ip(ip.as_str()) {
            Some(i) => {
                let fav = clone_opt_string(&status.favicon);
                self.servers[i].updated_at = now;
                self.servers[i].is_online = true;
                self.servers[i].favicon = fav;
                let id = self.servers[i].id;
                proof {
                    let m = upsert_server_model(
                        old(self)@,
                        ip@,
                        port as int,
                        obs_of(*status, ping),
                        extra_view(*extra),
                        now as int,
                    );
                    assert(self@.servers =~= m.0.servers);
                    assert(self@ == m.0);
                }
                id
            },
            None => {
                let row = ServerRow {
                    id: self.next_server_id,
                    ip,
                    port,
                    version_name: status.version.name.clone(),
                    protocol: status.version.protocol,
                    description: status.description.deep_copy(),
                    favicon: clone_opt_string(&status.favicon),
                    ping,
                    is_online_mode: extra.is_online_mode,
                    disconnect_reason: clone_opt_json(&extra.disconnect_reason),
                    is_checked: false,
                    is_spoofable: None,
                    is_crashed: false,
                    is_online: true,
                    is_forge: status.is_forge(),
                    created_at: now,
                    updated_at: now,
                };
                let id = row.id;
                self.servers.push(row);
                self.next_server_id = self.next_server_id + 1;
                proof {
                    let m = upsert_server_model(
                        old(self)@,
                        ip@,
                        port as int,
                        obs_of(*status, ping),
                        extra_view(*extra),
                        now as int,
                    );
                    assert(self@.servers =~= m.0.servers);
                    assert(self@ == m.0);
                }
                id
            },
        }
    }

    /// Append one player-count snapshot (`insert_snapshot_model`).
    pub fn insert_snapshot(&mut self, server_id: i64, online: i64, max: i64, now: i64)
        requires
            old(self).wf(),
            old(self).next_snapshot_id < i64::MAX,
        ensures
            final(self).wf(),
            final(self)@ == insert_snapshot_model(
                old(self)@,
                server_id as int,
                online as int,
                max as int,
                now as int,
            ),
    {
        let row = SnapshotRow {
            id: self.next_snapshot_id,
            server_id,
            players_online: online,
            players_max: max,
            recorded_at: now,
        };
        self.snapshots.push(row);
        self.next_snapshot_id = self.next_snapshot_id + 1;
        proof {
            let m = insert_snapshot_model(
                old(self)@,
                server_id as int,
                online as int,
                max as int,
                now as int,
            );
            assert(self@.snapshots =~= m.snapshots);
            assert(self@ == m);
        }
    }

    /// Insert one sampled player, doing nothing on a `(server_id, name)`
    /// conflict (`ingest_player_model`).
    pub fn ingest_player(&mut self, server_id: i64, name: String, now: i64)
        requires
            old(self).wf(),
            old(self).next_player_id < i64::MAX,
        ensures
            final(self).wf(),
            final(self)@ == ingest_player_model(old(self)@, server_id as int, name@, now as int),
    {
        proof {
            lemma_find_player(self@.players, server_id as int, name@);
        }
        match self.find_player_idx(server_id, name.as_str()) {
            Some(_) => {},
            None => {
                let row = PlayerRow {
                    id: self.next_player_id,
                    server_id,
                    name,
                    status: PlayerStatus::NoStatus,
                    last_seen_at: now,
                };
                self.players.push(row);
                self.next_player_id = self.next_player_id + 1;
                proof {
                    let m = ingest_player_model(old(self)@, server_id as int, name@, now as int);
                    assert(self@.players =~= m.players);
                    assert(self@ == m);
                }
            },
        }
    }

    /// Upsert one sampled player, refreshing `last_seen_at` on a conflict
    /// (`upsert_player_model`).
    pub fn upsert_player(&mut self, server_id: i64, name: String, now: i64)
        requires
            old(self).wf(),
            old(self).next_player_id < i64::MAX,
        ensures
            final(self).wf(),
            final(self)@ == upsert_player_model(old(self)@, server_id as int, name@, now as int),
    {
        proof {
            lemma_find_player(self@.players, server_id as int, name@);
        }
        match self.find_player_idx(server_id, name.as_str()) {
            Some(i) => {
                self.players[i].last_seen_at = now;
                proof {
                    let m = upsert_player_model(old(self)@, server_id as int, name@, now as int);
                    assert(self@.players =~= m.players);
                    assert(self@ == m);
                }
            },
            None => {
                let row = PlayerRow {
                    id: self.next_player_id,
                    server_id,
                    name,
                    status: PlayerStatus::NoStatus,
                    last_seen_at: now,
                };
                self.players.push(row);
                self.next_player_id = self.next_player_id + 1;
                proof {
                    let m = upsert_player_model(old(self)@, server_id as int, name@, now as int);
                    assert(self@.players =~= m.players);
                    assert(self@ == m);
                }
            },
        }
    }

    /// Mark a server offline after a failed refresh (`mark_offline_model`):
    /// nothing else changes and no snapshot is appended.
    pub fn mark_offline(&mut self, server_id: i64)
        requires
            old(self).wf(),
        ensures
            final(self).wf(),
            final(self)@ == mark_offline_model(old(self)@, server_id as int),
    {
        proof {
            lemma_find_id(self@.servers, server_id as int);
        }
        match self.find_server_id(server_id) {
            Some(i) => {
                self.servers[i].is_online = false;
                proof {
                    let m = mark_offline_model(old(self)@, server_id as int);
                    assert(self@.servers =~= m.servers);
                    assert(self@ == m);
                }
            },
            None => {},
        }
    }

    /// Rewrite a server row's observed fields after a successful refresh.
    pub fn apply_observation(
        &mut self,
        server_id: i64,
        status: &crate::status::Status,
        ping: Option<i64>,
        now: i64,
    )
        requires
            old(self).wf(),
        ensures
            final(self).wf(),
            final(self)@ == (match find_id(old(self)@.servers, server_id as int) {
                Some(i) => StoreV {
                    servers: old(self)@.servers.update(
                        i,
                        ServerRowV {
                            version_name: obs_of(*status, ping).version_name,
                            protocol: obs_of(*status, ping).protocol,
                            description: obs_of(*status, ping).description,
                            updated_at: now as int,
                            is_online: true,
                            is_forge: obs_of(*status, ping).is_forge,
                            favicon: obs_of(*status, ping).favicon,
                            ping: obs_of(*status, ping).ping,
                            ..old(self)@.servers[i]
                        },
                    ),
                    ..old(self)@
                },
                None => old(self)@,
            }),
    {
        proof {
            lemma_find_id(self@.servers, server_id as int);
        }
        match self.find_server_id(server_id) {
            Some(i) => {
                self.servers[i].version_name = status.version.name.clone();
                self.servers[i].protocol = status.version.protocol;
                self.servers[i].description = status.description.deep_copy();
                self.servers[i].updated_at = now;
                self.servers[i].is_online = true;
                self.servers[i].is_forge = status.is_forge();
                self.servers[i].favicon = clone_opt_string(&status.favicon);
                self.servers[i].ping = ping;
                proof {
                    assert(self@.servers =~= old(self)@.servers.update(
                        i as int,
                        self@.servers[i as int],
                    ));
                }
            },
            None => {},
        }
    }

    /// Write the login extras after a refresh (`apply_extra_model`).
    pub fn apply_extra(&mut self, server_id: i64, extra: &crate::status::ExtraData)
        requires
            old(self).wf(),
        ensures
            final(self).wf(),
            final(self)@ == apply_extra_model(old(self)@, server_id as int, extra_view(*extra)),
    {
        proof {
            lemma_find_id(self@.servers, server_id as int);
        }
        match self.find_server_id(server_id) {
            Some(i) => {
                self.servers[i].is_online_mode = extra.is_online_mode;
                self.servers[i].disconnect_reason = clone_opt_json(&extra.disconnect_reason);
                proof {
                    let m = apply_extra_model(old(self)@, server_id as int, extra_view(*extra));
                    assert(self@.servers =~= m.servers);
                    assert(self@ == m);
                }
            },
            None => {},
        }
    }

    /// Drain every queued refresh request (`drain_pings_model`): the rows
    /// come back exactly once and the table is left empty.
    pub fn drain_ping_requests(&mut self) -> (r: Vec<PingRequestRow>)
        requires
            old(self).wf(),
        ensures
            final(self).wf(),
            r@.map_values(|p: PingRequestRow| p@) == drain_pings_model(old(self)@).0,
            final(self)@ == drain_pings_model(old(self)@).1,
    {
        let mut out: Vec<PingRequestRow> = Vec::new();
        core::mem::swap(&mut out, &mut self.ping_requests);
        proof {
            let m = drain_pings_model(old(self)@);
            assert(self@.ping_requests =~= m.1.ping_requests);
            assert(self@ == m.1);
        }
        out
    }

    /// Drain the queued scan targets with the given `quick` flag
    /// (`drain_targets_model`): those rows come back in order, exactly once,
    /// and the rest stay queued.
    pub fn drain_scan_targets(&mut self, quick: bool) -> (r: Vec<ScanTargetRow>)
        requires
            old(self).wf(),
        ensures
            final(self).wf(),
            r@.map_values(|t: ScanTargetRow| t@) == drain_targets_model(old(self)@, quick).0,
            final(self)@ == drain_targets_model(old(self)@, quick).1,
    {
        let mut all: Vec<ScanTargetRow> = Vec::new();
        core::mem::swap(&mut all, &mut self.scan_targets);
        let ghost orig = all@.map_values(|t: ScanTargetRow| t@);
        let mut out: Vec<ScanTargetRow> = Vec::new();
        let mut keep: Vec<ScanTargetRow> = Vec::new();
        proof {
            assert(out@.map_values(|t: ScanTargetRow| t@) =~= Seq::<ScanTargetRowV>::empty());
            assert(keep@.map_values(|t: ScanTargetRow| t@) =~= Seq::<ScanTargetRowV>::empty());
        }
        while all.len() > 0
            invariant
                targets_matching(orig, quick) == out@.map_values(|t: ScanTargetRow| t@)
                    + targets_matching(all@.map_values(|t: ScanTargetRow| t@), quick),
                targets_matching(orig, !quick) == keep@.map_values(|t: ScanTargetRow| t@)
                    + targets_matching(all@.map_values(|t: ScanTargetRow| t@), !quick),
            decreases all@.len(),
        {
            let ghost before = all@.map_values(|t: ScanTargetRow| t@);
            let t = all.remove(0);
            proof {
                assert(all@.map_values(|t: ScanTargetRow| t@) =~= before.skip(1));
                assert(before[0] == t@);
            }
            if t.quick == quick {
                let ghost outv = out@.map_values(|t: ScanTargetRow| t@);
                out.push(t);
                proof {
                    assert(out@.map_values(|t: ScanTargetRow| t@) =~= outv.push(before[0]));
                    assert(outv + (seq![before[0]] + targets_matching(before.skip(1), quick))
                        =~= outv.push(before[0]) + targets_matching(before.skip(1), quick));
                }
            } else {
                let ghost keepv = keep@.map_values(|t: ScanTargetRow| t@);
                keep.push(t);
                proof {
                    assert(keep@.map_values(|t: ScanTargetRow| t@) =~= keepv.push(before[0]));
                    assert(keepv + (seq![before[0]] + targets_matching(before.skip(1), !quick))
                        =~= keepv.push(before[0]) + targets_matching(before.skip(1), !quick));
                }
            }
        }
        proof {
            assert(all@.map_values(|t: ScanTargetRow| t@) =~= Seq::<ScanTargetRowV>::empty());
            assert(out@.map_values(|t: ScanTargetRow| t@) + Seq::<ScanTargetRowV>::empty()
                =~= out@.map_values(|t: ScanTargetRow| t@));
            assert(keep@.map_values(|t: ScanTargetRow| t@) + Seq::<ScanTargetRowV>::empty()
                =~= keep@.map_values(|t: ScanTargetRow| t@));
        }
        self.scan_targets = keep;
        proof {
            let m = drain_targets_model(old(self)@, quick);
            assert(self@ == m.1);
        }
        out
    }

    /// Queue one scan target, as the external systems that own inserts do.
    pub fn enqueue_scan_target(&mut self, id: i64, ip: String, port: i64, quick: bool)
        requires
            old(self).wf(),
        ensures
            final(self).wf(),
            final(self)@ == (StoreV {
                scan_targets: old(self)@.scan_targets.push(
                    ScanTargetRowV { id: id as int, ip: ip@, port: port as int, quick },
                ),
                ..old(self)@
            }),
    {
        self.scan_targets.push(ScanTargetRow { id, ip, port, quick });
        proof {
            let m = StoreV {
                scan_targets: old(self)@.scan_targets.push(
                    ScanTargetRowV { id: id as int, ip: ip@, port: port as int, quick },
                ),
                ..old(self)@
            };
            assert(self@.scan_targets =~= m.scan_targets);
            assert(self@ == m);
        }
    }

    /// Queue one refresh request, as the external systems that own inserts
    /// do.
    pub fn enqueue_ping_request(&mut self, id: i64, server_id: i64, with_connection: bool)
        requires
            old(self).wf(),
        ensures
            final(self).wf(),
            final(self)@ == (StoreV {
                ping_requests: old(self)@.ping_requests.push(
                    PingRequestRowV { id: id as int, server_id: server_id as int, with_connection },
                ),
                ..old(self)@
            }),
    {
        self.ping_requests.push(PingRequestRow { id, server_id, with_connection });
        proof {
            let m = StoreV {
                ping_requests: old(self)@.ping_requests.push(
                    PingRequestRowV { id: id as int, server_id: server_id as int, with_connection },
                ),
                ..old(self)@
            };
            assert(self@.ping_requests =~= m.ping_requests);
            assert(self@ == m);
        }
    }

    /// The whole ingest path (`ingest_model`): upsert the server by ip,
    /// append a snapshot, insert the sample with conflict-do-nothing — in
    /// that order — and return the server id.
    pub fn ingest(
        &mut self,
        ip: String,
        port: i64,
        status: &crate::status::Status,
        extra: &crate::status::ExtraData,
        ping: Option<i64>,
        now: i64,
    ) -> (r: i64)
        requires
            old(self).wf(),
            old(self).next_server_id < i64::MAX,
            old(self).next_snapshot_id < i64::MAX,
            old(self)@.next_player_id + obs_of(*status, ping).names.len() <= i64::MAX,
        ensures
            final(self).wf(),
            final(self)@ == ingest_model(
                old(self)@,
                ip@,
                port as int,
                obs_of(*status, ping),
                extra_view(*extra),
                now as int,
            ).0,
            r as int == ingest_model(
                old(self)@,
                ip@,
                port as int,
                obs_of(*status, ping),
                extra_view(*extra),
                now as int,
            ).1,
    {
        let ghost o = obs_of(*status, ping);
        let sid = self.upsert_server(ip, port, status, extra, ping, now);
        self.insert_snapshot(sid, status.players.online, status.players.max, now);
        self.insert_sample_ignore(sid, &status.players.sample, Ghost(o.names), now);
        sid
    }

    /// Insert a sample with conflict-do-nothing, front to back.
    fn insert_sample_ignore(
        &mut self,
        server_id: i64,
        sample: &Option<Vec<crate::status::Player>>,
        names: Ghost<Seq<Seq<char>>>,
        now: i64,
    )
        requires
            old(self).wf(),
            names@ == (match *sample {
                Some(v) => v@.map_values(|p: crate::status::Player| p.name@),
                None => Seq::<Seq<char>>::empty(),
            }),
            old(self)@.next_player_id + names@.len() <= i64::MAX,
        ensures
            final(self).wf(),
            final(self)@ == ingest_players_model(old(self)@, server_id as int, names@, now as int),
    {
        match sample {
            None => {},
            Some(v) => {
                let n = v.len();
                let mut i: usize = 0;
                proof {
                    assert(names@.skip(0) =~= names@);
                }
                while i < n
                    invariant
                        0 <= i <= n,
                        n == v@.len(),
                        names@ == v@.map_values(|p: crate::status::Player| p.name@),
                        self.wf(),
                        self@.next_player_id + (names@.len() - i) <= i64::MAX,
                        ingest_players_model(old(self)@, server_id as int, names@, now as int)
                            == ingest_players_model(
                            self@,
                            server_id as int,
                            names@.skip(i as int),
                            now as int,
                        ),
                    decreases n - i,
                {
                    proof {
                        assert(names@.skip(i as int)[0] == names@[i as int]);
                        assert(names@.skip(i as int).skip(1) =~= names@.skip(i as int + 1));
                    }
                    let name = v[i].name.clone();
                    self.ingest_player(server_id, name, now);
                    i = i + 1;
                }
                proof {
                    assert(names@.skip(n as int) =~= Seq::<Seq<char>>::empty());
                }
            },
        }
    }

    /// Upsert a sample refreshing `last_seen_at`, front to back.
    fn upsert_sample(
        &mut self,
        server_id: i64,
        sample: &Option<Vec<crate::status::Player>>,
        names: Ghost<Seq<Seq<char>>>,
        now: i64,
    )
        requires
            old(self).wf(),
            names@ == (match *sample {
                Some(v) => v@.map_values(|p: crate::status::Player| p.name@),
                None => Seq::<Seq<char>>::empty(),
            }),
            old(self)@.next_player_id + names@.len() <= i64::MAX,
        ensures
            final(self).wf(),
            final(self)@ == upsert_players_model(old(self)@, server_id as int, names@, now as int),
    {
        match sample {
            None => {},
            Some(v) => {
                let n = v.len();
                let mut i: usize = 0;
                proof {
                    assert(names@.skip(0) =~= names@);
                }
                while i < n
                    invariant
                        0 <= i <= n,
                        n == v@.len(),
                        names@ == v@.map_values(|p: crate::status::Player| p.name@),
                        self.wf(),
                        self@.next_player_id + (names@.len() - i) <= i64::MAX,
                        upsert_players_model(old(self)@, server_id as int, names@, now as int)
                            == upsert_players_model(
                            self@,
                            server_id as int,
                            names@.skip(i as int),
                            now as int,
                        ),
                    decreases n - i,
                {
                    proof {
                        assert(names@.skip(i as int)[0] == names@[i as int]);
                        assert(names@.skip(i as int).skip(1) =~= names@.skip(i as int + 1));
                    }
                    let name = v[i].name.clone();
                    self.upsert_player(server_id, name, now);
                    i = i + 1;
                }
                proof {
                    assert(names@.skip(n as int) =~= Seq::<Seq<char>>::empty());
                }
            },
        }
    }

    /// One refresh of a known server (`update_model`): a probe that failed
    /// or timed out only marks the row offline — a failed probe is a normal
    /// observation, not an error — and a successful one appends the
    /// snapshot, upserts the sample and rewrites the observed fields, then
    /// the login extras when that probe ran.
    pub fn update_server(
        &mut self,
        server_id: i64,
        probe: Option<(&crate::status::Status, Option<i64>)>,
        extra: Option<&crate::status::ExtraData>,
        now: i64,
    )
        requires
            old(self).wf(),
            probe is Some ==> old(self).next_snapshot_id < i64::MAX,
            probe matches Some((st, ping)) ==> old(self)@.next_player_id + obs_of(
                *st,
                ping,
            ).names.len() <= i64::MAX,
        ensures
            final(self).wf(),
            final(self)@ == update_model(
                old(self)@,
                server_id as int,
                match probe {
                    Some((st, ping)) => Some(obs_of(*st, ping)),
                    None => None,
                },
                match extra {
                    Some(e) => Some(extra_view(*e)),
                    None => None,
                },
                now as int,
            ),
    {
        match probe {
            None => {
                self.mark_offline(server_id);
            },
            Some((status, ping)) => {
                let ghost o = obs_of(*status, ping);
                self.insert_snapshot(server_id, status.players.online, status.players.max, now);
                self.upsert_sample(server_id, &status.players.sample, Ghost(o.names), now);
                self.apply_observation(server_id, status, ping, now);
                match extra {
                    Some(e) => {
                        self.apply_extra(server_id, e);
                    },
                    None => {},
                }
            },
        }
    }
}

} // verus!
