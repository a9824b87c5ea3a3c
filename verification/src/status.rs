//! The decoded server status (Server List Ping document) and the extra data
//! the login probe yields. `status_from_json` pins exactly which documents
//! decode and what every field holds.

use crate::json::{
    items_view, json_get, jv_get, lemma_json_get_view, lemma_view_shape, parse_json, parse_of,
    Json, JsonV,
};
use vstd::prelude::*;
use vstd::utf8::{decode_utf8, encode_utf8_decode_utf8, valid_utf8};

verus! {

/// One entry of the player sample.
#[derive(Clone, Debug)]
pub struct Player {
    pub id: String,
    pub name: String,
}

/// The player counts and the optional sample roster.
#[derive(Debug)]
pub struct Players {
    pub online: i64,
    pub max: i64,
    pub sample: Option<Vec<Player>>,
}

/// The server software name and protocol number.
#[derive(Clone, Debug)]
pub struct Version {
    pub name: String,
    pub protocol: i64,
}

/// A decoded status document. The raw description is kept as parsed JSON;
/// its display text is derived on read.
#[derive(Debug)]
pub struct Status {
    pub players: Players,
    pub version: Version,
    pub description: Json,
    pub forge_data: Option<Json>,
    pub modinfo: Option<Json>,
    pub favicon: Option<String>,
}

/// What the login probe classifies: whether the server demands Mojang
/// authentication, and the disconnect reason if it sent one.
#[derive(Debug)]
pub struct ExtraData {
    pub is_online_mode: bool,
    pub disconnect_reason: Option<Json>,
}

/// The first string bound to `key` in an object.
pub open spec fn get_str(j: Json, key: Seq<char>) -> Option<String> {
    match json_get(j, key) {
        Some(t) => match t {
            Json::Str(s) => Some(s),
            _ => None,
        },
        None => None,
    }
}

/// The first integer bound to `key` in an object.
pub open spec fn get_int(j: Json, key: Seq<char>) -> Option<i64> {
    match json_get(j, key) {
        Some(t) => match t {
            Json::Int(x) => Some(x),
            _ => None,
        },
        None => None,
    }
}

/// A well-formed sample entry: an object with string `id` and `name`.
pub open spec fn player_entry_ok(x: Json) -> bool {
    get_str(x, "id"@) is Some && get_str(x, "name"@) is Some
}

/// A well-formed `sample` binding: absent, null, or a list of well-formed
/// entries.
pub open spec fn sample_ok(p: Json) -> bool {
    match json_get(p, "sample"@) {
        None => true,
        Some(s) => match s {
            Json::Null => true,
            Json::Arr(items) => forall|i: int|
                0 <= i < items@.len() ==> player_entry_ok(#[trigger] items@[i]),
            _ => false,
        },
    }
}

/// A document that decodes into a `Status`: a `version` object with string
/// `name` and integer `protocol`; a `players` object with integer `online`
/// and `max` and a well-formed optional `sample`; a `description` of any
/// shape; and a `favicon` that is absent, null or a string. `forgeData` and
/// `modinfo` may hold anything.
pub open spec fn status_json_ok(j: Json) -> bool {
    &&& json_get(j, "version"@) matches Some(v) && get_str(v, "name"@) is Some && get_int(
        v,
        "protocol"@,
    ) is Some
    &&& json_get(j, "players"@) matches Some(p) && get_int(p, "online"@) is Some && get_int(
        p,
        "max"@,
    ) is Some && sample_ok(p)
    &&& json_get(j, "description"@) is Some
    &&& match json_get(j, "favicon"@) {
        None => true,
        Some(f) => f is Null || f is Str,
    }
}

/// The first string bound to `key` in an abstract object.
pub open spec fn jv_get_str(j: JsonV, key: Seq<char>) -> Option<Seq<char>> {
    match jv_get(j, key) {
        Some(t) => match t {
            JsonV::Str(s) => Some(s),
            _ => None,
        },
        None => None,
    }
}

/// The first integer bound to `key` in an abstract object.
pub open spec fn jv_get_int(j: JsonV, key: Seq<char>) -> Option<int> {
    match jv_get(j, key) {
        Some(t) => match t {
            JsonV::Int(x) => Some(x),
            _ => None,
        },
        None => None,
    }
}

/// `player_entry_ok`, at the abstract level.
pub open spec fn player_entry_ok_v(x: JsonV) -> bool {
    jv_get_str(x, "id"@) is Some && jv_get_str(x, "name"@) is Some
}

/// `sample_ok`, at the abstract level.
pub open spec fn sample_ok_v(p: JsonV) -> bool {
    match jv_get(p, "sample"@) {
        None => true,
        Some(s) => match s {
            JsonV::Null => true,
            JsonV::Arr(items) => forall|i: int|
                0 <= i < items.len() ==> player_entry_ok_v(#[trigger] items[i]),
            _ => false,
        },
    }
}

/// `status_json_ok`, at the abstract level: the documents a status decodes
/// from, as a predicate on the parse's named result.
pub open spec fn status_view_ok(jv: JsonV) -> bool {
    &&& jv_get(jv, "version"@) matches Some(v) && jv_get_str(v, "name"@) is Some && jv_get_int(
        v,
        "protocol"@,
    ) is Some
    &&& jv_get(jv, "players"@) matches Some(p) && jv_get_int(p, "online"@) is Some && jv_get_int(
        p,
        "max"@,
    ) is Some && sample_ok_v(p)
    &&& jv_get(jv, "description"@) is Some
    &&& (match jv_get(jv, "favicon"@) {
        None => true,
        Some(f) => f is Null || f is Str,
    })
}

/// The sample roster against the abstract `players` object it came from.
pub open spec fn sample_of_doc(sample: Option<Vec<Player>>, p: JsonV) -> bool {
    match jv_get(p, "sample"@) {
        Some(s) => match s {
            JsonV::Arr(items) => sample matches Some(v) && v@.len() == items.len() && (forall|
                i: int,
            |
                0 <= i < items.len() ==> jv_get_str(#[trigger] items[i], "id"@) == Some(v@[i].id@)
                    && jv_get_str(items[i], "name"@) == Some(v@[i].name@)),
            _ => sample is None,
        },
        None => sample is None,
    }
}

/// A decoded status against the abstract document it came from: every field
/// holds what the document binds, with no data loss.
pub open spec fn status_of_doc(st: Status, jv: JsonV) -> bool {
    &&& jv_get(jv, "version"@) matches Some(v) && jv_get_str(v, "name"@) == Some(st.version.name@)
        && jv_get_int(v, "protocol"@) == Some(st.version.protocol as int)
    &&& jv_get(jv, "players"@) matches Some(p) && jv_get_int(p, "online"@) == Some(
        st.players.online as int,
    ) && jv_get_int(p, "max"@) == Some(st.players.max as int) && sample_of_doc(st.players.sample, p)
    &&& jv_get(jv, "description"@) == Some(st.description@)
    &&& (match jv_get(jv, "forgeData"@) {
        Some(f) => st.forge_data matches Some(g) && g@ == f,
        None => st.forge_data is None,
    })
    &&& (match jv_get(jv, "modinfo"@) {
        Some(m) => st.modinfo matches Some(g) && g@ == m,
        None => st.modinfo is None,
    })
    &&& (match jv_get(jv, "favicon"@) {
        Some(f) => match f {
            JsonV::Str(s) => st.favicon matches Some(x) && x@ == s,
            _ => st.favicon is None,
        },
        None => st.favicon is None,
    })
}

/// `get_str` commutes with abstraction.
proof fn lemma_get_str_view(j: Json, key: Seq<char>)
    ensures
        match get_str(j, key) {
            Some(s) => jv_get_str(j@, key) == Some(s@),
            None => jv_get_str(j@, key) is None,
        },
{
    lemma_json_get_view(j, key);
    match json_get(j, key) {
        Some(v) => {
            lemma_view_shape(v);
        },
        None => {},
    }
}

/// `get_int` commutes with abstraction.
proof fn lemma_get_int_view(j: Json, key: Seq<char>)
    ensures
        match get_int(j, key) {
            Some(x) => jv_get_int(j@, key) == Some(x as int),
            None => jv_get_int(j@, key) is None,
        },
{
    lemma_json_get_view(j, key);
    match json_get(j, key) {
        Some(v) => {
            lemma_view_shape(v);
        },
        None => {},
    }
}

/// A sample entry is well formed exactly when its abstraction is.
proof fn lemma_entry_view(x: Json)
    ensures
        player_entry_ok(x) <==> player_entry_ok_v(x@),
{
    lemma_get_str_view(x, "id"@);
    lemma_get_str_view(x, "name"@);
}

/// A `players` object has a well-formed sample exactly when its abstraction
/// does.
proof fn lemma_sample_view(p: Json)
    ensures
        sample_ok(p) <==> sample_ok_v(p@),
{
    lemma_json_get_view(p, "sample"@);
    match json_get(p, "sample"@) {
        Some(s) => {
            lemma_view_shape(s);
            match s {
                Json::Arr(items) => {
                    assert(s@ matches JsonV::Arr(iv) && iv == items_view(items@));
                    assert forall|i: int| 0 <= i < items@.len() implies (player_entry_ok(
                        #[trigger] items@[i],
                    ) <==> player_entry_ok_v(items_view(items@)[i])) by {
                        assert(items_view(items@)[i] == items@[i]@);
                        lemma_entry_view(items@[i]);
                    }
                },
                _ => {},
            }
        },
        None => {},
    }
}

/// A document decodes exactly when its abstraction satisfies
/// `status_view_ok`.
pub proof fn lemma_status_ok_view(j: Json)
    ensures
        status_json_ok(j) <==> status_view_ok(j@),
{
    lemma_json_get_view(j, "version"@);
    match json_get(j, "version"@) {
        Some(v) => {
            lemma_get_str_view(v, "name"@);
            lemma_get_int_view(v, "protocol"@);
        },
        None => {},
    }
    lemma_json_get_view(j, "players"@);
    match json_get(j, "players"@) {
        Some(p) => {
            lemma_get_int_view(p, "online"@);
            lemma_get_int_view(p, "max"@);
            lemma_sample_view(p);
        },
        None => {},
    }
    lemma_json_get_view(j, "description"@);
    lemma_json_get_view(j, "favicon"@);
    match json_get(j, "favicon"@) {
        Some(f) => {
            lemma_view_shape(f);
        },
        None => {},
    }
}

impl Status {
    /// Whether the status marks a modded (Forge) server: it advertises
    /// `forgeData` or `modinfo`.
    pub fn is_forge(&self) -> (r: bool)
        ensures
            r == (self.forge_data is Some || self.modinfo is Some),
    {
        self.forge_data.is_some() || self.modinfo.is_some()
    }
}

/// Decode a sample roster. Succeeds exactly when every entry is an object
/// with string `id` and `name`, and then returns them entry for entry.
fn parse_sample(items: &Vec<Json>) -> (r: Option<Vec<Player>>)
    ensures
        r is Some <==> (forall|i: int|
            0 <= i < items@.len() ==> player_entry_ok(#[trigger] items@[i])),
        r matches Some(v) ==> v@.len() == items@.len() && forall|i: int|
            0 <= i < items@.len() ==> Some(#[trigger] v@[i].id) == get_str(items@[i], "id"@)
                && Some(v@[i].name) == get_str(items@[i], "name"@),
{
    let mut out: Vec<Player> = Vec::new();
    let n = items.len();
    let mut i: usize = 0;
    while i < n
        invariant
            0 <= i <= n,
            n == items@.len(),
            out@.len() == i,
            forall|k: int|
                0 <= k < i ==> player_entry_ok(#[trigger] items@[k]) && Some(out@[k].id)
                    == get_str(items@[k], "id"@) && Some(out@[k].name) == get_str(
                    items@[k],
                    "name"@,
                ),
        decreases n - i,
    {
        let entry = &items[i];
        let id = match entry.get("id") {
            Some(v) => match v.as_str() {
                Some(s) => s.clone(),
                None => {
                    return None;
                },
            },
            None => {
                return None;
            },
        };
        let name = match entry.get("name") {
            Some(v) => match v.as_str() {
                Some(s) => s.clone(),
                None => {
                    return None;
                },
            },
            None => {
                return None;
            },
        };
        out.push(Player { id, name });
        i = i + 1;
    }
    Some(out)
}

/// Decode a parsed status document. Succeeds exactly on documents that
/// `status_json_ok` admits, and then every field holds what the document
/// binds, with no data loss: counts and version verbatim, the sample roster
/// entry for entry, the raw description, the `forgeData` and `modinfo`
/// values as bound, and the favicon string if one is present.
pub fn status_from_json(j: &Json) -> (r: Option<Status>)
    ensures
        r is Some <==> status_json_ok(*j),
        r matches Some(st) ==> {
            &&& Some(st.version.name) == get_str(json_get(*j, "version"@).unwrap(), "name"@)
            &&& Some(st.version.protocol) == get_int(
                json_get(*j, "version"@).unwrap(),
                "protocol"@,
            )
            &&& Some(st.players.online) == get_int(json_get(*j, "players"@).unwrap(), "online"@)
            &&& Some(st.players.max) == get_int(json_get(*j, "players"@).unwrap(), "max"@)
            &&& (match json_get(json_get(*j, "players"@).unwrap(), "sample"@) {
                Some(s) => match s {
                    Json::Arr(items) => st.players.sample matches Some(v) && v@.len()
                        == items@.len() && forall|i: int|
                        0 <= i < items@.len() ==> Some(#[trigger] v@[i].id) == get_str(
                            items@[i],
                            "id"@,
                        ) && Some(v@[i].name) == get_str(items@[i], "name"@),
                    _ => st.players.sample is None,
                },
                None => st.players.sample is None,
            })
            &&& json_get(*j, "description"@) matches Some(d) && st.description@ == d@
            &&& (match json_get(*j, "forgeData"@) {
                Some(f) => st.forge_data matches Some(g) && g@ == f@,
                None => st.forge_data is None,
            })
            &&& (match json_get(*j, "modinfo"@) {
                Some(m) => st.modinfo matches Some(g) && g@ == m@,
                None => st.modinfo is None,
            })
            &&& (match json_get(*j, "favicon"@) {
                Some(f) => match f {
                    Json::Str(s) => st.favicon == Some(s),
                    _ => st.favicon is None,
                },
                None => st.favicon is None,
            })
        },
        r matches Some(st) ==> status_of_doc(st, (*j)@),
{
    let version_j = match j.get("version") {
        Some(v) => v,
        None => {
            return None;
        },
    };
    let version_name = match version_j.get("name") {
        Some(n) => match n.as_str() {
            Some(s) => s.clone(),
            None => {
                return None;
            },
        },
        None => {
            return None;
        },
    };
    let protocol = match version_j.get("protocol") {
        Some(p) => match p.as_int() {
            Some(x) => x,
            None => {
                return None;
            },
        },
        None => {
            return None;
        },
    };
    let players_j = match j.get("players") {
        Some(p) => p,
        None => {
            return None;
        },
    };
    let online = match players_j.get("online") {
        Some(x) => match x.as_int() {
            Some(v) => v,
            None => {
                return None;
            },
        },
        None => {
            return None;
        },
    };
    let max = match players_j.get("max") {
        Some(x) => match x.as_int() {
            Some(v) => v,
            None => {
                return None;
            },
        },
        None => {
            return None;
        },
    };
    let sample: Option<Vec<Player>> = match players_j.get("sample") {
        None => None,
        Some(s) => match s {
            Json::Null => None,
            Json::Arr(items) => match parse_sample(items) {
                Some(v) => Some(v),
                None => {
                    return None;
                },
            },
            _ => {
                return None;
            },
        },
    };
    let description = match j.get("description") {
        Some(d) => d.deep_copy(),
        None => {
            return None;
        },
    };
    let forge_data = match j.get("forgeData") {
        Some(f) => Some(f.deep_copy()),
        None => None,
    };
    let modinfo = match j.get("modinfo") {
        Some(m) => Some(m.deep_copy()),
        None => None,
    };
    let favicon = match j.get("favicon") {
        None => None,
        Some(f) => match f {
            Json::Null => None,
            Json::Str(s) => Some(s.clone()),
            _ => {
                return None;
            },
        },
    };
    proof {
        lemma_json_get_view(*j, "version"@);
        lemma_json_get_view(*j, "players"@);
        lemma_json_get_view(*j, "description"@);
        lemma_json_get_view(*j, "forgeData"@);
        lemma_json_get_view(*j, "modinfo"@);
        lemma_json_get_view(*j, "favicon"@);
        lemma_get_str_view(*version_j, "name"@);
        lemma_get_int_view(*version_j, "protocol"@);
        lemma_get_int_view(*players_j, "online"@);
        lemma_get_int_view(*players_j, "max"@);
        lemma_json_get_view(*players_j, "sample"@);
        match json_get(*players_j, "sample"@) {
            Some(sv) => {
                lemma_view_shape(sv);
                match sv {
                    Json::Arr(items) => {
                        assert(sv@ matches JsonV::Arr(iv) && iv == items_view(items@));
                        match &sample {
                            Some(v) => {
                                assert forall|i: int| 0 <= i < items@.len() implies jv_get_str(
                                    #[trigger] items_view(items@)[i],
                                    "id"@,
                                ) == Some(v@[i].id@) && jv_get_str(
                                    items_view(items@)[i],
                                    "name"@,
                                ) == Some(v@[i].name@) by {
                                    assert(items_view(items@)[i] == items@[i]@);
                                    lemma_get_str_view(items@[i], "id"@);
                                    lemma_get_str_view(items@[i], "name"@);
                                }
                            },
                            None => {},
                        }
                    },
                    _ => {},
                }
            },
            None => {},
        }
        match json_get(*j, "favicon"@) {
            Some(f) => {
                lemma_view_shape(f);
            },
            None => {},
        }
    }
    Some(
        Status {
            players: Players { online, max, sample },
            version: Version { name: version_name, protocol },
            description,
            forge_data,
            modinfo,
            favicon,
        },
    )
}

/// Parse raw status-response text into a `Status`. Succeeds exactly when
/// the named parse of the text yields a document that `status_view_ok`
/// admits, and then every field holds what that document binds.
pub fn parse_status(raw: &str) -> (r: Option<Status>)
    ensures
        r is Some <==> (parse_of(raw@) matches Some(jv) && status_view_ok(jv)),
        r matches Some(st) ==> (parse_of(raw@) matches Some(jv) && status_of_doc(st, jv)),
{
    match parse_json(raw) {
        None => None,
        Some(j) => {
            proof {
                lemma_status_ok_view(j);
            }
            status_from_json(&j)
        },
    }
}

/// Read a whole status response from received bytes: one plain frame under
/// packet id 0 carrying the JSON document. Succeeds exactly when the frame
/// decodes under id 0, its payload decodes as a valid-UTF-8 string, and the
/// named parse of that string is a document that `status_view_ok` admits;
/// the result then holds what the document binds.
pub fn read_status_response(buf: &[u8]) -> (r: Option<Status>)
    ensures
        match crate::codec::frame_decode(buf@) {
            None => r is None,
            Some((id, payload, _n)) => if id != 0 {
                r is None
            } else {
                match crate::codec::string_decode(payload) {
                    None => r is None,
                    Some((b, _m)) => if !valid_utf8(b) {
                        r is None
                    } else {
                        &&& (r is Some <==> (parse_of(decode_utf8(b)) matches Some(jv)
                            && status_view_ok(jv)))
                        &&& (r matches Some(st) ==> (parse_of(decode_utf8(b)) matches Some(jv)
                            && status_of_doc(st, jv)))
                    },
                }
            },
        },
{
    proof {
        assert(buf@.skip(0) =~= buf@);
    }
    match crate::codec::decode_frame(buf, 0) {
        None => None,
        Some((id, payload, _n)) => {
            if id != 0x00 {
                return None;
            }
            match crate::packets::StatusResponse::deserialize(payload.as_slice()) {
                None => None,
                Some(resp) => {
                    proof {
                        encode_utf8_decode_utf8(resp.response@);
                    }
                    parse_status(resp.response.as_str())
                },
            }
        },
    }
}

} // verus!
