//! The room-state message family: the stream that brackets a match's start
//! and end, carrying the player roster and the final results.

use vstd::prelude::*;

use crate::errors::DecodeError;
use crate::json::{
    get_field, get_i32, get_i32_or, get_string, i32_field, i32_field_or, json_array_len,
    json_element, json_field, json_get, json_index, json_length, text_field,
};
use crate::text::str_eq;

verus! {

/// Match lifecycle state carried by a room-state message.
#[derive(Debug, Clone, Copy, PartialEq, Eq, Structural)]
pub enum StateType {
    MatchCompleted,
    Playing,
}

impl Default for StateType {
    fn default() -> (r: Self)
        ensures
            r == StateType::Playing,
    {
        StateType::Playing
    }
}

/// One entry of the opening roster.
#[derive(Debug, Clone, PartialEq)]
pub struct Player {
    pub player_name: String,
    pub system_seat_id: i32,
    pub team_id: i32,
    pub user_id: String,
}

/// One entry of the closing result list: a scope label ("whole match" or
/// "one game") and the winning team.
#[derive(Debug, Clone, PartialEq)]
pub struct ResultList {
    pub scope: String,
    pub winning_team_id: i32,
}

/// The final results carried by the closing room-state message.
#[derive(Debug, Clone, PartialEq)]
pub struct FinalMatchResult {
    pub match_id: String,
    pub result_list: Vec<ResultList>,
}

#[derive(Debug, Clone, PartialEq)]
pub struct GameRoomConfig {
    pub match_id: String,
}

#[derive(Debug, Clone, PartialEq)]
pub struct GameRoomInfo {
    pub game_room_config: GameRoomConfig,
    pub players: Option<Vec<Player>>,
    pub final_match_result: Option<FinalMatchResult>,
    pub state_type: StateType,
}

#[derive(Debug, Clone, PartialEq)]
pub struct MatchGameRoomStateChangedEvent {
    pub game_room_info: GameRoomInfo,
}

/// A decoded room-state message, together with the fragment text it was
/// decoded from, so a replay can be written back out verbatim.
#[derive(Debug, Clone, PartialEq)]
pub struct RequestTypeMGRSCEvent {
    pub mgrsc_event: MatchGameRoomStateChangedEvent,
    pub request_id: i32,
    pub timestamp: String,
    pub transaction_id: String,
    pub raw: String,
}

/// A usable roster entry: name, seat, team and user id all present.
pub open spec fn player_shape_ok(p: serde_json::Value) -> bool {
    &&& text_field(p, "playerName"@) is Some
    &&& i32_field(p, "systemSeatId"@) is Some
    &&& i32_field(p, "teamId"@) is Some
    &&& text_field(p, "userId"@) is Some
}

/// Whether position `i` of a roster array holds a usable entry.
pub open spec fn player_elem_ok(v: serde_json::Value, i: int) -> bool {
    match json_element(v, i) {
        Option::Some(p) => player_shape_ok(p),
        Option::None => false,
    }
}

/// A usable roster: an array whose every entry is usable.
pub open spec fn players_shape_ok(v: serde_json::Value) -> bool {
    match json_length(v) {
        Option::Some(n) => forall|i: int| 0 <= i < n ==> #[trigger] player_elem_ok(v, i),
        Option::None => false,
    }
}

/// A usable result entry: a scope label and a winning team.
pub open spec fn result_entry_ok(e: serde_json::Value) -> bool {
    text_field(e, "scope"@) is Some && i32_field(e, "winningTeamId"@) is Some
}

/// Whether position `i` of a result array holds a usable entry.
pub open spec fn result_elem_ok(v: serde_json::Value, i: int) -> bool {
    match json_element(v, i) {
        Option::Some(e) => result_entry_ok(e),
        Option::None => false,
    }
}

/// A usable final-result payload.
pub open spec fn final_result_shape_ok(f: serde_json::Value) -> bool {
    &&& text_field(f, "matchId"@) is Some
    &&& match json_field(f, "resultList"@) {
        Option::Some(rl) => match json_length(rl) {
            Option::Some(n) => forall|i: int| 0 <= i < n ==> #[trigger] result_elem_ok(rl, i),
            Option::None => false,
        },
        Option::None => false,
    }
}

/// A recognized lifecycle label.
pub open spec fn state_type_ok(gri: serde_json::Value) -> bool {
    match text_field(gri, "stateType"@) {
        Option::Some(s) => s == "MatchGameRoomStateType_Playing"@ || s
            == "MatchGameRoomStateType_MatchCompleted"@,
        Option::None => false,
    }
}

/// A room-state fragment that decodes: the event and room-info objects, a
/// config with a match id, a recognized lifecycle label, usable optional
/// roster and results, a defaultable request id, and the required
/// timestamp and transaction id.
pub open spec fn mgrsc_shape_ok(v: serde_json::Value) -> bool {
    match json_field(v, "matchGameRoomStateChangedEvent"@) {
        Option::None => false,
        Option::Some(ev) => match json_field(ev, "gameRoomInfo"@) {
            Option::None => false,
            Option::Some(gri) => {
                &&& match json_field(gri, "gameRoomConfig"@) {
                    Option::Some(grc) => text_field(grc, "matchId"@) is Some,
                    Option::None => false,
                }
                &&& state_type_ok(gri)
                &&& match json_field(gri, "players"@) {
                    Option::Some(pv) => players_shape_ok(pv),
                    Option::None => true,
                }
                &&& match json_field(gri, "finalMatchResult"@) {
                    Option::Some(fv) => final_result_shape_ok(fv),
                    Option::None => true,
                }
                &&& i32_field_or(v, "requestId"@, 0) is Some
                &&& text_field(v, "timestamp"@) is Some
                &&& text_field(v, "transactionId"@) is Some
            },
        },
    }
}

/// How a decoded roster entry relates to its array element.
pub open spec fn player_fields_match(p: Player, e: serde_json::Value) -> bool {
    &&& text_field(e, "playerName"@) == Option::Some(p.player_name@)
    &&& i32_field(e, "systemSeatId"@) == Option::Some(p.system_seat_id)
    &&& i32_field(e, "teamId"@) == Option::Some(p.team_id)
    &&& text_field(e, "userId"@) == Option::Some(p.user_id@)
}

/// Whether entry `i` of the decoded roster is exactly element `i` of the
/// roster array.
pub open spec fn player_entry_match(p: Player, v: serde_json::Value, i: int) -> bool {
    match json_element(v, i) {
        Option::Some(e) => player_fields_match(p, e),
        Option::None => false,
    }
}

/// How a decoded roster relates to its array: same length, entries tied in
/// order.
pub open spec fn players_match(ps: Seq<Player>, v: serde_json::Value) -> bool {
    &&& json_length(v) == Option::Some(ps.len() as int)
    &&& forall|i: int| 0 <= i < ps.len() ==> #[trigger] player_entry_match(ps[i], v, i)
}

/// How a decoded result entry relates to its array element.
pub open spec fn result_entry_match(e: ResultList, x: serde_json::Value, i: int) -> bool {
    match json_element(x, i) {
        Option::Some(y) => text_field(y, "scope"@) == Option::Some(e.scope@) && i32_field(
            y,
            "winningTeamId"@,
        ) == Option::Some(e.winning_team_id),
        Option::None => false,
    }
}

/// How decoded final results relate to their payload.
pub open spec fn final_result_match(f: FinalMatchResult, v: serde_json::Value) -> bool {
    &&& text_field(v, "matchId"@) == Option::Some(f.match_id@)
    &&& match json_field(v, "resultList"@) {
        Option::Some(rl) => json_length(rl) == Option::Some(f.result_list@.len() as int)
            && forall|i: int|
                0 <= i < f.result_list@.len() ==> #[trigger] result_entry_match(
                    f.result_list@[i],
                    rl,
                    i,
                ),
        Option::None => false,
    }
}

/// How a decoded lifecycle state relates to its label.
pub open spec fn state_type_match(st: StateType, gri: serde_json::Value) -> bool {
    match text_field(gri, "stateType"@) {
        Option::Some(s) => if st is Playing {
            s == "MatchGameRoomStateType_Playing"@
        } else {
            s == "MatchGameRoomStateType_MatchCompleted"@
        },
        Option::None => false,
    }
}

/// How a whole decoded room-state message relates to its fragment's tree:
/// every kept field is exactly the corresponding field chain.
pub open spec fn mgrsc_fields_match(m: RequestTypeMGRSCEvent, v: serde_json::Value) -> bool {
    match json_field(v, "matchGameRoomStateChangedEvent"@) {
        Option::None => false,
        Option::Some(ev) => match json_field(ev, "gameRoomInfo"@) {
            Option::None => false,
            Option::Some(gri) => {
                &&& match json_field(gri, "gameRoomConfig"@) {
                    Option::Some(grc) => text_field(grc, "matchId"@) == Option::Some(
                        m.mgrsc_event.game_room_info.game_room_config.match_id@,
                    ),
                    Option::None => false,
                }
                &&& state_type_match(m.mgrsc_event.game_room_info.state_type, gri)
                &&& match json_field(gri, "players"@) {
                    Option::Some(pv) => match m.mgrsc_event.game_room_info.players {
                        Option::Some(ps) => players_match(ps@, pv),
                        Option::None => false,
                    },
                    Option::None => m.mgrsc_event.game_room_info.players is None,
                }
                &&& match json_field(gri, "finalMatchResult"@) {
                    Option::Some(fv) => match m.mgrsc_event.game_room_info.final_match_result {
                        Option::Some(f) => final_result_match(f, fv),
                        Option::None => false,
                    },
                    Option::None => m.mgrsc_event.game_room_info.final_match_result is None,
                }
                &&& i32_field_or(v, "requestId"@, 0) == Option::Some(m.request_id)
                &&& text_field(v, "timestamp"@) == Option::Some(m.timestamp@)
                &&& text_field(v, "transactionId"@) == Option::Some(m.transaction_id@)
            },
        },
    }
}

fn decode_player(v: &serde_json::Value) -> (r: Result<Player, DecodeError>)
    ensures
        (r is Ok) == player_shape_ok(*v),
        r matches Ok(p) ==> player_fields_match(p, *v),
        r matches Err(e) ==> e == DecodeError::Malformed,
{
    let player_name = get_string(v, "playerName")?;
    let system_seat_id = get_i32(v, "systemSeatId")?;
    let team_id = get_i32(v, "teamId")?;
    let user_id = get_string(v, "userId")?;
    Ok(Player { player_name, system_seat_id, team_id, user_id })
}

fn decode_players(v: &serde_json::Value) -> (r: Result<Vec<Player>, DecodeError>)
    ensures
        (r is Ok) == players_shape_ok(*v),
        r matches Ok(ps) ==> players_match(ps@, *v),
        r matches Err(e) ==> e == DecodeError::Malformed,
{
    let n = match json_array_len(v) {
        Some(n) => n,
        None => {
            return Err(DecodeError::Malformed);
        },
    };
    let mut out: Vec<Player> = Vec::new();
    let mut i: usize = 0;
    while i < n
        invariant
            json_length(*v) == Option::Some(n as int),
            i <= n,
            out@.len() == i,
            forall|j: int| 0 <= j < i ==> #[trigger] player_elem_ok(*v, j),
            forall|j: int| 0 <= j < i ==> #[trigger] player_entry_match(out@[j], *v, j),
        decreases n - i,
    {
        let ghost o0 = out@;
        let item = match json_index(v, i) {
            Some(x) => x,
            None => {
                proof {
                    assert(!player_elem_ok(*v, i as int));
                }
                return Err(DecodeError::Malformed);
            },
        };
        match decode_player(item) {
            Ok(p) => out.push(p),
            Err(e) => {
                proof {
                    assert(!player_elem_ok(*v, i as int));
                }
                return Err(e);
            },
        }
        proof {
            assert(forall|j: int| 0 <= j < i ==> out@[j] == o0[j]);
        }
        i = i + 1;
    }
    Ok(out)
}

fn decode_final_match_result(v: &serde_json::Value) -> (r: Result<FinalMatchResult, DecodeError>)
    ensures
        (r is Ok) == final_result_shape_ok(*v),
        r matches Ok(f) ==> final_result_match(f, *v),
        r matches Err(e) ==> e == DecodeError::Malformed,
{
    let match_id = get_string(v, "matchId")?;
    let rl = get_field(v, "resultList")?;
    let n = match json_array_len(rl) {
        Some(n) => n,
        None => {
            return Err(DecodeError::Malformed);
        },
    };
    let mut result_list: Vec<ResultList> = Vec::new();
    let mut i: usize = 0;
    while i < n
        invariant
            json_field(*v, "resultList"@) == Option::Some(*rl),
            json_length(*rl) == Option::Some(n as int),
            i <= n,
            result_list@.len() == i,
            forall|j: int| 0 <= j < i ==> #[trigger] result_elem_ok(*rl, j),
            forall|j: int| 0 <= j < i ==> #[trigger] result_entry_match(result_list@[j], *rl, j),
        decreases n - i,
    {
        let ghost r0 = result_list@;
        let item = match json_index(rl, i) {
            Some(x) => x,
            None => {
                proof {
                    assert(!result_elem_ok(*rl, i as int));
                }
                return Err(DecodeError::Malformed);
            },
        };
        let scope = match get_string(item, "scope") {
            Ok(s) => s,
            Err(e) => {
                proof {
                    assert(!result_elem_ok(*rl, i as int));
                }
                return Err(e);
            },
        };
        let winning_team_id = match get_i32(item, "winningTeamId") {
            Ok(w) => w,
            Err(e) => {
                proof {
                    assert(!result_elem_ok(*rl, i as int));
                }
                return Err(e);
            },
        };
        result_list.push(ResultList { scope, winning_team_id });
        proof {
            assert(forall|j: int| 0 <= j < i ==> result_list@[j] == r0[j]);
        }
        i = i + 1;
    }
    Ok(FinalMatchResult { match_id, result_list })
}

fn decode_state_type(v: &serde_json::Value) -> (r: Result<StateType, DecodeError>)
    ensures
        r == (match text_field(*v, "stateType"@) {
            Option::Some(s) => if s == "MatchGameRoomStateType_Playing"@ {
                Result::<StateType, DecodeError>::Ok(StateType::Playing)
            } else if s == "MatchGameRoomStateType_MatchCompleted"@ {
                Result::<StateType, DecodeError>::Ok(StateType::MatchCompleted)
            } else {
                Result::<StateType, DecodeError>::Err(DecodeError::Malformed)
            },
            Option::None => Result::<StateType, DecodeError>::Err(DecodeError::Malformed),
        }),
{
    let s = get_string(v, "stateType")?;
    if str_eq(s.as_str(), "MatchGameRoomStateType_Playing") {
        Ok(StateType::Playing)
    } else if str_eq(s.as_str(), "MatchGameRoomStateType_MatchCompleted") {
        Ok(StateType::MatchCompleted)
    } else {
        Err(DecodeError::Malformed)
    }
}

/// Decodes a fragment already known to carry the room-state marker:
/// succeeds exactly when the fragment has the family's usable shape, the
/// decoded fields are exactly the tree's, and the returned message keeps
/// the fragment text unchanged.
pub fn decode_mgrsc(raw: &str, v: &serde_json::Value) -> (r: Result<
    RequestTypeMGRSCEvent,
    DecodeError,
>)
    ensures
        (r is Ok) == mgrsc_shape_ok(*v),
        r matches Ok(m) ==> m.raw@ == raw@ && mgrsc_fields_match(m, *v),
        r matches Err(e) ==> e == DecodeError::Malformed,
{
    let ev = get_field(v, "matchGameRoomStateChangedEvent")?;
    let gri = get_field(ev, "gameRoomInfo")?;
    let grc = get_field(gri, "gameRoomConfig")?;
    let match_id = get_string(grc, "matchId")?;
    let state_type = decode_state_type(gri)?;
    let players = match json_get(gri, "players") {
        Some(pv) => Some(decode_players(pv)?),
        None => None,
    };
    let final_match_result = match json_get(gri, "finalMatchResult") {
        Some(fv) => Some(decode_final_match_result(fv)?),
        None => None,
    };
    let request_id = get_i32_or(v, "requestId", 0)?;
    let timestamp = get_string(v, "timestamp")?;
    let transaction_id = get_string(v, "transactionId")?;
    Ok(
        RequestTypeMGRSCEvent {
            mgrsc_event: MatchGameRoomStateChangedEvent {
                game_room_info: GameRoomInfo {
                    game_room_config: GameRoomConfig { match_id },
                    players,
                    final_match_result,
                    state_type,
                },
            },
            request_id,
            timestamp,
            transaction_id,
            raw: raw.to_owned(),
        },
    )
}

} // verus!
