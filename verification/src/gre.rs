//! The rules-engine-to-client message family: server-authoritative game
//! state, prompts and results. Only a handful of sub-kinds carry fields the
//! analytics interpret (connection response, game-state snapshot, mulligan
//! request, intermission, die rolls); every other recognized sub-kind is
//! kept as an opaque payload with its kind tag.

use vstd::prelude::*;

use crate::errors::DecodeError;
use crate::json::{
    get_field, get_i32, get_i32_array, get_i32_array_or_empty, get_i32_or, get_opt_i32,
    get_opt_string, get_string, i32_array_field, i32_array_field_or_empty, i32_field,
    i32_field_or, json_array_len, json_boolean, json_element, json_field, json_get, json_index,
    json_is_null, json_length, json_null, json_text, opt_i32_field, opt_text_field, text_field,
};
use crate::text::{opt_str_view, str_eq};

verus! {

/// Metadata common to every rules-engine message.
#[derive(Debug, Clone, PartialEq)]
pub struct GreMeta {
    pub msg_id: i32,
    pub system_seat_ids: Vec<i32>,
    pub game_state_id: Option<i32>,
}

/// The deck lists carried by connection and deck-submission messages.
#[derive(Debug, Clone, PartialEq)]
pub struct DeckMessage {
    pub deck_cards: Vec<i32>,
    pub sideboard_cards: Vec<i32>,
}

/// The interpreted part of a connection response: the initial decklist.
#[derive(Debug, Clone, PartialEq)]
pub struct ConnectResp {
    pub deck_message: DeckMessage,
}

#[derive(Debug, Clone, PartialEq)]
pub struct ConnectRespWrapper {
    pub connect_resp: ConnectResp,
    pub meta: GreMeta,
}

/// A mulligan offer: how many times this player has already mulliganed.
#[derive(Debug, Clone, PartialEq)]
pub struct MulliganReq {
    pub mulligan_count: i32,
}

#[derive(Debug, Clone, PartialEq)]
pub struct MulliganReqWrapper {
    pub mulligan_req: MulliganReq,
    pub meta: GreMeta,
}

/// The boundary between two games within a match.
#[derive(Debug, Clone, PartialEq)]
pub struct IntermissionReqWrapper {
    pub meta: GreMeta,
}

#[derive(Debug, Clone, PartialEq)]
pub struct PlayerDieRoll {
    pub roll_value: i32,
    pub system_seat_id: i32,
}

#[derive(Debug, Clone, PartialEq)]
pub struct DieRollResultsResp {
    pub player_die_rolls: Vec<PlayerDieRoll>,
}

#[derive(Debug, Clone, PartialEq)]
pub struct DieRollResultsRespWrapper {
    pub die_roll_results_resp: DieRollResultsResp,
    pub meta: GreMeta,
}

/// The kind of a live game object.
#[derive(Debug, Clone, Copy, PartialEq, Eq, Structural)]
pub enum GameObjectType {
    Card,
    RevealedCard,
    TriggerHolder,
    MDFCBack,
    Ability,
    Token,
    Adventure,
}

/// One live game object of a game-state snapshot.
#[derive(Debug, Clone, PartialEq)]
pub struct GameObject {
    pub instance_id: i32,
    pub grp_id: i32,
    pub owner_seat_id: i32,
    pub controller_seat_id: i32,
    pub zone_id: Option<i32>,
    pub type_field: GameObjectType,
    pub is_tapped: Option<bool>,
}

/// Zone visibility.
#[derive(Debug, Clone, Copy, PartialEq, Eq, Structural)]
pub enum Visibility {
    Public,
    Private,
    Hidden,
}

/// The kind of a zone.
#[derive(Debug, Clone, Copy, PartialEq, Eq, Structural)]
pub enum ZoneType {
    Battlefield,
    Stack,
    Exile,
    Graveyard,
    Hand,
    Library,
    Limbo,
    Sideboard,
    Pending,
    Suppressed,
    Revealed,
    Command,
}

/// One zone of a game-state snapshot.
#[derive(Debug, Clone, PartialEq)]
pub struct Zone {
    pub zone_id: i32,
    pub owner_seat_id: Option<i32>,
    pub type_field: ZoneType,
    pub visibility: Visibility,
    pub object_instance_ids: Vec<i32>,
}

/// Per-player status inside a game-state snapshot.
#[derive(Debug, Clone, PartialEq)]
pub struct Player {
    pub controller_seat_id: i32,
    pub system_seat_number: i32,
    pub team_id: i32,
    pub life_total: i32,
    pub pending_message_type: Option<String>,
}

/// Turn metadata inside a game-state snapshot.
#[derive(Debug, Clone, PartialEq)]
pub struct TurnInfo {
    pub active_player: Option<i32>,
    pub decision_player: Option<i32>,
    pub priority_player: Option<i32>,
    pub turn_number: Option<i32>,
    pub phase: Option<String>,
    pub step: Option<String>,
}

/// A game-state snapshot.
#[derive(Debug, Clone, PartialEq)]
pub struct GameStateMessage {
    pub game_state_id: i32,
    pub game_objects: Vec<GameObject>,
    pub zones: Vec<Zone>,
    pub players: Vec<Player>,
    pub turn_info: Option<TurnInfo>,
}

#[derive(Debug, Clone, PartialEq)]
pub struct GameStateMessageWrapper {
    pub game_state_message: GameStateMessage,
    pub meta: GreMeta,
}

/// A recognized sub-kind whose content the system does not interpret: only
/// the kind tag and the shared metadata are kept.
#[derive(Debug, Clone, PartialEq)]
pub struct OpaqueGreWrapper {
    pub message_type: String,
    pub meta: GreMeta,
}

/// One rules-engine message.
#[derive(Debug, Clone, PartialEq)]
pub enum GREToClientMessage {
    ConnectResp(ConnectRespWrapper),
    GameStateMessage(GameStateMessageWrapper),
    MulliganReq(MulliganReqWrapper),
    IntermissionReq(IntermissionReqWrapper),
    DieRollResults(DieRollResultsRespWrapper),
    Opaque(OpaqueGreWrapper),
}

#[derive(Debug, Clone, PartialEq)]
pub struct GREToClientEvent {
    pub gre_to_client_messages: Vec<GREToClientMessage>,
}

/// A decoded rules-engine event, together with the fragment text it was
/// decoded from, so a replay can be written back out verbatim.
#[derive(Debug, Clone, PartialEq)]
pub struct RequestTypeGREToClientEvent {
    pub gre_to_client_event: GREToClientEvent,
    pub request_id: Option<i32>,
    pub timestamp: String,
    pub transaction_id: String,
    pub raw: String,
}

/// Usable shared metadata: a defaultable message id, a defaultable seat
/// list, and an optional game-state id.
pub open spec fn meta_shape_ok(m: serde_json::Value) -> bool {
    &&& i32_field_or(m, "msgId"@, 0) is Some
    &&& i32_array_field_or_empty(m, "systemSeatIds"@) is Some
    &&& opt_i32_field(m, "gameStateId"@) is Some
}

/// A usable deck message: both card lists read as integer arrays.
pub open spec fn deck_message_shape_ok(dv: serde_json::Value) -> bool {
    i32_array_field(dv, "deckCards"@) is Some && i32_array_field(dv, "sideboardCards"@) is Some
}

/// How a decoded deck message relates to its tree: both lists are exactly
/// the tree's integer arrays.
pub open spec fn deck_message_match(d: DeckMessage, dv: serde_json::Value) -> bool {
    &&& i32_array_field(dv, "deckCards"@) == Option::Some(d.deck_cards@)
    &&& i32_array_field(dv, "sideboardCards"@) == Option::Some(d.sideboard_cards@)
}

/// A recognized game-object kind label.
pub open spec fn game_object_type_ok(s: Seq<char>) -> bool {
    ||| s == "GameObjectType_Card"@
    ||| s == "GameObjectType_RevealedCard"@
    ||| s == "GameObjectType_TriggerHolder"@
    ||| s == "GameObjectType_MDFCBack"@
    ||| s == "GameObjectType_Ability"@
    ||| s == "GameObjectType_Token"@
    ||| s == "GameObjectType_Adventure"@
}

/// A recognized zone kind label.
pub open spec fn zone_type_ok(s: Seq<char>) -> bool {
    ||| s == "ZoneType_Battlefield"@
    ||| s == "ZoneType_Stack"@
    ||| s == "ZoneType_Exile"@
    ||| s == "ZoneType_Graveyard"@
    ||| s == "ZoneType_Hand"@
    ||| s == "ZoneType_Library"@
    ||| s == "ZoneType_Limbo"@
    ||| s == "ZoneType_Sideboard"@
    ||| s == "ZoneType_Pending"@
    ||| s == "ZoneType_Suppressed"@
    ||| s == "ZoneType_Revealed"@
    ||| s == "ZoneType_Command"@
}

/// A recognized visibility label.
pub open spec fn visibility_ok(s: Seq<char>) -> bool {
    ||| s == "Visibility_Public"@
    ||| s == "Visibility_Private"@
    ||| s == "Visibility_Hidden"@
}

/// A recognized but uninterpreted rules-engine message kind.
pub open spec fn opaque_gre_kind(t: Seq<char>) -> bool {
    ||| t == "GREMessageType_ChooseStartingPlayerReq"@
    ||| t == "GREMessageType_SelectNReq"@
    ||| t == "GREMessageType_ActionsAvailableReq"@
    ||| t == "GREMessageType_SetSettingsResp"@
    ||| t == "GREMessageType_SelectTargetsReq"@
    ||| t == "GREMessageType_SubmitTargetsResp"@
    ||| t == "GREMessageType_CastingTimeOptionsReq"@
    ||| t == "GREMessageType_PayCostsReq"@
    ||| t == "GREMessageType_SelectNResp"@
    ||| t == "GREMessageType_DeclareAttackersReq"@
    ||| t == "GREMessageType_SubmitAttackersResp"@
    ||| t == "GREMessageType_DeclareBlockersReq"@
    ||| t == "GREMessageType_SubmitBlockersResp"@
    ||| t == "GREMessageType_PromptReq"@
    ||| t == "GREMessageType_QueuedGameStateMessage"@
    ||| t == "GREMessageType_TimerStateMessage"@
    ||| t == "GREMessageType_UIMessage"@
    ||| t == "GREMessageType_SubmitDeckConfirmation"@
    ||| t == "GREMessageType_OrderReq"@
    ||| t == "GREMessageType_SubmitDeckReq"@
    ||| t == "GREMessageType_SearchReq"@
    ||| t == "GREMessageType_OptionalActionMessage"@
    ||| t == "GREMessageType_GroupReq"@
    ||| t == "GREMessageType_GroupResp"@
    ||| t == "GREMessageType_TimeoutMessage"@
    ||| t == "GREMessageType_EdictalMessage"@
}

/// A usable game object: the identifying seats and ids present, an
/// optional zone, a recognized kind (defaulting when absent), and an
/// optional tap flag.
pub open spec fn game_object_shape_ok(o: serde_json::Value) -> bool {
    &&& i32_field(o, "instanceId"@) is Some
    &&& i32_field(o, "grpId"@) is Some
    &&& i32_field(o, "ownerSeatId"@) is Some
    &&& i32_field(o, "controllerSeatId"@) is Some
    &&& opt_i32_field(o, "zoneId"@) is Some
    &&& match json_field(o, "type"@) {
        Option::Some(tv) => match json_text(tv) {
            Option::Some(s) => game_object_type_ok(s),
            Option::None => false,
        },
        Option::None => true,
    }
    &&& match json_field(o, "isTapped"@) {
        Option::Some(bv) => json_null(bv) || json_boolean(bv) is Some,
        Option::None => true,
    }
}

/// Whether position `i` of an object array holds a usable object.
pub open spec fn object_elem_ok(arr: serde_json::Value, i: int) -> bool {
    match json_element(arr, i) {
        Option::Some(o) => game_object_shape_ok(o),
        Option::None => false,
    }
}

/// A usable zone: id, optional owner, recognized kind and visibility, and
/// a defaultable member list.
pub open spec fn zone_shape_ok(z: serde_json::Value) -> bool {
    &&& i32_field(z, "zoneId"@) is Some
    &&& opt_i32_field(z, "ownerSeatId"@) is Some
    &&& match text_field(z, "type"@) {
        Option::Some(s) => zone_type_ok(s),
        Option::None => false,
    }
    &&& match text_field(z, "visibility"@) {
        Option::Some(s) => visibility_ok(s),
        Option::None => false,
    }
    &&& i32_array_field_or_empty(z, "objectInstanceIds"@) is Some
}

/// Whether position `i` of a zone array holds a usable zone.
pub open spec fn zone_elem_ok(arr: serde_json::Value, i: int) -> bool {
    match json_element(arr, i) {
        Option::Some(z) => zone_shape_ok(z),
        Option::None => false,
    }
}

/// A usable per-player status record.
pub open spec fn gsm_player_shape_ok(p: serde_json::Value) -> bool {
    &&& i32_field(p, "controllerSeatId"@) is Some
    &&& i32_field_or(p, "systemSeatNumber"@, 0) is Some
    &&& i32_field_or(p, "teamId"@, 0) is Some
    &&& i32_field_or(p, "lifeTotal"@, 0) is Some
    &&& opt_text_field(p, "pendingMessageType"@) is Some
}

/// Whether position `i` of a status array holds a usable record.
pub open spec fn gsm_player_elem_ok(arr: serde_json::Value, i: int) -> bool {
    match json_element(arr, i) {
        Option::Some(p) => gsm_player_shape_ok(p),
        Option::None => false,
    }
}

/// Usable turn metadata: every field optional and well-typed.
pub open spec fn turn_info_shape_ok(tv: serde_json::Value) -> bool {
    &&& opt_i32_field(tv, "activePlayer"@) is Some
    &&& opt_i32_field(tv, "decisionPlayer"@) is Some
    &&& opt_i32_field(tv, "priorityPlayer"@) is Some
    &&& opt_i32_field(tv, "turnNumber"@) is Some
    &&& opt_text_field(tv, "phase"@) is Some
    &&& opt_text_field(tv, "step"@) is Some
}

/// A usable game-state snapshot: the state id, and usable object, zone and
/// player arrays and turn metadata wherever they are present.
pub open spec fn gsm_shape_ok(gv: serde_json::Value) -> bool {
    &&& i32_field(gv, "gameStateId"@) is Some
    &&& match json_field(gv, "gameObjects"@) {
        Option::Some(arr) => match json_length(arr) {
            Option::Some(n) => forall|i: int| 0 <= i < n ==> #[trigger] object_elem_ok(arr, i),
            Option::None => false,
        },
        Option::None => true,
    }
    &&& match json_field(gv, "zones"@) {
        Option::Some(arr) => match json_length(arr) {
            Option::Some(n) => forall|i: int| 0 <= i < n ==> #[trigger] zone_elem_ok(arr, i),
            Option::None => false,
        },
        Option::None => true,
    }
    &&& match json_field(gv, "players"@) {
        Option::Some(arr) => match json_length(arr) {
            Option::Some(n) => forall|i: int| 0 <= i < n ==> #[trigger] gsm_player_elem_ok(arr, i),
            Option::None => false,
        },
        Option::None => true,
    }
    &&& match json_field(gv, "turnInfo"@) {
        Option::Some(tv) => json_null(tv) || turn_info_shape_ok(tv),
        Option::None => true,
    }
}

/// Whether position `i` of a die-roll array holds a usable roll.
pub open spec fn die_roll_elem_ok(arr: serde_json::Value, i: int) -> bool {
    match json_element(arr, i) {
        Option::Some(e) => i32_field_or(e, "rollValue"@, 0) is Some && i32_field(
            e,
            "systemSeatId"@,
        ) is Some,
        Option::None => false,
    }
}

/// A usable die-roll payload.
pub open spec fn die_rolls_shape_ok(dv: serde_json::Value) -> bool {
    match json_field(dv, "playerDieRolls"@) {
        Option::Some(arr) => match json_length(arr) {
            Option::Some(n) => forall|i: int| 0 <= i < n ==> #[trigger] die_roll_elem_ok(arr, i),
            Option::None => false,
        },
        Option::None => false,
    }
}

/// One usable rules-engine message: a known kind tag, usable metadata, and
/// usable interpreted fields for the interpreted kinds.
pub open spec fn gre_msg_shape_ok(m: serde_json::Value) -> bool {
    match text_field(m, "type"@) {
        Option::None => false,
        Option::Some(t) => meta_shape_ok(m) && (if t == "GREMessageType_ConnectResp"@ {
            match json_field(m, "connectResp"@) {
                Option::Some(cv) => match json_field(cv, "deckMessage"@) {
                    Option::Some(dm) => deck_message_shape_ok(dm),
                    Option::None => false,
                },
                Option::None => false,
            }
        } else if t == "GREMessageType_GameStateMessage"@ {
            match json_field(m, "gameStateMessage"@) {
                Option::Some(gv) => gsm_shape_ok(gv),
                Option::None => false,
            }
        } else if t == "GREMessageType_MulliganReq"@ {
            match json_field(m, "mulliganReq"@) {
                Option::Some(mv) => match i32_field_or(mv, "mulliganCount"@, 0) {
                    Option::Some(c) => c >= 0,
                    Option::None => false,
                },
                Option::None => false,
            }
        } else if t == "GREMessageType_IntermissionReq"@ {
            true
        } else if t == "GREMessageType_DieRollResultsResp"@ {
            match json_field(m, "dieRollResultsResp"@) {
                Option::Some(dv) => die_rolls_shape_ok(dv),
                Option::None => false,
            }
        } else {
            opaque_gre_kind(t)
        }),
    }
}

/// Whether position `i` of a message array holds a usable message.
pub open spec fn gre_msg_elem_ok(arr: serde_json::Value, i: int) -> bool {
    match json_element(arr, i) {
        Option::Some(m) => gre_msg_shape_ok(m),
        Option::None => false,
    }
}

/// A rules-engine fragment that decodes: the event object, a usable
/// message array wherever present, an optional request id, and the
/// required timestamp and transaction id.
pub open spec fn gre_shape_ok(v: serde_json::Value) -> bool {
    match json_field(v, "greToClientEvent"@) {
        Option::None => false,
        Option::Some(ev) => {
            &&& match json_field(ev, "greToClientMessages"@) {
                Option::Some(arr) => match json_length(arr) {
                    Option::Some(n) => forall|i: int|
                        0 <= i < n ==> #[trigger] gre_msg_elem_ok(arr, i),
                    Option::None => false,
                },
                Option::None => true,
            }
            &&& opt_i32_field(v, "requestId"@) is Some
            &&& text_field(v, "timestamp"@) is Some
            &&& text_field(v, "transactionId"@) is Some
        },
    }
}

/// How decoded metadata relates to its tree.
pub open spec fn meta_match(meta: GreMeta, m: serde_json::Value) -> bool {
    &&& i32_field_or(m, "msgId"@, 0) == Option::Some(meta.msg_id)
    &&& i32_array_field_or_empty(m, "systemSeatIds"@) == Option::Some(meta.system_seat_ids@)
    &&& opt_i32_field(m, "gameStateId"@) == Option::Some(meta.game_state_id)
}

/// The label of a game-object kind.
pub open spec fn game_object_type_label(t: GameObjectType) -> Seq<char> {
    match t {
        GameObjectType::Card => "GameObjectType_Card"@,
        GameObjectType::RevealedCard => "GameObjectType_RevealedCard"@,
        GameObjectType::TriggerHolder => "GameObjectType_TriggerHolder"@,
        GameObjectType::MDFCBack => "GameObjectType_MDFCBack"@,
        GameObjectType::Ability => "GameObjectType_Ability"@,
        GameObjectType::Token => "GameObjectType_Token"@,
        GameObjectType::Adventure => "GameObjectType_Adventure"@,
    }
}

/// The label of a zone kind.
pub open spec fn zone_type_label(t: ZoneType) -> Seq<char> {
    match t {
        ZoneType::Battlefield => "ZoneType_Battlefield"@,
        ZoneType::Stack => "ZoneType_Stack"@,
        ZoneType::Exile => "ZoneType_Exile"@,
        ZoneType::Graveyard => "ZoneType_Graveyard"@,
        ZoneType::Hand => "ZoneType_Hand"@,
        ZoneType::Library => "ZoneType_Library"@,
        ZoneType::Limbo => "ZoneType_Limbo"@,
        ZoneType::Sideboard => "ZoneType_Sideboard"@,
        ZoneType::Pending => "ZoneType_Pending"@,
        ZoneType::Suppressed => "ZoneType_Suppressed"@,
        ZoneType::Revealed => "ZoneType_Revealed"@,
        ZoneType::Command => "ZoneType_Command"@,
    }
}

/// The label of a visibility.
pub open spec fn visibility_label(t: Visibility) -> Seq<char> {
    match t {
        Visibility::Public => "Visibility_Public"@,
        Visibility::Private => "Visibility_Private"@,
        Visibility::Hidden => "Visibility_Hidden"@,
    }
}

/// How a decoded game object relates to its array element.
pub open spec fn game_object_match(go: GameObject, o: serde_json::Value) -> bool {
    &&& i32_field(o, "instanceId"@) == Option::Some(go.instance_id)
    &&& i32_field(o, "grpId"@) == Option::Some(go.grp_id)
    &&& i32_field(o, "ownerSeatId"@) == Option::Some(go.owner_seat_id)
    &&& i32_field(o, "controllerSeatId"@) == Option::Some(go.controller_seat_id)
    &&& opt_i32_field(o, "zoneId"@) == Option::Some(go.zone_id)
    &&& match json_field(o, "type"@) {
        Option::Some(tv) => json_text(tv) == Option::Some(game_object_type_label(go.type_field)),
        Option::None => go.type_field is Card,
    }
    &&& match json_field(o, "isTapped"@) {
        Option::Some(bv) => if json_null(bv) {
            go.is_tapped is None
        } else {
            match go.is_tapped {
                Option::Some(b) => json_boolean(bv) == Option::Some(b),
                Option::None => false,
            }
        },
        Option::None => go.is_tapped is None,
    }
}

/// Whether entry `i` of the decoded object list is exactly element `i` of
/// the object array.
pub open spec fn object_entry_match(go: GameObject, arr: serde_json::Value, i: int) -> bool {
    match json_element(arr, i) {
        Option::Some(o) => game_object_match(go, o),
        Option::None => false,
    }
}

/// How a decoded zone relates to its array element.
pub open spec fn zone_match(z: Zone, zv: serde_json::Value) -> bool {
    &&& i32_field(zv, "zoneId"@) == Option::Some(z.zone_id)
    &&& opt_i32_field(zv, "ownerSeatId"@) == Option::Some(z.owner_seat_id)
    &&& text_field(zv, "type"@) == Option::Some(zone_type_label(z.type_field))
    &&& text_field(zv, "visibility"@) == Option::Some(visibility_label(z.visibility))
    &&& i32_array_field_or_empty(zv, "objectInstanceIds"@) == Option::Some(z.object_instance_ids@)
}

/// Whether entry `i` of the decoded zone list is exactly element `i` of
/// the zone array.
pub open spec fn zone_entry_match(z: Zone, arr: serde_json::Value, i: int) -> bool {
    match json_element(arr, i) {
        Option::Some(zv) => zone_match(z, zv),
        Option::None => false,
    }
}

/// How a decoded status record relates to its array element.
pub open spec fn gsm_player_match(p: Player, pv: serde_json::Value) -> bool {
    &&& i32_field(pv, "controllerSeatId"@) == Option::Some(p.controller_seat_id)
    &&& i32_field_or(pv, "systemSeatNumber"@, 0) == Option::Some(p.system_seat_number)
    &&& i32_field_or(pv, "teamId"@, 0) == Option::Some(p.team_id)
    &&& i32_field_or(pv, "lifeTotal"@, 0) == Option::Some(p.life_total)
    &&& opt_text_field(pv, "pendingMessageType"@) == Option::Some(
        opt_str_view(p.pending_message_type),
    )
}

/// Whether entry `i` of the decoded status list is exactly element `i` of
/// the status array.
pub open spec fn gsm_player_entry_match(p: Player, arr: serde_json::Value, i: int) -> bool {
    match json_element(arr, i) {
        Option::Some(pv) => gsm_player_match(p, pv),
        Option::None => false,
    }
}

/// How decoded turn metadata relates to its tree.
pub open spec fn turn_info_match(ti: TurnInfo, tv: serde_json::Value) -> bool {
    &&& opt_i32_field(tv, "activePlayer"@) == Option::Some(ti.active_player)
    &&& opt_i32_field(tv, "decisionPlayer"@) == Option::Some(ti.decision_player)
    &&& opt_i32_field(tv, "priorityPlayer"@) == Option::Some(ti.priority_player)
    &&& opt_i32_field(tv, "turnNumber"@) == Option::Some(ti.turn_number)
    &&& opt_text_field(tv, "phase"@) == Option::Some(opt_str_view(ti.phase))
    &&& opt_text_field(tv, "step"@) == Option::Some(opt_str_view(ti.step))
}

/// How a decoded snapshot relates to its tree: the state id and every
/// object, zone and status entry tied in order, and the turn metadata tied
/// when present.
pub open spec fn gsm_match(g: GameStateMessage, gv: serde_json::Value) -> bool {
    &&& i32_field(gv, "gameStateId"@) == Option::Some(g.game_state_id)
    &&& match json_field(gv, "gameObjects"@) {
        Option::Some(arr) => json_length(arr) == Option::Some(g.game_objects@.len() as int)
            && forall|i: int|
                0 <= i < g.game_objects@.len() ==> #[trigger] object_entry_match(
                    g.game_objects@[i],
                    arr,
                    i,
                ),
        Option::None => g.game_objects@.len() == 0,
    }
    &&& match json_field(gv, "zones"@) {
        Option::Some(arr) => json_length(arr) == Option::Some(g.zones@.len() as int) && forall|
            i: int,
        |
            0 <= i < g.zones@.len() ==> #[trigger] zone_entry_match(g.zones@[i], arr, i),
        Option::None => g.zones@.len() == 0,
    }
    &&& match json_field(gv, "players"@) {
        Option::Some(arr) => json_length(arr) == Option::Some(g.players@.len() as int) && forall|
            i: int,
        |
            0 <= i < g.players@.len() ==> #[trigger] gsm_player_entry_match(g.players@[i], arr, i),
        Option::None => g.players@.len() == 0,
    }
    &&& match json_field(gv, "turnInfo"@) {
        Option::Some(tv) => if json_null(tv) {
            g.turn_info is None
        } else {
            match g.turn_info {
                Option::Some(ti) => turn_info_match(ti, tv),
                Option::None => false,
            }
        },
        Option::None => g.turn_info is None,
    }
}

/// Whether entry `i` of the decoded roll list is exactly element `i` of
/// the roll array.
pub open spec fn die_roll_entry_match(d: PlayerDieRoll, arr: serde_json::Value, i: int) -> bool {
    match json_element(arr, i) {
        Option::Some(e) => i32_field_or(e, "rollValue"@, 0) == Option::Some(d.roll_value)
            && i32_field(e, "systemSeatId"@) == Option::Some(d.system_seat_id),
        Option::None => false,
    }
}

/// How a decoded die-roll payload relates to its tree.
pub open spec fn die_rolls_match(dr: DieRollResultsResp, dv: serde_json::Value) -> bool {
    match json_field(dv, "playerDieRolls"@) {
        Option::Some(arr) => json_length(arr) == Option::Some(dr.player_die_rolls@.len() as int)
            && forall|i: int|
                0 <= i < dr.player_die_rolls@.len() ==> #[trigger] die_roll_entry_match(
                    dr.player_die_rolls@[i],
                    arr,
                    i,
                ),
        Option::None => false,
    }
}

/// How one decoded rules-engine message relates to its array element: the
/// kind tag selects the variant and the metadata and interpreted fields
/// are exactly the tree's.
pub open spec fn gre_msg_match(msg: GREToClientMessage, m: serde_json::Value) -> bool {
    match msg {
        GREToClientMessage::ConnectResp(w) => {
            &&& text_field(m, "type"@) == Option::Some("GREMessageType_ConnectResp"@)
            &&& meta_match(w.meta, m)
            &&& match json_field(m, "connectResp"@) {
                Option::Some(cv) => match json_field(cv, "deckMessage"@) {
                    Option::Some(dm) => deck_message_match(w.connect_resp.deck_message, dm),
                    Option::None => false,
                },
                Option::None => false,
            }
        },
        GREToClientMessage::GameStateMessage(w) => {
            &&& text_field(m, "type"@) == Option::Some("GREMessageType_GameStateMessage"@)
            &&& meta_match(w.meta, m)
            &&& match json_field(m, "gameStateMessage"@) {
                Option::Some(gv) => gsm_match(w.game_state_message, gv),
                Option::None => false,
            }
        },
        GREToClientMessage::MulliganReq(w) => {
            &&& text_field(m, "type"@) == Option::Some("GREMessageType_MulliganReq"@)
            &&& meta_match(w.meta, m)
            &&& match json_field(m, "mulliganReq"@) {
                Option::Some(mv) => i32_field_or(mv, "mulliganCount"@, 0) == Option::Some(
                    w.mulligan_req.mulligan_count,
                ),
                Option::None => false,
            }
        },
        GREToClientMessage::IntermissionReq(w) => {
            &&& text_field(m, "type"@) == Option::Some("GREMessageType_IntermissionReq"@)
            &&& meta_match(w.meta, m)
        },
        GREToClientMessage::DieRollResults(w) => {
            &&& text_field(m, "type"@) == Option::Some("GREMessageType_DieRollResultsResp"@)
            &&& meta_match(w.meta, m)
            &&& match json_field(m, "dieRollResultsResp"@) {
                Option::Some(dv) => die_rolls_match(w.die_roll_results_resp, dv),
                Option::None => false,
            }
        },
        GREToClientMessage::Opaque(o) => {
            &&& text_field(m, "type"@) == Option::Some(o.message_type@)
            &&& opaque_gre_kind(o.message_type@)
            &&& meta_match(o.meta, m)
        },
    }
}

/// Whether entry `i` of the decoded message list is exactly element `i` of
/// the message array.
pub open spec fn gre_msg_entry_match(
    msg: GREToClientMessage,
    arr: serde_json::Value,
    i: int,
) -> bool {
    match json_element(arr, i) {
        Option::Some(m) => gre_msg_match(msg, m),
        Option::None => false,
    }
}

/// How a whole decoded rules-engine event relates to its fragment's tree.
pub open spec fn gre_fields_match(
    e: RequestTypeGREToClientEvent,
    v: serde_json::Value,
) -> bool {
    match json_field(v, "greToClientEvent"@) {
        Option::None => false,
        Option::Some(ev) => {
            &&& match json_field(ev, "greToClientMessages"@) {
                Option::Some(arr) => json_length(arr) == Option::Some(
                    e.gre_to_client_event.gre_to_client_messages@.len() as int,
                ) && forall|i: int|
                    0 <= i < e.gre_to_client_event.gre_to_client_messages@.len()
                        ==> #[trigger] gre_msg_entry_match(
                        e.gre_to_client_event.gre_to_client_messages@[i],
                        arr,
                        i,
                    ),
                Option::None => e.gre_to_client_event.gre_to_client_messages@.len() == 0,
            }
            &&& opt_i32_field(v, "requestId"@) == Option::Some(e.request_id)
            &&& text_field(v, "timestamp"@) == Option::Some(e.timestamp@)
            &&& text_field(v, "transactionId"@) == Option::Some(e.transaction_id@)
        },
    }
}

fn decode_meta(v: &serde_json::Value) -> (r: Result<GreMeta, DecodeError>)
    ensures
        (r is Ok) == meta_shape_ok(*v),
        r matches Ok(meta) ==> meta_match(meta, *v),
        r matches Err(e) ==> e == DecodeError::Malformed,
{
    let msg_id = get_i32_or(v, "msgId", 0)?;
    let system_seat_ids = get_i32_array_or_empty(v, "systemSeatIds")?;
    let game_state_id = get_opt_i32(v, "gameStateId")?;
    Ok(GreMeta { msg_id, system_seat_ids, game_state_id })
}

pub(crate) fn decode_deck_message(v: &serde_json::Value) -> (r: Result<DeckMessage, DecodeError>)
    ensures
        (r is Ok) == deck_message_shape_ok(*v),
        r matches Ok(d) ==> deck_message_match(d, *v),
        r matches Err(e) ==> e == DecodeError::Malformed,
{
    let deck_cards = get_i32_array(v, "deckCards")?;
    let sideboard_cards = get_i32_array(v, "sideboardCards")?;
    Ok(DeckMessage { deck_cards, sideboard_cards })
}

fn decode_game_object_type(s: &str) -> (r: Result<GameObjectType, DecodeError>)
    ensures
        (r is Ok) == game_object_type_ok(s@),
        r matches Ok(t) ==> s@ == game_object_type_label(t),
        r matches Err(e) ==> e == DecodeError::Malformed,
{
    if str_eq(s, "GameObjectType_Card") {
        Ok(GameObjectType::Card)
    } else if str_eq(s, "GameObjectType_RevealedCard") {
        Ok(GameObjectType::RevealedCard)
    } else if str_eq(s, "GameObjectType_TriggerHolder") {
        Ok(GameObjectType::TriggerHolder)
    } else if str_eq(s, "GameObjectType_MDFCBack") {
        Ok(GameObjectType::MDFCBack)
    } else if str_eq(s, "GameObjectType_Ability") {
        Ok(GameObjectType::Ability)
    } else if str_eq(s, "GameObjectType_Token") {
        Ok(GameObjectType::Token)
    } else if str_eq(s, "GameObjectType_Adventure") {
        Ok(GameObjectType::Adventure)
    } else {
        Err(DecodeError::Malformed)
    }
}

fn decode_game_object(v: &serde_json::Value) -> (r: Result<GameObject, DecodeError>)
    ensures
        (r is Ok) == game_object_shape_ok(*v),
        r matches Ok(go) ==> game_object_match(go, *v),
        r matches Err(e) ==> e == DecodeError::Malformed,
{
    let instance_id = get_i32(v, "instanceId")?;
    let grp_id = get_i32(v, "grpId")?;
    let owner_seat_id = get_i32(v, "ownerSeatId")?;
    let controller_seat_id = get_i32(v, "controllerSeatId")?;
    let zone_id = get_opt_i32(v, "zoneId")?;
    let type_field = match json_get(v, "type") {
        Some(tv) => {
            let s = match crate::json::json_as_str(tv) {
                Some(s) => s,
                None => {
                    return Err(DecodeError::Malformed);
                },
            };
            decode_game_object_type(s.as_str())?
        },
        None => GameObjectType::Card,
    };
    let is_tapped = match json_get(v, "isTapped") {
        Some(bv) => {
            if json_is_null(bv) {
                None
            } else {
                match crate::json::json_as_bool(bv) {
                    Some(b) => Some(b),
                    None => {
                        return Err(DecodeError::Malformed);
                    },
                }
            }
        },
        None => None,
    };
    Ok(
        GameObject {
            instance_id,
            grp_id,
            owner_seat_id,
            controller_seat_id,
            zone_id,
            type_field,
            is_tapped,
        },
    )
}

fn decode_zone_type(s: &str) -> (r: Result<ZoneType, DecodeError>)
    ensures
        (r is Ok) == zone_type_ok(s@),
        r matches Ok(t) ==> s@ == zone_type_label(t),
        r matches Err(e) ==> e == DecodeError::Malformed,
{
    if str_eq(s, "ZoneType_Battlefield") {
        Ok(ZoneType::Battlefield)
    } else if str_eq(s, "ZoneType_Stack") {
        Ok(ZoneType::Stack)
    } else if str_eq(s, "ZoneType_Exile") {
        Ok(ZoneType::Exile)
    } else if str_eq(s, "ZoneType_Graveyard") {
        Ok(ZoneType::Graveyard)
    } else if str_eq(s, "ZoneType_Hand") {
        Ok(ZoneType::Hand)
    } else if str_eq(s, "ZoneType_Library") {
        Ok(ZoneType::Library)
    } else if str_eq(s, "ZoneType_Limbo") {
        Ok(ZoneType::Limbo)
    } else if str_eq(s, "ZoneType_Sideboard") {
        Ok(ZoneType::Sideboard)
    } else if str_eq(s, "ZoneType_Pending") {
        Ok(ZoneType::Pending)
    } else if str_eq(s, "ZoneType_Suppressed") {
        Ok(ZoneType::Suppressed)
    } else if str_eq(s, "ZoneType_Revealed") {
        Ok(ZoneType::Revealed)
    } else if str_eq(s, "ZoneType_Command") {
        Ok(ZoneType::Command)
    } else {
        Err(DecodeError::Malformed)
    }
}

fn decode_visibility(s: &str) -> (r: Result<Visibility, DecodeError>)
    ensures
        (r is Ok) == visibility_ok(s@),
        r matches Ok(t) ==> s@ == visibility_label(t),
        r matches Err(e) ==> e == DecodeError::Malformed,
{
    if str_eq(s, "Visibility_Public") {
        Ok(Visibility::Public)
    } else if str_eq(s, "Visibility_Private") {
        Ok(Visibility::Private)
    } else if str_eq(s, "Visibility_Hidden") {
        Ok(Visibility::Hidden)
    } else {
        Err(DecodeError::Malformed)
    }
}

fn decode_zone(v: &serde_json::Value) -> (r: Result<Zone, DecodeError>)
    ensures
        (r is Ok) == zone_shape_ok(*v),
        r matches Ok(z) ==> zone_match(z, *v),
        r matches Err(e) ==> e == DecodeError::Malformed,
{
    let zone_id = get_i32(v, "zoneId")?;
    let owner_seat_id = get_opt_i32(v, "ownerSeatId")?;
    let ts = get_string(v, "type")?;
    let type_field = decode_zone_type(ts.as_str())?;
    let vs = get_string(v, "visibility")?;
    let visibility = decode_visibility(vs.as_str())?;
    let object_instance_ids = get_i32_array_or_empty(v, "objectInstanceIds")?;
    Ok(Zone { zone_id, owner_seat_id, type_field, visibility, object_instance_ids })
}

fn decode_gsm_player(v: &serde_json::Value) -> (r: Result<Player, DecodeError>)
    ensures
        (r is Ok) == gsm_player_shape_ok(*v),
        r matches Ok(p) ==> gsm_player_match(p, *v),
        r matches Err(e) ==> e == DecodeError::Malformed,
{
    let controller_seat_id = get_i32(v, "controllerSeatId")?;
    let system_seat_number = get_i32_or(v, "systemSeatNumber", 0)?;
    let team_id = get_i32_or(v, "teamId", 0)?;
    let life_total = get_i32_or(v, "lifeTotal", 0)?;
    let pending_message_type = get_opt_string(v, "pendingMessageType")?;
    Ok(Player { controller_seat_id, system_seat_number, team_id, life_total, pending_message_type })
}

fn decode_turn_info(v: &serde_json::Value) -> (r: Result<TurnInfo, DecodeError>)
    ensures
        (r is Ok) == turn_info_shape_ok(*v),
        r matches Ok(ti) ==> turn_info_match(ti, *v),
        r matches Err(e) ==> e == DecodeError::Malformed,
{
    let active_player = get_opt_i32(v, "activePlayer")?;
    let decision_player = get_opt_i32(v, "decisionPlayer")?;
    let priority_player = get_opt_i32(v, "priorityPlayer")?;
    let turn_number = get_opt_i32(v, "turnNumber")?;
    let phase = get_opt_string(v, "phase")?;
    let step = get_opt_string(v, "step")?;
    Ok(TurnInfo { active_player, decision_player, priority_player, turn_number, phase, step })
}

fn decode_game_state_message(v: &serde_json::Value) -> (r: Result<GameStateMessage, DecodeError>)
    ensures
        (r is Ok) == gsm_shape_ok(*v),
        r matches Ok(g) ==> gsm_match(g, *v),
        r matches Err(e) ==> e == DecodeError::Malformed,
{
    let game_state_id = get_i32(v, "gameStateId")?;
    let mut game_objects: Vec<GameObject> = Vec::new();
    if let Some(arr) = json_get(v, "gameObjects") {
        let n = match json_array_len(arr) {
            Some(n) => n,
            None => {
                return Err(DecodeError::Malformed);
            },
        };
        let mut i: usize = 0;
        while i < n
            invariant
                json_field(*v, "gameObjects"@) == Option::Some(*arr),
                json_length(*arr) == Option::Some(n as int),
                i <= n,
                game_objects@.len() == i,
                forall|j: int| 0 <= j < i ==> #[trigger] object_elem_ok(*arr, j),
                forall|j: int|
                    0 <= j < i ==> #[trigger] object_entry_match(game_objects@[j], *arr, j),
            decreases n - i,
        {
            let ghost g0 = game_objects@;
            let item = match json_index(arr, i) {
                Some(x) => x,
                None => {
                    proof {
                        assert(!object_elem_ok(*arr, i as int));
                    }
                    return Err(DecodeError::Malformed);
                },
            };
            match decode_game_object(item) {
                Ok(go) => game_objects.push(go),
                Err(e) => {
                    proof {
                        assert(!object_elem_ok(*arr, i as int));
                    }
                    return Err(e);
                },
            }
            proof {
                assert(forall|j: int| 0 <= j < i ==> game_objects@[j] == g0[j]);
            }
            i = i + 1;
        }
    }
    let mut zones: Vec<Zone> = Vec::new();
    if let Some(arr) = json_get(v, "zones") {
        let n = match json_array_len(arr) {
            Some(n) => n,
            None => {
                return Err(DecodeError::Malformed);
            },
        };
        let mut i: usize = 0;
        while i < n
            invariant
                json_field(*v, "zones"@) == Option::Some(*arr),
                json_length(*arr) == Option::Some(n as int),
                i <= n,
                zones@.len() == i,
                forall|j: int| 0 <= j < i ==> #[trigger] zone_elem_ok(*arr, j),
                forall|j: int| 0 <= j < i ==> #[trigger] zone_entry_match(zones@[j], *arr, j),
            decreases n - i,
        {
            let ghost z0 = zones@;
            let item = match json_index(arr, i) {
                Some(x) => x,
                None => {
                    proof {
                        assert(!zone_elem_ok(*arr, i as int));
                    }
                    return Err(DecodeError::Malformed);
                },
            };
            match decode_zone(item) {
                Ok(z) => zones.push(z),
                Err(e) => {
                    proof {
                        assert(!zone_elem_ok(*arr, i as int));
                    }
                    return Err(e);
                },
            }
            proof {
                assert(forall|j: int| 0 <= j < i ==> zones@[j] == z0[j]);
            }
            i = i + 1;
        }
    }
    let mut players: Vec<Player> = Vec::new();
    if let Some(arr) = json_get(v, "players") {
        let n = match json_array_len(arr) {
            Some(n) => n,
            None => {
                return Err(DecodeError::Malformed);
            },
        };
        let mut i: usize = 0;
        while i < n
            invariant
                json_field(*v, "players"@) == Option::Some(*arr),
                json_length(*arr) == Option::Some(n as int),
                i <= n,
                players@.len() == i,
                forall|j: int| 0 <= j < i ==> #[trigger] gsm_player_elem_ok(*arr, j),
                forall|j: int|
                    0 <= j < i ==> #[trigger] gsm_player_entry_match(players@[j], *arr, j),
            decreases n - i,
        {
            let ghost p0 = players@;
            let item = match json_index(arr, i) {
                Some(x) => x,
                None => {
                    proof {
                        assert(!gsm_player_elem_ok(*arr, i as int));
                    }
                    return Err(DecodeError::Malformed);
                },
            };
            match decode_gsm_player(item) {
                Ok(p) => players.push(p),
                Err(e) => {
                    proof {
                        assert(!gsm_player_elem_ok(*arr, i as int));
                    }
                    return Err(e);
                },
            }
            proof {
                assert(forall|j: int| 0 <= j < i ==> players@[j] == p0[j]);
            }
            i = i + 1;
        }
    }
    let turn_info = match json_get(v, "turnInfo") {
        Some(tv) => {
            if json_is_null(tv) {
                None
            } else {
                Some(decode_turn_info(tv)?)
            }
        },
        None => None,
    };
    Ok(GameStateMessage { game_state_id, game_objects, zones, players, turn_info })
}

fn decode_die_rolls(v: &serde_json::Value) -> (r: Result<DieRollResultsResp, DecodeError>)
    ensures
        (r is Ok) == die_rolls_shape_ok(*v),
        r matches Ok(dr) ==> die_rolls_match(dr, *v),
        r matches Err(e) ==> e == DecodeError::Malformed,
{
    let arr = get_field(v, "playerDieRolls")?;
    let n = match json_array_len(arr) {
        Some(n) => n,
        None => {
            return Err(DecodeError::Malformed);
        },
    };
    let mut player_die_rolls: Vec<PlayerDieRoll> = Vec::new();
    let mut i: usize = 0;
    while i < n
        invariant
            json_field(*v, "playerDieRolls"@) == Option::Some(*arr),
            json_length(*arr) == Option::Some(n as int),
            i <= n,
            player_die_rolls@.len() == i,
            forall|j: int| 0 <= j < i ==> #[trigger] die_roll_elem_ok(*arr, j),
            forall|j: int|
                0 <= j < i ==> #[trigger] die_roll_entry_match(player_die_rolls@[j], *arr, j),
        decreases n - i,
    {
        let ghost d0 = player_die_rolls@;
        let item = match json_index(arr, i) {
            Some(x) => x,
            None => {
                proof {
                    assert(!die_roll_elem_ok(*arr, i as int));
                }
                return Err(DecodeError::Malformed);
            },
        };
        let roll_value = match get_i32_or(item, "rollValue", 0) {
            Ok(x) => x,
            Err(e) => {
                proof {
                    assert(!die_roll_elem_ok(*arr, i as int));
                }
                return Err(e);
            },
        };
        let system_seat_id = match get_i32(item, "systemSeatId") {
            Ok(x) => x,
            Err(e) => {
                proof {
                    assert(!die_roll_elem_ok(*arr, i as int));
                }
                return Err(e);
            },
        };
        player_die_rolls.push(PlayerDieRoll { roll_value, system_seat_id });
        proof {
            assert(forall|j: int| 0 <= j < i ==> player_die_rolls@[j] == d0[j]);
        }
        i = i + 1;
    }
    Ok(DieRollResultsResp { player_die_rolls })
}

/// Whether `s` is a recognized but uninterpreted rules-engine message kind.
fn is_opaque_gre_type(s: &str) -> (r: bool)
    ensures
        r == opaque_gre_kind(s@),
{
    str_eq(s, "GREMessageType_ChooseStartingPlayerReq") || str_eq(s, "GREMessageType_SelectNReq")
        || str_eq(s, "GREMessageType_ActionsAvailableReq") || str_eq(
        s,
        "GREMessageType_SetSettingsResp",
    ) || str_eq(s, "GREMessageType_SelectTargetsReq") || str_eq(
        s,
        "GREMessageType_SubmitTargetsResp",
    ) || str_eq(s, "GREMessageType_CastingTimeOptionsReq") || str_eq(
        s,
        "GREMessageType_PayCostsReq",
    ) || str_eq(s, "GREMessageType_SelectNResp") || str_eq(s, "GREMessageType_DeclareAttackersReq")
        || str_eq(s, "GREMessageType_SubmitAttackersResp") || str_eq(
        s,
        "GREMessageType_DeclareBlockersReq",
    ) || str_eq(s, "GREMessageType_SubmitBlockersResp") || str_eq(s, "GREMessageType_PromptReq")
        || str_eq(s, "GREMessageType_QueuedGameStateMessage") || str_eq(
        s,
        "GREMessageType_TimerStateMessage",
    ) || str_eq(s, "GREMessageType_UIMessage") || str_eq(s, "GREMessageType_SubmitDeckConfirmation")
        || str_eq(s, "GREMessageType_OrderReq") || str_eq(s, "GREMessageType_SubmitDeckReq")
        || str_eq(s, "GREMessageType_SearchReq") || str_eq(s, "GREMessageType_OptionalActionMessage")
        || str_eq(s, "GREMessageType_GroupReq") || str_eq(s, "GREMessageType_GroupResp") || str_eq(
        s,
        "GREMessageType_TimeoutMessage",
    ) || str_eq(s, "GREMessageType_EdictalMessage")
}

fn decode_gre_message(v: &serde_json::Value) -> (r: Result<GREToClientMessage, DecodeError>)
    ensures
        (r is Ok) == gre_msg_shape_ok(*v),
        r matches Ok(msg) ==> gre_msg_match(msg, *v),
        r matches Err(e) ==> e == DecodeError::Malformed,
{
    let t = get_string(v, "type")?;
    let meta = decode_meta(v)?;
    if str_eq(t.as_str(), "GREMessageType_ConnectResp") {
        let cv = get_field(v, "connectResp")?;
        let dm = get_field(cv, "deckMessage")?;
        let deck_message = decode_deck_message(dm)?;
        Ok(
            GREToClientMessage::ConnectResp(
                ConnectRespWrapper { connect_resp: ConnectResp { deck_message }, meta },
            ),
        )
    } else if str_eq(t.as_str(), "GREMessageType_GameStateMessage") {
        let gv = get_field(v, "gameStateMessage")?;
        let game_state_message = decode_game_state_message(gv)?;
        Ok(
            GREToClientMessage::GameStateMessage(
                GameStateMessageWrapper { game_state_message, meta },
            ),
        )
    } else if str_eq(t.as_str(), "GREMessageType_MulliganReq") {
        let mv = get_field(v, "mulliganReq")?;
        let mulligan_count = get_i32_or(mv, "mulliganCount", 0)?;
        if mulligan_count < 0 {
            return Err(DecodeError::Malformed);
        }
        Ok(
            GREToClientMessage::MulliganReq(
                MulliganReqWrapper { mulligan_req: MulliganReq { mulligan_count }, meta },
            ),
        )
    } else if str_eq(t.as_str(), "GREMessageType_IntermissionReq") {
        Ok(GREToClientMessage::IntermissionReq(IntermissionReqWrapper { meta }))
    } else if str_eq(t.as_str(), "GREMessageType_DieRollResultsResp") {
        let dv = get_field(v, "dieRollResultsResp")?;
        let die_roll_results_resp = decode_die_rolls(dv)?;
        Ok(
            GREToClientMessage::DieRollResults(
                DieRollResultsRespWrapper { die_roll_results_resp, meta },
            ),
        )
    } else if is_opaque_gre_type(t.as_str()) {
        Ok(GREToClientMessage::Opaque(OpaqueGreWrapper { message_type: t, meta }))
    } else {
        Err(DecodeError::Malformed)
    }
}

/// Decodes a fragment already known to carry the rules-engine marker:
/// succeeds exactly when the fragment has the family's usable shape, the
/// decoded fields are exactly the tree's, and the returned event keeps the
/// fragment text unchanged.
pub fn decode_gre(raw: &str, v: &serde_json::Value) -> (r: Result<
    RequestTypeGREToClientEvent,
    DecodeError,
>)
    ensures
        (r is Ok) == gre_shape_ok(*v),
        r matches Ok(m) ==> m.raw@ == raw@ && gre_fields_match(m, *v),
        r matches Err(e) ==> e == DecodeError::Malformed,
{
    let ev = get_field(v, "greToClientEvent")?;
    let mut gre_to_client_messages: Vec<GREToClientMessage> = Vec::new();
    if let Some(arr) = json_get(ev, "greToClientMessages") {
        let n = match json_array_len(arr) {
            Some(n) => n,
            None => {
                return Err(DecodeError::Malformed);
            },
        };
        let mut i: usize = 0;
        while i < n
            invariant
                json_field(*v, "greToClientEvent"@) == Option::Some(*ev),
                json_field(*ev, "greToClientMessages"@) == Option::Some(*arr),
                json_length(*arr) == Option::Some(n as int),
                i <= n,
                gre_to_client_messages@.len() == i,
                forall|j: int| 0 <= j < i ==> #[trigger] gre_msg_elem_ok(*arr, j),
                forall|j: int|
                    0 <= j < i ==> #[trigger] gre_msg_entry_match(
                        gre_to_client_messages@[j],
                        *arr,
                        j,
                    ),
            decreases n - i,
        {
            let ghost m0 = gre_to_client_messages@;
            let item = match json_index(arr, i) {
                Some(x) => x,
                None => {
                    proof {
                        assert(!gre_msg_elem_ok(*arr, i as int));
                    }
                    return Err(DecodeError::Malformed);
                },
            };
            match decode_gre_message(item) {
                Ok(m) => gre_to_client_messages.push(m),
                Err(e) => {
                    proof {
                        assert(!gre_msg_elem_ok(*arr, i as int));
                    }
                    return Err(e);
                },
            }
            proof {
                assert(forall|j: int| 0 <= j < i ==> gre_to_client_messages@[j] == m0[j]);
            }
            i = i + 1;
        }
    }
    let request_id = get_opt_i32(v, "requestId")?;
    let timestamp = get_string(v, "timestamp")?;
    let transaction_id = get_string(v, "transactionId")?;
    Ok(
        RequestTypeGREToClientEvent {
            gre_to_client_event: GREToClientEvent { gre_to_client_messages },
            request_id,
            timestamp,
            transaction_id,
            raw: raw.to_owned(),
        },
    )
}

} // verus!
