//! The client-to-service message family: player responses to rules-engine
//! prompts. Only the mulligan response, the deck re-submission and the
//! starting-player response are interpreted; every other recognized kind is
//! kept as an opaque payload with its kind tag.

use vstd::prelude::*;

use crate::errors::DecodeError;
use crate::gre::{deck_message_match, deck_message_shape_ok, DeckMessage};
use crate::json::{
    get_field, get_i32, get_i32_or, get_opt_i32, get_string, i32_field, i32_field_or,
    json_array_len, json_element, json_field, json_get, json_index, json_length, opt_i32_field,
    text_field,
};
use crate::text::str_eq;

verus! {

/// The decision part of a mulligan response.
#[derive(Debug, Clone, PartialEq)]
pub struct MulliganDecision {
    pub decision: String,
}

/// A player's answer to a mulligan offer, keyed back to the game state it
/// answers by `game_state_id`.
#[derive(Debug, Clone, PartialEq)]
pub struct MulliganResp {
    pub game_state_id: i32,
    pub mulligan_response: MulliganDecision,
    pub response_id: i32,
}

/// A deck re-submission during sideboarding.
#[derive(Debug, Clone, PartialEq)]
pub struct SubmitDeckResp {
    pub deck: DeckMessage,
}

/// The answer to the starting-player choice.
#[derive(Debug, Clone, PartialEq)]
pub struct ChooseStartingPlayerResp {
    pub system_seat_id: i32,
    pub team_id: i32,
    pub team_type: String,
}

#[derive(Debug, Clone, PartialEq)]
pub struct Action {
    pub action_type: String,
    pub facet_id: Option<i32>,
    pub grp_id: Option<i32>,
    pub instance_id: Option<i32>,
}

#[derive(Debug, Clone, PartialEq)]
pub struct PerformActionResponse {
    pub actions: Vec<Action>,
}

/// A performed in-game action.
#[derive(Debug, Clone, PartialEq)]
pub struct PerformActionResp {
    pub game_state_id: i32,
    pub perform_action_response: PerformActionResponse,
    pub response_id: i32,
}

/// A recognized kind whose content the system does not interpret.
#[derive(Debug, Clone, PartialEq)]
pub struct OpaqueClientPayload {
    pub message_type: String,
}

/// One client message payload.
#[derive(Debug, Clone, PartialEq)]
pub enum ClientMessage {
    MulliganResp(MulliganResp),
    SubmitDeckResp(SubmitDeckResp),
    ChooseStartingPlayerResp(ChooseStartingPlayerResp),
    PerformActionResp(PerformActionResp),
    Opaque(OpaqueClientPayload),
}

/// A decoded client event, together with the fragment text it was decoded
/// from, so a replay can be written back out verbatim.
#[derive(Debug, Clone, PartialEq)]
pub struct RequestTypeClientToMatchServiceMessage {
    pub client_to_match_service_message_type: String,
    pub request_id: i32,
    pub payload: ClientMessage,
    pub timestamp: String,
    pub transaction_id: String,
    pub raw: String,
}

/// A recognized but uninterpreted client message kind.
pub open spec fn opaque_client_kind(t: Seq<char>) -> bool {
    ||| t == "ClientMessageType_SetSettingsReq"@
    ||| t == "ClientMessageType_UIMessage"@
    ||| t == "ClientMessageType_SelectNResp"@
    ||| t == "ClientMessageType_SubmitTargetsReq"@
    ||| t == "ClientMessageType_SubmitTargetsResp"@
    ||| t == "ClientMessageType_SelectTargetsResp"@
    ||| t == "ClientMessageType_SubmitAttackersReq"@
    ||| t == "ClientMessageType_DeclareAttackersReq"@
    ||| t == "ClientMessageType_DeclareAttackersResp"@
    ||| t == "ClientMessageType_SubmitBlockersReq"@
    ||| t == "ClientMessageType_SubmitBlockersResp"@
    ||| t == "ClientMessageType_DeclareBlockersResp"@
    ||| t == "ClientMessageType_ConcedeReq"@
    ||| t == "ClientMessageType_EffectCostResp"@
    ||| t == "ClientMessageType_CastingTimeOptionsResp"@
    ||| t == "ClientMessageType_CancelActionReq"@
    ||| t == "ClientMessageType_OrderResp"@
    ||| t == "ClientMessageType_SearchResp"@
    ||| t == "ClientMessageType_OptionalActionResp"@
    ||| t == "ClientMessageType_PerformAutoTapActionsResp"@
    ||| t == "ClientMessageType_EnterSideboardingReq"@
    ||| t == "ClientMessageType_GroupResp"@
}

/// A usable mulligan response: the answered game state, one of the two
/// known decisions, and a defaultable response id.
pub open spec fn mulligan_resp_shape_ok(v: serde_json::Value) -> bool {
    &&& i32_field(v, "gameStateId"@) is Some
    &&& match json_field(v, "mulliganResp"@) {
        Option::Some(mv) => match text_field(mv, "decision"@) {
            Option::Some(d) => d == "MulliganOption_AcceptHand"@ || d
                == "MulliganOption_Mulligan"@,
            Option::None => false,
        },
        Option::None => false,
    }
    &&& i32_field_or(v, "respId"@, 0) is Some
}

/// A usable deck re-submission.
pub open spec fn submit_deck_shape_ok(v: serde_json::Value) -> bool {
    match json_field(v, "submitDeckResp"@) {
        Option::Some(sv) => match json_field(sv, "deck"@) {
            Option::Some(dv) => deck_message_shape_ok(dv),
            Option::None => false,
        },
        Option::None => false,
    }
}

/// A usable starting-player answer.
pub open spec fn starting_player_shape_ok(v: serde_json::Value) -> bool {
    &&& i32_field_or(v, "systemSeatId"@, 0) is Some
    &&& i32_field(v, "teamId"@) is Some
    &&& text_field(v, "teamType"@) is Some
}

/// A usable performed action.
pub open spec fn action_shape_ok(a: serde_json::Value) -> bool {
    &&& text_field(a, "actionType"@) is Some
    &&& opt_i32_field(a, "facetId"@) is Some
    &&& opt_i32_field(a, "grpId"@) is Some
    &&& opt_i32_field(a, "instanceId"@) is Some
}

/// Whether position `i` of an action array holds a usable action.
pub open spec fn action_elem_ok(v: serde_json::Value, i: int) -> bool {
    match json_element(v, i) {
        Option::Some(a) => action_shape_ok(a),
        Option::None => false,
    }
}

/// A usable performed-action response.
pub open spec fn perform_action_shape_ok(v: serde_json::Value) -> bool {
    &&& i32_field(v, "gameStateId"@) is Some
    &&& match json_field(v, "performActionResp"@) {
        Option::Some(pv) => match json_field(pv, "actions"@) {
            Option::Some(arr) => match json_length(arr) {
                Option::Some(n) => forall|i: int| 0 <= i < n ==> #[trigger] action_elem_ok(arr, i),
                Option::None => false,
            },
            Option::None => true,
        },
        Option::None => false,
    }
    &&& i32_field_or(v, "respId"@, 0) is Some
}

/// A usable client payload: a known kind whose interpreted fields, if any,
/// are usable.
pub open spec fn client_payload_shape_ok(pv: serde_json::Value) -> bool {
    match text_field(pv, "type"@) {
        Option::None => false,
        Option::Some(t) => if t == "ClientMessageType_MulliganResp"@ {
            mulligan_resp_shape_ok(pv)
        } else if t == "ClientMessageType_SubmitDeckResp"@ {
            submit_deck_shape_ok(pv)
        } else if t == "ClientMessageType_ChooseStartingPlayerResp"@ {
            starting_player_shape_ok(pv)
        } else if t == "ClientMessageType_PerformActionResp"@ {
            perform_action_shape_ok(pv)
        } else {
            opaque_client_kind(t)
        },
    }
}

/// A client fragment that decodes: the envelope fields and a usable
/// payload.
pub open spec fn client_shape_ok(v: serde_json::Value) -> bool {
    &&& text_field(v, "clientToMatchServiceMessageType"@) is Some
    &&& i32_field(v, "requestId"@) is Some
    &&& match json_field(v, "payload"@) {
        Option::Some(pv) => client_payload_shape_ok(pv),
        Option::None => false,
    }
    &&& text_field(v, "timestamp"@) is Some
    &&& text_field(v, "transactionId"@) is Some
}

/// How a decoded mulligan response relates to its tree.
pub open spec fn mulligan_resp_match(m: MulliganResp, v: serde_json::Value) -> bool {
    &&& i32_field(v, "gameStateId"@) == Option::Some(m.game_state_id)
    &&& match json_field(v, "mulliganResp"@) {
        Option::Some(mv) => text_field(mv, "decision"@) == Option::Some(
            m.mulligan_response.decision@,
        ),
        Option::None => false,
    }
    &&& i32_field_or(v, "respId"@, 0) == Option::Some(m.response_id)
}

/// How a decoded deck re-submission relates to its tree.
pub open spec fn submit_deck_match(s: SubmitDeckResp, v: serde_json::Value) -> bool {
    match json_field(v, "submitDeckResp"@) {
        Option::Some(sv) => match json_field(sv, "deck"@) {
            Option::Some(dv) => deck_message_match(s.deck, dv),
            Option::None => false,
        },
        Option::None => false,
    }
}

/// How a decoded starting-player answer relates to its tree.
pub open spec fn starting_player_match(c: ChooseStartingPlayerResp, v: serde_json::Value) -> bool {
    &&& i32_field_or(v, "systemSeatId"@, 0) == Option::Some(c.system_seat_id)
    &&& i32_field(v, "teamId"@) == Option::Some(c.team_id)
    &&& text_field(v, "teamType"@) == Option::Some(c.team_type@)
}

/// How a decoded action relates to its array element.
pub open spec fn action_fields_match(a: Action, e: serde_json::Value) -> bool {
    &&& text_field(e, "actionType"@) == Option::Some(a.action_type@)
    &&& opt_i32_field(e, "facetId"@) == Option::Some(a.facet_id)
    &&& opt_i32_field(e, "grpId"@) == Option::Some(a.grp_id)
    &&& opt_i32_field(e, "instanceId"@) == Option::Some(a.instance_id)
}

/// Whether entry `i` of the decoded action list is exactly element `i` of
/// the action array.
pub open spec fn action_entry_match(a: Action, arr: serde_json::Value, i: int) -> bool {
    match json_element(arr, i) {
        Option::Some(e) => action_fields_match(a, e),
        Option::None => false,
    }
}

/// How a decoded performed-action response relates to its tree.
pub open spec fn perform_action_match(p: PerformActionResp, v: serde_json::Value) -> bool {
    &&& i32_field(v, "gameStateId"@) == Option::Some(p.game_state_id)
    &&& match json_field(v, "performActionResp"@) {
        Option::Some(pv) => match json_field(pv, "actions"@) {
            Option::Some(arr) => json_length(arr) == Option::Some(
                p.perform_action_response.actions@.len() as int,
            ) && forall|i: int|
                0 <= i < p.perform_action_response.actions@.len()
                    ==> #[trigger] action_entry_match(p.perform_action_response.actions@[i], arr, i),
            Option::None => p.perform_action_response.actions@.len() == 0,
        },
        Option::None => false,
    }
    &&& i32_field_or(v, "respId"@, 0) == Option::Some(p.response_id)
}

/// How a decoded payload relates to its tree: the kind tag selects the
/// variant and the interpreted fields are exactly the tree's.
pub open spec fn payload_match(cm: ClientMessage, pv: serde_json::Value) -> bool {
    match cm {
        ClientMessage::MulliganResp(m) => text_field(pv, "type"@) == Option::Some(
            "ClientMessageType_MulliganResp"@,
        ) && mulligan_resp_match(m, pv),
        ClientMessage::SubmitDeckResp(sd) => text_field(pv, "type"@) == Option::Some(
            "ClientMessageType_SubmitDeckResp"@,
        ) && submit_deck_match(sd, pv),
        ClientMessage::ChooseStartingPlayerResp(c) => text_field(pv, "type"@) == Option::Some(
            "ClientMessageType_ChooseStartingPlayerResp"@,
        ) && starting_player_match(c, pv),
        ClientMessage::PerformActionResp(p) => text_field(pv, "type"@) == Option::Some(
            "ClientMessageType_PerformActionResp"@,
        ) && perform_action_match(p, pv),
        ClientMessage::Opaque(o) => text_field(pv, "type"@) == Option::Some(o.message_type@)
            && opaque_client_kind(o.message_type@),
    }
}

/// How a whole decoded client message relates to its fragment's tree.
pub open spec fn client_fields_match(
    m: RequestTypeClientToMatchServiceMessage,
    v: serde_json::Value,
) -> bool {
    &&& text_field(v, "clientToMatchServiceMessageType"@) == Option::Some(
        m.client_to_match_service_message_type@,
    )
    &&& i32_field(v, "requestId"@) == Option::Some(m.request_id)
    &&& match json_field(v, "payload"@) {
        Option::Some(pv) => payload_match(m.payload, pv),
        Option::None => false,
    }
    &&& text_field(v, "timestamp"@) == Option::Some(m.timestamp@)
    &&& text_field(v, "transactionId"@) == Option::Some(m.transaction_id@)
}

fn decode_mulligan_resp(v: &serde_json::Value) -> (r: Result<MulliganResp, DecodeError>)
    ensures
        (r is Ok) == mulligan_resp_shape_ok(*v),
        r matches Ok(m) ==> mulligan_resp_match(m, *v),
        r matches Err(e) ==> e == DecodeError::Malformed,
{
    let game_state_id = get_i32(v, "gameStateId")?;
    let mv = get_field(v, "mulliganResp")?;
    let decision = get_string(mv, "decision")?;
    if !(str_eq(decision.as_str(), "MulliganOption_AcceptHand") || str_eq(
        decision.as_str(),
        "MulliganOption_Mulligan",
    )) {
        return Err(DecodeError::Malformed);
    }
    let response_id = get_i32_or(v, "respId", 0)?;
    Ok(MulliganResp { game_state_id, mulligan_response: MulliganDecision { decision }, response_id })
}

fn decode_submit_deck_resp(v: &serde_json::Value) -> (r: Result<SubmitDeckResp, DecodeError>)
    ensures
        (r is Ok) == submit_deck_shape_ok(*v),
        r matches Ok(sd) ==> submit_deck_match(sd, *v),
        r matches Err(e) ==> e == DecodeError::Malformed,
{
    let sv = get_field(v, "submitDeckResp")?;
    let dv = get_field(sv, "deck")?;
    let deck = crate::gre::decode_deck_message(dv)?;
    Ok(SubmitDeckResp { deck })
}

fn decode_choose_starting_player_resp(v: &serde_json::Value) -> (r: Result<
    ChooseStartingPlayerResp,
    DecodeError,
>)
    ensures
        (r is Ok) == starting_player_shape_ok(*v),
        r matches Ok(c) ==> starting_player_match(c, *v),
        r matches Err(e) ==> e == DecodeError::Malformed,
{
    let system_seat_id = get_i32_or(v, "systemSeatId", 0)?;
    let team_id = get_i32(v, "teamId")?;
    let team_type = get_string(v, "teamType")?;
    Ok(ChooseStartingPlayerResp { system_seat_id, team_id, team_type })
}

fn decode_action(v: &serde_json::Value) -> (r: Result<Action, DecodeError>)
    ensures
        (r is Ok) == action_shape_ok(*v),
        r matches Ok(a) ==> action_fields_match(a, *v),
        r matches Err(e) ==> e == DecodeError::Malformed,
{
    let action_type = get_string(v, "actionType")?;
    let facet_id = get_opt_i32(v, "facetId")?;
    let grp_id = get_opt_i32(v, "grpId")?;
    let instance_id = get_opt_i32(v, "instanceId")?;
    Ok(Action { action_type, facet_id, grp_id, instance_id })
}

fn decode_perform_action_resp(v: &serde_json::Value) -> (r: Result<PerformActionResp, DecodeError>)
    ensures
        (r is Ok) == perform_action_shape_ok(*v),
        r matches Ok(p) ==> perform_action_match(p, *v),
        r matches Err(e) ==> e == DecodeError::Malformed,
{
    let game_state_id = get_i32(v, "gameStateId")?;
    let pv = get_field(v, "performActionResp")?;
    let mut actions: Vec<Action> = Vec::new();
    if let Some(arr) = json_get(pv, "actions") {
        let n = match json_array_len(arr) {
            Some(n) => n,
            None => {
                return Err(DecodeError::Malformed);
            },
        };
        let mut i: usize = 0;
        while i < n
            invariant
                json_field(*v, "performActionResp"@) == Option::Some(*pv),
                json_field(*pv, "actions"@) == Option::Some(*arr),
                json_length(*arr) == Option::Some(n as int),
                i <= n,
                actions@.len() == i,
                forall|j: int| 0 <= j < i ==> #[trigger] action_elem_ok(*arr, j),
                forall|j: int| 0 <= j < i ==> #[trigger] action_entry_match(actions@[j], *arr, j),
            decreases n - i,
        {
            let ghost a0 = actions@;
            let item = match json_index(arr, i) {
                Some(x) => x,
                None => {
                    proof {
                        assert(!action_elem_ok(*arr, i as int));
                    }
                    return Err(DecodeError::Malformed);
                },
            };
            match decode_action(item) {
                Ok(a) => actions.push(a),
                Err(e) => {
                    proof {
                        assert(!action_elem_ok(*arr, i as int));
                    }
                    return Err(e);
                },
            }
            proof {
                assert(forall|j: int| 0 <= j < i ==> actions@[j] == a0[j]);
            }
            i = i + 1;
        }
    }
    let response_id = get_i32_or(v, "respId", 0)?;
    Ok(
        PerformActionResp {
            game_state_id,
            perform_action_response: PerformActionResponse { actions },
            response_id,
        },
    )
}

/// Whether `s` is a recognized but uninterpreted client message kind.
fn is_opaque_client_type(s: &str) -> (r: bool)
    ensures
        r == opaque_client_kind(s@),
{
    str_eq(s, "ClientMessageType_SetSettingsReq") || str_eq(s, "ClientMessageType_UIMessage")
        || str_eq(s, "ClientMessageType_SelectNResp") || str_eq(
        s,
        "ClientMessageType_SubmitTargetsReq",
    ) || str_eq(s, "ClientMessageType_SubmitTargetsResp") || str_eq(
        s,
        "ClientMessageType_SelectTargetsResp",
    ) || str_eq(s, "ClientMessageType_SubmitAttackersReq") || str_eq(
        s,
        "ClientMessageType_DeclareAttackersReq",
    ) || str_eq(s, "ClientMessageType_DeclareAttackersResp") || str_eq(
        s,
        "ClientMessageType_SubmitBlockersReq",
    ) || str_eq(s, "ClientMessageType_SubmitBlockersResp") || str_eq(
        s,
        "ClientMessageType_DeclareBlockersResp",
    ) || str_eq(s, "ClientMessageType_ConcedeReq") || str_eq(s, "ClientMessageType_EffectCostResp")
        || str_eq(s, "ClientMessageType_CastingTimeOptionsResp") || str_eq(
        s,
        "ClientMessageType_CancelActionReq",
    ) || str_eq(s, "ClientMessageType_OrderResp") || str_eq(s, "ClientMessageType_SearchResp")
        || str_eq(s, "ClientMessageType_OptionalActionResp") || str_eq(
        s,
        "ClientMessageType_PerformAutoTapActionsResp",
    ) || str_eq(s, "ClientMessageType_EnterSideboardingReq") || str_eq(
        s,
        "ClientMessageType_GroupResp",
    )
}

fn decode_payload(v: &serde_json::Value) -> (r: Result<ClientMessage, DecodeError>)
    ensures
        (r is Ok) == client_payload_shape_ok(*v),
        r matches Ok(cm) ==> payload_match(cm, *v),
        r matches Err(e) ==> e == DecodeError::Malformed,
{
    let t = get_string(v, "type")?;
    if str_eq(t.as_str(), "ClientMessageType_MulliganResp") {
        let m = decode_mulligan_resp(v)?;
        Ok(ClientMessage::MulliganResp(m))
    } else if str_eq(t.as_str(), "ClientMessageType_SubmitDeckResp") {
        let m = decode_submit_deck_resp(v)?;
        Ok(ClientMessage::SubmitDeckResp(m))
    } else if str_eq(t.as_str(), "ClientMessageType_ChooseStartingPlayerResp") {
        let m = decode_choose_starting_player_resp(v)?;
        Ok(ClientMessage::ChooseStartingPlayerResp(m))
    } else if str_eq(t.as_str(), "ClientMessageType_PerformActionResp") {
        let m = decode_perform_action_resp(v)?;
        Ok(ClientMessage::PerformActionResp(m))
    } else if is_opaque_client_type(t.as_str()) {
        Ok(ClientMessage::Opaque(OpaqueClientPayload { message_type: t }))
    } else {
        Err(DecodeError::Malformed)
    }
}

/// Decodes a fragment already known to carry the client-message marker:
/// succeeds exactly when the fragment has the family's usable shape, the
/// decoded fields are exactly the tree's, and the returned message keeps
/// the fragment text unchanged.
pub fn decode_client(raw: &str, v: &serde_json::Value) -> (r: Result<
    RequestTypeClientToMatchServiceMessage,
    DecodeError,
>)
    ensures
        (r is Ok) == client_shape_ok(*v),
        r matches Ok(m) ==> m.raw@ == raw@ && client_fields_match(m, *v),
        r matches Err(e) ==> e == DecodeError::Malformed,
{
    let client_to_match_service_message_type = get_string(v, "clientToMatchServiceMessageType")?;
    let request_id = get_i32(v, "requestId")?;
    let pv = get_field(v, "payload")?;
    let payload = decode_payload(pv)?;
    let timestamp = get_string(v, "timestamp")?;
    let transaction_id = get_string(v, "transactionId")?;
    Ok(
        RequestTypeClientToMatchServiceMessage {
            client_to_match_service_message_type,
            request_id,
            payload,
            timestamp,
            transaction_id,
            raw: raw.to_owned(),
        },
    )
}

} // verus!
