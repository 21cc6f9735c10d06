use ap_core::client::ClientMessage;
use ap_core::errors::DecodeError;
use ap_core::gre::GREToClientMessage;
use ap_core::mgrsc::StateType;
use ap_core::processor::{parse, ParseOutput};

const MGRSC_PLAYING: &str = "{\"matchGameRoomStateChangedEvent\":{\"gameRoomInfo\":{\"gameRoomConfig\":{\"matchId\":\"M1\"},\"players\":[{\"playerName\":\"alice\",\"systemSeatId\":1,\"teamId\":1,\"userId\":\"u1\"},{\"playerName\":\"bob\",\"systemSeatId\":2,\"teamId\":2,\"userId\":\"u2\"}],\"stateType\":\"MatchGameRoomStateType_Playing\"}},\"timestamp\":\"1\",\"transactionId\":\"t1\"}";

const GRE_CONNECT: &str = "{\"greToClientEvent\":{\"greToClientMessages\":[{\"type\":\"GREMessageType_ConnectResp\",\"systemSeatIds\":[1],\"connectResp\":{\"deckMessage\":{\"deckCards\":[101,102],\"sideboardCards\":[103]}}}]},\"timestamp\":\"2\",\"transactionId\":\"t2\"}";

const CLIENT_MULLIGAN: &str = "{\"clientToMatchServiceMessageType\":\"ClientToMatchServiceMessage\",\"requestId\":6,\"payload\":{\"type\":\"ClientMessageType_MulliganResp\",\"gameStateId\":10,\"mulliganResp\":{\"decision\":\"MulliganOption_AcceptHand\"},\"respId\":1},\"timestamp\":\"3\",\"transactionId\":\"t3\"}";

const BUSINESS: &str =
    "{\"request\":{\"EventId\":\"Ladder_Ranked\",\"EventTime\":\"1713848448\"}}";

#[test]
fn classifies_room_state_and_keeps_fragment() {
    let out = parse(MGRSC_PLAYING).expect("decodes");
    match out {
        ParseOutput::MGRSCMessage(m) => {
            assert_eq!(m.raw, MGRSC_PLAYING);
            assert_eq!(m.mgrsc_event.game_room_info.game_room_config.match_id, "M1");
            assert_eq!(m.mgrsc_event.game_room_info.state_type, StateType::Playing);
            let players = m.mgrsc_event.game_room_info.players.expect("players");
            assert_eq!(players.len(), 2);
            assert_eq!(players[0].player_name, "alice");
            assert_eq!(players[0].system_seat_id, 1);
        }
        other => panic!("wrong family: {other:?}"),
    }
}

#[test]
fn classifies_rules_engine_and_keeps_fragment() {
    let out = parse(GRE_CONNECT).expect("decodes");
    match out {
        ParseOutput::GREMessage(m) => {
            assert_eq!(m.raw, GRE_CONNECT);
            let messages = &m.gre_to_client_event.gre_to_client_messages;
            assert_eq!(messages.len(), 1);
            match &messages[0] {
                GREToClientMessage::ConnectResp(w) => {
                    assert_eq!(w.meta.system_seat_ids, vec![1]);
                    assert_eq!(w.connect_resp.deck_message.deck_cards, vec![101, 102]);
                    assert_eq!(w.connect_resp.deck_message.sideboard_cards, vec![103]);
                }
                other => panic!("wrong variant: {other:?}"),
            }
        }
        other => panic!("wrong family: {other:?}"),
    }
}

#[test]
fn classifies_client_message_and_keeps_fragment() {
    let out = parse(CLIENT_MULLIGAN).expect("decodes");
    match out {
        ParseOutput::ClientMessage(m) => {
            assert_eq!(m.raw, CLIENT_MULLIGAN);
            assert_eq!(m.request_id, 6);
            match &m.payload {
                ClientMessage::MulliganResp(resp) => {
                    assert_eq!(resp.game_state_id, 10);
                    assert_eq!(resp.mulligan_response.decision, "MulliganOption_AcceptHand");
                }
                other => panic!("wrong variant: {other:?}"),
            }
        }
        other => panic!("wrong family: {other:?}"),
    }
}

#[test]
fn classifies_business_message_last() {
    let out = parse(BUSINESS).expect("never errors on unmarked fragments");
    match out {
        ParseOutput::BusinessMessage(b) => {
            assert_eq!(b.request.event_id.as_deref(), Some("Ladder_Ranked"));
            assert_eq!(b.request.event_time.as_deref(), Some("1713848448"));
            assert!(b.is_relevant());
            assert_eq!(b.request.raw, BUSINESS);
        }
        other => panic!("wrong family: {other:?}"),
    }
}

#[test]
fn unmarked_fragment_is_no_event() {
    let out = parse("{\"unrelated\":true}").expect("never errors on unmarked fragments");
    assert_eq!(out, ParseOutput::NoEvent);
}

#[test]
fn marked_fragment_with_bad_shape_is_decode_error() {
    let broken = "{\"matchGameRoomStateChangedEvent\":{\"gameRoomInfo\":{}}}";
    assert_eq!(parse(broken), Err(DecodeError::Malformed));
}

#[test]
fn marked_fragment_that_is_not_json_is_decode_error() {
    let broken = "not json but mentions greToClientEvent";
    assert_eq!(parse(broken), Err(DecodeError::InvalidJson));
}

#[test]
fn reencoding_then_reclassifying_reproduces_the_value() {
    for fragment in [MGRSC_PLAYING, GRE_CONNECT, CLIENT_MULLIGAN, BUSINESS] {
        let first = parse(fragment).expect("decodes");
        // Re-encoding is emitting the kept fragment text; feeding it back
        // through the classifier must reproduce an equivalent value.
        let reencoded = match &first {
            ParseOutput::MGRSCMessage(m) => m.raw.clone(),
            ParseOutput::GREMessage(m) => m.raw.clone(),
            ParseOutput::ClientMessage(m) => m.raw.clone(),
            ParseOutput::BusinessMessage(b) => b.request.raw.clone(),
            ParseOutput::NoEvent => unreachable!(),
        };
        assert_eq!(reencoded, fragment);
        let second = parse(&reencoded).expect("decodes again");
        assert_eq!(first, second);
    }
}

#[test]
fn priority_order_prefers_room_state_marker() {
    // A fragment carrying several markers classifies by the first probe:
    // room-state, then rules-engine, then client-message.
    let room_and_client = "{\"matchGameRoomStateChangedEvent\":{\"gameRoomInfo\":{\"gameRoomConfig\":{\"matchId\":\"M2\"},\"stateType\":\"MatchGameRoomStateType_Playing\"}},\"timestamp\":\"8\",\"transactionId\":\"clientToMatchServiceMessage\"}";
    match parse(room_and_client).expect("decodes") {
        ParseOutput::MGRSCMessage(m) => {
            assert_eq!(m.mgrsc_event.game_room_info.game_room_config.match_id, "M2");
        }
        other => panic!("wrong family: {other:?}"),
    }
    let gre_and_client = "{\"greToClientEvent\":{\"greToClientMessages\":[]},\"timestamp\":\"8\",\"transactionId\":\"clientToMatchServiceMessage\"}";
    match parse(gre_and_client).expect("decodes") {
        ParseOutput::GREMessage(m) => {
            assert!(m.gre_to_client_event.gre_to_client_messages.is_empty());
        }
        other => panic!("wrong family: {other:?}"),
    }
}
