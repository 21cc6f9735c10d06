use ap_core::cards::{CardDbEntry, CardsDatabase};
use ap_core::errors::AnalyticsError;
use ap_core::processor::parse;
use ap_core::replay::{MatchReplay, MatchReplayBuilder, MatchReplayEventRef};
use ap_core::LogProcessor;

fn entry(id: i32, name: &str, identity: &[&str]) -> (i32, CardDbEntry) {
    (
        id,
        CardDbEntry {
            id,
            set: "tst".to_string(),
            name: name.to_string(),
            lang: "en".to_string(),
            image_uri: None,
            mana_cost: None,
            type_line: "Creature".to_string(),
            layout: "normal".to_string(),
            colors: None,
            color_identity: identity.iter().map(|s| s.to_string()).collect(),
            card_faces: None,
        },
    )
}

/// Runs a whole synthetic log through extractor, classifier, and builder.
fn replay_of(log: &str) -> MatchReplay {
    let mut extractor = LogProcessor::new();
    let mut builder = MatchReplayBuilder::new();
    let mut ready = false;
    for line in log.lines() {
        for fragment in extractor.process_line(line) {
            if builder.ingest_event(parse(&fragment).expect("fragment decodes")) {
                ready = true;
            }
        }
    }
    assert!(ready, "log should complete a match");
    builder.build().expect("builder completes")
}

const PLAYING: &str = "{\"matchGameRoomStateChangedEvent\":{\"gameRoomInfo\":{\"gameRoomConfig\":{\"matchId\":\"X\"},\"players\":[{\"playerName\":\"alice\",\"systemSeatId\":1,\"teamId\":1,\"userId\":\"u1\"},{\"playerName\":\"bob\",\"systemSeatId\":2,\"teamId\":2,\"userId\":\"u2\"}],\"stateType\":\"MatchGameRoomStateType_Playing\"}},\"timestamp\":\"1\",\"transactionId\":\"t1\"}";

const CONNECT: &str = "{\"greToClientEvent\":{\"greToClientMessages\":[{\"type\":\"GREMessageType_ConnectResp\",\"systemSeatIds\":[1],\"connectResp\":{\"deckMessage\":{\"deckCards\":[101,102],\"sideboardCards\":[]}}}]},\"timestamp\":\"2\",\"transactionId\":\"t2\"}";

const COMPLETED: &str = "{\"matchGameRoomStateChangedEvent\":{\"gameRoomInfo\":{\"gameRoomConfig\":{\"matchId\":\"X\"},\"finalMatchResult\":{\"matchId\":\"X\",\"resultList\":[{\"scope\":\"MatchScope_Game\",\"winningTeamId\":1}]},\"stateType\":\"MatchGameRoomStateType_MatchCompleted\"}},\"timestamp\":\"9\",\"transactionId\":\"t9\"}";

#[test]
fn end_to_end_scenario() {
    let log = format!("{PLAYING}\n{CONNECT}\n{COMPLETED}\n");
    let replay = replay_of(&log);
    assert_eq!(replay.match_id, "X");
    assert_eq!(replay.get_controller_seat_id().unwrap(), 1);
    let names = replay.get_player_names(1).unwrap();
    assert_eq!(names, ("alice".to_string(), "bob".to_string()));
    let decks = replay.get_decklists().unwrap();
    assert_eq!(decks.len(), 1);
    assert_eq!(decks[0].game_number, 1);
    assert_eq!(decks[0].mainboard, vec![101, 102]);
    let records = replay.get_match_result_records().unwrap();
    assert_eq!(records.len(), 1);
    assert_eq!(records[0].match_id, "X");
    assert_eq!(records[0].game_number, Some(1));
    assert_eq!(records[0].winning_team_id, 1);
    assert_eq!(records[0].result_scope, "MatchScope_Game");
}

#[test]
fn scope_disambiguation() {
    let completed = "{\"matchGameRoomStateChangedEvent\":{\"gameRoomInfo\":{\"gameRoomConfig\":{\"matchId\":\"X\"},\"finalMatchResult\":{\"matchId\":\"X\",\"resultList\":[{\"scope\":\"MatchScope_Game\",\"winningTeamId\":1},{\"scope\":\"MatchScope_Match\",\"winningTeamId\":1}]},\"stateType\":\"MatchGameRoomStateType_MatchCompleted\"}},\"timestamp\":\"9\",\"transactionId\":\"t9\"}";
    let log = format!("{PLAYING}\n{CONNECT}\n{completed}\n");
    let replay = replay_of(&log);
    let records = replay.get_match_result_records().unwrap();
    assert_eq!(records.len(), 2);
    assert_eq!(records[0].game_number, Some(1));
    assert_eq!(records[0].result_scope, "MatchScope_Game");
    assert_eq!(records[1].game_number, None);
    assert_eq!(records[1].result_scope, "MatchScope_Match");
}

const MULL_GSM: &str = "{\"greToClientEvent\":{\"greToClientMessages\":[{\"type\":\"GREMessageType_GameStateMessage\",\"gameStateMessage\":{\"gameStateId\":10,\"players\":[{\"controllerSeatId\":1,\"pendingMessageType\":\"ClientMessageType_MulliganResp\"},{\"controllerSeatId\":2,\"pendingMessageType\":\"ClientMessageType_MulliganResp\"}],\"zones\":[{\"zoneId\":31,\"ownerSeatId\":1,\"type\":\"ZoneType_Hand\",\"visibility\":\"Visibility_Private\"}],\"gameObjects\":[{\"instanceId\":1,\"grpId\":201,\"ownerSeatId\":1,\"controllerSeatId\":1,\"zoneId\":31,\"type\":\"GameObjectType_Card\"},{\"instanceId\":2,\"grpId\":202,\"ownerSeatId\":1,\"controllerSeatId\":1,\"zoneId\":31,\"type\":\"GameObjectType_Card\"}],\"turnInfo\":{\"decisionPlayer\":1}}}]},\"timestamp\":\"3\",\"transactionId\":\"t3\"}";

const MULL_REQ: &str = "{\"greToClientEvent\":{\"greToClientMessages\":[{\"type\":\"GREMessageType_MulliganReq\",\"gameStateId\":10,\"mulliganReq\":{\"mulliganCount\":2}}]},\"timestamp\":\"4\",\"transactionId\":\"t4\"}";

const MULL_RESP: &str = "{\"clientToMatchServiceMessageType\":\"ClientToMatchServiceMessage\",\"requestId\":6,\"payload\":{\"type\":\"ClientMessageType_MulliganResp\",\"gameStateId\":10,\"mulliganResp\":{\"decision\":\"MulliganOption_AcceptHand\"},\"respId\":1},\"timestamp\":\"5\",\"transactionId\":\"t5\"}";

#[test]
fn mulligan_arithmetic_and_correlation() {
    let log = format!("{PLAYING}\n{CONNECT}\n{MULL_GSM}\n{MULL_REQ}\n{MULL_RESP}\n{COMPLETED}\n");
    let replay = replay_of(&log);
    let db = CardsDatabase::default();
    let infos = replay.get_mulligan_infos(&db).unwrap();
    assert_eq!(infos.len(), 1);
    let info = &infos[0];
    assert_eq!(info.match_id, "X");
    assert_eq!(info.game_number, 1);
    assert_eq!(info.number_to_keep, 5);
    assert_eq!(info.hand, "201,202");
    assert_eq!(info.play_draw, "Play");
    assert_eq!(info.opponent_identity, "Unknown");
    assert_eq!(info.decision, "Keep");
}

#[test]
fn mulligan_without_response_is_match_ended() {
    let log = format!("{PLAYING}\n{CONNECT}\n{MULL_GSM}\n{MULL_REQ}\n{COMPLETED}\n");
    let replay = replay_of(&log);
    let db = CardsDatabase::default();
    let infos = replay.get_mulligan_infos(&db).unwrap();
    assert_eq!(infos.len(), 1);
    assert_eq!(infos[0].decision, "Match Ended");
}

#[test]
fn mulligan_requests_missing_is_an_error() {
    let log = format!("{PLAYING}\n{CONNECT}\n{MULL_GSM}\n{COMPLETED}\n");
    let replay = replay_of(&log);
    let db = CardsDatabase::default();
    assert_eq!(
        replay.get_mulligan_infos(&db).unwrap_err(),
        AnalyticsError::MulliganRequestsNotFound
    );
}

const OPP_GSM: &str = "{\"greToClientEvent\":{\"greToClientMessages\":[{\"type\":\"GREMessageType_GameStateMessage\",\"gameStateMessage\":{\"gameStateId\":11,\"gameObjects\":[{\"instanceId\":3,\"grpId\":301,\"ownerSeatId\":2,\"controllerSeatId\":2,\"type\":\"GameObjectType_Card\"},{\"instanceId\":4,\"grpId\":302,\"ownerSeatId\":2,\"controllerSeatId\":2,\"type\":\"GameObjectType_Card\"},{\"instanceId\":5,\"grpId\":303,\"ownerSeatId\":2,\"controllerSeatId\":2,\"type\":\"GameObjectType_Card\"}]}}]},\"timestamp\":\"6\",\"transactionId\":\"t6\"}";

#[test]
fn color_identity_union_is_sorted_and_deduplicated() {
    let log = format!("{PLAYING}\n{CONNECT}\n{OPP_GSM}\n{COMPLETED}\n");
    let replay = replay_of(&log);
    // 301 is mono-red, 302 is red-green, 303 is absent from the table and
    // contributes nothing.
    let db = CardsDatabase::new(vec![
        entry(301, "bolt", &["R"]),
        entry(302, "beast", &["R", "G"]),
    ]);
    assert_eq!(replay.get_opponent_color_identity(&db).unwrap(), "GR");
}

#[test]
fn partner_card_quirk_counts_as_two_colors() {
    let log = format!("{PLAYING}\n{CONNECT}\n{OPP_GSM}\n{COMPLETED}\n");
    let replay = replay_of(&log);
    let db = CardsDatabase::new(vec![entry(301, "jegantha_the_wellspring", &["R"])]);
    assert_eq!(replay.get_opponent_color_identity(&db).unwrap(), "GR");
}

#[test]
fn analytics_errors_are_named() {
    // No connection response at all: no controller seat id.
    let log = format!("{PLAYING}\n{COMPLETED}\n");
    let replay = replay_of(&log);
    assert_eq!(
        replay.get_controller_seat_id().unwrap_err(),
        AnalyticsError::ControllerSeatIdNotFound
    );
    assert_eq!(
        replay.get_decklists().unwrap_err(),
        AnalyticsError::InitialDecklistNotFound
    );
    let db = CardsDatabase::default();
    assert_eq!(
        replay.get_mulligan_infos(&db).unwrap_err(),
        AnalyticsError::ControllerSeatIdNotFound
    );
    assert_eq!(
        replay.get_player_names(5).unwrap_err(),
        AnalyticsError::PlayerNamesNotFound
    );
}

#[test]
fn missing_results_is_an_error() {
    let completed_bare = "{\"matchGameRoomStateChangedEvent\":{\"gameRoomInfo\":{\"gameRoomConfig\":{\"matchId\":\"X\"},\"stateType\":\"MatchGameRoomStateType_MatchCompleted\"}},\"timestamp\":\"9\",\"transactionId\":\"t9\"}";
    let log = format!("{PLAYING}\n{CONNECT}\n{completed_bare}\n");
    let replay = replay_of(&log);
    assert_eq!(
        replay.get_match_results().unwrap_err(),
        AnalyticsError::MatchResultsNotFound
    );
    assert_eq!(
        replay.get_match_result_records().unwrap_err(),
        AnalyticsError::MatchResultsNotFound
    );
}

#[test]
fn sideboarded_decklists_get_game_numbers() {
    let submit = "{\"clientToMatchServiceMessageType\":\"ClientToMatchServiceMessage\",\"requestId\":7,\"payload\":{\"type\":\"ClientMessageType_SubmitDeckResp\",\"submitDeckResp\":{\"deck\":{\"deckCards\":[104],\"sideboardCards\":[105]}}},\"timestamp\":\"7\",\"transactionId\":\"t7\"}";
    let log = format!("{PLAYING}\n{CONNECT}\n{submit}\n{COMPLETED}\n");
    let replay = replay_of(&log);
    let decks = replay.get_decklists().unwrap();
    assert_eq!(decks.len(), 2);
    assert_eq!(decks[0].game_number, 1);
    assert_eq!(decks[0].mainboard, vec![101, 102]);
    assert_eq!(decks[1].game_number, 2);
    assert_eq!(decks[1].mainboard, vec![104]);
    assert_eq!(decks[1].sideboard, vec![105]);
}

#[test]
fn format_and_start_time_come_from_business_messages() {
    let business = "{\"request\":{\"EventId\":\"Ladder_Ranked\",\"EventTime\":\"1713848448\"}}";
    let log = format!("{PLAYING}\n{business}\n{CONNECT}\n{COMPLETED}\n");
    let replay = replay_of(&log);
    assert_eq!(replay.match_format().as_deref(), Some("Ladder_Ranked"));
    assert_eq!(replay.match_start_time().as_deref(), Some("1713848448"));
}

#[test]
fn linearization_preserves_order_and_fragments() {
    let business = "{\"request\":{\"EventId\":\"Ladder_Ranked\"}}";
    let log = format!("{PLAYING}\n{CONNECT}\n{business}\n{COMPLETED}\n");
    let replay = replay_of(&log);
    let entries = replay.iter();
    assert_eq!(entries.len(), 4);
    let raws: Vec<&str> = entries
        .iter()
        .map(|e| match e {
            MatchReplayEventRef::MGRSC(m) => m.raw.as_str(),
            MatchReplayEventRef::GRE(m) => m.raw.as_str(),
            MatchReplayEventRef::Client(m) => m.raw.as_str(),
            MatchReplayEventRef::Business(b) => b.raw.as_str(),
        })
        .collect();
    assert_eq!(raws, vec![PLAYING, CONNECT, COMPLETED, business]);
    // Each emitted line parses back through the classifier.
    for raw in raws {
        assert!(parse(raw).is_ok());
    }
}

#[test]
fn missing_play_draw_observation_is_an_error() {
    // The controller owes a mulligan response (so a hand is offered) but the
    // opponent does not, so no play/draw designation is ever observed.
    let gsm = "{\"greToClientEvent\":{\"greToClientMessages\":[{\"type\":\"GREMessageType_GameStateMessage\",\"gameStateMessage\":{\"gameStateId\":10,\"players\":[{\"controllerSeatId\":1,\"pendingMessageType\":\"ClientMessageType_MulliganResp\"},{\"controllerSeatId\":2}],\"zones\":[{\"zoneId\":31,\"ownerSeatId\":1,\"type\":\"ZoneType_Hand\",\"visibility\":\"Visibility_Private\"}],\"gameObjects\":[{\"instanceId\":1,\"grpId\":201,\"ownerSeatId\":1,\"controllerSeatId\":1,\"zoneId\":31,\"type\":\"GameObjectType_Card\"}]}}]},\"timestamp\":\"3\",\"transactionId\":\"t3\"}";
    let log = format!("{PLAYING}\n{CONNECT}\n{gsm}\n{MULL_REQ}\n{COMPLETED}\n");
    let replay = replay_of(&log);
    let db = CardsDatabase::default();
    assert_eq!(
        replay.get_mulligan_infos(&db).unwrap_err(),
        AnalyticsError::PlayDrawNotFound
    );
}

#[test]
fn second_game_mulligan_uses_accumulated_identity() {
    let intermission = "{\"greToClientEvent\":{\"greToClientMessages\":[{\"type\":\"GREMessageType_IntermissionReq\"}]},\"timestamp\":\"6\",\"transactionId\":\"t6\"}";
    let gsm2 = "{\"greToClientEvent\":{\"greToClientMessages\":[{\"type\":\"GREMessageType_GameStateMessage\",\"gameStateMessage\":{\"gameStateId\":20,\"players\":[{\"controllerSeatId\":1,\"pendingMessageType\":\"ClientMessageType_MulliganResp\"},{\"controllerSeatId\":2,\"pendingMessageType\":\"ClientMessageType_MulliganResp\"}],\"zones\":[{\"zoneId\":41,\"ownerSeatId\":1,\"type\":\"ZoneType_Hand\",\"visibility\":\"Visibility_Private\"}],\"gameObjects\":[{\"instanceId\":9,\"grpId\":205,\"ownerSeatId\":1,\"controllerSeatId\":1,\"zoneId\":41,\"type\":\"GameObjectType_Card\"}],\"turnInfo\":{\"decisionPlayer\":2}}}]},\"timestamp\":\"7\",\"transactionId\":\"t7\"}";
    let req2 = "{\"greToClientEvent\":{\"greToClientMessages\":[{\"type\":\"GREMessageType_MulliganReq\",\"gameStateId\":20,\"mulliganReq\":{\"mulliganCount\":0}}]},\"timestamp\":\"8\",\"transactionId\":\"t8\"}";
    let resp2 = "{\"clientToMatchServiceMessageType\":\"ClientToMatchServiceMessage\",\"requestId\":9,\"payload\":{\"type\":\"ClientMessageType_MulliganResp\",\"gameStateId\":20,\"mulliganResp\":{\"decision\":\"MulliganOption_Mulligan\"},\"respId\":2},\"timestamp\":\"8\",\"transactionId\":\"t8b\"}";
    let log = format!(
        "{PLAYING}\n{CONNECT}\n{MULL_GSM}\n{MULL_REQ}\n{MULL_RESP}\n{OPP_GSM}\n{intermission}\n{gsm2}\n{req2}\n{resp2}\n{COMPLETED}\n"
    );
    let replay = replay_of(&log);
    let db = CardsDatabase::new(vec![
        entry(301, "bolt", &["R"]),
        entry(302, "beast", &["R", "G"]),
    ]);
    let infos = replay.get_mulligan_infos(&db).unwrap();
    assert_eq!(infos.len(), 2);
    assert_eq!(infos[0].game_number, 1);
    assert_eq!(infos[0].opponent_identity, "Unknown");
    assert_eq!(infos[0].decision, "Keep");
    assert_eq!(infos[1].game_number, 2);
    assert_eq!(infos[1].number_to_keep, 7);
    assert_eq!(infos[1].hand, "205");
    assert_eq!(infos[1].play_draw, "Draw");
    assert_eq!(infos[1].opponent_identity, "GR");
    assert_eq!(infos[1].decision, "Mulligan");
}
