use ap_core::errors::MatchReplayBuilderError;
use ap_core::processor::{parse, ParseOutput};
use ap_core::replay::{MatchReplayBuilder, MatchReplayEvent};

fn playing_fragment(match_id: &str) -> String {
    format!(
        "{{\"matchGameRoomStateChangedEvent\":{{\"gameRoomInfo\":{{\"gameRoomConfig\":{{\"matchId\":\"{}\"}},\"players\":[{{\"playerName\":\"alice\",\"systemSeatId\":1,\"teamId\":1,\"userId\":\"u1\"}},{{\"playerName\":\"bob\",\"systemSeatId\":2,\"teamId\":2,\"userId\":\"u2\"}}],\"stateType\":\"MatchGameRoomStateType_Playing\"}}}},\"timestamp\":\"1\",\"transactionId\":\"t1\"}}",
        match_id
    )
}

fn completed_fragment(match_id: &str) -> String {
    format!(
        "{{\"matchGameRoomStateChangedEvent\":{{\"gameRoomInfo\":{{\"gameRoomConfig\":{{\"matchId\":\"{}\"}},\"finalMatchResult\":{{\"matchId\":\"{}\",\"resultList\":[{{\"scope\":\"MatchScope_Game\",\"winningTeamId\":1}}]}},\"stateType\":\"MatchGameRoomStateType_MatchCompleted\"}}}},\"timestamp\":\"2\",\"transactionId\":\"t2\"}}",
        match_id, match_id
    )
}

const GRE_FRAGMENT: &str = "{\"greToClientEvent\":{\"greToClientMessages\":[{\"type\":\"GREMessageType_PromptReq\"}]},\"timestamp\":\"3\",\"transactionId\":\"t3\"}";

const CLIENT_FRAGMENT: &str = "{\"clientToMatchServiceMessageType\":\"ClientToMatchServiceMessage\",\"requestId\":4,\"payload\":{\"type\":\"ClientMessageType_ConcedeReq\"},\"timestamp\":\"4\",\"transactionId\":\"t4\"}";

#[test]
fn builder_completeness() {
    let mut builder = MatchReplayBuilder::new();
    assert!(!builder.ingest_event(parse(&playing_fragment("M")).unwrap()));
    assert!(!builder.ingest_event(parse(GRE_FRAGMENT).unwrap()));
    assert!(!builder.ingest_event(parse(CLIENT_FRAGMENT).unwrap()));
    let ready = builder.ingest_event(parse(&completed_fragment("M")).unwrap());
    assert!(ready);
    let replay = builder.build().expect("complete builder builds");
    assert_eq!(replay.match_id, "M");
    assert_eq!(replay.client_server_messages.len(), 2);
    assert!(matches!(
        replay.client_server_messages[0],
        MatchReplayEvent::GRE(_)
    ));
    assert!(matches!(
        replay.client_server_messages[1],
        MatchReplayEvent::Client(_)
    ));
    assert_eq!(replay.match_start_message.raw, playing_fragment("M"));
    assert_eq!(replay.match_end_message.raw, completed_fragment("M"));
}

#[test]
fn builder_fails_without_any_ingest() {
    let builder = MatchReplayBuilder::new();
    assert_eq!(
        builder.build().unwrap_err(),
        MatchReplayBuilderError::MissingMatchId
    );
}

#[test]
fn builder_fails_without_closer() {
    let mut builder = MatchReplayBuilder::new();
    builder.ingest_event(parse(&playing_fragment("M")).unwrap());
    assert_eq!(
        builder.build().unwrap_err(),
        MatchReplayBuilderError::MissingMatchEndMessage
    );
}

#[test]
fn builder_ignores_no_event_and_irrelevant_business() {
    let mut builder = MatchReplayBuilder::new();
    assert!(!builder.ingest_event(ParseOutput::NoEvent));
    // A business event with neither an event id nor a time is dropped.
    let idle = parse("{\"request\":{}}").unwrap();
    assert!(matches!(idle, ParseOutput::BusinessMessage(_)));
    assert!(!builder.ingest_event(idle));
    assert_eq!(builder.business_messages.len(), 0);
    // A relevant one is kept.
    let relevant = parse("{\"request\":{\"EventId\":\"Ladder\"}}").unwrap();
    assert!(!builder.ingest_event(relevant));
    assert_eq!(builder.business_messages.len(), 1);
}

#[test]
fn builder_error_messages() {
    assert_eq!(
        MatchReplayBuilderError::MissingMatchId.message(),
        "Missing Match Id"
    );
    assert_eq!(
        MatchReplayBuilderError::MissingMatchStartMessage.message(),
        "Missing Match Start Message"
    );
    assert_eq!(
        MatchReplayBuilderError::MissingMatchEndMessage.message(),
        "Missing Match End Message"
    );
}

#[test]
fn builder_fails_without_opener() {
    let builder = MatchReplayBuilder {
        match_id: Some("M".to_string()),
        match_start_message: None,
        match_end_message: None,
        client_server_messages: Vec::new(),
        business_messages: Vec::new(),
    };
    assert_eq!(
        builder.build().unwrap_err(),
        MatchReplayBuilderError::MissingMatchStartMessage
    );
}

#[test]
fn builder_rejects_closer_that_is_not_completed() {
    let opener = match parse(&playing_fragment("M")).unwrap() {
        ParseOutput::MGRSCMessage(m) => m,
        other => panic!("wrong family: {other:?}"),
    };
    let builder = MatchReplayBuilder {
        match_id: Some("M".to_string()),
        match_start_message: Some(opener.clone()),
        match_end_message: Some(opener),
        client_server_messages: Vec::new(),
        business_messages: Vec::new(),
    };
    assert_eq!(
        builder.build().unwrap_err(),
        MatchReplayBuilderError::MissingMatchEndMessage
    );
}

#[test]
fn second_playing_message_overwrites_the_opener() {
    let mut builder = MatchReplayBuilder::new();
    builder.ingest_event(parse(&playing_fragment("M1")).unwrap());
    builder.ingest_event(parse(&playing_fragment("M2")).unwrap());
    assert!(builder.ingest_event(parse(&completed_fragment("M2")).unwrap()));
    let replay = builder.build().unwrap();
    assert_eq!(replay.match_id, "M2");
    assert_eq!(replay.match_start_message.raw, playing_fragment("M2"));
}
