//! The replay session: a builder that accumulates classified messages
//! between the room-state boundary markers into one immutable match replay,
//! and the read-only queries over a finished replay.

use vstd::prelude::*;

use crate::business::{business_relevant, BusinessEventRequest, RequestTypeBusinessEvent};
use crate::cards::CardsDatabase;
use crate::client::{ClientMessage, RequestTypeClientToMatchServiceMessage};
use crate::errors::{AnalyticsError, MatchReplayBuilderError};
use crate::gre::{DeckMessage, GREToClientMessage, RequestTypeGREToClientEvent};
use crate::mgrsc::{FinalMatchResult, Player, RequestTypeMGRSCEvent, StateType};
use crate::models::{copy_i32_vec, Deck, MatchResult};
use crate::processor::ParseOutput;
use crate::text::str_eq;

verus! {

/// One accumulated message of an open or finished match.
#[derive(Debug, Clone, PartialEq)]
pub enum MatchReplayEvent {
    GRE(RequestTypeGREToClientEvent),
    Client(RequestTypeClientToMatchServiceMessage),
    MGRSC(RequestTypeMGRSCEvent),
}

/// A borrowed view of one entry of the linearized replay.
#[derive(Debug)]
pub enum MatchReplayEventRef<'a> {
    GRE(&'a RequestTypeGREToClientEvent),
    Client(&'a RequestTypeClientToMatchServiceMessage),
    MGRSC(&'a RequestTypeMGRSCEvent),
    Business(&'a BusinessEventRequest),
}

/// A finished match: the opening and closing room-state messages, every
/// client/rules-engine message accumulated between them in arrival order,
/// and the business messages captured along the way. Immutable once built.
#[derive(Debug, Clone, PartialEq)]
pub struct MatchReplay {
    pub match_id: String,
    pub match_start_message: RequestTypeMGRSCEvent,
    pub match_end_message: RequestTypeMGRSCEvent,
    pub client_server_messages: Vec<MatchReplayEvent>,
    pub business_messages: Vec<BusinessEventRequest>,
}

/// The session state machine: idle until a Playing room-state message
/// arrives, accumulating until the Completed one. A fresh builder must be
/// constructed for the next match; there is no hidden reset.
#[derive(Debug, Default)]
pub struct MatchReplayBuilder {
    pub match_id: Option<String>,
    pub match_start_message: Option<RequestTypeMGRSCEvent>,
    pub match_end_message: Option<RequestTypeMGRSCEvent>,
    pub client_server_messages: Vec<MatchReplayEvent>,
    pub business_messages: Vec<BusinessEventRequest>,
}

impl MatchReplayBuilder {
    /// A fresh builder: nothing recorded yet.
    pub fn new() -> (r: Self)
        ensures
            r.match_id is None,
            r.match_start_message is None,
            r.match_end_message is None,
            r.client_server_messages@.len() == 0,
            r.business_messages@.len() == 0,
    {
        MatchReplayBuilder {
            match_id: None,
            match_start_message: None,
            match_end_message: None,
            client_server_messages: Vec::new(),
            business_messages: Vec::new(),
        }
    }

    /// Ingests one classified message. Rules-engine and client messages are
    /// appended in arrival order; a Playing room-state message records the
    /// match id and the opener (overwriting any previous one); a Completed
    /// one records the closer; relevant business messages are kept, all
    /// else is dropped. Returns whether a replay is ready to be finalized.
    pub fn ingest_event(&mut self, event: ParseOutput) -> (ready: bool)
        ensures
            match event {
                ParseOutput::GREMessage(g) => {
                    &&& !ready
                    &&& final(self).client_server_messages@ == old(
                        self,
                    ).client_server_messages@.push(MatchReplayEvent::GRE(g))
                    &&& final(self).match_id == old(self).match_id
                    &&& final(self).match_start_message == old(self).match_start_message
                    &&& final(self).match_end_message == old(self).match_end_message
                    &&& final(self).business_messages == old(self).business_messages
                },
                ParseOutput::ClientMessage(c) => {
                    &&& !ready
                    &&& final(self).client_server_messages@ == old(
                        self,
                    ).client_server_messages@.push(MatchReplayEvent::Client(c))
                    &&& final(self).match_id == old(self).match_id
                    &&& final(self).match_start_message == old(self).match_start_message
                    &&& final(self).match_end_message == old(self).match_end_message
                    &&& final(self).business_messages == old(self).business_messages
                },
                ParseOutput::MGRSCMessage(m) => ingest_mgrc_spec(old(self), final(self), m, ready),
                ParseOutput::BusinessMessage(b) => {
                    &&& !ready
                    &&& (if business_relevant(b) {
                        final(self).business_messages@ == old(self).business_messages@.push(
                            b.request,
                        )
                    } else {
                        final(self).business_messages == old(self).business_messages
                    })
                    &&& final(self).match_id == old(self).match_id
                    &&& final(self).match_start_message == old(self).match_start_message
                    &&& final(self).match_end_message == old(self).match_end_message
                    &&& final(self).client_server_messages == old(self).client_server_messages
                },
                ParseOutput::NoEvent => {
                    &&& !ready
                    &&& *final(self) == *old(self)
                },
            },
    {
        match event {
            ParseOutput::GREMessage(gre_message) => {
                self.client_server_messages.push(MatchReplayEvent::GRE(gre_message));
                false
            },
            ParseOutput::ClientMessage(client_message) => {
                self.client_server_messages.push(MatchReplayEvent::Client(client_message));
                false
            },
            ParseOutput::MGRSCMessage(mgrsc_event) => self.ingest_mgrc_event(mgrsc_event),
            ParseOutput::BusinessMessage(business_message) => {
                if business_message.is_relevant() {
                    self.business_messages.push(business_message.request);
                }
                false
            },
            ParseOutput::NoEvent => false,
        }
    }

    /// Ingests one room-state message: Playing records the match id and the
    /// opener, Completed records the closer and signals that the replay is
    /// ready.
    pub fn ingest_mgrc_event(&mut self, mgrsc_event: RequestTypeMGRSCEvent) -> (ready: bool)
        ensures
            ingest_mgrc_spec(old(self), final(self), mgrsc_event, ready),
    {
        match mgrsc_event.mgrsc_event.game_room_info.state_type {
            StateType::MatchCompleted => {
                self.match_end_message = Some(mgrsc_event);
                true
            },
            StateType::Playing => {
                let match_id =
                    mgrsc_event.mgrsc_event.game_room_info.game_room_config.match_id.clone();
                self.match_id = Some(match_id);
                self.match_start_message = Some(mgrsc_event);
                false
            },
        }
    }

    /// Finalizes the builder into an immutable replay; fails when the match
    /// id, the opener, or a Completed closer is missing.
    pub fn build(self) -> (r: Result<MatchReplay, MatchReplayBuilderError>)
        ensures
            ({
                match (self.match_id, self.match_start_message, self.match_end_message) {
                    (Option::None, _, _) => r == Result::<
                        MatchReplay,
                        MatchReplayBuilderError,
                    >::Err(MatchReplayBuilderError::MissingMatchId),
                    (Option::Some(_), Option::None, _) => r == Result::<
                        MatchReplay,
                        MatchReplayBuilderError,
                    >::Err(MatchReplayBuilderError::MissingMatchStartMessage),
                    (Option::Some(_), Option::Some(_), Option::None) => r == Result::<
                        MatchReplay,
                        MatchReplayBuilderError,
                    >::Err(MatchReplayBuilderError::MissingMatchEndMessage),
                    (Option::Some(id), Option::Some(s), Option::Some(e)) => {
                        if e.mgrsc_event.game_room_info.state_type is MatchCompleted {
                            match r {
                                Ok(rep) => rep.match_id == id && rep.match_start_message == s
                                    && rep.match_end_message == e && rep.client_server_messages
                                    == self.client_server_messages && rep.business_messages
                                    == self.business_messages,
                                Err(_) => false,
                            }
                        } else {
                            r == Result::<
                                MatchReplay,
                                MatchReplayBuilderError,
                            >::Err(MatchReplayBuilderError::MissingMatchEndMessage)
                        }
                    },
                }
            }),
    {
        let MatchReplayBuilder {
            match_id,
            match_start_message,
            match_end_message,
            client_server_messages,
            business_messages,
        } = self;
        let match_id = match match_id {
            Some(id) => id,
            None => {
                return Err(MatchReplayBuilderError::MissingMatchId);
            },
        };
        let match_start_message = match match_start_message {
            Some(m) => m,
            None => {
                return Err(MatchReplayBuilderError::MissingMatchStartMessage);
            },
        };
        let match_end_message = match match_end_message {
            Some(m) => m,
            None => {
                return Err(MatchReplayBuilderError::MissingMatchEndMessage);
            },
        };
        match match_end_message.mgrsc_event.game_room_info.state_type {
            StateType::MatchCompleted => {},
            StateType::Playing => {
                return Err(MatchReplayBuilderError::MissingMatchEndMessage);
            },
        }
        Ok(
            MatchReplay {
                match_id,
                match_start_message,
                match_end_message,
                client_server_messages,
                business_messages,
            },
        )
    }
}

/// What one room-state ingestion does to the builder.
pub open spec fn ingest_mgrc_spec(
    pre: &MatchReplayBuilder,
    post: &MatchReplayBuilder,
    m: RequestTypeMGRSCEvent,
    ready: bool,
) -> bool {
    match m.mgrsc_event.game_room_info.state_type {
        StateType::MatchCompleted => {
            &&& ready
            &&& post.match_end_message == Option::Some(m)
            &&& post.match_id == pre.match_id
            &&& post.match_start_message == pre.match_start_message
            &&& post.client_server_messages == pre.client_server_messages
            &&& post.business_messages == pre.business_messages
        },
        StateType::Playing => {
            &&& !ready
            &&& (post.match_id matches Option::Some(id) && id@
                == m.mgrsc_event.game_room_info.game_room_config.match_id@)
            &&& post.match_start_message == Option::Some(m)
            &&& post.match_end_message == pre.match_end_message
            &&& post.client_server_messages == pre.client_server_messages
            &&& post.business_messages == pre.business_messages
        },
    }
}

// ---------------------------------------------------------------------------
// Views of the accumulated stream.
// ---------------------------------------------------------------------------

/// Every rules-engine message of the accumulated stream, flattened, in
/// arrival order.
pub open spec fn gre_messages_of(s: Seq<MatchReplayEvent>) -> Seq<GREToClientMessage>
    decreases s.len(),
{
    if s.len() == 0 {
        Seq::empty()
    } else {
        gre_messages_of(s.drop_last()) + (match s.last() {
            MatchReplayEvent::GRE(e) => e.gre_to_client_event.gre_to_client_messages@,
            _ => Seq::empty(),
        })
    }
}

/// Every client message of the accumulated stream, in arrival order.
pub open spec fn client_messages_of(s: Seq<MatchReplayEvent>) -> Seq<
    RequestTypeClientToMatchServiceMessage,
>
    decreases s.len(),
{
    if s.len() == 0 {
        Seq::empty()
    } else {
        client_messages_of(s.drop_last()) + (match s.last() {
            MatchReplayEvent::Client(c) => seq![c],
            _ => Seq::empty(),
        })
    }
}

/// The first seat id listed by a connection response: the controller.
pub open spec fn first_connect_seat(ms: Seq<GREToClientMessage>) -> Option<i32>
    decreases ms.len(),
{
    if ms.len() == 0 {
        Option::None
    } else {
        match ms[0] {
            GREToClientMessage::ConnectResp(w) => {
                if w.meta.system_seat_ids@.len() > 0 {
                    Option::Some(w.meta.system_seat_ids@[0])
                } else {
                    first_connect_seat(ms.drop_first())
                }
            },
            _ => first_connect_seat(ms.drop_first()),
        }
    }
}

/// The decklist carried by the first connection response.
pub open spec fn first_connect_deck(ms: Seq<GREToClientMessage>) -> Option<DeckMessage>
    decreases ms.len(),
{
    if ms.len() == 0 {
        Option::None
    } else {
        match ms[0] {
            GREToClientMessage::ConnectResp(w) => Option::Some(w.connect_resp.deck_message),
            _ => first_connect_deck(ms.drop_first()),
        }
    }
}

/// Every deck re-submitted during sideboarding, in arrival order.
pub open spec fn submitted_decks(cs: Seq<RequestTypeClientToMatchServiceMessage>) -> Seq<
    DeckMessage,
>
    decreases cs.len(),
{
    if cs.len() == 0 {
        Seq::empty()
    } else {
        submitted_decks(cs.drop_last()) + (match cs.last().payload {
            ClientMessage::SubmitDeckResp(s) => seq![s.deck],
            _ => Seq::empty(),
        })
    }
}

/// The first roster entry on (`want_equal`) or off the controller's seat.
pub open spec fn find_player(ps: Seq<Player>, seat_id: i32, want_equal: bool) -> Option<Player>
    decreases ps.len(),
{
    if ps.len() == 0 {
        Option::None
    } else if (ps[0].system_seat_id == seat_id) == want_equal {
        Option::Some(ps[0])
    } else {
        find_player(ps.drop_first(), seat_id, want_equal)
    }
}

/// The first event time carried by a business message.
pub open spec fn first_event_time(s: Seq<BusinessEventRequest>) -> Option<Seq<char>>
    decreases s.len(),
{
    if s.len() == 0 {
        Option::None
    } else {
        match s[0].event_time {
            Option::Some(t) => Option::Some(t@),
            Option::None => first_event_time(s.drop_first()),
        }
    }
}

/// The first event identifier carried by a business message: the format.
pub open spec fn first_event_id(s: Seq<BusinessEventRequest>) -> Option<Seq<char>>
    decreases s.len(),
{
    if s.len() == 0 {
        Option::None
    } else {
        match s[0].event_id {
            Option::Some(t) => Option::Some(t@),
            Option::None => first_event_id(s.drop_first()),
        }
    }
}

proof fn lemma_first_connect_seat_append(a: Seq<GREToClientMessage>, b: Seq<GREToClientMessage>)
    ensures
        first_connect_seat(a + b) == (match first_connect_seat(a) {
            Option::Some(x) => Option::Some(x),
            Option::None => first_connect_seat(b),
        }),
    decreases a.len(),
{
    if a.len() == 0 {
        assert(a + b =~= b);
    } else {
        assert((a + b).drop_first() =~= a.drop_first() + b);
        assert((a + b)[0] == a[0]);
        lemma_first_connect_seat_append(a.drop_first(), b);
    }
}

proof fn lemma_first_connect_deck_append(a: Seq<GREToClientMessage>, b: Seq<GREToClientMessage>)
    ensures
        first_connect_deck(a + b) == (match first_connect_deck(a) {
            Option::Some(x) => Option::Some(x),
            Option::None => first_connect_deck(b),
        }),
    decreases a.len(),
{
    if a.len() == 0 {
        assert(a + b =~= b);
    } else {
        assert((a + b).drop_first() =~= a.drop_first() + b);
        assert((a + b)[0] == a[0]);
        lemma_first_connect_deck_append(a.drop_first(), b);
    }
}

proof fn lemma_gre_concat(a: Seq<MatchReplayEvent>, b: Seq<MatchReplayEvent>)
    ensures
        gre_messages_of(a + b) == gre_messages_of(a) + gre_messages_of(b),
    decreases b.len(),
{
    if b.len() == 0 {
        assert(a + b =~= a);
        assert(gre_messages_of(a) + gre_messages_of(b) =~= gre_messages_of(a));
    } else {
        lemma_gre_concat(a, b.drop_last());
        assert((a + b).drop_last() =~= a + b.drop_last());
        assert((a + b).last() == b.last());
        assert(gre_messages_of(a + b) =~= gre_messages_of(a) + gre_messages_of(b));
    }
}

/// At the event holding the found message, the whole flattened stream
/// splits into the processed prefix, the found message, and a remainder.
proof fn lemma_gre_found_split(s: Seq<MatchReplayEvent>, i: int, inner: Seq<GREToClientMessage>, j: int) -> (rest: Seq<GREToClientMessage>)
    requires
        0 <= i < s.len(),
        s[i] matches MatchReplayEvent::GRE(e) && e.gre_to_client_event.gre_to_client_messages@
            == inner,
        0 <= j < inner.len(),
    ensures
        gre_messages_of(s) == (gre_messages_of(s.take(i)) + inner.take(j)) + (seq![inner[j]]
            + rest),
{
    let prefix = gre_messages_of(s.take(i));
    let t = s.take(i + 1);
    assert(t.drop_last() =~= s.take(i));
    assert(t.last() == s[i]);
    assert(gre_messages_of(t) == prefix + inner);
    assert(s =~= s.take(i + 1) + s.skip(i + 1));
    lemma_gre_concat(s.take(i + 1), s.skip(i + 1));
    let suffix = gre_messages_of(s.skip(i + 1));
    let rest = inner.skip(j + 1) + suffix;
    assert(gre_messages_of(s) == (prefix + inner) + suffix);
    assert((prefix + inner) + suffix =~= (prefix + inner.take(j)) + (seq![inner[j]] + rest));
    rest
}

impl MatchReplay {
    /// The controller's seat id: the first seat listed by a connection
    /// response. Fails when no connection response carries one.
    pub fn get_controller_seat_id(&self) -> (r: Result<i32, AnalyticsError>)
        ensures
            match first_connect_seat(gre_messages_of(self.client_server_messages@)) {
                Option::Some(id) => r == Result::<i32, AnalyticsError>::Ok(id),
                Option::None => r == Result::<i32, AnalyticsError>::Err(
                    AnalyticsError::ControllerSeatIdNotFound,
                ),
            },
    {
        let events = &self.client_server_messages;
        let n = events.len();
        let mut i: usize = 0;
        while i < n
            invariant
                n == events@.len(),
                i <= n,
                events == &self.client_server_messages,
                first_connect_seat(gre_messages_of(events@.take(i as int))) is None,
            decreases n - i,
        {
            let ghost base = gre_messages_of(events@.take(i as int));
            proof {
                let t = events@.take(i + 1 as int);
                assert(t.drop_last() =~= events@.take(i as int));
                assert(t.last() == events@[i as int]);
            }
            match &events[i] {
                MatchReplayEvent::GRE(e) => {
                    let inner = &e.gre_to_client_event.gre_to_client_messages;
                    let m = inner.len();
                    let mut j: usize = 0;
                    while j < m
                        invariant
                            m == inner@.len(),
                            j <= m,
                            i < n,
                            n == events@.len(),
                            events == &self.client_server_messages,
                            events@[i as int] matches MatchReplayEvent::GRE(e2)
                                && e2.gre_to_client_event.gre_to_client_messages@ == inner@,
                            base == gre_messages_of(events@.take(i as int)),
                            first_connect_seat(base + inner@.take(j as int)) is None,
                        decreases m - j,
                    {
                        match &inner[j] {
                            GREToClientMessage::ConnectResp(w) => {
                                if w.meta.system_seat_ids.len() > 0 {
                                    let id = w.meta.system_seat_ids[0];
                                    proof {
                                        let rest = lemma_gre_found_split(
                                            events@,
                                            i as int,
                                            inner@,
                                            j as int,
                                        );
                                        let head = base + inner@.take(j as int);
                                        let tail = seq![inner@[j as int]] + rest;
                                        lemma_first_connect_seat_append(head, tail);
                                        assert(tail[0] == inner@[j as int]);
                                        assert(tail.drop_first() =~= rest);
                                        assert(first_connect_seat(tail) == Option::Some(id));
                                    }
                                    return Ok(id);
                                } else {
                                    proof {
                                        assert(first_connect_seat(seq![inner@[j as int]]) is None)
                                            by {
                                            let s1 = seq![inner@[j as int]];
                                            assert(s1.len() == 1);
                                            assert(s1[0] == inner@[j as int]);
                                            assert(s1.drop_first()
                                                =~= Seq::<GREToClientMessage>::empty());
                                            assert(first_connect_seat(
                                                Seq::<GREToClientMessage>::empty(),
                                            ) is None);
                                        }
                                    }
                                }
                            },
                            _ => {
                                proof {
                                    assert(first_connect_seat(seq![inner@[j as int]]) is None) by {
                                        let s1 = seq![inner@[j as int]];
                                        assert(s1.len() == 1);
                                        assert(s1[0] == inner@[j as int]);
                                        assert(s1.drop_first()
                                            =~= Seq::<GREToClientMessage>::empty());
                                        assert(first_connect_seat(
                                            Seq::<GREToClientMessage>::empty(),
                                        ) is None);
                                    }
                                }
                            },
                        }
                        proof {
                            let u = inner@.take(j + 1 as int);
                            assert(u.drop_last() =~= inner@.take(j as int));
                            assert(u.last() == inner@[j as int]);
                            lemma_first_connect_seat_append(
                                base + inner@.take(j as int),
                                seq![inner@[j as int]],
                            );
                            assert((base + inner@.take(j as int)) + seq![inner@[j as int]] =~= base
                                + inner@.take(j + 1 as int));
                        }
                        j = j + 1;
                    }
                    proof {
                        assert(inner@.take(m as int) =~= inner@);
                        assert(gre_messages_of(events@.take(i + 1 as int)) == base + inner@);
                    }
                },
                _ => {
                    proof {
                        assert(gre_messages_of(events@.take(i + 1 as int)) =~= base);
                    }
                },
            }
            i = i + 1;
        }
        proof {
            assert(events@.take(n as int) =~= events@);
        }
        Err(AnalyticsError::ControllerSeatIdNotFound)
    }

    /// The two player names from the opening roster, controller first,
    /// partitioned by seat id. Fails when the roster is absent or either
    /// side cannot be found.
    pub fn get_player_names(&self, seat_id: i32) -> (r: Result<(String, String), AnalyticsError>)
        ensures
            ({
                let roster = self.match_start_message.mgrsc_event.game_room_info.players;
                match roster {
                    Option::None => r == Result::<
                        (String, String),
                        AnalyticsError,
                    >::Err(AnalyticsError::PlayerNamesNotFound),
                    Option::Some(ps) => {
                        match (find_player(ps@, seat_id, true), find_player(ps@, seat_id, false)) {
                            (Option::Some(c), Option::Some(o)) => {
                                match r {
                                    Ok(names) => names.0@ == c.player_name@ && names.1@
                                        == o.player_name@,
                                    Err(_) => false,
                                }
                            },
                            _ => r == Result::<
                                (String, String),
                                AnalyticsError,
                            >::Err(AnalyticsError::PlayerNamesNotFound),
                        }
                    },
                }
            }),
    {
        let players = match &self.match_start_message.mgrsc_event.game_room_info.players {
            Some(ps) => ps,
            None => {
                return Err(AnalyticsError::PlayerNamesNotFound);
            },
        };
        let controller = find_player_vec(players, seat_id, true);
        let opponent = find_player_vec(players, seat_id, false);
        match (controller, opponent) {
            (Some(c), Some(o)) => Ok((c.player_name.clone(), o.player_name.clone())),
            _ => Err(AnalyticsError::PlayerNamesNotFound),
        }
    }

    /// The final results carried by the closing message. Fails when the
    /// closer has none.
    pub fn get_match_results(&self) -> (r: Result<FinalMatchResult, AnalyticsError>)
        ensures
            ({
                let fmr = self.match_end_message.mgrsc_event.game_room_info.final_match_result;
                match fmr {
                    Option::None => r == Result::<
                        FinalMatchResult,
                        AnalyticsError,
                    >::Err(AnalyticsError::MatchResultsNotFound),
                    Option::Some(f) => match r {
                        Ok(g) => g.match_id@ == f.match_id@ && result_lists_match(
                            g.result_list@,
                            f.result_list@,
                        ),
                        Err(_) => false,
                    },
                }
            }),
    {
        match &self.match_end_message.mgrsc_event.game_room_info.final_match_result {
            Some(f) => Ok(copy_final_match_result(f)),
            None => Err(AnalyticsError::MatchResultsNotFound),
        }
    }

    /// One derived record per final-result entry: entries with the per-game
    /// scope get a 1-based game number from their position, all other
    /// scopes get none. Fails when the closer carries no results.
    pub fn get_match_result_records(&self) -> (r: Result<Vec<MatchResult>, AnalyticsError>)
        ensures
            ({
                let fmr = self.match_end_message.mgrsc_event.game_room_info.final_match_result;
                match fmr {
                    Option::None => r == Result::<
                        Vec<MatchResult>,
                        AnalyticsError,
                    >::Err(AnalyticsError::MatchResultsNotFound),
                    Option::Some(f) => match r {
                        Ok(v) => {
                            &&& v@.len() == f.result_list@.len()
                            &&& forall|j: int|
                                0 <= j < v@.len() ==> match_result_entry_matches(
                                    #[trigger] v@[j],
                                    f.result_list@[j],
                                    self.match_id@,
                                    j,
                                )
                        },
                        Err(_) => false,
                    },
                }
            }),
    {
        let f = match &self.match_end_message.mgrsc_event.game_room_info.final_match_result {
            Some(f) => f,
            None => {
                return Err(AnalyticsError::MatchResultsNotFound);
            },
        };
        let n = f.result_list.len();
        let mut out: Vec<MatchResult> = Vec::new();
        let mut i: usize = 0;
        while i < n
            invariant
                n == f.result_list@.len(),
                i <= n,
                out@.len() == i,
                forall|j: int|
                    0 <= j < i ==> match_result_entry_matches(
                        #[trigger] out@[j],
                        f.result_list@[j],
                        self.match_id@,
                        j,
                    ),
            decreases n - i,
        {
            let ghost o0 = out@;
            let entry = &f.result_list[i];
            let game_number: Option<i32> = if str_eq(entry.scope.as_str(), "MatchScope_Game") {
                if i < i32::MAX as usize {
                    Some((i + 1) as i32)
                } else {
                    None
                }
            } else {
                None
            };
            out.push(
                MatchResult {
                    match_id: self.match_id.clone(),
                    game_number,
                    winning_team_id: entry.winning_team_id,
                    result_scope: entry.scope.clone(),
                },
            );
            proof {
                assert(forall|j: int| 0 <= j < i ==> out@[j] == o0[j]);
            }
            i = i + 1;
        }
        Ok(out)
    }

    /// The match start time, from the first business message carrying one.
    pub fn match_start_time(&self) -> (r: Option<String>)
        ensures
            match first_event_time(self.business_messages@) {
                Option::Some(t) => r matches Some(x) && x@ == t,
                Option::None => r is None,
            },
    {
        let bs = &self.business_messages;
        let n = bs.len();
        let mut i: usize = 0;
        proof {
            assert(bs@.skip(0) =~= bs@);
        }
        while i < n
            invariant
                n == bs@.len(),
                i <= n,
                bs == &self.business_messages,
                first_event_time(bs@.skip(i as int)) == first_event_time(bs@),
            decreases n - i,
        {
            proof {
                assert(bs@.skip(i as int)[0] == bs@[i as int]);
                assert(bs@.skip(i as int).drop_first() =~= bs@.skip(i + 1 as int));
            }
            match &bs[i].event_time {
                Some(t) => {
                    return Some(t.clone());
                },
                None => {},
            }
            i = i + 1;
        }
        proof {
            assert(bs@.skip(n as int).len() == 0);
        }
        None
    }

    /// The format this match was played in, from the first business message
    /// naming an event.
    pub fn match_format(&self) -> (r: Option<String>)
        ensures
            match first_event_id(self.business_messages@) {
                Option::Some(t) => r matches Some(x) && x@ == t,
                Option::None => r is None,
            },
    {
        let bs = &self.business_messages;
        let n = bs.len();
        let mut i: usize = 0;
        proof {
            assert(bs@.skip(0) =~= bs@);
        }
        while i < n
            invariant
                n == bs@.len(),
                i <= n,
                bs == &self.business_messages,
                first_event_id(bs@.skip(i as int)) == first_event_id(bs@),
            decreases n - i,
        {
            proof {
                assert(bs@.skip(i as int)[0] == bs@[i as int]);
                assert(bs@.skip(i as int).drop_first() =~= bs@.skip(i + 1 as int));
            }
            match &bs[i].event_id {
                Some(t) => {
                    return Some(t.clone());
                },
                None => {},
            }
            i = i + 1;
        }
        proof {
            assert(bs@.skip(n as int).len() == 0);
        }
        None
    }

    /// The replay linearized for output: the opener, every accumulated
    /// message in ingestion order, the closer, then the business messages.
    /// Writing each entry's fragment text on its own line yields the replay
    /// file format, parseable back through the classifier.
    pub fn iter(&self) -> (r: Vec<MatchReplayEventRef>)
        ensures
            r@.len() == 2 + self.client_server_messages@.len() + self.business_messages@.len(),
            mgrsc_ref_matches(self.match_start_message, r@[0]),
            forall|j: int|
                0 <= j < self.client_server_messages@.len() ==> event_ref_matches(
                    self.client_server_messages@[j],
                    #[trigger] r@[1 + j],
                ),
            mgrsc_ref_matches(
                self.match_end_message,
                r@[1 + self.client_server_messages@.len() as int],
            ),
            forall|k: int|
                0 <= k < self.business_messages@.len() ==> business_ref_matches(
                    self.business_messages@[k],
                    #[trigger] r@[2 + self.client_server_messages@.len() as int + k],
                ),
    {
        let mut out: Vec<MatchReplayEventRef> = Vec::new();
        out.push(MatchReplayEventRef::MGRSC(&self.match_start_message));
        let n = self.client_server_messages.len();
        let mut i: usize = 0;
        while i < n
            invariant
                n == self.client_server_messages@.len(),
                i <= n,
                out@.len() == 1 + i,
                mgrsc_ref_matches(self.match_start_message, out@[0]),
                forall|j: int|
                    0 <= j < i ==> event_ref_matches(
                        self.client_server_messages@[j],
                        #[trigger] out@[1 + j],
                    ),
            decreases n - i,
        {
            let ghost o0 = out@;
            match &self.client_server_messages[i] {
                MatchReplayEvent::GRE(e) => out.push(MatchReplayEventRef::GRE(e)),
                MatchReplayEvent::Client(e) => out.push(MatchReplayEventRef::Client(e)),
                MatchReplayEvent::MGRSC(e) => out.push(MatchReplayEventRef::MGRSC(e)),
            }
            proof {
                assert(forall|j: int| 0 <= j < 1 + i ==> out@[j] == o0[j]);
            }
            i = i + 1;
        }
        out.push(MatchReplayEventRef::MGRSC(&self.match_end_message));
        let m = self.business_messages.len();
        let mut k: usize = 0;
        while k < m
            invariant
                n == self.client_server_messages@.len(),
                m == self.business_messages@.len(),
                k <= m,
                out@.len() == 2 + n + k,
                mgrsc_ref_matches(self.match_start_message, out@[0]),
                forall|j: int|
                    0 <= j < n ==> event_ref_matches(
                        self.client_server_messages@[j],
                        #[trigger] out@[1 + j],
                    ),
                mgrsc_ref_matches(self.match_end_message, out@[1 + n]),
                forall|j: int|
                    0 <= j < k ==> business_ref_matches(
                        self.business_messages@[j],
                        #[trigger] out@[2 + n + j],
                    ),
            decreases m - k,
        {
            let ghost o0 = out@;
            out.push(MatchReplayEventRef::Business(&self.business_messages[k]));
            proof {
                assert(forall|j: int| 0 <= j < 2 + n + k ==> out@[j] == o0[j]);
            }
            k = k + 1;
        }
        out
    }
}

/// How one derived match-result record relates to its final-result entry.
pub open spec fn match_result_entry_matches(
    m: MatchResult,
    entry: crate::mgrsc::ResultList,
    match_id: Seq<char>,
    position: int,
) -> bool {
    &&& m.match_id@ == match_id
    &&& m.winning_team_id == entry.winning_team_id
    &&& m.result_scope@ == entry.scope@
    &&& m.game_number == (if entry.scope@ == "MatchScope_Game"@ && position + 1 <= i32::MAX {
        Option::Some((position + 1) as i32)
    } else {
        Option::<i32>::None
    })
}

/// Entry-for-entry equality of two result lists.
pub open spec fn result_lists_match(a: Seq<crate::mgrsc::ResultList>, b: Seq<
    crate::mgrsc::ResultList,
>) -> bool {
    &&& a.len() == b.len()
    &&& forall|j: int|
        0 <= j < a.len() ==> (#[trigger] a[j]).scope@ == b[j].scope@ && a[j].winning_team_id
            == b[j].winning_team_id
}

/// Whether a linearized entry is the given accumulated message.
pub open spec fn event_ref_matches(e: MatchReplayEvent, r: MatchReplayEventRef) -> bool {
    match (e, r) {
        (MatchReplayEvent::GRE(ev), MatchReplayEventRef::GRE(re)) => *re == ev,
        (MatchReplayEvent::Client(ev), MatchReplayEventRef::Client(re)) => *re == ev,
        (MatchReplayEvent::MGRSC(ev), MatchReplayEventRef::MGRSC(re)) => *re == ev,
        _ => false,
    }
}

/// Whether a linearized entry is the given room-state message.
pub open spec fn mgrsc_ref_matches(e: RequestTypeMGRSCEvent, r: MatchReplayEventRef) -> bool {
    match r {
        MatchReplayEventRef::MGRSC(re) => *re == e,
        _ => false,
    }
}

/// Whether a linearized entry is the given business message.
pub open spec fn business_ref_matches(e: BusinessEventRequest, r: MatchReplayEventRef) -> bool {
    match r {
        MatchReplayEventRef::Business(re) => *re == e,
        _ => false,
    }
}

fn find_player_vec<'a>(ps: &'a Vec<Player>, seat_id: i32, want_equal: bool) -> (r: Option<
    &'a Player,
>)
    ensures
        match r {
            Option::Some(p) => find_player(ps@, seat_id, want_equal) == Option::Some(*p),
            Option::None => find_player(ps@, seat_id, want_equal) is None,
        },
{
    let n = ps.len();
    let mut i: usize = 0;
    proof {
        assert(ps@.skip(0) =~= ps@);
    }
    while i < n
        invariant
            n == ps@.len(),
            i <= n,
            find_player(ps@.skip(i as int), seat_id, want_equal) == find_player(
                ps@,
                seat_id,
                want_equal,
            ),
        decreases n - i,
    {
        proof {
            assert(ps@.skip(i as int)[0] == ps@[i as int]);
            assert(ps@.skip(i as int).drop_first() =~= ps@.skip(i + 1 as int));
        }
        if (ps[i].system_seat_id == seat_id) == want_equal {
            return Some(&ps[i]);
        }
        i = i + 1;
    }
    proof {
        assert(ps@.skip(n as int).len() == 0);
    }
    None
}

/// The card identifiers of the opponent-owned card objects in one
/// snapshot's object list, in order.
pub open spec fn opp_card_ids(objs: Seq<crate::gre::GameObject>, controller: i32) -> Seq<i32>
    decreases objs.len(),
{
    if objs.len() == 0 {
        Seq::empty()
    } else {
        opp_card_ids(objs.drop_last(), controller) + (if objs.last().owner_seat_id != controller
            && (objs.last().type_field is Card || objs.last().type_field is MDFCBack) {
            seq![objs.last().grp_id]
        } else {
            Seq::empty()
        })
    }
}

/// Every opponent-owned card identifier seen across the game-state
/// snapshots, in order.
pub open spec fn opponent_cards_of(ms: Seq<GREToClientMessage>, controller: i32) -> Seq<i32>
    decreases ms.len(),
{
    if ms.len() == 0 {
        Seq::empty()
    } else {
        opponent_cards_of(ms.drop_last(), controller) + (match ms.last() {
            GREToClientMessage::GameStateMessage(w) => opp_card_ids(
                w.game_state_message.game_objects@,
                controller,
            ),
            _ => Seq::empty(),
        })
    }
}

/// The color identity a card contributes. One known data quirk is kept: a
/// specific partner card is treated as two colors regardless of its nominal
/// single-color entry.
pub open spec fn effective_identity(e: crate::cards::CardDbEntry) -> Seq<Seq<char>> {
    if e.name@ == "jegantha_the_wellspring"@ {
        seq!["R"@, "G"@]
    } else {
        e.color_identity@.map_values(|s: String| s@)
    }
}

/// Folds a list of color strings into a sorted duplicate-free accumulator.
pub open spec fn insert_all(acc: Seq<Seq<char>>, cs: Seq<Seq<char>>) -> Seq<Seq<char>>
    decreases cs.len(),
{
    if cs.len() == 0 {
        acc
    } else {
        crate::text::insert_uniq(insert_all(acc, cs.drop_last()), cs.last())
    }
}

/// The sorted duplicate-free union of the color identities of the given
/// cards, resolved through the lookup table; absent cards contribute
/// nothing.
pub open spec fn colors_after(db: Seq<(i32, crate::cards::CardDbEntry)>, cards: Seq<i32>) -> Seq<
    Seq<char>,
>
    decreases cards.len(),
{
    if cards.len() == 0 {
        Seq::empty()
    } else {
        let prev = colors_after(db, cards.drop_last());
        match crate::cards::lookup_spec(db, cards.last()) {
            Option::Some(e) => insert_all(prev, effective_identity(e)),
            Option::None => prev,
        }
    }
}

proof fn lemma_insert_all_props(acc: Seq<Seq<char>>, cs: Seq<Seq<char>>)
    requires
        crate::text::strictly_sorted(acc),
    ensures
        crate::text::strictly_sorted(insert_all(acc, cs)),
        forall|y: Seq<char>| #[trigger]
            insert_all(acc, cs).contains(y) <==> acc.contains(y) || cs.contains(y),
    decreases cs.len(),
{
    if cs.len() == 0 {
        assert forall|y: Seq<char>| #[trigger]
            insert_all(acc, cs).contains(y) <==> acc.contains(y) || cs.contains(y) by {
            if cs.contains(y) {
                let k = choose|k: int| 0 <= k < cs.len() && cs[k] == y;
            }
        }
    } else {
        lemma_insert_all_props(acc, cs.drop_last());
        let prev = insert_all(acc, cs.drop_last());
        crate::text::lemma_insert_uniq_sorted(prev, cs.last());
        assert forall|y: Seq<char>| #[trigger]
            insert_all(acc, cs).contains(y) <==> acc.contains(y) || cs.contains(y) by {
            assert(insert_all(acc, cs) == crate::text::insert_uniq(prev, cs.last()));
            if insert_all(acc, cs).contains(y) {
                if !acc.contains(y) {
                    if y == cs.last() {
                        assert(cs.contains(y));
                    } else {
                        assert(prev.contains(y));
                        assert(cs.drop_last().contains(y));
                        let k = choose|k: int|
                            0 <= k < cs.drop_last().len() && cs.drop_last()[k] == y;
                        assert(cs[k] == y);
                        assert(cs.contains(y));
                    }
                }
            }
            if acc.contains(y) {
                assert(prev.contains(y));
                assert(insert_all(acc, cs).contains(y));
            }
            if cs.contains(y) {
                let k = choose|k: int| 0 <= k < cs.len() && cs[k] == y;
                if k < cs.len() - 1 {
                    assert(cs.drop_last()[k] == y);
                    assert(cs.drop_last().contains(y));
                    assert(prev.contains(y));
                } else {
                    assert(y == cs.last());
                }
                assert(insert_all(acc, cs).contains(y));
            }
        }
    }
}

/// Whether the card at position `k` contributes the color `y`: the card is
/// in the lookup table and `y` is in its effective color identity.
pub open spec fn card_contributes(
    db: Seq<(i32, crate::cards::CardDbEntry)>,
    cards: Seq<i32>,
    k: int,
    y: Seq<char>,
) -> bool {
    &&& 0 <= k < cards.len()
    &&& match crate::cards::lookup_spec(db, cards[k]) {
        Option::Some(e) => effective_identity(e).contains(y),
        Option::None => false,
    }
}

/// The accumulated color identity is sorted and duplicate-free, and holds
/// exactly the union of the color identities contributed by the given
/// cards; a card absent from the lookup table contributes nothing.
pub proof fn lemma_color_identity_properties(
    db: Seq<(i32, crate::cards::CardDbEntry)>,
    cards: Seq<i32>,
)
    ensures
        crate::text::strictly_sorted(colors_after(db, cards)),
        forall|y: Seq<char>| #[trigger]
            colors_after(db, cards).contains(y) <==> exists|k: int| card_contributes(db, cards, k, y),
    decreases cards.len(),
{
    if cards.len() == 0 {
        assert forall|y: Seq<char>| #[trigger]
            colors_after(db, cards).contains(y) <==> exists|k: int|
                card_contributes(db, cards, k, y) by {
            if exists|k: int| card_contributes(db, cards, k, y) {
                let k = choose|k: int| card_contributes(db, cards, k, y);
            }
        }
    } else {
        lemma_color_identity_properties(db, cards.drop_last());
        let prev = colors_after(db, cards.drop_last());
        match crate::cards::lookup_spec(db, cards.last()) {
            Option::Some(e) => {
                lemma_insert_all_props(prev, effective_identity(e));
            },
            Option::None => {},
        }
        assert forall|y: Seq<char>| #[trigger]
            colors_after(db, cards).contains(y) <==> exists|k: int|
                card_contributes(db, cards, k, y) by {
            if colors_after(db, cards).contains(y) {
                if prev.contains(y) {
                    let k = choose|k: int| card_contributes(db, cards.drop_last(), k, y);
                    assert(cards[k] == cards.drop_last()[k]);
                    assert(card_contributes(db, cards, k, y));
                } else {
                    match crate::cards::lookup_spec(db, cards.last()) {
                        Option::Some(e) => {
                            assert(effective_identity(e).contains(y));
                            assert(card_contributes(db, cards, cards.len() - 1, y));
                        },
                        Option::None => {},
                    }
                }
            }
            if exists|k: int| card_contributes(db, cards, k, y) {
                let k = choose|k: int| card_contributes(db, cards, k, y);
                if k < cards.len() - 1 {
                    assert(cards.drop_last()[k] == cards[k]);
                    assert(card_contributes(db, cards.drop_last(), k, y));
                    assert(prev.contains(y));
                    match crate::cards::lookup_spec(db, cards.last()) {
                        Option::Some(e) => {},
                        Option::None => {},
                    }
                } else {
                    assert(cards[k] == cards.last());
                }
                assert(colors_after(db, cards).contains(y));
            }
        }
    }
}

/// Element-for-element view equality of two deck messages.
pub open spec fn deck_msg_views(a: DeckMessage, b: DeckMessage) -> bool {
    a.deck_cards@ == b.deck_cards@ && a.sideboard_cards@ == b.sideboard_cards@
}

/// The game number assigned to the decklist at position `j`.
pub open spec fn deck_game_number(j: int) -> i32 {
    if j + 1 <= i32::MAX {
        (j + 1) as i32
    } else {
        1
    }
}

impl MatchReplay {
    /// The decklist of the first connection response.
    fn get_initial_decklist(&self) -> (r: Result<DeckMessage, AnalyticsError>)
        ensures
            match first_connect_deck(gre_messages_of(self.client_server_messages@)) {
                Option::Some(d) => match r {
                    Ok(dm) => deck_msg_views(dm, d),
                    Err(_) => false,
                },
                Option::None => r == Result::<
                    DeckMessage,
                    AnalyticsError,
                >::Err(AnalyticsError::InitialDecklistNotFound),
            },
    {
        let events = &self.client_server_messages;
        let n = events.len();
        let mut i: usize = 0;
        while i < n
            invariant
                n == events@.len(),
                i <= n,
                events == &self.client_server_messages,
                first_connect_deck(gre_messages_of(events@.take(i as int))) is None,
            decreases n - i,
        {
            let ghost base = gre_messages_of(events@.take(i as int));
            proof {
                let t = events@.take(i + 1 as int);
                assert(t.drop_last() =~= events@.take(i as int));
                assert(t.last() == events@[i as int]);
            }
            match &events[i] {
                MatchReplayEvent::GRE(e) => {
                    let inner = &e.gre_to_client_event.gre_to_client_messages;
                    let m = inner.len();
                    let mut j: usize = 0;
                    while j < m
                        invariant
                            m == inner@.len(),
                            j <= m,
                            i < n,
                            n == events@.len(),
                            events == &self.client_server_messages,
                            events@[i as int] matches MatchReplayEvent::GRE(e2)
                                && e2.gre_to_client_event.gre_to_client_messages@ == inner@,
                            base == gre_messages_of(events@.take(i as int)),
                            first_connect_deck(base + inner@.take(j as int)) is None,
                        decreases m - j,
                    {
                        match &inner[j] {
                            GREToClientMessage::ConnectResp(w) => {
                                let dm = DeckMessage {
                                    deck_cards: copy_i32_vec(&w.connect_resp.deck_message.deck_cards),
                                    sideboard_cards: copy_i32_vec(
                                        &w.connect_resp.deck_message.sideboard_cards,
                                    ),
                                };
                                proof {
                                    let rest = lemma_gre_found_split(
                                        events@,
                                        i as int,
                                        inner@,
                                        j as int,
                                    );
                                    let head = base + inner@.take(j as int);
                                    let tail = seq![inner@[j as int]] + rest;
                                    lemma_first_connect_deck_append(head, tail);
                                    assert(tail[0] == inner@[j as int]);
                                    assert(first_connect_deck(tail) == Option::Some(
                                        w.connect_resp.deck_message,
                                    ));
                                }
                                return Ok(dm);
                            },
                            _ => {
                                proof {
                                    assert(first_connect_deck(seq![inner@[j as int]]) is None) by {
                                        let s1 = seq![inner@[j as int]];
                                        assert(s1.len() == 1);
                                        assert(s1[0] == inner@[j as int]);
                                        assert(s1.drop_first()
                                            =~= Seq::<GREToClientMessage>::empty());
                                        assert(first_connect_deck(
                                            Seq::<GREToClientMessage>::empty(),
                                        ) is None);
                                    }
                                }
                            },
                        }
                        proof {
                            let u = inner@.take(j + 1 as int);
                            assert(u.drop_last() =~= inner@.take(j as int));
                            assert(u.last() == inner@[j as int]);
                            lemma_first_connect_deck_append(
                                base + inner@.take(j as int),
                                seq![inner@[j as int]],
                            );
                            assert((base + inner@.take(j as int)) + seq![inner@[j as int]] =~= base
                                + inner@.take(j + 1 as int));
                        }
                        j = j + 1;
                    }
                    proof {
                        assert(inner@.take(m as int) =~= inner@);
                        assert(gre_messages_of(events@.take(i + 1 as int)) == base + inner@);
                    }
                },
                _ => {
                    proof {
                        assert(gre_messages_of(events@.take(i + 1 as int)) =~= base);
                    }
                },
            }
            i = i + 1;
        }
        proof {
            assert(events@.take(n as int) =~= events@);
        }
        Err(AnalyticsError::InitialDecklistNotFound)
    }

    /// Every deck re-submitted during sideboarding, in arrival order.
    fn get_sideboarded_decklists(&self) -> (r: Vec<DeckMessage>)
        ensures
            ({
                let subs = submitted_decks(client_messages_of(self.client_server_messages@));
                &&& r@.len() == subs.len()
                &&& forall|j: int|
                    0 <= j < subs.len() ==> deck_msg_views(#[trigger] r@[j], subs[j])
            }),
    {
        let events = &self.client_server_messages;
        let n = events.len();
        let mut out: Vec<DeckMessage> = Vec::new();
        let mut i: usize = 0;
        while i < n
            invariant
                n == events@.len(),
                i <= n,
                events == &self.client_server_messages,
                ({
                    let subs = submitted_decks(client_messages_of(events@.take(i as int)));
                    &&& out@.len() == subs.len()
                    &&& forall|j: int|
                        0 <= j < subs.len() ==> deck_msg_views(#[trigger] out@[j], subs[j])
                }),
            decreases n - i,
        {
            let ghost o0 = out@;
            let ghost cm = client_messages_of(events@.take(i as int));
            proof {
                let t = events@.take(i + 1 as int);
                assert(t.drop_last() =~= events@.take(i as int));
                assert(t.last() == events@[i as int]);
            }
            match &events[i] {
                MatchReplayEvent::Client(c) => {
                    proof {
                        assert(client_messages_of(events@.take(i + 1 as int)) == cm + seq![*c]);
                        let cm2 = cm + seq![*c];
                        assert(cm2.drop_last() =~= cm);
                        assert(cm2.last() == *c);
                    }
                    match &c.payload {
                        ClientMessage::SubmitDeckResp(s) => {
                            let dm = DeckMessage {
                                deck_cards: copy_i32_vec(&s.deck.deck_cards),
                                sideboard_cards: copy_i32_vec(&s.deck.sideboard_cards),
                            };
                            out.push(dm);
                            proof {
                                assert(forall|j: int| 0 <= j < o0.len() ==> out@[j] == o0[j]);
                            }
                        },
                        _ => {},
                    }
                },
                _ => {
                    proof {
                        assert(client_messages_of(events@.take(i + 1 as int)) =~= cm);
                    }
                },
            }
            i = i + 1;
        }
        proof {
            assert(events@.take(n as int) =~= events@);
        }
        out
    }

    /// The decklists of the match: the initial one from the connection
    /// handshake, then each re-submission, with game numbers assigned by
    /// position. Fails only when the initial decklist is missing.
    pub fn get_decklists(&self) -> (r: Result<Vec<Deck>, AnalyticsError>)
        ensures
            ({
                let gres = gre_messages_of(self.client_server_messages@);
                match first_connect_deck(gres) {
                    Option::None => r == Result::<
                        Vec<Deck>,
                        AnalyticsError,
                    >::Err(AnalyticsError::InitialDecklistNotFound),
                    Option::Some(d0) => {
                        let all = seq![d0] + submitted_decks(
                            client_messages_of(self.client_server_messages@),
                        );
                        match r {
                            Ok(v) => {
                                &&& v@.len() == all.len()
                                &&& forall|j: int|
                                    0 <= j < all.len() ==> {
                                        &&& (#[trigger] v@[j]).name@ == "Found Deck"@
                                        &&& v@[j].game_number == deck_game_number(j)
                                        &&& v@[j].mainboard@ == all[j].deck_cards@
                                        &&& v@[j].sideboard@ == all[j].sideboard_cards@
                                    }
                            },
                            Err(_) => false,
                        }
                    },
                }
            }),
    {
        let initial = match self.get_initial_decklist() {
            Ok(d) => d,
            Err(e) => {
                return Err(e);
            },
        };
        let subs = self.get_sideboarded_decklists();
        let mut out: Vec<Deck> = Vec::new();
        out.push(
            Deck {
                name: String::from_str("Found Deck"),
                game_number: 1,
                mainboard: initial.deck_cards,
                sideboard: initial.sideboard_cards,
            },
        );
        let m = subs.len();
        let mut k: usize = 0;
        while k < m
            invariant
                m == subs@.len(),
                k <= m,
                out@.len() == 1 + k,
                out@[0].name@ == "Found Deck"@,
                out@[0].game_number == 1,
                out@[0].mainboard == initial.deck_cards,
                out@[0].sideboard == initial.sideboard_cards,
                forall|j: int|
                    0 <= j < k ==> {
                        &&& (#[trigger] out@[1 + j]).name@ == "Found Deck"@
                        &&& out@[1 + j].game_number == deck_game_number(1 + j)
                        &&& out@[1 + j].mainboard@ == subs@[j].deck_cards@
                        &&& out@[1 + j].sideboard@ == subs@[j].sideboard_cards@
                    },
            decreases m - k,
        {
            let ghost o0 = out@;
            let game_number: i32 = if k <= (i32::MAX - 2) as usize {
                (k + 2) as i32
            } else {
                1
            };
            proof {
                assert(game_number == deck_game_number(1 + k));
            }
            let dm = &subs[k];
            out.push(
                Deck {
                    name: String::from_str("Found Deck"),
                    game_number,
                    mainboard: copy_i32_vec(&dm.deck_cards),
                    sideboard: copy_i32_vec(&dm.sideboard_cards),
                },
            );
            proof {
                assert(forall|j: int| 0 <= j < o0.len() ==> out@[j] == o0[j]);
            }
            k = k + 1;
        }
        proof {
            let gres = gre_messages_of(self.client_server_messages@);
            let subs_spec = submitted_decks(client_messages_of(self.client_server_messages@));
            match first_connect_deck(gres) {
                Option::Some(d0) => {
                    let all = seq![d0] + subs_spec;
                    assert(all[0] == d0);
                    assert(out@.len() == all.len());
                    assert forall|j: int|
                        0 <= j < all.len() implies {
                        &&& (#[trigger] out@[j]).name@ == "Found Deck"@
                        &&& out@[j].game_number == deck_game_number(j)
                        &&& out@[j].mainboard@ == all[j].deck_cards@
                        &&& out@[j].sideboard@ == all[j].sideboard_cards@
                    } by {
                        if j == 0 {
                            assert(deck_msg_views(initial, d0));
                            assert(deck_game_number(0) == 1);
                        } else {
                            assert(all[j] == subs_spec[j - 1]);
                            assert(out@[1 + (j - 1)].name@ == "Found Deck"@);
                            assert(out@[1 + (j - 1)].mainboard@ == subs@[j - 1].deck_cards@);
                            assert(deck_msg_views(subs@[j - 1], subs_spec[j - 1]));
                        }
                    }
                },
                Option::None => {},
            }
        }
        Ok(out)
    }

    /// Every opponent-owned card identifier across the game-state
    /// snapshots.
    fn get_opponent_cards(&self) -> (r: Result<Vec<i32>, AnalyticsError>)
        ensures
            ({
                let gres = gre_messages_of(self.client_server_messages@);
                match first_connect_seat(gres) {
                    Option::None => r == Result::<
                        Vec<i32>,
                        AnalyticsError,
                    >::Err(AnalyticsError::ControllerSeatIdNotFound),
                    Option::Some(c) => match r {
                        Ok(v) => v@ == opponent_cards_of(gres, c),
                        Err(_) => false,
                    },
                }
            }),
    {
        let controller = match self.get_controller_seat_id() {
            Ok(c) => c,
            Err(e) => {
                return Err(e);
            },
        };
        let events = &self.client_server_messages;
        let n = events.len();
        let mut out: Vec<i32> = Vec::new();
        let mut i: usize = 0;
        while i < n
            invariant
                n == events@.len(),
                i <= n,
                events == &self.client_server_messages,
                out@ == opponent_cards_of(gre_messages_of(events@.take(i as int)), controller),
            decreases n - i,
        {
            let ghost base = gre_messages_of(events@.take(i as int));
            proof {
                let t = events@.take(i + 1 as int);
                assert(t.drop_last() =~= events@.take(i as int));
                assert(t.last() == events@[i as int]);
            }
            match &events[i] {
                MatchReplayEvent::GRE(e) => {
                    let inner = &e.gre_to_client_event.gre_to_client_messages;
                    let m = inner.len();
                    let mut j: usize = 0;
                    while j < m
                        invariant
                            m == inner@.len(),
                            j <= m,
                            i < n,
                            n == events@.len(),
                            events == &self.client_server_messages,
                            events@[i as int] matches MatchReplayEvent::GRE(e2)
                                && e2.gre_to_client_event.gre_to_client_messages@ == inner@,
                            base == gre_messages_of(events@.take(i as int)),
                            out@ == opponent_cards_of(base + inner@.take(j as int), controller),
                        decreases m - j,
                    {
                        let ghost proc = base + inner@.take(j as int);
                        proof {
                            let p2 = base + inner@.take(j + 1 as int);
                            assert(p2.drop_last() =~= proc);
                            assert(p2.last() == inner@[j as int]);
                        }
                        match &inner[j] {
                            GREToClientMessage::GameStateMessage(w) => {
                                let objs = &w.game_state_message.game_objects;
                                let t_len = objs.len();
                                let mut t: usize = 0;
                                while t < t_len
                                    invariant
                                        t_len == objs@.len(),
                                        t <= t_len,
                                        out@ == opponent_cards_of(proc, controller) + opp_card_ids(
                                            objs@.take(t as int),
                                            controller,
                                        ),
                                    decreases t_len - t,
                                {
                                    proof {
                                        let u = objs@.take(t + 1 as int);
                                        assert(u.drop_last() =~= objs@.take(t as int));
                                        assert(u.last() == objs@[t as int]);
                                    }
                                    let go = &objs[t];
                                    let is_card = match go.type_field {
                                        crate::gre::GameObjectType::Card => true,
                                        crate::gre::GameObjectType::MDFCBack => true,
                                        _ => false,
                                    };
                                    if go.owner_seat_id != controller && is_card {
                                        out.push(go.grp_id);
                                        proof {
                                            assert(out@ =~= opponent_cards_of(proc, controller)
                                                + opp_card_ids(
                                                objs@.take(t + 1 as int),
                                                controller,
                                            ));
                                        }
                                    } else {
                                        proof {
                                            assert(out@ =~= opponent_cards_of(proc, controller)
                                                + opp_card_ids(
                                                objs@.take(t + 1 as int),
                                                controller,
                                            ));
                                        }
                                    }
                                    t = t + 1;
                                }
                                proof {
                                    assert(objs@.take(t_len as int) =~= objs@);
                                    assert(out@ =~= opponent_cards_of(
                                        base + inner@.take(j + 1 as int),
                                        controller,
                                    ));
                                }
                            },
                            _ => {
                                proof {
                                    assert(out@ =~= opponent_cards_of(
                                        base + inner@.take(j + 1 as int),
                                        controller,
                                    ));
                                }
                            },
                        }
                        j = j + 1;
                    }
                    proof {
                        assert(inner@.take(m as int) =~= inner@);
                        assert(gre_messages_of(events@.take(i + 1 as int)) == base + inner@);
                    }
                },
                _ => {
                    proof {
                        assert(gre_messages_of(events@.take(i + 1 as int)) =~= base);
                    }
                },
            }
            i = i + 1;
        }
        proof {
            assert(events@.take(n as int) =~= events@);
        }
        Ok(out)
    }

    /// The opponent's accumulated color identity: the union of the color
    /// identities of every opponent card seen, rendered as a sorted,
    /// deduplicated color-letter string; cards absent from the lookup table
    /// contribute nothing.
    pub fn get_opponent_color_identity(&self, cards_db: &CardsDatabase) -> (r: Result<
        String,
        AnalyticsError,
    >)
        ensures
            ({
                let gres = gre_messages_of(self.client_server_messages@);
                match first_connect_seat(gres) {
                    Option::None => r == Result::<
                        String,
                        AnalyticsError,
                    >::Err(AnalyticsError::ControllerSeatIdNotFound),
                    Option::Some(c) => match r {
                        Ok(s) => s@ == crate::text::concat_all(
                            colors_after(cards_db.db@, opponent_cards_of(gres, c)),
                        ),
                        Err(_) => false,
                    },
                }
            }),
    {
        let cards = match self.get_opponent_cards() {
            Ok(v) => v,
            Err(e) => {
                return Err(e);
            },
        };
        let n = cards.len();
        let mut acc: Vec<String> = Vec::new();
        let mut i: usize = 0;
        while i < n
            invariant
                n == cards@.len(),
                i <= n,
                acc@.map_values(|s: String| s@) == colors_after(
                    cards_db.db@,
                    cards@.take(i as int),
                ),
            decreases n - i,
        {
            proof {
                let t = cards@.take(i + 1 as int);
                assert(t.drop_last() =~= cards@.take(i as int));
                assert(t.last() == cards@[i as int]);
            }
            match cards_db.get(cards[i]) {
                Some(e) => {
                    let ghost acc0 = acc@.map_values(|s: String| s@);
                    if str_eq(e.name.as_str(), "jegantha_the_wellspring") {
                        crate::text::insert_uniq_vec(&mut acc, String::from_str("R"));
                        crate::text::insert_uniq_vec(&mut acc, String::from_str("G"));
                        proof {
                            let ident = effective_identity(*e);
                            assert(ident == seq!["R"@, "G"@]);
                            assert(ident.drop_last() =~= seq!["R"@]);
                            assert(ident.drop_last().drop_last()
                                =~= Seq::<Seq<char>>::empty());
                            assert(insert_all(acc0, Seq::<Seq<char>>::empty()) == acc0);
                            assert(insert_all(acc0, ident.drop_last())
                                == crate::text::insert_uniq(acc0, "R"@));
                            assert(acc@.map_values(|s: String| s@) == insert_all(acc0, ident));
                        }
                    } else {
                        let ci = &e.color_identity;
                        let cn = ci.len();
                        let ghost civ = ci@.map_values(|s: String| s@);
                        let mut t: usize = 0;
                        while t < cn
                            invariant
                                cn == ci@.len(),
                                t <= cn,
                                civ == ci@.map_values(|s: String| s@),
                                acc@.map_values(|s: String| s@) == insert_all(
                                    acc0,
                                    civ.take(t as int),
                                ),
                            decreases cn - t,
                        {
                            proof {
                                let u = civ.take(t + 1 as int);
                                assert(u.drop_last() =~= civ.take(t as int));
                                assert(u.last() == civ[t as int]);
                                assert(civ[t as int] == ci@[t as int]@);
                            }
                            crate::text::insert_uniq_vec(&mut acc, ci[t].clone());
                            t = t + 1;
                        }
                        proof {
                            assert(civ.take(cn as int) =~= civ);
                            assert(effective_identity(*e) == civ);
                        }
                    }
                    proof {
                        assert(acc@.map_values(|s: String| s@) == colors_after(
                            cards_db.db@,
                            cards@.take(i + 1 as int),
                        ));
                    }
                },
                None => {
                    proof {
                        assert(acc@.map_values(|s: String| s@) == colors_after(
                            cards_db.db@,
                            cards@.take(i + 1 as int),
                        ));
                    }
                },
            }
            i = i + 1;
        }
        proof {
            assert(cards@.take(n as int) =~= cards@);
        }
        Ok(crate::text::concat_strings(&acc))
    }
}

// ---------------------------------------------------------------------------
// Mulligan inference: the model.
//
// Rules-engine messages are walked in order with a running game counter
// that advances at each intermission. Game-state snapshots where the
// controller owes a mulligan response contribute "offered hands"; mulligan
// requests are grouped by the same counter; client mulligan responses are
// correlated back by game-state id. Hands and requests of a game are zipped
// by position.
// ---------------------------------------------------------------------------

/// The pending-response marker for a mulligan answer.
pub open spec fn pending_mull(p: crate::gre::Player) -> bool {
    p.pending_message_type matches Option::Some(s) && s@ == "ClientMessageType_MulliganResp"@
}

/// Whether the controller's seat shows a pending mulligan response.
pub open spec fn controller_pending(ps: Seq<crate::gre::Player>, c: i32) -> bool {
    exists|j: int|
        0 <= j < ps.len() && (#[trigger] ps[j]).controller_seat_id == c && pending_mull(ps[j])
}

/// Whether both players show a pending mulligan response.
pub open spec fn both_pending(ps: Seq<crate::gre::Player>) -> bool {
    ps.len() == 2 && forall|j: int| 0 <= j < ps.len() ==> pending_mull(#[trigger] ps[j])
}

/// The first hand zone owned by the controller.
pub open spec fn find_hand_zone(zs: Seq<crate::gre::Zone>, c: i32) -> Option<crate::gre::Zone>
    decreases zs.len(),
{
    if zs.len() == 0 {
        Option::None
    } else if zs[0].type_field is Hand && zs[0].owner_seat_id == Option::Some(c) {
        Option::Some(zs[0])
    } else {
        find_hand_zone(zs.drop_first(), c)
    }
}

/// The card objects currently in the given zone, in order.
pub open spec fn hand_cards(objs: Seq<crate::gre::GameObject>, zid: i32) -> Seq<i32>
    decreases objs.len(),
{
    if objs.len() == 0 {
        Seq::empty()
    } else {
        hand_cards(objs.drop_last(), zid) + (if objs.last().zone_id == Option::Some(zid)
            && objs.last().type_field is Card {
            seq![objs.last().grp_id]
        } else {
            Seq::empty()
        })
    }
}

/// The hand a snapshot offers the controller, when it owes a mulligan
/// response and its hand zone can be located; `None` otherwise (a snapshot
/// with no locatable hand zone is skipped, not an error).
pub open spec fn hand_of_gsm(g: crate::gre::GameStateMessage, c: i32) -> Option<Seq<i32>> {
    if controller_pending(g.players@, c) {
        match find_hand_zone(g.zones@, c) {
            Option::Some(z) => Option::Some(hand_cards(g.game_objects@, z.zone_id)),
            Option::None => Option::None,
        }
    } else {
        Option::None
    }
}

/// The play/draw observation a snapshot yields: when both players owe a
/// mulligan response and turn metadata names a decision player, whether
/// that player is the controller.
pub open spec fn pd_of_gsm(g: crate::gre::GameStateMessage, c: i32) -> Option<bool> {
    if both_pending(g.players@) {
        match g.turn_info {
            Option::Some(ti) => match ti.decision_player {
                Option::Some(dp) => Option::Some(dp == c),
                Option::None => Option::None,
            },
            Option::None => Option::None,
        }
    } else {
        Option::None
    }
}

/// How many intermissions (game boundaries) a message prefix holds.
pub open spec fn intermissions_in(ms: Seq<GREToClientMessage>) -> int
    decreases ms.len(),
{
    if ms.len() == 0 {
        0
    } else {
        intermissions_in(ms.drop_last()) + (if ms.last() is IntermissionReq {
            1int
        } else {
            0int
        })
    }
}

/// The running game number after a message prefix; the counter stops at
/// `i32::MAX`, mirroring the executable counter.
pub open spec fn game_at(ms: Seq<GREToClientMessage>) -> int {
    if 1 + intermissions_in(ms) > i32::MAX {
        i32::MAX as int
    } else {
        1 + intermissions_in(ms)
    }
}

/// Every offered hand, tagged with its game number, in order.
pub open spec fn offered_hands(ms: Seq<GREToClientMessage>, c: i32) -> Seq<(int, Seq<i32>)>
    decreases ms.len(),
{
    if ms.len() == 0 {
        Seq::empty()
    } else {
        offered_hands(ms.drop_last(), c) + (match ms.last() {
            GREToClientMessage::GameStateMessage(w) => match hand_of_gsm(w.game_state_message, c) {
                Option::Some(h) => seq![(game_at(ms.drop_last()), h)],
                Option::None => Seq::empty(),
            },
            _ => Seq::empty(),
        })
    }
}

/// Every mulligan request, tagged with its game number, with its game-state
/// id and mulligan count, in order.
pub open spec fn mull_reqs(ms: Seq<GREToClientMessage>) -> Seq<(int, Option<i32>, i32)>
    decreases ms.len(),
{
    if ms.len() == 0 {
        Seq::empty()
    } else {
        mull_reqs(ms.drop_last()) + (match ms.last() {
            GREToClientMessage::MulliganReq(w) => seq![
                (game_at(ms.drop_last()), w.meta.game_state_id, w.mulligan_req.mulligan_count),
            ],
            _ => Seq::empty(),
        })
    }
}

/// Every play/draw observation, tagged with its game number, in order.
pub open spec fn pd_observations(ms: Seq<GREToClientMessage>, c: i32) -> Seq<(int, bool)>
    decreases ms.len(),
{
    if ms.len() == 0 {
        Seq::empty()
    } else {
        pd_observations(ms.drop_last(), c) + (match ms.last() {
            GREToClientMessage::GameStateMessage(w) => match pd_of_gsm(w.game_state_message, c) {
                Option::Some(b) => seq![(game_at(ms.drop_last()), b)],
                Option::None => Seq::empty(),
            },
            _ => Seq::empty(),
        })
    }
}

/// The last observation recorded for a game (later ones overwrite earlier
/// ones).
pub open spec fn last_obs(obs: Seq<(int, bool)>, g: int) -> Option<bool>
    decreases obs.len(),
{
    if obs.len() == 0 {
        Option::None
    } else if obs.last().0 == g {
        Option::Some(obs.last().1)
    } else {
        last_obs(obs.drop_last(), g)
    }
}

/// The hands offered in game `g`, in order.
pub open spec fn select_hands(oh: Seq<(int, Seq<i32>)>, g: int) -> Seq<Seq<i32>>
    decreases oh.len(),
{
    if oh.len() == 0 {
        Seq::empty()
    } else {
        select_hands(oh.drop_last(), g) + (if oh.last().0 == g {
            seq![oh.last().1]
        } else {
            Seq::empty()
        })
    }
}

/// The mulligan requests of game `g`, in order.
pub open spec fn select_reqs(mr: Seq<(int, Option<i32>, i32)>, g: int) -> Seq<(Option<i32>, i32)>
    decreases mr.len(),
{
    if mr.len() == 0 {
        Seq::empty()
    } else {
        select_reqs(mr.drop_last(), g) + (if mr.last().0 == g {
            seq![(mr.last().1, mr.last().2)]
        } else {
            Seq::empty()
        })
    }
}

/// The decision of the last client mulligan response answering the given
/// game-state id.
pub open spec fn response_decision(
    cs: Seq<RequestTypeClientToMatchServiceMessage>,
    gsid: i32,
) -> Option<Seq<char>>
    decreases cs.len(),
{
    if cs.len() == 0 {
        Option::None
    } else {
        match cs.last().payload {
            ClientMessage::MulliganResp(m) => {
                if m.game_state_id == gsid {
                    Option::Some(m.mulligan_response.decision@)
                } else {
                    response_decision(cs.drop_last(), gsid)
                }
            },
            _ => response_decision(cs.drop_last(), gsid),
        }
    }
}

/// The label recorded for a decision point: the matched response's choice,
/// or "Match Ended" when no response exists.
pub open spec fn decision_label(
    cs: Seq<RequestTypeClientToMatchServiceMessage>,
    gsid: i32,
) -> Seq<char> {
    match response_decision(cs, gsid) {
        Option::Some(d) => if d == "MulliganOption_AcceptHand"@ {
            "Keep"@
        } else {
            "Mulligan"@
        },
        Option::None => "Match Ended"@,
    }
}

/// `7 - mulligan_count`, clamped to the 32-bit range.
pub open spec fn keep_count(count: i32) -> int {
    if 7 - count > i32::MAX {
        i32::MAX as int
    } else if 7 - count < i32::MIN {
        i32::MIN as int
    } else {
        7 - count
    }
}

/// One inferred mulligan decision point, at the specification level.
pub struct MulliganRecord {
    pub game: int,
    pub keep: int,
    pub hand: Seq<i32>,
    pub is_play: bool,
    pub identity: Seq<char>,
    pub decision: Seq<char>,
}

/// The records of game `g` built from its first `k` offered hands, each
/// zipped by position against the game's requests; a hand with no request
/// or whose request lacks a game-state id is skipped.
pub open spec fn game_records_upto(
    g: int,
    hands: Seq<Seq<i32>>,
    reqs: Seq<(Option<i32>, i32)>,
    cs: Seq<RequestTypeClientToMatchServiceMessage>,
    is_play: bool,
    identity: Seq<char>,
    k: int,
) -> Seq<MulliganRecord>
    decreases k,
{
    if k <= 0 {
        Seq::empty()
    } else {
        let prev = game_records_upto(g, hands, reqs, cs, is_play, identity, k - 1);
        let idx = k - 1;
        if idx >= reqs.len() {
            prev
        } else {
            match reqs[idx].0 {
                Option::None => prev,
                Option::Some(gsid) => prev + seq![
                    MulliganRecord {
                        game: g,
                        keep: keep_count(reqs[idx].1),
                        hand: hands[idx],
                        is_play,
                        identity: if g == 1 {
                            "Unknown"@
                        } else {
                            identity
                        },
                        decision: decision_label(cs, gsid),
                    },
                ],
            }
        }
    }
}

/// Whether game `g` can be processed: a game with offered hands must have
/// at least one request and a play/draw observation.
pub open spec fn no_game_error(
    oh: Seq<(int, Seq<i32>)>,
    mr: Seq<(int, Option<i32>, i32)>,
    obs: Seq<(int, bool)>,
    g: int,
) -> bool {
    select_hands(oh, g).len() > 0 ==> (select_reqs(mr, g).len() > 0 && last_obs(obs, g) is Some)
}

/// All records of game `g` (empty when it offered no hands).
pub open spec fn game_records_all(
    g: int,
    oh: Seq<(int, Seq<i32>)>,
    mr: Seq<(int, Option<i32>, i32)>,
    obs: Seq<(int, bool)>,
    cs: Seq<RequestTypeClientToMatchServiceMessage>,
    identity: Seq<char>,
) -> Seq<MulliganRecord> {
    let hands = select_hands(oh, g);
    let is_play = last_obs(obs, g) == Option::Some(true);
    game_records_upto(g, hands, select_reqs(mr, g), cs, is_play, identity, hands.len() as int)
}

/// The records of every game before `g`, concatenated in game order.
pub open spec fn all_records_upto(
    g: int,
    oh: Seq<(int, Seq<i32>)>,
    mr: Seq<(int, Option<i32>, i32)>,
    obs: Seq<(int, bool)>,
    cs: Seq<RequestTypeClientToMatchServiceMessage>,
    identity: Seq<char>,
) -> Seq<MulliganRecord>
    decreases g,
{
    if g <= 1 {
        Seq::empty()
    } else {
        all_records_upto(g - 1, oh, mr, obs, cs, identity) + game_records_all(
            g - 1,
            oh,
            mr,
            obs,
            cs,
            identity,
        )
    }
}

/// Walking the games from `g` to `max`: the first game with offered hands
/// but no requests aborts with a missing-requests error, one with no
/// play/draw observation with a missing-play-draw error; otherwise the
/// games' records are concatenated.
pub open spec fn records_from(
    g: int,
    max: int,
    oh: Seq<(int, Seq<i32>)>,
    mr: Seq<(int, Option<i32>, i32)>,
    obs: Seq<(int, bool)>,
    cs: Seq<RequestTypeClientToMatchServiceMessage>,
    identity: Seq<char>,
) -> Result<Seq<MulliganRecord>, AnalyticsError>
    decreases max + 1 - g,
{
    if g > max {
        Result::Ok(Seq::empty())
    } else if select_hands(oh, g).len() == 0 {
        records_from(g + 1, max, oh, mr, obs, cs, identity)
    } else if select_reqs(mr, g).len() == 0 {
        Result::Err(AnalyticsError::MulliganRequestsNotFound)
    } else {
        match last_obs(obs, g) {
            Option::None => Result::Err(AnalyticsError::PlayDrawNotFound),
            Option::Some(_) => match records_from(g + 1, max, oh, mr, obs, cs, identity) {
                Result::Err(e) => Result::Err(e),
                Result::Ok(rest) => Result::Ok(
                    game_records_all(g, oh, mr, obs, cs, identity) + rest,
                ),
            },
        }
    }
}

/// The whole mulligan-inference outcome over a replay's stream.
pub open spec fn mull_outcome(
    events: Seq<MatchReplayEvent>,
    db: Seq<(i32, crate::cards::CardDbEntry)>,
) -> Result<Seq<MulliganRecord>, AnalyticsError> {
    let gres = gre_messages_of(events);
    let cs = client_messages_of(events);
    match first_connect_seat(gres) {
        Option::None => Result::Err(AnalyticsError::ControllerSeatIdNotFound),
        Option::Some(c) => {
            let identity = crate::text::concat_all(
                colors_after(db, opponent_cards_of(gres, c)),
            );
            records_from(
                1,
                game_at(gres),
                offered_hands(gres, c),
                mull_reqs(gres),
                pd_observations(gres, c),
                cs,
                identity,
            )
        },
    }
}

/// How one derived mulligan record relates to its specification-level
/// counterpart.
pub open spec fn record_matches(
    mi: crate::models::MulliganInfo,
    rec: MulliganRecord,
    match_id: Seq<char>,
) -> bool {
    &&& mi.match_id@ == match_id
    &&& mi.game_number as int == rec.game
    &&& mi.number_to_keep as int == rec.keep
    &&& mi.hand@ == crate::text::join_dec(rec.hand)
    &&& mi.play_draw@ == (if rec.is_play {
        "Play"@
    } else {
        "Draw"@
    })
    &&& mi.opponent_identity@ == rec.identity
    &&& mi.decision@ == rec.decision
}

proof fn lemma_records_prefix(
    g: int,
    max: int,
    oh: Seq<(int, Seq<i32>)>,
    mr: Seq<(int, Option<i32>, i32)>,
    obs: Seq<(int, bool)>,
    cs: Seq<RequestTypeClientToMatchServiceMessage>,
    identity: Seq<char>,
)
    requires
        1 <= g <= max + 1,
        forall|g2: int| 1 <= g2 < g ==> no_game_error(oh, mr, obs, g2),
    ensures
        records_from(1, max, oh, mr, obs, cs, identity) == (match records_from(
            g,
            max,
            oh,
            mr,
            obs,
            cs,
            identity,
        ) {
            Result::Err(e) => Result::<Seq<MulliganRecord>, AnalyticsError>::Err(e),
            Result::Ok(rest) => Result::<
                Seq<MulliganRecord>,
                AnalyticsError,
            >::Ok(all_records_upto(g, oh, mr, obs, cs, identity) + rest),
        }),
    decreases g,
{
    if g == 1 {
        match records_from(1, max, oh, mr, obs, cs, identity) {
            Result::Err(e) => {},
            Result::Ok(rest) => {
                assert(all_records_upto(1, oh, mr, obs, cs, identity) + rest =~= rest);
            },
        }
    } else {
        lemma_records_prefix(g - 1, max, oh, mr, obs, cs, identity);
        assert(no_game_error(oh, mr, obs, g - 1));
        let prev = all_records_upto(g - 1, oh, mr, obs, cs, identity);
        let here = game_records_all(g - 1, oh, mr, obs, cs, identity);
        assert(all_records_upto(g, oh, mr, obs, cs, identity) == prev + here);
        if select_hands(oh, g - 1).len() == 0 {
            assert(records_from(g - 1, max, oh, mr, obs, cs, identity) == records_from(
                g,
                max,
                oh,
                mr,
                obs,
                cs,
                identity,
            ));
            assert(here == game_records_upto(
                g - 1,
                select_hands(oh, g - 1),
                select_reqs(mr, g - 1),
                cs,
                last_obs(obs, g - 1) == Option::Some(true),
                identity,
                0,
            ));
            assert(here =~= Seq::<MulliganRecord>::empty());
            match records_from(g, max, oh, mr, obs, cs, identity) {
                Result::Err(e) => {},
                Result::Ok(rest) => {
                    assert(prev + here + rest =~= prev + rest);
                    assert((prev + here) + rest =~= prev + (here + rest));
                    assert(here + rest =~= rest);
                },
            }
        } else {
            assert(select_reqs(mr, g - 1).len() > 0);
            assert(last_obs(obs, g - 1) is Some);
            match records_from(g, max, oh, mr, obs, cs, identity) {
                Result::Err(e) => {
                    assert(records_from(g - 1, max, oh, mr, obs, cs, identity)
                        == Result::<Seq<MulliganRecord>, AnalyticsError>::Err(e));
                },
                Result::Ok(rest) => {
                    assert(records_from(g - 1, max, oh, mr, obs, cs, identity) == Result::<
                        Seq<MulliganRecord>,
                        AnalyticsError,
                    >::Ok(here + rest));
                    assert(prev + (here + rest) =~= (prev + here) + rest);
                },
            }
        }
    }
}

impl MatchReplay {
    /// The inferred mulligan decision points of the match: for each game,
    /// its offered hands zipped in order against its mulligan requests,
    /// each labeled with `7 - mulligan_count` cards to keep, the game's
    /// play/draw designation, the opponent's color identity ("Unknown" for
    /// the first game), and the decision taken ("Keep", "Mulligan", or
    /// "Match Ended" when no response exists).
    #[verifier::loop_isolation(false)]
    pub fn get_mulligan_infos(&self, cards_db: &CardsDatabase) -> (r: Result<
        Vec<crate::models::MulliganInfo>,
        AnalyticsError,
    >)
        ensures
            match mull_outcome(self.client_server_messages@, cards_db.db@) {
                Result::Err(e) => r == Result::<
                    Vec<crate::models::MulliganInfo>,
                    AnalyticsError,
                >::Err(e),
                Result::Ok(recs) => match r {
                    Ok(v) => v@.len() == recs.len() && forall|j: int|
                        0 <= j < recs.len() ==> record_matches(
                            #[trigger] v@[j],
                            recs[j],
                            self.match_id@,
                        ),
                    Err(_) => false,
                },
            },
    {
        let ghost gres = gre_messages_of(self.client_server_messages@);
        let controller = match self.get_controller_seat_id() {
            Ok(c) => c,
            Err(e) => {
                return Err(e);
            },
        };
        let identity = match self.get_opponent_color_identity(cards_db) {
            Ok(s) => s,
            Err(_) => {
                // The color identity query fails only when the controller is
                // unknown, which the call above already ruled out.
                proof {
                    assert(false);
                }
                return Err(AnalyticsError::ControllerSeatIdNotFound);
            },
        };
        let ghost ohs = offered_hands(gres, controller);
        let ghost mrs = mull_reqs(gres);
        let ghost obss = pd_observations(gres, controller);
        let ghost css = client_messages_of(self.client_server_messages@);
        let ghost idspec = identity@;

        // One pass over the stream: offered hands, requests, and play/draw
        // observations tagged with the running game counter, and the client
        // messages for response correlation.
        let events = &self.client_server_messages;
        let n = events.len();
        let mut ohv: Vec<(i32, Vec<i32>)> = Vec::new();
        let mut mrv: Vec<(i32, Option<i32>, i32)> = Vec::new();
        let mut obsv: Vec<(i32, bool)> = Vec::new();
        let mut csv: Vec<&RequestTypeClientToMatchServiceMessage> = Vec::new();
        let mut gn: i32 = 1;
        let mut i: usize = 0;
        while i < n
            invariant
                n == events@.len(),
                i <= n,
                events == &self.client_server_messages,
                gn as int == game_at(gre_messages_of(events@.take(i as int))),
                oh_matches(ohv@, offered_hands(gre_messages_of(events@.take(i as int)), controller)),
                mr_matches(mrv@, mull_reqs(gre_messages_of(events@.take(i as int)))),
                obsv@.map_values(|p: (i32, bool)| (p.0 as int, p.1)) == pd_observations(
                    gre_messages_of(events@.take(i as int)),
                    controller,
                ),
                csv@.map_values(|x: &RequestTypeClientToMatchServiceMessage| *x)
                    == client_messages_of(events@.take(i as int)),
            decreases n - i,
        {
            let ghost base = gre_messages_of(events@.take(i as int));
            let ghost cmbase = client_messages_of(events@.take(i as int));
            proof {
                let t = events@.take(i + 1 as int);
                assert(t.drop_last() =~= events@.take(i as int));
                assert(t.last() == events@[i as int]);
            }
            match &events[i] {
                MatchReplayEvent::GRE(e) => {
                    let inner = &e.gre_to_client_event.gre_to_client_messages;
                    let m = inner.len();
                    let mut j: usize = 0;
                    while j < m
                        invariant
                            m == inner@.len(),
                            j <= m,
                            i < n,
                            n == events@.len(),
                            events == &self.client_server_messages,
                            events@[i as int] matches MatchReplayEvent::GRE(e2)
                                && e2.gre_to_client_event.gre_to_client_messages@ == inner@,
                            base == gre_messages_of(events@.take(i as int)),
                            gn as int == game_at(base + inner@.take(j as int)),
                            oh_matches(
                                ohv@,
                                offered_hands(base + inner@.take(j as int), controller),
                            ),
                            mr_matches(mrv@, mull_reqs(base + inner@.take(j as int))),
                            obsv@.map_values(|p: (i32, bool)| (p.0 as int, p.1))
                                == pd_observations(base + inner@.take(j as int), controller),
                            csv@.map_values(|x: &RequestTypeClientToMatchServiceMessage| *x)
                                == client_messages_of(events@.take(i as int)),
                        decreases m - j,
                    {
                        let ghost proc = base + inner@.take(j as int);
                        proof {
                            let p2 = base + inner@.take(j + 1 as int);
                            assert(p2.drop_last() =~= proc);
                            assert(p2.last() == inner@[j as int]);
                        }
                        match &inner[j] {
                            GREToClientMessage::GameStateMessage(w) => {
                                let ghost oh0 = ohv@;
                                let ghost obs0 = obsv@;
                                match gsm_hand(&w.game_state_message, controller) {
                                    Some(h) => {
                                        ohv.push((gn, h));
                                        proof {
                                            assert(forall|t: int|
                                                0 <= t < oh0.len() ==> ohv@[t] == oh0[t]);
                                        }
                                    },
                                    None => {},
                                }
                                match gsm_pd_obs(&w.game_state_message, controller) {
                                    Some(b) => {
                                        obsv.push((gn, b));
                                        proof {
                                            assert(obsv@.map_values(
                                                |p: (i32, bool)| (p.0 as int, p.1),
                                            ) =~= obs0.map_values(
                                                |p: (i32, bool)| (p.0 as int, p.1),
                                            ) + seq![(gn as int, b)]);
                                        }
                                    },
                                    None => {},
                                }
                                proof {
                                    assert(oh_matches(
                                        ohv@,
                                        offered_hands(
                                            base + inner@.take(j + 1 as int),
                                            controller,
                                        ),
                                    ));
                                    assert(obsv@.map_values(|p: (i32, bool)| (p.0 as int, p.1))
                                        =~= pd_observations(
                                        base + inner@.take(j + 1 as int),
                                        controller,
                                    ));
                                    assert(mr_matches(
                                        mrv@,
                                        mull_reqs(base + inner@.take(j + 1 as int)),
                                    ));
                                }
                            },
                            GREToClientMessage::MulliganReq(w) => {
                                let ghost mr0 = mrv@;
                                mrv.push((gn, w.meta.game_state_id, w.mulligan_req.mulligan_count));
                                proof {
                                    assert(forall|t: int| 0 <= t < mr0.len() ==> mrv@[t] == mr0[t]);
                                    assert(mr_matches(
                                        mrv@,
                                        mull_reqs(base + inner@.take(j + 1 as int)),
                                    ));
                                    assert(oh_matches(
                                        ohv@,
                                        offered_hands(
                                            base + inner@.take(j + 1 as int),
                                            controller,
                                        ),
                                    ));
                                    assert(obsv@.map_values(|p: (i32, bool)| (p.0 as int, p.1))
                                        =~= pd_observations(
                                        base + inner@.take(j + 1 as int),
                                        controller,
                                    ));
                                }
                            },
                            GREToClientMessage::IntermissionReq(_) => {
                                if gn < i32::MAX {
                                    gn = gn + 1;
                                }
                                proof {
                                    assert(oh_matches(
                                        ohv@,
                                        offered_hands(
                                            base + inner@.take(j + 1 as int),
                                            controller,
                                        ),
                                    ));
                                    assert(mr_matches(
                                        mrv@,
                                        mull_reqs(base + inner@.take(j + 1 as int)),
                                    ));
                                    assert(obsv@.map_values(|p: (i32, bool)| (p.0 as int, p.1))
                                        =~= pd_observations(
                                        base + inner@.take(j + 1 as int),
                                        controller,
                                    ));
                                }
                            },
                            _ => {
                                proof {
                                    assert(oh_matches(
                                        ohv@,
                                        offered_hands(
                                            base + inner@.take(j + 1 as int),
                                            controller,
                                        ),
                                    ));
                                    assert(mr_matches(
                                        mrv@,
                                        mull_reqs(base + inner@.take(j + 1 as int)),
                                    ));
                                    assert(obsv@.map_values(|p: (i32, bool)| (p.0 as int, p.1))
                                        =~= pd_observations(
                                        base + inner@.take(j + 1 as int),
                                        controller,
                                    ));
                                }
                            },
                        }
                        j = j + 1;
                    }
                    proof {
                        assert(inner@.take(m as int) =~= inner@);
                        assert(gre_messages_of(events@.take(i + 1 as int)) == base + inner@);
                        assert(client_messages_of(events@.take(i + 1 as int)) =~= cmbase);
                    }
                },
                MatchReplayEvent::Client(c) => {
                    let ghost cs0 = csv@;
                    csv.push(c);
                    proof {
                        assert(client_messages_of(events@.take(i + 1 as int)) == cmbase + seq![*c]);
                        assert(csv@.map_values(|x: &RequestTypeClientToMatchServiceMessage| *x)
                            =~= cs0.map_values(|x: &RequestTypeClientToMatchServiceMessage| *x)
                            + seq![*c]);
                        assert(gre_messages_of(events@.take(i + 1 as int)) =~= base);
                    }
                },
                _ => {
                    proof {
                        assert(gre_messages_of(events@.take(i + 1 as int)) =~= base);
                        assert(client_messages_of(events@.take(i + 1 as int)) =~= cmbase);
                    }
                },
            }
            i = i + 1;
        }
        proof {
            assert(events@.take(n as int) =~= events@);
            lemma_intermissions_nonneg(gres);
        }
        let ghost max = game_at(gres);

        // Walk the games in ascending order, zipping each game's hands
        // against its requests.
        let mut out: Vec<crate::models::MulliganInfo> = Vec::new();
        let mut gu: i64 = 1;
        while gu <= gn as i64
            invariant
                1 <= gu <= gn as i64 + 1,
                gn as int == max,
                oh_matches(ohv@, ohs),
                mr_matches(mrv@, mrs),
                obsv@.map_values(|p: (i32, bool)| (p.0 as int, p.1)) == obss,
                csv@.map_values(|x: &RequestTypeClientToMatchServiceMessage| *x) == css,
                identity@ == idspec,
                forall|g2: int| 1 <= g2 < gu ==> no_game_error(ohs, mrs, obss, g2),
                out@.len() == all_records_upto(gu as int, ohs, mrs, obss, css, idspec).len(),
                forall|t: int|
                    0 <= t < out@.len() ==> record_matches(
                        #[trigger] out@[t],
                        all_records_upto(gu as int, ohs, mrs, obss, css, idspec)[t],
                        self.match_id@,
                    ),
            decreases gn as i64 + 1 - gu,
        {
            let g: i32 = gu as i32;
            let ghost hands_spec = select_hands(ohs, g as int);
            let ghost reqs_spec = select_reqs(mrs, g as int);

            // The hands and requests of this game, in order.
            let mut hands_g: Vec<Vec<i32>> = Vec::new();
            let on = ohv.len();
            let mut oi: usize = 0;
            while oi < on
                invariant
                    on == ohv@.len(),
                    oi <= on,
                    oh_matches(ohv@, ohs),
                    hands_g@.len() == select_hands(ohs.take(oi as int), g as int).len(),
                    forall|t: int|
                        0 <= t < hands_g@.len() ==> (#[trigger] hands_g@[t])@ == select_hands(
                            ohs.take(oi as int),
                            g as int,
                        )[t],
                decreases on - oi,
            {
                let ghost h0 = hands_g@;
                proof {
                    let u = ohs.take(oi + 1 as int);
                    assert(u.drop_last() =~= ohs.take(oi as int));
                    assert(u.last() == ohs[oi as int]);
                }
                if ohv[oi].0 == g {
                    hands_g.push(copy_i32_vec(&ohv[oi].1));
                    proof {
                        assert(forall|t: int| 0 <= t < h0.len() ==> hands_g@[t] == h0[t]);
                    }
                }
                oi = oi + 1;
            }
            proof {
                assert(ohs.take(on as int) =~= ohs);
            }
            let mut reqs_g: Vec<(Option<i32>, i32)> = Vec::new();
            let rn = mrv.len();
            let mut ri: usize = 0;
            while ri < rn
                invariant
                    rn == mrv@.len(),
                    ri <= rn,
                    mr_matches(mrv@, mrs),
                    reqs_g@.len() == select_reqs(mrs.take(ri as int), g as int).len(),
                    forall|t: int|
                        0 <= t < reqs_g@.len() ==> #[trigger] reqs_g@[t] == select_reqs(
                            mrs.take(ri as int),
                            g as int,
                        )[t],
                decreases rn - ri,
            {
                let ghost r0 = reqs_g@;
                proof {
                    let u = mrs.take(ri + 1 as int);
                    assert(u.drop_last() =~= mrs.take(ri as int));
                    assert(u.last() == mrs[ri as int]);
                }
                if mrv[ri].0 == g {
                    reqs_g.push((mrv[ri].1, mrv[ri].2));
                    proof {
                        assert(forall|t: int| 0 <= t < r0.len() ==> reqs_g@[t] == r0[t]);
                    }
                }
                ri = ri + 1;
            }
            proof {
                assert(mrs.take(rn as int) =~= mrs);
            }

            proof {
                assert(g as int == gu as int);
            }
            if hands_g.len() > 0 {
                if reqs_g.len() == 0 {
                    proof {
                        assert(select_hands(ohs, gu as int).len() > 0);
                        assert(select_reqs(mrs, gu as int).len() == 0);
                        assert(records_from(gu as int, max, ohs, mrs, obss, css, idspec)
                            == Result::<
                            Seq<MulliganRecord>,
                            AnalyticsError,
                        >::Err(AnalyticsError::MulliganRequestsNotFound));
                        lemma_records_prefix(gu as int, max, ohs, mrs, obss, css, idspec);
                        assert(records_from(1, max, ohs, mrs, obss, css, idspec) == Result::<
                            Seq<MulliganRecord>,
                            AnalyticsError,
                        >::Err(AnalyticsError::MulliganRequestsNotFound));
                        assert(first_connect_seat(gres) == Option::Some(controller));
                        assert(idspec == crate::text::concat_all(
                            colors_after(cards_db.db@, opponent_cards_of(gres, controller)),
                        ));
                        assert(mull_outcome(self.client_server_messages@, cards_db.db@)
                            == records_from(1, max, ohs, mrs, obss, css, idspec));
                    }
                    return Err(AnalyticsError::MulliganRequestsNotFound);
                }
                let is_play = match lookup_obs(&obsv, g) {
                    Some(b) => b,
                    None => {
                        proof {
                            assert(select_hands(ohs, gu as int).len() > 0);
                            assert(select_reqs(mrs, gu as int).len() > 0);
                            assert(last_obs(obss, gu as int) is None);
                            assert(records_from(gu as int, max, ohs, mrs, obss, css, idspec)
                                == Result::<
                                Seq<MulliganRecord>,
                                AnalyticsError,
                            >::Err(AnalyticsError::PlayDrawNotFound));
                            lemma_records_prefix(gu as int, max, ohs, mrs, obss, css, idspec);
                        }
                        return Err(AnalyticsError::PlayDrawNotFound);
                    },
                };
                let hn = hands_g.len();
                let mut k: usize = 0;
                while k < hn
                    invariant
                        hn == hands_g@.len(),
                        k <= hn,
                        1 <= gu <= gn as i64,
                        g == gu as i32,
                        gn as int == max,
                        identity@ == idspec,
                        csv@.map_values(|x: &RequestTypeClientToMatchServiceMessage| *x) == css,
                        hands_g@.len() == hands_spec.len(),
                        forall|t: int|
                            0 <= t < hands_g@.len() ==> (#[trigger] hands_g@[t])@
                                == hands_spec[t],
                        reqs_g@.len() == reqs_spec.len(),
                        forall|t: int|
                            0 <= t < reqs_g@.len() ==> #[trigger] reqs_g@[t] == reqs_spec[t],
                        last_obs(obss, g as int) == Option::Some(is_play),
                        out@.len() == (all_records_upto(gu as int, ohs, mrs, obss, css, idspec)
                            + game_records_upto(
                            g as int,
                            hands_spec,
                            reqs_spec,
                            css,
                            is_play,
                            idspec,
                            k as int,
                        )).len(),
                        forall|t: int|
                            0 <= t < out@.len() ==> record_matches(
                                #[trigger] out@[t],
                                (all_records_upto(gu as int, ohs, mrs, obss, css, idspec)
                                    + game_records_upto(
                                    g as int,
                                    hands_spec,
                                    reqs_spec,
                                    css,
                                    is_play,
                                    idspec,
                                    k as int,
                                ))[t],
                                self.match_id@,
                            ),
                    decreases hn - k,
                {
                    let ghost o0 = out@;
                    if k < reqs_g.len() {
                        match reqs_g[k].0 {
                            Some(gsid) => {
                                let hand_str = crate::text::join_i32(&hands_g[k]);
                                let count = reqs_g[k].1;
                                let kk: i64 = 7i64 - (count as i64);
                                let keep: i32 = if kk > i32::MAX as i64 {
                                    i32::MAX
                                } else if kk < i32::MIN as i64 {
                                    i32::MIN
                                } else {
                                    kk as i32
                                };
                                let decision = match lookup_decision(&csv, gsid) {
                                    Some(d) => {
                                        if str_eq(d.as_str(), "MulliganOption_AcceptHand") {
                                            String::from_str("Keep")
                                        } else {
                                            String::from_str("Mulligan")
                                        }
                                    },
                                    None => String::from_str("Match Ended"),
                                };
                                let play_draw = if is_play {
                                    String::from_str("Play")
                                } else {
                                    String::from_str("Draw")
                                };
                                let opponent_identity = if g == 1 {
                                    String::from_str("Unknown")
                                } else {
                                    identity.clone()
                                };
                                out.push(
                                    crate::models::MulliganInfo {
                                        match_id: self.match_id.clone(),
                                        game_number: g,
                                        number_to_keep: keep,
                                        hand: hand_str,
                                        play_draw,
                                        opponent_identity,
                                        decision,
                                    },
                                );
                                proof {
                                    assert(forall|t: int| 0 <= t < o0.len() ==> out@[t] == o0[t]);
                                    assert(reqs_g@[k as int] == reqs_spec[k as int]);
                                    assert(hands_g@[k as int]@ == hands_spec[k as int]);
                                    assert(keep as int == keep_count(count));
                                    assert(decision@ == decision_label(css, gsid));
                                }
                            },
                            None => {
                                proof {
                                    assert(reqs_g@[k as int] == reqs_spec[k as int]);
                                }
                            },
                        }
                    }
                    k = k + 1;
                }
                proof {
                    assert(game_records_upto(
                        g as int,
                        hands_spec,
                        reqs_spec,
                        css,
                        is_play,
                        idspec,
                        hn as int,
                    ) == game_records_all(g as int, ohs, mrs, obss, css, idspec)) by {
                        assert((last_obs(obss, g as int) == Option::Some(true)) == is_play);
                    }
                    assert(all_records_upto(gu as int + 1, ohs, mrs, obss, css, idspec)
                        == all_records_upto(gu as int, ohs, mrs, obss, css, idspec)
                        + game_records_all(g as int, ohs, mrs, obss, css, idspec));
                    assert(no_game_error(ohs, mrs, obss, gu as int));
                }
            } else {
                proof {
                    assert(game_records_all(g as int, ohs, mrs, obss, css, idspec)
                        =~= Seq::<MulliganRecord>::empty());
                    assert(all_records_upto(gu as int + 1, ohs, mrs, obss, css, idspec)
                        =~= all_records_upto(gu as int, ohs, mrs, obss, css, idspec));
                    assert(no_game_error(ohs, mrs, obss, gu as int));
                }
            }
            gu = gu + 1;
        }
        proof {
            lemma_records_prefix(max + 1, max, ohs, mrs, obss, css, idspec);
            assert(all_records_upto(max + 1, ohs, mrs, obss, css, idspec)
                + Seq::<MulliganRecord>::empty() =~= all_records_upto(
                max + 1,
                ohs,
                mrs,
                obss,
                css,
                idspec,
            ));
        }
        Ok(out)
    }
}

proof fn lemma_intermissions_nonneg(ms: Seq<GREToClientMessage>)
    ensures
        intermissions_in(ms) >= 0,
    decreases ms.len(),
{
    if ms.len() > 0 {
        lemma_intermissions_nonneg(ms.drop_last());
    }
}

/// Element-for-element correspondence between the collected hand entries
/// and their specification counterparts.
pub open spec fn oh_matches(v: Seq<(i32, Vec<i32>)>, s: Seq<(int, Seq<i32>)>) -> bool {
    &&& v.len() == s.len()
    &&& forall|t: int|
        0 <= t < v.len() ==> (#[trigger] v[t]).0 as int == s[t].0 && v[t].1@ == s[t].1
}

/// Element-for-element correspondence between the collected request entries
/// and their specification counterparts.
pub open spec fn mr_matches(v: Seq<(i32, Option<i32>, i32)>, s: Seq<(int, Option<i32>, i32)>) -> bool {
    &&& v.len() == s.len()
    &&& forall|t: int|
        0 <= t < v.len() ==> (#[trigger] v[t]).0 as int == s[t].0 && v[t].1 == s[t].1 && v[t].2
            == s[t].2
}

fn pending_mull_exec(p: &crate::gre::Player) -> (r: bool)
    ensures
        r == pending_mull(*p),
{
    match &p.pending_message_type {
        Some(s) => str_eq(s.as_str(), "ClientMessageType_MulliganResp"),
        None => false,
    }
}

fn players_controller_pending(ps: &Vec<crate::gre::Player>, c: i32) -> (r: bool)
    ensures
        r == controller_pending(ps@, c),
{
    let n = ps.len();
    let mut i: usize = 0;
    while i < n
        invariant
            n == ps@.len(),
            i <= n,
            forall|j: int|
                0 <= j < i ==> !((#[trigger] ps@[j]).controller_seat_id == c && pending_mull(
                    ps@[j],
                )),
        decreases n - i,
    {
        if ps[i].controller_seat_id == c && pending_mull_exec(&ps[i]) {
            return true;
        }
        i = i + 1;
    }
    false
}

fn players_both_pending(ps: &Vec<crate::gre::Player>) -> (r: bool)
    ensures
        r == both_pending(ps@),
{
    let n = ps.len();
    if n != 2 {
        return false;
    }
    let mut i: usize = 0;
    while i < n
        invariant
            n == ps@.len(),
            i <= n,
            forall|j: int| 0 <= j < i ==> pending_mull(#[trigger] ps@[j]),
        decreases n - i,
    {
        if !pending_mull_exec(&ps[i]) {
            return false;
        }
        i = i + 1;
    }
    true
}

fn find_hand_zone_vec<'a>(zs: &'a Vec<crate::gre::Zone>, c: i32) -> (r: Option<
    &'a crate::gre::Zone,
>)
    ensures
        match r {
            Option::Some(z) => find_hand_zone(zs@, c) == Option::Some(*z),
            Option::None => find_hand_zone(zs@, c) is None,
        },
{
    let n = zs.len();
    let mut i: usize = 0;
    proof {
        assert(zs@.skip(0) =~= zs@);
    }
    while i < n
        invariant
            n == zs@.len(),
            i <= n,
            find_hand_zone(zs@.skip(i as int), c) == find_hand_zone(zs@, c),
        decreases n - i,
    {
        proof {
            assert(zs@.skip(i as int)[0] == zs@[i as int]);
            assert(zs@.skip(i as int).drop_first() =~= zs@.skip(i + 1 as int));
        }
        let is_hand = match zs[i].type_field {
            crate::gre::ZoneType::Hand => true,
            _ => false,
        };
        let owned = match zs[i].owner_seat_id {
            Some(o) => o == c,
            None => false,
        };
        if is_hand && owned {
            return Some(&zs[i]);
        }
        i = i + 1;
    }
    proof {
        assert(zs@.skip(n as int).len() == 0);
    }
    None
}

fn collect_hand(objs: &Vec<crate::gre::GameObject>, zid: i32) -> (r: Vec<i32>)
    ensures
        r@ == hand_cards(objs@, zid),
{
    let n = objs.len();
    let mut out: Vec<i32> = Vec::new();
    let mut i: usize = 0;
    while i < n
        invariant
            n == objs@.len(),
            i <= n,
            out@ == hand_cards(objs@.take(i as int), zid),
        decreases n - i,
    {
        proof {
            let t = objs@.take(i + 1 as int);
            assert(t.drop_last() =~= objs@.take(i as int));
            assert(t.last() == objs@[i as int]);
        }
        let in_zone = match objs[i].zone_id {
            Some(z) => z == zid,
            None => false,
        };
        let is_card = match objs[i].type_field {
            crate::gre::GameObjectType::Card => true,
            _ => false,
        };
        if in_zone && is_card {
            out.push(objs[i].grp_id);
            proof {
                assert(out@ =~= hand_cards(objs@.take(i + 1 as int), zid));
            }
        } else {
            proof {
                assert(out@ =~= hand_cards(objs@.take(i + 1 as int), zid));
            }
        }
        i = i + 1;
    }
    proof {
        assert(objs@.take(n as int) =~= objs@);
    }
    out
}

fn gsm_hand(g: &crate::gre::GameStateMessage, c: i32) -> (r: Option<Vec<i32>>)
    ensures
        match hand_of_gsm(*g, c) {
            Option::Some(h) => r matches Some(v) && v@ == h,
            Option::None => r is None,
        },
{
    if !players_controller_pending(&g.players, c) {
        return None;
    }
    match find_hand_zone_vec(&g.zones, c) {
        Some(z) => Some(collect_hand(&g.game_objects, z.zone_id)),
        None => None,
    }
}

fn gsm_pd_obs(g: &crate::gre::GameStateMessage, c: i32) -> (r: Option<bool>)
    ensures
        r == pd_of_gsm(*g, c),
{
    if !players_both_pending(&g.players) {
        return None;
    }
    match &g.turn_info {
        Some(ti) => match ti.decision_player {
            Some(dp) => Some(dp == c),
            None => None,
        },
        None => None,
    }
}

fn lookup_obs(obs: &Vec<(i32, bool)>, g: i32) -> (r: Option<bool>)
    ensures
        r == last_obs(obs@.map_values(|p: (i32, bool)| (p.0 as int, p.1)), g as int),
{
    let ghost mo = obs@.map_values(|p: (i32, bool)| (p.0 as int, p.1));
    let mut i: usize = obs.len();
    proof {
        assert(mo.take(obs@.len() as int) =~= mo);
    }
    while i > 0
        invariant
            i <= obs@.len(),
            mo == obs@.map_values(|p: (i32, bool)| (p.0 as int, p.1)),
            last_obs(mo, g as int) == last_obs(mo.take(i as int), g as int),
        decreases i,
    {
        proof {
            assert(mo[i - 1] == (obs@[i - 1].0 as int, obs@[i - 1].1));
            assert(mo.take(i as int).last() == mo[i - 1]);
            assert(mo.take(i as int).drop_last() =~= mo.take(i - 1));
        }
        if obs[i - 1].0 == g {
            return Some(obs[i - 1].1);
        }
        i = i - 1;
    }
    proof {
        assert(mo.take(0).len() == 0);
    }
    None
}

fn lookup_decision(cs: &Vec<&RequestTypeClientToMatchServiceMessage>, gsid: i32) -> (r: Option<
    String,
>)
    ensures
        ({
            let s = cs@.map_values(|x: &RequestTypeClientToMatchServiceMessage| *x);
            match response_decision(s, gsid) {
                Option::Some(d) => r matches Some(x) && x@ == d,
                Option::None => r is None,
            }
        }),
{
    let ghost s = cs@.map_values(|x: &RequestTypeClientToMatchServiceMessage| *x);
    let mut i: usize = cs.len();
    proof {
        assert(s.take(cs@.len() as int) =~= s);
    }
    while i > 0
        invariant
            i <= cs@.len(),
            s == cs@.map_values(|x: &RequestTypeClientToMatchServiceMessage| *x),
            response_decision(s, gsid) == response_decision(s.take(i as int), gsid),
        decreases i,
    {
        proof {
            assert(s[i - 1] == *cs@[i - 1]);
            assert(s.take(i as int).last() == s[i - 1]);
            assert(s.take(i as int).drop_last() =~= s.take(i - 1));
        }
        match &cs[i - 1].payload {
            ClientMessage::MulliganResp(m) => {
                if m.game_state_id == gsid {
                    return Some(m.mulligan_response.decision.clone());
                }
            },
            _ => {},
        }
        i = i - 1;
    }
    proof {
        assert(s.take(0).len() == 0);
    }
    None
}

fn copy_final_match_result(f: &FinalMatchResult) -> (r: FinalMatchResult)
    ensures
        r.match_id@ == f.match_id@,
        result_lists_match(r.result_list@, f.result_list@),
{
    let n = f.result_list.len();
    let mut result_list: Vec<crate::mgrsc::ResultList> = Vec::new();
    let mut i: usize = 0;
    while i < n
        invariant
            n == f.result_list@.len(),
            i <= n,
            result_list@.len() == i,
            forall|j: int|
                0 <= j < i ==> (#[trigger] result_list@[j]).scope@ == f.result_list@[j].scope@
                    && result_list@[j].winning_team_id == f.result_list@[j].winning_team_id,
        decreases n - i,
    {
        let ghost r0 = result_list@;
        let entry = &f.result_list[i];
        result_list.push(
            crate::mgrsc::ResultList {
                scope: entry.scope.clone(),
                winning_team_id: entry.winning_team_id,
            },
        );
        proof {
            assert(forall|j: int| 0 <= j < i ==> result_list@[j] == r0[j]);
        }
        i = i + 1;
    }
    FinalMatchResult { match_id: f.match_id.clone(), result_list }
}

} // verus!
