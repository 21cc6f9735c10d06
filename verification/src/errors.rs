//! The error taxonomy: decode failures from the classifier, missing pieces
//! at replay construction, and the named analytics failures.

use vstd::prelude::*;

verus! {

/// A fragment matched a family marker but did not fit that family's
/// structured shape. Non-fatal to the stream: the caller drops the fragment.
#[derive(Debug, Clone, Copy, PartialEq, Eq, Structural)]
pub enum DecodeError {
    /// The fragment is not well-formed JSON at all.
    InvalidJson,
    /// The fragment is JSON but lacks a required field, or a field has an
    /// unusable type or value.
    Malformed,
}

/// `build` was called on a builder still missing a key piece of the match.
#[derive(Debug, Clone, Copy, PartialEq, Eq, Structural)]
pub enum MatchReplayBuilderError {
    MissingMatchId,
    MissingMatchStartMessage,
    MissingMatchEndMessage,
}

impl MatchReplayBuilderError {
    /// A human-readable description of the missing piece.
    pub fn message(&self) -> (r: &'static str)
        ensures
            *self == MatchReplayBuilderError::MissingMatchId ==> r@ == "Missing Match Id"@,
            *self == MatchReplayBuilderError::MissingMatchStartMessage ==> r@
                == "Missing Match Start Message"@,
            *self == MatchReplayBuilderError::MissingMatchEndMessage ==> r@
                == "Missing Match End Message"@,
    {
        match self {
            MatchReplayBuilderError::MissingMatchId => "Missing Match Id",
            MatchReplayBuilderError::MissingMatchStartMessage => "Missing Match Start Message",
            MatchReplayBuilderError::MissingMatchEndMessage => "Missing Match End Message",
        }
    }
}

/// A named analytics failure; each aborts only the query that raised it.
#[derive(Debug, Clone, Copy, PartialEq, Eq, Structural)]
pub enum AnalyticsError {
    /// No connection response carrying a seat id exists in the replay.
    ControllerSeatIdNotFound,
    /// The opening roster is absent or one side of it cannot be found.
    PlayerNamesNotFound,
    /// No connection response carrying the initial decklist exists.
    InitialDecklistNotFound,
    /// The closing message carries no final result list.
    MatchResultsNotFound,
    /// A game with offered hands has no mulligan request at all.
    MulliganRequestsNotFound,
    /// A game with offered hands has no play/draw observation.
    PlayDrawNotFound,
}

} // verus!
