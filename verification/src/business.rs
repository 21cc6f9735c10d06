//! The telemetry family: business events captured opportunistically for the
//! format name and the match start time. Classified last, by a structural
//! decode attempt; a fragment that does not fit is simply no event.

use vstd::prelude::*;

use crate::json::{
    get_field, get_opt_string, json_field, json_is_object, json_object, opt_text_field,
};
use crate::text::opt_str_view;

verus! {

/// The interpreted part of a business event: an event identifier (the format
/// name) and an event time, both optional.
#[derive(Debug, Clone, PartialEq)]
pub struct BusinessEventRequest {
    pub event_id: Option<String>,
    pub event_time: Option<String>,
    pub raw: String,
}

/// A decoded business event, keeping the fragment text it was decoded from.
#[derive(Debug, Clone, PartialEq)]
pub struct RequestTypeBusinessEvent {
    pub request: BusinessEventRequest,
}

/// Whether a business event is worth keeping: it names an event or carries
/// a timestamp of interest.
pub open spec fn business_relevant(b: RequestTypeBusinessEvent) -> bool {
    ||| match b.request.event_id {
        Option::Some(s) => s@.len() > 0,
        Option::None => false,
    }
    ||| b.request.event_time is Some
}

impl RequestTypeBusinessEvent {
    /// A business event is worth keeping when it names an event or carries a
    /// timestamp of interest.
    pub fn is_relevant(&self) -> (r: bool)
        ensures
            r == business_relevant(*self),
    {
        let has_id = match &self.request.event_id {
            Some(s) => s.as_str().unicode_len() > 0,
            None => false,
        };
        has_id || self.request.event_time.is_some()
    }
}

/// A telemetry fragment that decodes: a JSON object whose `request` field
/// is an object with usable optional event id and time.
pub open spec fn business_shape_ok(v: serde_json::Value) -> bool {
    match json_field(v, "request"@) {
        Option::Some(rv) => json_object(rv) && opt_text_field(rv, "EventId"@) is Some
            && opt_text_field(rv, "EventTime"@) is Some,
        Option::None => false,
    }
}

/// How a decoded business event relates to its fragment's tree: the kept
/// event id and time are exactly the request object's fields.
pub open spec fn business_fields_match(m: RequestTypeBusinessEvent, v: serde_json::Value) -> bool {
    match json_field(v, "request"@) {
        Option::Some(rv) => {
            &&& opt_text_field(rv, "EventId"@) == Option::Some(opt_str_view(m.request.event_id))
            &&& opt_text_field(rv, "EventTime"@) == Option::Some(
                opt_str_view(m.request.event_time),
            )
        },
        Option::None => false,
    }
}

/// Attempts the last-resort structural decode of a fragment as a business
/// event: succeeds exactly when the fragment is a JSON object whose
/// `request` field is a usable object; the decoded fields are exactly the
/// tree's. `None` means the fragment is no event; this stage never raises
/// an error.
pub fn decode_business(raw: &str, v: &serde_json::Value) -> (r: Option<RequestTypeBusinessEvent>)
    ensures
        (r is Some) == business_shape_ok(*v),
        r matches Some(m) ==> m.request.raw@ == raw@ && business_fields_match(m, *v),
{
    let rv = match get_field(v, "request") {
        Ok(x) => x,
        Err(_) => {
            return None;
        },
    };
    if !json_is_object(rv) {
        return None;
    }
    let event_id = match get_opt_string(rv, "EventId") {
        Ok(x) => x,
        Err(_) => {
            return None;
        },
    };
    let event_time = match get_opt_string(rv, "EventTime") {
        Ok(x) => x,
        Err(_) => {
            return None;
        },
    };
    Some(
        RequestTypeBusinessEvent {
            request: BusinessEventRequest { event_id, event_time, raw: raw.to_owned() },
        },
    )
}

} // verus!
