//! Fragment extraction and message classification: scanning raw log text
//! for embedded JSON fragments with a brace-depth counter that is stateful
//! across line boundaries, and deciding which message family each extracted
//! fragment belongs to.

use vstd::prelude::*;

use crate::business::{
    business_fields_match, business_shape_ok, decode_business, RequestTypeBusinessEvent,
};
use crate::client::{
    client_fields_match, client_shape_ok, decode_client, RequestTypeClientToMatchServiceMessage,
};
use crate::errors::DecodeError;
use crate::gre::{decode_gre, gre_fields_match, gre_shape_ok, RequestTypeGREToClientEvent};
use crate::json::{json_parse, parsed_json};
use crate::mgrsc::{decode_mgrsc, mgrsc_fields_match, mgrsc_shape_ok, RequestTypeMGRSCEvent};
use crate::text::{chars_to_string, contains_seq, str_contains};

verus! {

/// Mathematical state of the fragment extractor: the in-progress buffer
/// (`None` when the scanner is not inside a fragment) and the brace depth.
pub struct ExtractorState {
    pub buf: Option<Seq<char>>,
    pub depth: nat,
}

/// One scanner step: how a single character transforms the extractor state,
/// together with the fragments (zero or one) it causes to be emitted.
///
/// `{` opens a buffer if none is active and deepens the nesting; `}` closes
/// one level and seals the buffer when the depth returns to zero; space, CR
/// and LF are dropped; any other character is appended to an active buffer
/// and discarded outside of one. The depth counter stops at `usize::MAX`,
/// mirroring the executable counter.
pub open spec fn ext_step(st: ExtractorState, c: char) -> (ExtractorState, Seq<Seq<char>>) {
    if c == '{' {
        let b = match st.buf {
            Option::Some(b) => b,
            Option::None => Seq::empty(),
        };
        let d = if st.depth < usize::MAX as nat {
            (st.depth + 1) as nat
        } else {
            st.depth
        };
        (ExtractorState { buf: Option::Some(b.push('{')), depth: d }, Seq::empty())
    } else if c == '}' {
        match st.buf {
            Option::Some(b) => {
                let b2 = b.push('}');
                let d2: nat = if st.depth > 0 {
                    (st.depth - 1) as nat
                } else {
                    0
                };
                if d2 == 0 {
                    (ExtractorState { buf: Option::None, depth: 0 }, seq![b2])
                } else {
                    (ExtractorState { buf: Option::Some(b2), depth: d2 }, Seq::empty())
                }
            },
            Option::None => (st, Seq::empty()),
        }
    } else if c == ' ' || c == '\n' || c == '\r' {
        (st, Seq::empty())
    } else {
        match st.buf {
            Option::Some(b) => (
                ExtractorState { buf: Option::Some(b.push(c)), depth: st.depth },
                Seq::empty(),
            ),
            Option::None => (st, Seq::empty()),
        }
    }
}

/// Running the scanner over a whole character sequence: the final state and
/// every fragment emitted along the way, in order.
pub open spec fn ext_run(st: ExtractorState, s: Seq<char>) -> (ExtractorState, Seq<Seq<char>>)
    decreases s.len(),
{
    if s.len() == 0 {
        (st, Seq::empty())
    } else {
        let prev = ext_run(st, s.drop_last());
        let step = ext_step(prev.0, s.last());
        (step.0, prev.1 + step.1)
    }
}

/// The state a fresh extractor starts in.
pub open spec fn ext_init() -> ExtractorState {
    ExtractorState { buf: Option::None, depth: 0 }
}

/// Feeding text in one call or split at any point yields the same fragments:
/// running the scanner over `a + b` emits exactly the fragments of running it
/// over `a` and then over `b` from the intermediate state, and ends in the
/// same state.
pub proof fn lemma_extract_split(st: ExtractorState, a: Seq<char>, b: Seq<char>)
    ensures
        ext_run(st, a + b).0 == ext_run(ext_run(st, a).0, b).0,
        ext_run(st, a + b).1 == ext_run(st, a).1 + ext_run(ext_run(st, a).0, b).1,
    decreases b.len(),
{
    let mid = ext_run(st, a).0;
    if b.len() == 0 {
        assert(a + b =~= a);
        assert(ext_run(st, a).1 + ext_run(mid, b).1 =~= ext_run(st, a).1);
    } else {
        lemma_extract_split(st, a, b.drop_last());
        assert((a + b).drop_last() =~= a + b.drop_last());
        assert(ext_run(st, a).1 + (ext_run(mid, b.drop_last()).1 + ext_step(
            ext_run(mid, b.drop_last()).0,
            b.last(),
        ).1) =~= (ext_run(st, a).1 + ext_run(mid, b.drop_last()).1) + ext_step(
            ext_run(mid, b.drop_last()).0,
            b.last(),
        ).1);
        assert((a + b).last() == b.last());
    }
}

/// The fragment extractor. It scans text for embedded JSON fragments using a
/// brace-depth counter, holding a partial buffer across calls so a fragment
/// may arrive split over several lines.
pub struct LogProcessor {
    current_json_str: Option<Vec<char>>,
    bracket_depth: usize,
}

impl View for LogProcessor {
    type V = ExtractorState;

    closed spec fn view(&self) -> ExtractorState {
        ExtractorState {
            buf: match self.current_json_str {
                Option::Some(b) => Option::Some(b@),
                Option::None => Option::None,
            },
            depth: self.bracket_depth as nat,
        }
    }
}

impl LogProcessor {
    /// A fresh extractor: no buffer active, depth zero.
    pub fn new() -> (r: Self)
        ensures
            r@ == ext_init(),
    {
        LogProcessor { current_json_str: None, bracket_depth: 0 }
    }

    /// Scan one chunk of text, returning every fragment completed by it, in
    /// order; a fragment left open at the end of the chunk is held for the
    /// next call. Never fails.
    pub fn process_line(&mut self, log_line: &str) -> (out: Vec<String>)
        ensures
            final(self)@ == ext_run(old(self)@, log_line@).0,
            out@.map_values(|s: String| s@) == ext_run(old(self)@, log_line@).1,
    {
        let ghost st0 = self@;
        let n = log_line.unicode_len();
        let mut out: Vec<String> = Vec::new();
        let mut i: usize = 0;
        while i < n
            invariant
                n == log_line@.len(),
                i <= n,
                self@ == ext_run(st0, log_line@.take(i as int)).0,
                out@.map_values(|s: String| s@) == ext_run(st0, log_line@.take(i as int)).1,
            decreases n - i,
        {
            let ghost pre = self@;
            let ghost out_pre = out@;
            let c = log_line.get_char(i);
            proof {
                let t = log_line@.take(i + 1 as int);
                assert(t.drop_last() =~= log_line@.take(i as int));
                assert(t.last() == c);
            }
            if c == '{' {
                if self.current_json_str.is_none() {
                    self.current_json_str = Some(Vec::new());
                }
                if let Some(b) = &mut self.current_json_str {
                    b.push('{');
                }
                if self.bracket_depth < usize::MAX {
                    self.bracket_depth = self.bracket_depth + 1;
                }
                proof {
                    assert(self@ == ext_step(pre, c).0);
                    assert(out@.map_values(|s: String| s@) =~= ext_run(
                        st0,
                        log_line@.take(i + 1 as int),
                    ).1);
                }
            } else if c == '}' {
                let mut complete = false;
                if let Some(b) = &mut self.current_json_str {
                    b.push('}');
                    self.bracket_depth = if self.bracket_depth > 0 {
                        self.bracket_depth - 1
                    } else {
                        0
                    };
                    if self.bracket_depth == 0 {
                        complete = true;
                    }
                }
                if complete {
                    if let Some(b) = &self.current_json_str {
                        let s = chars_to_string(b);
                        out.push(s);
                    }
                    self.current_json_str = None;
                }
                proof {
                    assert(self@ == ext_step(pre, c).0);
                    assert(out@.map_values(|s: String| s@) =~= out_pre.map_values(|s: String| s@)
                        + ext_step(pre, c).1);
                    assert(out@.map_values(|s: String| s@) =~= ext_run(
                        st0,
                        log_line@.take(i + 1 as int),
                    ).1);
                }
            } else if c == ' ' || c == '\n' || c == '\r' {
                proof {
                    assert(self@ == ext_step(pre, c).0);
                    assert(out@.map_values(|s: String| s@) =~= ext_run(
                        st0,
                        log_line@.take(i + 1 as int),
                    ).1);
                }
            } else {
                if let Some(b) = &mut self.current_json_str {
                    b.push(c);
                }
                proof {
                    assert(self@ == ext_step(pre, c).0);
                    assert(out@.map_values(|s: String| s@) =~= ext_run(
                        st0,
                        log_line@.take(i + 1 as int),
                    ).1);
                }
            }
            i = i + 1;
        }
        proof {
            assert(log_line@.take(n as int) =~= log_line@);
        }
        out
    }
}

/// One classified fragment: a decoded message of one of the four families,
/// or no event at all.
#[derive(Debug, Clone, PartialEq)]
pub enum ParseOutput {
    GREMessage(RequestTypeGREToClientEvent),
    ClientMessage(RequestTypeClientToMatchServiceMessage),
    MGRSCMessage(RequestTypeMGRSCEvent),
    BusinessMessage(RequestTypeBusinessEvent),
    NoEvent,
}

/// Classifies one extracted fragment by ordered substring probes — the
/// room-state marker, then the rules-engine marker, then the client-message
/// marker — and decodes it into the matching family; a fragment carrying a
/// marker either decodes (exactly when it is well-formed JSON of the
/// family's usable shape) or is a hard decode error. A fragment with no
/// marker gets a last-resort business decode attempt and is otherwise no
/// event, never an error. The decoded message's fields are exactly the
/// parsed tree's field chains, and it keeps the fragment text unchanged,
/// so re-encoding it reproduces the fragment and the whole outcome is a
/// function of the fragment text.
pub fn parse(event: &str) -> (r: Result<ParseOutput, DecodeError>)
    ensures
        ({
            let m1 = contains_seq(event@, "matchGameRoomStateChangedEvent"@);
            let m2 = contains_seq(event@, "greToClientEvent"@);
            let m3 = contains_seq(event@, "clientToMatchServiceMessage"@);
            &&& (r matches Ok(ParseOutput::MGRSCMessage(m)) ==> m.raw@ == event@ && m1)
            &&& (r matches Ok(ParseOutput::GREMessage(m)) ==> m.raw@ == event@ && !m1 && m2)
            &&& (r matches Ok(ParseOutput::ClientMessage(m)) ==> m.raw@ == event@ && !m1 && !m2
                && m3)
            &&& (r matches Ok(ParseOutput::BusinessMessage(b)) ==> b.request.raw@ == event@ && !m1
                && !m2 && !m3)
            &&& (m1 ==> (match parsed_json(event@) {
                Option::None => r == Result::<ParseOutput, DecodeError>::Err(
                    DecodeError::InvalidJson,
                ),
                Option::Some(v) => if mgrsc_shape_ok(v) {
                    match r {
                        Ok(ParseOutput::MGRSCMessage(m)) => mgrsc_fields_match(m, v),
                        _ => false,
                    }
                } else {
                    r == Result::<ParseOutput, DecodeError>::Err(DecodeError::Malformed)
                },
            }))
            &&& (!m1 && m2 ==> (match parsed_json(event@) {
                Option::None => r == Result::<ParseOutput, DecodeError>::Err(
                    DecodeError::InvalidJson,
                ),
                Option::Some(v) => if gre_shape_ok(v) {
                    match r {
                        Ok(ParseOutput::GREMessage(m)) => gre_fields_match(m, v),
                        _ => false,
                    }
                } else {
                    r == Result::<ParseOutput, DecodeError>::Err(DecodeError::Malformed)
                },
            }))
            &&& (!m1 && !m2 && m3 ==> (match parsed_json(event@) {
                Option::None => r == Result::<ParseOutput, DecodeError>::Err(
                    DecodeError::InvalidJson,
                ),
                Option::Some(v) => if client_shape_ok(v) {
                    match r {
                        Ok(ParseOutput::ClientMessage(m)) => client_fields_match(m, v),
                        _ => false,
                    }
                } else {
                    r == Result::<ParseOutput, DecodeError>::Err(DecodeError::Malformed)
                },
            }))
            &&& (!m1 && !m2 && !m3 ==> (match parsed_json(event@) {
                Option::None => r == Result::<ParseOutput, DecodeError>::Ok(ParseOutput::NoEvent),
                Option::Some(v) => if business_shape_ok(v) {
                    match r {
                        Ok(ParseOutput::BusinessMessage(b)) => business_fields_match(b, v),
                        _ => false,
                    }
                } else {
                    r == Result::<ParseOutput, DecodeError>::Ok(ParseOutput::NoEvent)
                },
            }))
        }),
{
    if str_contains(event, "matchGameRoomStateChangedEvent") {
        match json_parse(event) {
            Some(v) => match decode_mgrsc(event, &v) {
                Ok(m) => Ok(ParseOutput::MGRSCMessage(m)),
                Err(e) => Err(e),
            },
            None => Err(DecodeError::InvalidJson),
        }
    } else if str_contains(event, "greToClientEvent") {
        match json_parse(event) {
            Some(v) => match decode_gre(event, &v) {
                Ok(m) => Ok(ParseOutput::GREMessage(m)),
                Err(e) => Err(e),
            },
            None => Err(DecodeError::InvalidJson),
        }
    } else if str_contains(event, "clientToMatchServiceMessage") {
        match json_parse(event) {
            Some(v) => match decode_client(event, &v) {
                Ok(m) => Ok(ParseOutput::ClientMessage(m)),
                Err(e) => Err(e),
            },
            None => Err(DecodeError::InvalidJson),
        }
    } else {
        match json_parse(event) {
            Some(v) => match decode_business(event, &v) {
                Some(b) => Ok(ParseOutput::BusinessMessage(b)),
                None => Ok(ParseOutput::NoEvent),
            },
            None => Ok(ParseOutput::NoEvent),
        }
    }
}

} // verus!
