//! Derived record shapes: per-game decklists, per-decision mulligan records,
//! per-entry match results, and card-count summaries.

use std::collections::HashMap;

use vstd::prelude::*;

use crate::gre::DeckMessage;
use crate::json::{
    int32_of, json_array_len, json_as_i64, json_element, json_index, json_length, json_parse,
    lenient_i32_seq, parsed_json,
};
use crate::text::lines_of;

verus! {

/// One decklist: 1-based game number and the ordered mainboard and
/// sideboard card-identifier lists.
#[derive(Debug, Clone, PartialEq)]
pub struct Deck {
    pub name: String,
    pub game_number: i32,
    pub mainboard: Vec<i32>,
    pub sideboard: Vec<i32>,
}

/// One match-result entry: the scope label, the winning team, and the
/// 1-based game number for per-game entries (`None` for whole-match scope).
#[derive(Debug, Clone, PartialEq)]
pub struct MatchResult {
    pub match_id: String,
    pub game_number: Option<i32>,
    pub winning_team_id: i32,
    pub result_scope: String,
}

/// One mulligan decision point.
#[derive(Debug, Clone, PartialEq)]
pub struct MulliganInfo {
    pub match_id: String,
    pub game_number: i32,
    pub number_to_keep: i32,
    pub hand: String,
    pub play_draw: String,
    pub opponent_identity: String,
    pub decision: String,
}

/// How many times `x` occurs in `s`.
pub open spec fn count_of(s: Seq<i32>, x: i32) -> nat
    decreases s.len(),
{
    if s.len() == 0 {
        0
    } else {
        count_of(s.drop_last(), x) + if s.last() == x {
            1nat
        } else {
            0nat
        }
    }
}

/// The quantity recorded for a card: its count, or zero in the (practically
/// unreachable) case that the count does not fit a 16-bit value.
pub open spec fn quantity_of(s: Seq<i32>, x: i32) -> u16 {
    if count_of(s, x) <= u16::MAX {
        count_of(s, x) as u16
    } else {
        0
    }
}

proof fn lemma_count_le_len(s: Seq<i32>, x: i32)
    ensures
        count_of(s, x) <= s.len(),
    decreases s.len(),
{
    if s.len() > 0 {
        lemma_count_le_len(s.drop_last(), x);
    }
}

fn count_in_slice(deck: &[i32], x: i32) -> (c: usize)
    ensures
        c == count_of(deck@, x),
{
    proof {
        lemma_count_le_len(deck@, x);
    }
    let n = deck.len();
    let mut c: usize = 0;
    let mut i: usize = 0;
    while i < n
        invariant
            n == deck@.len(),
            i <= n,
            c == count_of(deck@.take(i as int), x),
            c <= i,
        decreases n - i,
    {
        proof {
            let t = deck@.take(i + 1 as int);
            assert(t.drop_last() =~= deck@.take(i as int));
            assert(t.last() == deck@[i as int]);
            lemma_count_le_len(deck@.take(i as int), x);
        }
        if deck[i] == x {
            c = c + 1;
        }
        i = i + 1;
    }
    proof {
        assert(deck@.take(n as int) =~= deck@);
    }
    c
}

/// Counts how many copies of each card identifier a list holds.
pub fn quantities(deck: &[i32]) -> (r: HashMap<i32, u16>)
    ensures
        forall|x: i32| r@.dom().contains(x) <==> deck@.contains(x),
        forall|x: i32| r@.dom().contains(x) ==> r@[x] == quantity_of(deck@, x),
{
    let n = deck.len();
    let mut r: HashMap<i32, u16> = HashMap::new();
    let mut i: usize = 0;
    while i < n
        invariant
            n == deck@.len(),
            i <= n,
            forall|x: i32| r@.dom().contains(x) <==> deck@.take(i as int).contains(x),
            forall|x: i32| r@.dom().contains(x) ==> r@[x] == quantity_of(deck@, x),
        decreases n - i,
    {
        let id = deck[i];
        let c = count_in_slice(deck, id);
        let q: u16 = if c <= u16::MAX as usize {
            c as u16
        } else {
            0
        };
        r.insert(id, q);
        proof {
            let t = deck@.take(i + 1 as int);
            assert(t.drop_last() =~= deck@.take(i as int));
            assert(t.last() == id);
            assert forall|x: i32| r@.dom().contains(x) <==> t.contains(x) by {
                if x == id {
                    assert(t.last() == x);
                    assert(t.contains(x));
                } else {
                    assert(t.contains(x) <==> deck@.take(i as int).contains(x)) by {
                        if t.contains(x) {
                            let k = choose|k: int| 0 <= k < t.len() && t[k] == x;
                            assert(deck@.take(i as int)[k] == x);
                        }
                        if deck@.take(i as int).contains(x) {
                            let k = choose|k: int|
                                0 <= k < deck@.take(i as int).len() && deck@.take(i as int)[k]
                                    == x;
                            assert(t[k] == x);
                        }
                    }
                }
            }
        }
        i = i + 1;
    }
    proof {
        assert(deck@.take(n as int) =~= deck@);
    }
    r
}

impl Deck {
    /// Assembles a decklist from its parts.
    pub fn new(name: String, game_number: i32, mainboard: Vec<i32>, sideboard: Vec<i32>) -> (r:
        Self)
        ensures
            r.name == name,
            r.game_number == game_number,
            r.mainboard == mainboard,
            r.sideboard == sideboard,
    {
        Deck { name, game_number, mainboard, sideboard }
    }

    /// Assembles a decklist from two textual JSON integer arrays, as stored
    /// by the persistence layer; entries that are not 32-bit integers are
    /// dropped, and text that is not an array reads as an empty list.
    pub fn from_raw_decklist(name: String, game_number: i32, mainboard: &str, sideboard: &str) -> (
        r: Self)
        ensures
            r.name == name,
            r.game_number == game_number,
            r.mainboard@ == raw_decklist_of(mainboard@),
            r.sideboard@ == raw_decklist_of(sideboard@),
    {
        let mainboard = process_raw_decklist(mainboard);
        let sideboard = process_raw_decklist(sideboard);
        Deck { name, game_number, mainboard, sideboard }
    }

    /// Counts the mainboard copies of each card identifier.
    pub fn quantities(&self) -> (r: HashMap<i32, u16>)
        ensures
            forall|x: i32| r@.dom().contains(x) <==> self.mainboard@.contains(x),
            forall|x: i32| r@.dom().contains(x) ==> r@[x] == quantity_of(self.mainboard@, x),
    {
        quantities(self.mainboard.as_slice())
    }

    /// Counts the sideboard copies of each card identifier.
    pub fn sideboard_quantities(&self) -> (r: HashMap<i32, u16>)
        ensures
            forall|x: i32| r@.dom().contains(x) <==> self.sideboard@.contains(x),
            forall|x: i32| r@.dom().contains(x) ==> r@[x] == quantity_of(self.sideboard@, x),
    {
        quantities(self.sideboard.as_slice())
    }

    /// The list rendered as text: the name, then the mainboard identifiers
    /// one per line, then the sideboard identifiers one per line.
    pub fn to_display_string(&self) -> (r: String)
        ensures
            r@ == self.name@ + "\nMainboard:\n"@ + lines_of(self.mainboard@) + "\nSideboard:\n"@
                + lines_of(self.sideboard@),
    {
        let mut s = String::new();
        s.append(self.name.as_str());
        s.append("\nMainboard:\n");
        append_lines(&mut s, &self.mainboard);
        s.append("\nSideboard:\n");
        append_lines(&mut s, &self.sideboard);
        proof {
            assert(s@ =~= self.name@ + "\nMainboard:\n"@ + lines_of(self.mainboard@)
                + "\nSideboard:\n"@ + lines_of(self.sideboard@));
        }
        s
    }
}

fn append_lines(s: &mut String, v: &Vec<i32>)
    ensures
        final(s)@ == old(s)@ + lines_of(v@),
{
    let n = v.len();
    let mut i: usize = 0;
    while i < n
        invariant
            n == v@.len(),
            i <= n,
            s@ == old(s)@ + lines_of(v@.take(i as int)),
        decreases n - i,
    {
        let num = crate::text::i32_to_string(v[i]);
        s.append(num.as_str());
        s.append("\n");
        proof {
            reveal_strlit("\n");
            let t = v@.take(i + 1 as int);
            assert(t.drop_last() =~= v@.take(i as int));
            assert(t.last() == v@[i as int]);
            assert(s@ =~= old(s)@ + lines_of(t));
        }
        i = i + 1;
    }
    proof {
        assert(v@.take(n as int) =~= v@);
    }
}

/// What a textual JSON integer array reads as, leniently: entries that are
/// not 32-bit integers are dropped in place, and text that is not a JSON
/// array at all reads as an empty list.
pub open spec fn raw_decklist_of(s: Seq<char>) -> Seq<i32> {
    match parsed_json(s) {
        Option::Some(v) => match json_length(v) {
            Option::Some(n) => lenient_i32_seq(v, n),
            Option::None => Seq::empty(),
        },
        Option::None => Seq::empty(),
    }
}

/// Reads a textual JSON integer array leniently: entries that are not
/// 32-bit integers are dropped; anything that is not an array reads empty.
pub fn process_raw_decklist(raw_decklist: &str) -> (r: Vec<i32>)
    ensures
        r@ == raw_decklist_of(raw_decklist@),
{
    let v = match json_parse(raw_decklist) {
        Some(v) => v,
        None => {
            return Vec::new();
        },
    };
    let n = match json_array_len(&v) {
        Some(n) => n,
        None => {
            return Vec::new();
        },
    };
    let mut out: Vec<i32> = Vec::new();
    let mut i: usize = 0;
    while i < n
        invariant
            json_length(v) == Option::Some(n as int),
            parsed_json(raw_decklist@) == Option::Some(v),
            i <= n,
            out@ == lenient_i32_seq(v, i as int),
        decreases n - i,
    {
        let ghost o0 = out@;
        if let Some(item) = json_index(&v, i) {
            if let Some(x) = json_as_i64(item) {
                if i32::MIN as i64 <= x && x <= i32::MAX as i64 {
                    out.push(x as i32);
                    proof {
                        assert(int32_of(*item) == Option::Some(x as i32));
                        assert(out@ =~= lenient_i32_seq(v, i + 1 as int));
                    }
                } else {
                    proof {
                        assert(int32_of(*item) is None);
                        assert(out@ =~= lenient_i32_seq(v, i + 1 as int));
                    }
                }
            } else {
                proof {
                    assert(int32_of(*item) is None);
                    assert(out@ =~= lenient_i32_seq(v, i + 1 as int));
                }
            }
        } else {
            proof {
                assert(json_element(v, i as int) is None);
                assert(out@ =~= lenient_i32_seq(v, i + 1 as int));
            }
        }
        i = i + 1;
    }
    out
}

impl std::convert::From<DeckMessage> for Deck {
    /// A decklist found in a deck message, before a game number is known.
    fn from(deck_message: DeckMessage) -> (r: Self)
        ensures
            r.name@ == "Found Deck"@,
            r.game_number == 0,
            r.mainboard@ == deck_message.deck_cards@,
            r.sideboard@ == deck_message.sideboard_cards@,
    {
        Deck {
            name: String::from_str("Found Deck"),
            game_number: 0,
            mainboard: deck_message.deck_cards,
            sideboard: deck_message.sideboard_cards,
        }
    }
}

impl vstd::std_specs::convert::FromSpecImpl<DeckMessage> for Deck {
    open spec fn obeys_from_spec() -> bool {
        false
    }

    open spec fn from_spec(t: DeckMessage) -> Self {
        vstd::pervasive::arbitrary()
    }
}

impl<'a> std::convert::From<&'a DeckMessage> for Deck {
    /// A decklist found in a borrowed deck message.
    fn from(deck_message: &'a DeckMessage) -> (r: Self)
        ensures
            r.name@ == "Found Deck"@,
            r.game_number == 0,
            r.mainboard@ == deck_message.deck_cards@,
            r.sideboard@ == deck_message.sideboard_cards@,
    {
        Deck {
            name: String::from_str("Found Deck"),
            game_number: 0,
            mainboard: copy_i32_vec(&deck_message.deck_cards),
            sideboard: copy_i32_vec(&deck_message.sideboard_cards),
        }
    }
}

impl<'a> vstd::std_specs::convert::FromSpecImpl<&'a DeckMessage> for Deck {
    open spec fn obeys_from_spec() -> bool {
        false
    }

    open spec fn from_spec(t: &'a DeckMessage) -> Self {
        vstd::pervasive::arbitrary()
    }
}

/// An element-for-element copy of an integer list.
pub(crate) fn copy_i32_vec(v: &Vec<i32>) -> (r: Vec<i32>)
    ensures
        r@ == v@,
{
    let n = v.len();
    let mut out: Vec<i32> = Vec::new();
    let mut i: usize = 0;
    while i < n
        invariant
            n == v@.len(),
            i <= n,
            out@ == v@.take(i as int),
        decreases n - i,
    {
        out.push(v[i]);
        proof {
            assert(out@ =~= v@.take(i + 1 as int));
        }
        i = i + 1;
    }
    proof {
        assert(v@.take(n as int) =~= v@);
        assert(out@ == v@);
    }
    out
}

} // verus!
