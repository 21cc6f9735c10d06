//! The card lookup collaborator: resolves numeric card identifiers to a
//! card record with a display name and a color-identity list. The table is
//! handed in explicitly by whoever loads it, so every analytics query is a
//! pure function of the replay and the table.

use vstd::prelude::*;

use crate::text::{dec_rep_signed, i32_to_string};

verus! {

/// One face of a multi-faced card.
#[derive(Debug, Clone, PartialEq)]
pub struct CardFace {
    pub name: String,
    pub type_line: String,
    pub mana_cost: Option<String>,
    pub image_uri: Option<String>,
    pub colors: Option<Vec<String>>,
}

/// One card record of the lookup table.
#[derive(Debug, Clone, PartialEq)]
pub struct CardDbEntry {
    pub id: i32,
    pub set: String,
    pub name: String,
    pub lang: String,
    pub image_uri: Option<String>,
    pub mana_cost: Option<String>,
    pub type_line: String,
    pub layout: String,
    pub colors: Option<Vec<String>>,
    pub color_identity: Vec<String>,
    pub card_faces: Option<Vec<CardFace>>,
}

/// The card lookup table: card identifier to card record. Lookups find the
/// first entry with the key; whoever builds the table keeps keys unique.
#[derive(Debug, Clone, PartialEq)]
pub struct CardsDatabase {
    pub db: Vec<(i32, CardDbEntry)>,
}

/// The first entry for `id`, if any.
pub open spec fn lookup_spec(s: Seq<(i32, CardDbEntry)>, id: i32) -> Option<CardDbEntry>
    decreases s.len(),
{
    if s.len() == 0 {
        Option::None
    } else if s[0].0 == id {
        Option::Some(s[0].1)
    } else {
        lookup_spec(s.drop_first(), id)
    }
}

/// The display name for `id`: the record's name, or the identifier itself
/// rendered as decimal text when the table has no entry for it.
pub open spec fn pretty_name_spec(s: Seq<(i32, CardDbEntry)>, id: i32) -> Seq<char> {
    match lookup_spec(s, id) {
        Option::Some(e) => e.name@,
        Option::None => dec_rep_signed(id as int),
    }
}

impl CardsDatabase {
    /// A table over the given entries.
    pub fn new(entries: Vec<(i32, CardDbEntry)>) -> (r: Self)
        ensures
            r.db == entries,
    {
        CardsDatabase { db: entries }
    }

    /// The record for a card identifier, if the table has one.
    pub fn get(&self, grp_id: i32) -> (r: Option<&CardDbEntry>)
        ensures
            match r {
                Option::Some(e) => lookup_spec(self.db@, grp_id) == Option::Some(*e),
                Option::None => lookup_spec(self.db@, grp_id) is None,
            },
    {
        let n = self.db.len();
        let mut i: usize = 0;
        proof {
            assert(self.db@.skip(0) =~= self.db@);
        }
        while i < n
            invariant
                n == self.db@.len(),
                i <= n,
                lookup_spec(self.db@.skip(i as int), grp_id) == lookup_spec(self.db@, grp_id),
            decreases n - i,
        {
            proof {
                assert(self.db@.skip(i as int)[0] == self.db@[i as int]);
                assert(self.db@.skip(i as int).drop_first() =~= self.db@.skip(i + 1 as int));
            }
            if self.db[i].0 == grp_id {
                return Some(&self.db[i].1);
            }
            i = i + 1;
        }
        proof {
            assert(self.db@.skip(n as int).len() == 0);
        }
        None
    }

    /// The display name for a card identifier; `None` when the table has no
    /// entry for it.
    pub fn get_pretty_name(&self, grp_id: i32) -> (r: Option<String>)
        ensures
            match r {
                Option::Some(s) => lookup_spec(self.db@, grp_id) matches Option::Some(e) && s@
                    == e.name@,
                Option::None => lookup_spec(self.db@, grp_id) is None,
            },
    {
        match self.get(grp_id) {
            Some(e) => Some(e.name.clone()),
            None => None,
        }
    }

    /// The display name for a card identifier, falling back to the
    /// identifier itself for an absent key.
    pub fn get_pretty_name_defaulted(&self, grp_id: i32) -> (r: String)
        ensures
            r@ == pretty_name_spec(self.db@, grp_id),
    {
        match self.get_pretty_name(grp_id) {
            Some(s) => s,
            None => i32_to_string(grp_id),
        }
    }
}

impl Default for CardsDatabase {
    /// An empty table: every lookup falls back to the raw identifier.
    fn default() -> (r: Self)
        ensures
            r.db@.len() == 0,
    {
        CardsDatabase { db: Vec::new() }
    }
}

} // verus!
