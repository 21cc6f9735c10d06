//! A decklist resolved to display names, for rendering to a reader.

use vstd::prelude::*;

use crate::cards::{pretty_name_spec, CardsDatabase};
use crate::gre::DeckMessage;
use crate::text::{
    count_str, fmt_entry, i32_to_string, insert_sorted, insert_sorted_vec, join_lines,
    join_strings_lines, str_eq, uniq_in_order,
};

verus! {

/// A decklist with each card identifier resolved to its display name.
#[derive(Debug)]
pub struct Deck {
    pub name: String,
    pub mainboard: Vec<String>,
    pub sideboard: Vec<String>,
}

/// Fold of `insert_sorted` over a sequence: its entries in lexicographic
/// order.
pub open spec fn sort_all(s: Seq<Seq<char>>) -> Seq<Seq<char>>
    decreases s.len(),
{
    if s.len() == 0 {
        Seq::empty()
    } else {
        insert_sorted(sort_all(s.drop_last()), s.last())
    }
}

/// The rendering of a card list: each distinct card as "name xN" with its
/// count, the entries sorted, one per line.
pub open spec fn card_list_spec(cards: Seq<Seq<char>>) -> Seq<char> {
    join_lines(
        sort_all(uniq_in_order(cards).map_values(|c: Seq<char>| fmt_entry(c, count_str(cards, c)))),
    )
}

/// Renders a card list: each distinct card once as "name xN" with its
/// count, sorted, one per line.
pub fn format_list_of_cards(cards: &[String]) -> (r: String)
    requires
        cards@.len() <= i32::MAX,
    ensures
        r@ == card_list_spec(cards@.map_values(|s: String| s@)),
{
    let ghost allv = cards@.map_values(|s: String| s@);
    let n = cards.len();
    // Distinct cards, in first-occurrence order.
    let mut uniq: Vec<String> = Vec::new();
    let mut i: usize = 0;
    while i < n
        invariant
            n == cards@.len(),
            i <= n,
            allv == cards@.map_values(|s: String| s@),
            uniq@.map_values(|s: String| s@) == uniq_in_order(allv.take(i as int)),
        decreases n - i,
    {
        let mut seen = false;
        let mut j: usize = 0;
        while j < i
            invariant
                i < n,
                n == cards@.len(),
                allv == cards@.map_values(|s: String| s@),
                j <= i,
                seen == exists|k: int| 0 <= k < j && #[trigger] allv[k] == allv[i as int],
            decreases i - j,
        {
            proof {
                assert(allv[j as int] == cards@[j as int]@);
                assert(allv[i as int] == cards@[i as int]@);
            }
            if str_eq(cards[j].as_str(), cards[i].as_str()) {
                seen = true;
                proof {
                    assert(allv[j as int] == allv[i as int]);
                }
            }
            j = j + 1;
        }
        proof {
            let t = allv.take(i + 1 as int);
            assert(t.drop_last() =~= allv.take(i as int));
            assert(t.last() == allv[i as int]);
            assert(seen == allv.take(i as int).contains(allv[i as int])) by {
                if seen {
                    let k = choose|k: int| 0 <= k < i && allv[k] == allv[i as int];
                    assert(allv.take(i as int)[k] == allv[i as int]);
                } else {
                    if allv.take(i as int).contains(allv[i as int]) {
                        let k = choose|k: int|
                            0 <= k < i && allv.take(i as int)[k] == allv[i as int];
                        assert(allv[k] == allv[i as int]);
                    }
                }
            }
        }
        if !seen {
            uniq.push(cards[i].clone());
            proof {
                assert(uniq@.map_values(|s: String| s@) =~~= uniq_in_order(
                    allv.take(i + 1 as int),
                ));
            }
        }
        i = i + 1;
    }
    proof {
        assert(allv.take(n as int) =~= allv);
    }
    // One formatted entry per distinct card.
    let ghost uv = uniq@.map_values(|s: String| s@);
    let m = uniq.len();
    let mut entries: Vec<String> = Vec::new();
    let mut k: usize = 0;
    while k < m
        invariant
            m == uniq@.len(),
            k <= m,
            uniq@.map_values(|s: String| s@) == uv,
            allv == cards@.map_values(|s: String| s@),
            allv.len() <= i32::MAX,
            entries@.len() == k,
            forall|j: int|
                0 <= j < k ==> #[trigger] entries@[j]@ == fmt_entry(uv[j], count_str(allv, uv[j])),
        decreases m - k,
    {
        let ghost e0 = entries@;
        let c = count_card(cards, &uniq[k]);
        proof {
            assert(uv[k as int] == uniq@[k as int]@);
            lemma_count_str_le_len(allv, uv[k as int]);
        }
        let cnt: i32 = c as i32;
        let mut e = String::new();
        e.append(uniq[k].as_str());
        e.append(" x");
        let num = i32_to_string(cnt);
        e.append(num.as_str());
        proof {
            assert(cnt as int == count_str(allv, uv[k as int]) as int);
            assert(e@ =~= fmt_entry(uv[k as int], count_str(allv, uv[k as int])));
        }
        entries.push(e);
        proof {
            assert(forall|j: int| 0 <= j < k ==> entries@[j] == e0[j]);
        }
        k = k + 1;
    }
    proof {
        let lhs = entries@.map_values(|s: String| s@);
        let rhs = uv.map_values(|c: Seq<char>| fmt_entry(c, count_str(allv, c)));
        assert forall|j: int| 0 <= j < m implies #[trigger] lhs[j] == rhs[j] by {
            assert(lhs[j] == entries@[j]@);
            assert(rhs[j] == fmt_entry(uv[j], count_str(allv, uv[j])));
        }
        assert(entries@.map_values(|s: String| s@) =~= uv.map_values(
            |c: Seq<char>| fmt_entry(c, count_str(allv, c)),
        ));
    }
    // Sort and join.
    let ghost ev = entries@.map_values(|s: String| s@);
    let p = entries.len();
    let mut sorted: Vec<String> = Vec::new();
    let mut q: usize = 0;
    while q < p
        invariant
            p == entries@.len(),
            q <= p,
            entries@.map_values(|s: String| s@) == ev,
            sorted@.map_values(|s: String| s@) == sort_all(ev.take(q as int)),
        decreases p - q,
    {
        let e = entries[q].clone();
        proof {
            assert(e@ == ev[q as int]);
        }
        insert_sorted_vec(&mut sorted, e);
        proof {
            let t = ev.take(q + 1 as int);
            assert(t.drop_last() =~= ev.take(q as int));
            assert(t.last() == ev[q as int]);
        }
        q = q + 1;
    }
    proof {
        assert(ev.take(p as int) =~= ev);
    }
    join_strings_lines(&sorted)
}

fn count_card(cards: &[String], x: &String) -> (c: usize)
    ensures
        c == count_str(cards@.map_values(|s: String| s@), x@),
{
    let ghost allv = cards@.map_values(|s: String| s@);
    proof {
        lemma_count_str_le_len(allv, x@);
    }
    let n = cards.len();
    let mut c: usize = 0;
    let mut i: usize = 0;
    while i < n
        invariant
            n == cards@.len(),
            allv == cards@.map_values(|s: String| s@),
            i <= n,
            c == count_str(allv.take(i as int), x@),
            c <= i,
        decreases n - i,
    {
        proof {
            let t = allv.take(i + 1 as int);
            assert(t.drop_last() =~= allv.take(i as int));
            assert(t.last() == allv[i as int]);
            lemma_count_str_le_len(allv.take(i as int), x@);
        }
        if str_eq(cards[i].as_str(), x.as_str()) {
            c = c + 1;
        }
        i = i + 1;
    }
    proof {
        assert(allv.take(n as int) =~= allv);
    }
    c
}

proof fn lemma_count_str_le_len(s: Seq<Seq<char>>, x: Seq<char>)
    ensures
        count_str(s, x) <= s.len(),
    decreases s.len(),
{
    if s.len() > 0 {
        lemma_count_str_le_len(s.drop_last(), x);
    }
}

impl Deck {
    /// Resolves a deck message to display names through the lookup table.
    pub fn new(name: String, deck_message: &DeckMessage, cards_db: &CardsDatabase) -> (r: Self)
        ensures
            r.name == name,
            r.mainboard@.map_values(|s: String| s@) == deck_message.deck_cards@.map_values(
                |id: i32| pretty_name_spec(cards_db.db@, id),
            ),
            r.sideboard@.map_values(|s: String| s@) == deck_message.sideboard_cards@.map_values(
                |id: i32| pretty_name_spec(cards_db.db@, id),
            ),
    {
        let mainboard = resolve_names(&deck_message.deck_cards, cards_db);
        let sideboard = resolve_names(&deck_message.sideboard_cards, cards_db);
        Deck { name, mainboard, sideboard }
    }

    /// The deck rendered as text: a header with the name, then the counted
    /// mainboard entries, then the counted sideboard entries.
    pub fn to_display_string(&self) -> (r: String)
        requires
            self.mainboard@.len() <= i32::MAX,
            self.sideboard@.len() <= i32::MAX,
        ensures
            r@ == "Deck: "@ + self.name@ + "\n\n"@ + card_list_spec(
                self.mainboard@.map_values(|s: String| s@),
            ) + "\n\nSideboard:\n"@ + card_list_spec(self.sideboard@.map_values(|s: String| s@)),
    {
        let mainboard_str = format_list_of_cards(self.mainboard.as_slice());
        let sideboard_str = format_list_of_cards(self.sideboard.as_slice());
        let mut s = String::new();
        s.append("Deck: ");
        s.append(self.name.as_str());
        s.append("\n\n");
        s.append(mainboard_str.as_str());
        s.append("\n\nSideboard:\n");
        s.append(sideboard_str.as_str());
        proof {
            assert(s@ =~= "Deck: "@ + self.name@ + "\n\n"@ + mainboard_str@ + "\n\nSideboard:\n"@
                + sideboard_str@);
        }
        s
    }
}

fn resolve_names(ids: &Vec<i32>, cards_db: &CardsDatabase) -> (r: Vec<String>)
    ensures
        r@.map_values(|s: String| s@) == ids@.map_values(
            |id: i32| pretty_name_spec(cards_db.db@, id),
        ),
{
    let n = ids.len();
    let mut out: Vec<String> = Vec::new();
    let mut i: usize = 0;
    while i < n
        invariant
            n == ids@.len(),
            i <= n,
            out@.len() == i,
            forall|j: int|
                0 <= j < i ==> #[trigger] out@[j]@ == pretty_name_spec(cards_db.db@, ids@[j]),
        decreases n - i,
    {
        let ghost o0 = out@;
        let s = cards_db.get_pretty_name_defaulted(ids[i]);
        out.push(s);
        proof {
            assert(forall|j: int| 0 <= j < i ==> out@[j] == o0[j]);
        }
        i = i + 1;
    }
    proof {
        let lhs = out@.map_values(|s: String| s@);
        let rhs = ids@.map_values(|id: i32| pretty_name_spec(cards_db.db@, id));
        assert forall|j: int| 0 <= j < n implies #[trigger] lhs[j] == rhs[j] by {
            assert(lhs[j] == out@[j]@);
            assert(rhs[j] == pretty_name_spec(cards_db.db@, ids@[j]));
        }
        assert(out@.map_values(|s: String| s@) =~= ids@.map_values(
            |id: i32| pretty_name_spec(cards_db.db@, id),
        ));
    }
    out
}

} // verus!
