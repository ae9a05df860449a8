//! The rule table: a finite mapping from (state, symbol) to the rule that
//! applies there. A pair without an entry is where a machine halts.

use crate::alphabet::{Rule, State, Symbol};
use std::collections::HashMap;
use vstd::prelude::*;

verus! {

broadcast use vstd::std_specs::hash::group_hash_axioms;

/// The number under which the table files the pair `(state, symbol)`.
/// Distinct pairs get distinct numbers.
pub open spec fn slot(state: State, symbol: Symbol) -> u8 {
    (state.ordinal() * 3 + symbol.ordinal()) as u8
}

/// Computes `slot`.
fn slot_of(state: State, symbol: Symbol) -> (k: u8)
    ensures
        k == slot(state, symbol),
{
    state.index() * 3 + symbol.index()
}

/// `slot` is injective.
pub proof fn lemma_slot_injective(s1: State, y1: Symbol, s2: State, y2: Symbol)
    ensures
        slot(s1, y1) == slot(s2, y2) <==> (s1 == s2 && y1 == y2),
{
}

/// A rule table. Its view is the mathematical map from pairs to rules.
pub struct Rules {
    map: HashMap<u8, Rule>,
}

impl View for Rules {
    type V = Map<(State, Symbol), Rule>;

    closed spec fn view(&self) -> Map<(State, Symbol), Rule> {
        Map::new(
            |k: (State, Symbol)| self.map@.contains_key(slot(k.0, k.1)),
            |k: (State, Symbol)| self.map@[slot(k.0, k.1)],
        )
    }
}

impl Rules {
    /// The table without any entry.
    pub fn new() -> (table: Rules)
        ensures
            table@ == Map::<(State, Symbol), Rule>::empty(),
    {
        let table = Rules { map: HashMap::new() };
        assert(table@ =~= Map::<(State, Symbol), Rule>::empty());
        table
    }

    /// Files `rule` under `(state, symbol)`. An entry that was there before
    /// is replaced; every other entry stays.
    pub fn insert(&mut self, state: State, symbol: Symbol, rule: Rule)
        ensures
            final(self)@ == old(self)@.insert((state, symbol), rule),
    {
        let k: u8 = slot_of(state, symbol);
        self.map.insert(k, rule);
        proof {
            assert forall|p: (State, Symbol)|
                slot(p.0, p.1) == k <==> p == (state, symbol) by {
                lemma_slot_injective(p.0, p.1, state, symbol);
            }
            assert(self@ =~= old(self)@.insert((state, symbol), rule));
        }
    }

    /// The table built from `entries`, taken in order: where two entries
    /// have the same state and symbol, the later one stands.
    pub fn from_entries(entries: &Vec<(State, Symbol, Rule)>) -> (table: Rules)
        ensures
            table@ == table_of(entries@),
    {
        let mut table = Rules::new();
        let mut i: usize = 0;
        assert(entries@.take(0) =~= Seq::<(State, Symbol, Rule)>::empty());
        while i < entries.len()
            invariant
                i <= entries@.len(),
                table@ == table_of(entries@.take(i as int)),
            decreases entries@.len() - i,
        {
            let entry: (State, Symbol, Rule) = entries[i];
            assert(entries@.take(i + 1).drop_last() =~= entries@.take(i as int));
            table.insert(entry.0, entry.1, entry.2);
            i += 1;
        }
        assert(entries@.take(i as int) =~= entries@);
        table
    }

    /// Every entry of the table, ordered by state and then by symbol.
    pub fn entries(&self) -> (out: Vec<(State, Symbol, Rule)>)
        ensures
            out@ == listing(self@, 12),
    {
        let mut out: Vec<(State, Symbol, Rule)> = Vec::new();
        let mut k: u8 = 0;
        while k < 12
            invariant
                k <= 12,
                out@ == listing(self@, k as nat),
            decreases 12 - k,
        {
            let state = State::from_index(k / 3);
            let symbol = Symbol::from_index(k % 3);
            match self.get(state, symbol) {
                Some(rule) => {
                    out.push((state, symbol, rule));
                },
                None => {},
            }
            k += 1;
        }
        out
    }

    /// The rule filed under `(state, symbol)`, or `None` where the table has
    /// no entry for the pair.
    pub fn get(&self, state: State, symbol: Symbol) -> (found: Option<Rule>)
        ensures
            found == lookup(self@, state, symbol),
    {
        let k: u8 = slot_of(state, symbol);
        match self.map.get(&k) {
            Some(rule) => Some(*rule),
            None => None,
        }
    }
}

/// The entry of `table` for `(state, symbol)`, if it has one.
pub open spec fn lookup(table: Map<(State, Symbol), Rule>, state: State, symbol: Symbol) -> Option<
    Rule,
> {
    if table.contains_key((state, symbol)) {
        Some(table[(state, symbol)])
    } else {
        None
    }
}

/// The map that a sequence of entries builds up, each entry replacing what
/// an earlier one filed under the same state and symbol.
pub open spec fn table_of(entries: Seq<(State, Symbol, Rule)>) -> Map<(State, Symbol), Rule>
    decreases entries.len(),
{
    if entries.len() == 0 {
        Map::empty()
    } else {
        let entry = entries.last();
        table_of(entries.drop_last()).insert((entry.0, entry.1), entry.2)
    }
}

/// The pair that the table files under the number `k`.
pub open spec fn pair_at(k: int) -> (State, Symbol) {
    (State::at(k / 3), Symbol::at(k % 3))
}

/// The entries of `table` among the first `n` pairs, ordered by state and
/// then by symbol.
pub open spec fn listing(table: Map<(State, Symbol), Rule>, n: nat) -> Seq<(State, Symbol, Rule)>
    decreases n,
{
    if n == 0 {
        Seq::empty()
    } else {
        let pair = pair_at(n - 1);
        let before = listing(table, (n - 1) as nat);
        if table.contains_key(pair) {
            before.push((pair.0, pair.1, table[pair]))
        } else {
            before
        }
    }
}

/// `pair_at` undoes `slot`, and every pair has one of the twelve numbers.
pub proof fn lemma_pair_at_slot(state: State, symbol: Symbol)
    ensures
        0 <= slot(state, symbol) < 12,
        pair_at(slot(state, symbol) as int) == (state, symbol),
{
}

/// The entries listed among the first `n` pairs build the table's part on
/// those pairs.
pub proof fn lemma_listing_prefix(table: Map<(State, Symbol), Rule>, n: nat)
    requires
        n <= 12,
    ensures
        forall|p: (State, Symbol)|
            #![auto]
            table_of(listing(table, n)).contains_key(p) <==> (table.contains_key(p) && slot(
                p.0,
                p.1,
            ) < n),
        forall|p: (State, Symbol)|
            #![auto]
            table_of(listing(table, n)).contains_key(p) ==> table_of(listing(table, n))[p]
                == table[p],
    decreases n,
{
    if n > 0 {
        lemma_listing_prefix(table, (n - 1) as nat);
        let pair = pair_at(n - 1);
        let before = listing(table, (n - 1) as nat);
        assert(slot(pair.0, pair.1) == n - 1);
        assert forall|p: (State, Symbol)| slot(p.0, p.1) == n - 1 implies p == pair by {
            lemma_pair_at_slot(p.0, p.1);
        }
        if table.contains_key(pair) {
            let entry = (pair.0, pair.1, table[pair]);
            assert(before.push(entry).drop_last() =~= before);
            assert(before.push(entry).last() == entry);
        }
    }
}

/// Listing a table and building a table from the listing gives the table
/// back.
pub proof fn lemma_listing_rebuilds(table: Map<(State, Symbol), Rule>)
    ensures
        table_of(listing(table, 12)) == table,
{
    lemma_listing_prefix(table, 12);
    assert forall|p: (State, Symbol)| slot(p.0, p.1) < 12 by {
        lemma_pair_at_slot(p.0, p.1);
    }
    assert(table_of(listing(table, 12)) =~= table);
}

} // verus!
