//! The symbol table: which symbol the feed has given each instrument.
//!
//! An entry is made when the feed sends a mapping record and is overwritten
//! by a later mapping for the same instrument. Nothing is ever removed.

use std::collections::HashMap;
use vstd::prelude::*;

verus! {

broadcast use vstd::std_specs::hash::group_hash_axioms;

/// A map from instrument id to symbol.
pub struct SymbolTable {
    by_id: HashMap<u32, String>,
}

impl View for SymbolTable {
    type V = Map<u32, Seq<char>>;

    closed spec fn view(&self) -> Map<u32, Seq<char>> {
        self.by_id@.map_values(|symbol: String| symbol@)
    }
}

impl SymbolTable {
    /// An empty table.
    pub fn new() -> (r: SymbolTable)
        ensures
            r@ == Map::<u32, Seq<char>>::empty(),
    {
        let r = SymbolTable { by_id: HashMap::new() };
        assert(r@ =~= Map::<u32, Seq<char>>::empty());
        r
    }

    /// Gives instrument `id` the symbol `symbol`, replacing an earlier one.
    pub fn upsert(&mut self, id: u32, symbol: String)
        ensures
            final(self)@ == old(self)@.insert(id, symbol@),
    {
        self.by_id.insert(id, symbol);
        assert(final(self)@ =~= old(self)@.insert(id, symbol@));
    }

    /// The symbol of instrument `id`, if the feed has sent one.
    pub fn lookup(&self, id: u32) -> (r: Option<String>)
        ensures
            r is Some <==> self@.contains_key(id),
            r matches Some(symbol) ==> symbol@ == self@[id],
    {
        match self.by_id.get(&id) {
            Some(symbol) => Some(symbol.clone()),
            None => None,
        }
    }

    /// How many instruments have a symbol.
    pub fn len(&self) -> (n: usize)
        ensures
            n == self@.len(),
    {
        assert(self@.dom() =~= self.by_id@.dom());
        self.by_id.len()
    }
}

} // verus!
