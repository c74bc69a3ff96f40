//! The unit prices of the items.
use vstd::prelude::*;

use crate::amount::Amount;
use crate::collections::price_entries;
use crate::collections::PriceTable;

verus! {

/// `PriceBook` holds the unit price of each item that has one. A price,
/// once set, stays.
#[derive(Debug)]
pub struct PriceBook {
    table: PriceTable,
}

/// The prices that a list of entries gives when they are stored in turn, a
/// later entry for an item taking the place of an earlier one.
pub open spec fn prices_of(entries: Seq<(String, Amount)>) -> Map<Seq<char>, (int, nat)>
    decreases entries.len(),
{
    if entries.len() == 0 {
        Map::empty()
    } else {
        prices_of(entries.drop_last()).insert(entries.last().0@, entries.last().1@)
    }
}

impl View for PriceBook {
    type V = Map<Seq<char>, (int, nat)>;

    closed spec fn view(&self) -> Map<Seq<char>, (int, nat)> {
        price_entries(self.table).map_values(|price: Amount| price@)
    }
}

impl PriceBook {
    /// Constructs a `PriceBook` without prices.
    pub fn new() -> (book: PriceBook)
        ensures
            book@ == prices_of(Seq::empty()),
    {
        let book = PriceBook { table: PriceTable::new() };
        proof {
            assert(book@ =~= Map::empty());
        }
        book
    }

    /// Constructs a `PriceBook` with the prices of `entries`.
    pub fn with(entries: &Vec<(String, Amount)>) -> (book: PriceBook)
        ensures
            book@ == prices_of(entries@),
    {
        let mut book = PriceBook::new();
        let mut i: usize = 0;
        while i < entries.len()
            invariant
                i <= entries.len(),
                book@ == prices_of(entries@.take(i as int)),
            decreases entries.len() - i,
        {
            let ghost before = price_entries(book.table);
            book.table.insert(entries[i].0.clone(), entries[i].1);
            proof {
                let upto = entries@.take(i + 1);
                assert(upto.drop_last() =~= entries@.take(i as int));
                assert(upto.last() == entries@[i as int]);
                assert(book@ =~= before.map_values(|price: Amount| price@).insert(
                    entries@[i as int].0@,
                    entries@[i as int].1@,
                ));
            }
            i += 1;
        }
        proof {
            assert(entries@.take(i as int) =~= entries@);
        }
        book
    }

    /// The unit price of `item`, if it has one.
    pub fn get(&self, item: &str) -> (price: Option<Amount>)
        ensures
            price is Some <==> self@.contains_key(item@),
            price is Some ==> price.unwrap()@ == self@[item@],
    {
        self.table.get(item)
    }

    /// Sets the unit price of `item` unless it has one already, and says
    /// whether it did so.
    pub fn insert_if_absent(&mut self, item: String, price: Amount) -> (inserted: bool)
        ensures
            inserted == !old(self)@.contains_key(item@),
            inserted ==> final(self)@ == old(self)@.insert(item@, price@),
            !inserted ==> final(self)@ == old(self)@,
    {
        if self.table.get(item.as_str()).is_some() {
            return false;
        }
        let ghost before = price_entries(self.table);
        self.table.insert(item, price);
        proof {
            assert(self@ =~= before.map_values(|price: Amount| price@).insert(item@, price@));
        }
        true
    }
}

impl Default for PriceBook {
    fn default() -> (book: PriceBook)
        ensures
            book@ == prices_of(Seq::empty()),
    {
        PriceBook::new()
    }
}

} // verus!
