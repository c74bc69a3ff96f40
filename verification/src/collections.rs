//! The hash tables of `hashbrown` that hold the dictionary, the digits in use
//! and the prices, with what the library relies on for each of their methods.
//! Nothing here is proved: each contract restates the documentation of the
//! method that the function calls.
use hashbrown::HashMap;
use hashbrown::HashSet;
use vstd::prelude::*;

use crate::amount::Amount;

verus! {

/// A `hashbrown::HashMap` from words to Roman digits.
#[derive(Debug)]
#[verifier::external_body]
pub struct WordTable {
    table: HashMap<String, char>,
}

/// A `hashbrown::HashMap` from items to unit prices.
#[derive(Debug)]
#[verifier::external_body]
pub struct PriceTable {
    table: HashMap<String, Amount>,
}

/// A `hashbrown::HashSet` of Roman digits.
#[derive(Debug)]
#[verifier::external_body]
pub struct DigitSet {
    set: HashSet<char>,
}

/// The entries of a table of words: the digit stored under each word.
pub uninterp spec fn word_entries(table: WordTable) -> Map<Seq<char>, char>;

/// The entries of a table of prices: the unit price stored under each item.
pub uninterp spec fn price_entries(table: PriceTable) -> Map<Seq<char>, Amount>;

/// The members of a set of digits.
pub uninterp spec fn digit_members(set: DigitSet) -> Set<char>;

impl WordTable {
    /// `HashMap::new`: the table that it returns has no entry.
    #[verifier::external_body]
    pub(crate) fn new() -> (table: WordTable)
        ensures
            word_entries(table).dom() == Set::<Seq<char>>::empty(),
    {
        WordTable { table: HashMap::new() }
    }

    /// `HashMap::get`: the digit stored under `word`, or `None` if the table
    /// has no entry for `word`.
    #[verifier::external_body]
    pub(crate) fn get(&self, word: &str) -> (digit: Option<char>)
        ensures
            digit is Some <==> word_entries(*self).contains_key(word@),
            digit is Some ==> digit.unwrap() == word_entries(*self)[word@],
    {
        self.table.get(word).copied()
    }

    /// `HashMap::insert`: afterwards the table holds `digit` under `word`,
    /// and its other entries are as before.
    #[verifier::external_body]
    pub(crate) fn insert(&mut self, word: String, digit: char)
        ensures
            word_entries(*final(self)) == word_entries(*old(self)).insert(word@, digit),
    {
        self.table.insert(word, digit);
    }

    /// `HashMap::values`: every digit that is stored under some word, and no
    /// other, in an order that is not fixed.
    #[verifier::external_body]
    pub(crate) fn values(&self) -> (digits: Vec<char>)
        ensures
            digits@.to_set() == word_entries(*self).values(),
    {
        self.table.values().copied().collect()
    }
}

impl PriceTable {
    /// `HashMap::new`: the table that it returns has no entry.
    #[verifier::external_body]
    pub(crate) fn new() -> (table: PriceTable)
        ensures
            price_entries(table).dom() == Set::<Seq<char>>::empty(),
    {
        PriceTable { table: HashMap::new() }
    }

    /// `HashMap::get`: the price stored under `item`, or `None` if the table
    /// has no entry for `item`.
    #[verifier::external_body]
    pub(crate) fn get(&self, item: &str) -> (price: Option<Amount>)
        ensures
            price is Some <==> price_entries(*self).contains_key(item@),
            price is Some ==> price.unwrap() == price_entries(*self)[item@],
    {
        self.table.get(item).copied()
    }

    /// `HashMap::insert`: afterwards the table holds `price` under `item`,
    /// and its other entries are as before.
    #[verifier::external_body]
    pub(crate) fn insert(&mut self, item: String, price: Amount)
        ensures
            price_entries(*final(self)) == price_entries(*old(self)).insert(item@, price),
    {
        self.table.insert(item, price);
    }
}

impl DigitSet {
    /// `HashSet::new`: the set that it returns has no member.
    #[verifier::external_body]
    pub(crate) fn new() -> (set: DigitSet)
        ensures
            digit_members(set) == Set::<char>::empty(),
    {
        DigitSet { set: HashSet::new() }
    }

    /// `HashSet::contains`: whether `digit` is a member.
    #[verifier::external_body]
    pub(crate) fn contains(&self, digit: char) -> (found: bool)
        ensures
            found == digit_members(*self).contains(digit),
    {
        self.set.contains(&digit)
    }

    /// `HashSet::insert`: afterwards `digit` is a member, beside the members
    /// that there were.
    #[verifier::external_body]
    pub(crate) fn insert(&mut self, digit: char)
        ensures
            digit_members(*final(self)) == digit_members(*old(self)).insert(digit),
    {
        self.set.insert(digit);
    }
}

} // verus!
