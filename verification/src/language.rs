//! Language mapping and translator from the intergalactic numeric system to
//! Roman numerals.
use vstd::prelude::*;

use crate::amount::decimal_product;
use crate::amount::Amount;
use crate::collections::word_entries;
use crate::collections::WordTable;
use crate::error::Failure;
use crate::error::QueryError;
use crate::pricebook::PriceBook;
use crate::roman::decoded;
use crate::roman::is_canonical;
use crate::roman::Roman;
use crate::sentence::question_of;
use crate::sentence::Form;
use crate::sentence::Sentence;
use crate::text::split;
use crate::text::split_words;
use crate::text::string_of;
use crate::text::texts;

verus! {

/// `Language` is a mapping of intergalactic numerals to terran Roman
/// numerals.
#[derive(Debug)]
pub struct Language {
    table: WordTable,
}

/// The dictionary that a list of entries gives when they are stored in turn,
/// a later entry for a word taking the place of an earlier one.
pub open spec fn dictionary_of(entries: Seq<(String, char)>) -> Map<Seq<char>, char>
    decreases entries.len(),
{
    if entries.len() == 0 {
        Map::empty()
    } else {
        dictionary_of(entries.drop_last()).insert(entries.last().0@, entries.last().1)
    }
}

/// `words[index]` is the first of `words` that the dictionary lacks.
pub open spec fn is_first_unknown(
    dictionary: Map<Seq<char>, char>,
    words: Seq<Seq<char>>,
    index: int,
) -> bool {
    &&& 0 <= index < words.len()
    &&& !dictionary.contains_key(words[index])
    &&& forall|earlier: int| 0 <= earlier < index ==> dictionary.contains_key(#[trigger] words[earlier])
}

/// The digits that the dictionary gives for `words`, in the order of the
/// words.
pub open spec fn digits_for(dictionary: Map<Seq<char>, char>, words: Seq<Seq<char>>) -> Seq<char> {
    Seq::new(words.len(), |index: int| dictionary[words[index]])
}

/// What translating `text` gives: the text is split at whitespace; the
/// first word that the dictionary lacks is an error; else the digits of the
/// words, in order, have to be a canonical numeral.
pub open spec fn translation(dictionary: Map<Seq<char>, char>, text: Seq<char>) -> Result<
    Seq<char>,
    Failure,
> {
    let words = split(text);
    if exists|index: int| is_first_unknown(dictionary, words, index) {
        let first = choose|index: int| is_first_unknown(dictionary, words, index);
        Err(Failure::UnrecognizedWord(words[first]))
    } else {
        let digits = digits_for(dictionary, words);
        if digits.len() > 0 && is_canonical(digits) {
            Ok(digits)
        } else {
            Err(Failure::InvalidRomanNumeral)
        }
    }
}

/// What a translation returned, as the numeral's text or the failure.
pub open spec fn translated(result: Result<Roman, QueryError>) -> Result<Seq<char>, Failure> {
    match result {
        Ok(roman) => Ok(roman@),
        Err(error) => Err(error@),
    }
}

/// What an evaluation returned, as the amount's mantissa and scale or the
/// failure.
pub open spec fn evaluated(result: Result<Amount, QueryError>) -> Result<(int, nat), Failure> {
    match result {
        Ok(amount) => Ok(amount@),
        Err(error) => Err(error@),
    }
}

/// The answer to a question: the value of the words for `AskValue`; for
/// `AskPrice` that value times the unit price of the item, which has to have
/// one. Anything else, and a product that is too large, is an unrecognized
/// query, and carries the whole `text`.
pub open spec fn evaluation(
    dictionary: Map<Seq<char>, char>,
    prices: Map<Seq<char>, (int, nat)>,
    question: Form,
    text: Seq<char>,
) -> Result<(int, nat), Failure> {
    match question {
        Form::AskValue { words } => match translation(dictionary, words) {
            Ok(digits) => Ok((decoded(digits) as int, 0nat)),
            Err(failure) => Err(failure),
        },
        Form::AskPrice { words, item } => match translation(dictionary, words) {
            Ok(digits) => if prices.contains_key(item) {
                match decimal_product(
                    decoded(digits) as int,
                    0,
                    prices[item].0,
                    prices[item].1,
                ) {
                    Some(total) => Ok(total),
                    None => Err(Failure::UnrecognizedQuery(text)),
                }
            } else {
                Err(Failure::UnrecognizedItem(item))
            },
            Err(failure) => Err(failure),
        },
        _ => Err(Failure::UnrecognizedQuery(text)),
    }
}

/// A translation keeps the order of the words: it has one digit for each
/// word of the text, the digit that the dictionary gives for that word.
pub proof fn lemma_translation_in_order(dictionary: Map<Seq<char>, char>, text: Seq<char>)
    ensures
        translation(dictionary, text) matches Ok(digits) ==> {
            &&& digits.len() == split(text).len()
            &&& is_canonical(digits)
            &&& forall|index: int|
                0 <= index < digits.len() ==> dictionary.contains_key(
                    #[trigger] split(text)[index],
                ) && digits[index] == dictionary[split(text)[index]]
        },
{
    let words = split(text);
    if translation(dictionary, text) is Ok {
        assert forall|index: int| 0 <= index < words.len() implies dictionary.contains_key(
            #[trigger] words[index],
        ) by {
            if !dictionary.contains_key(words[index]) {
                lemma_some_first_unknown(dictionary, words, index);
            }
        }
    }
}

/// Where the dictionary lacks one of the words, it lacks a first one.
proof fn lemma_some_first_unknown(
    dictionary: Map<Seq<char>, char>,
    words: Seq<Seq<char>>,
    index: int,
)
    requires
        0 <= index < words.len(),
        !dictionary.contains_key(words[index]),
    ensures
        exists|first: int| is_first_unknown(dictionary, words, first),
    decreases index,
{
    if exists|earlier: int| 0 <= earlier < index && !dictionary.contains_key(words[earlier]) {
        let earlier = choose|earlier: int|
            0 <= earlier < index && !dictionary.contains_key(words[earlier]);
        lemma_some_first_unknown(dictionary, words, earlier);
    } else {
        assert(is_first_unknown(dictionary, words, index));
    }
}

impl View for Language {
    type V = Map<Seq<char>, char>;

    closed spec fn view(&self) -> Map<Seq<char>, char> {
        word_entries(self.table)
    }
}

impl Language {
    /// Construct an empty `Language`.
    pub fn new() -> (language: Language)
        ensures
            language@ == dictionary_of(Seq::empty()),
    {
        let language = Language { table: WordTable::new() };
        proof {
            assert(language@ =~= Map::empty());
        }
        language
    }

    /// Construct a `Language` with the entries of `entries`.
    pub fn with(entries: &Vec<(String, char)>) -> (language: Language)
        ensures
            language@ == dictionary_of(entries@),
    {
        let mut language = Language::new();
        let mut i: usize = 0;
        while i < entries.len()
            invariant
                i <= entries.len(),
                language@ == dictionary_of(entries@.take(i as int)),
            decreases entries.len() - i,
        {
            language.table.insert(entries[i].0.clone(), entries[i].1);
            proof {
                let upto = entries@.take(i + 1);
                assert(upto.drop_last() =~= entries@.take(i as int));
                assert(upto.last() == entries@[i as int]);
            }
            i += 1;
        }
        proof {
            assert(entries@.take(i as int) =~= entries@);
        }
        language
    }

    /// Whether `word` has an entry.
    pub fn contains(&self, word: &str) -> (known: bool)
        ensures
            known == self@.contains_key(word@),
    {
        self.table.get(word).is_some()
    }

    /// Lets `word` stand for `digit`, whatever it stood for before.
    pub fn insert(&mut self, word: String, digit: char)
        ensures
            final(self)@ == old(self)@.insert(word@, digit),
    {
        self.table.insert(word, digit);
    }

    /// The digits that some word stands for, in no fixed order.
    pub fn known_digits(&self) -> (digits: Vec<char>)
        ensures
            digits@.to_set() == self@.values(),
    {
        self.table.values()
    }

    /// Translate an intergalactic numeral to `Roman`.
    pub fn translate(&self, text: &str) -> (result: Result<Roman, QueryError>)
        ensures
            translated(result) == translation(self@, text@),
    {
        let words = split_words(text);
        let mut digits: Vec<char> = Vec::new();
        let mut i: usize = 0;
        while i < words.len()
            invariant
                i <= words.len(),
                texts(words@) == split(text@),
                forall|earlier: int|
                    0 <= earlier < i ==> self@.contains_key(#[trigger] texts(words@)[earlier]),
                digits@ == Seq::new(i as nat, |index: int| self@[texts(words@)[index]]),
            decreases words.len() - i,
        {
            match self.table.get(words[i].as_str()) {
                Some(digit) => {
                    digits.push(digit);
                    proof {
                        assert(digits@ =~= Seq::new(
                            (i + 1) as nat,
                            |index: int| self@[texts(words@)[index]],
                        ));
                    }
                },
                None => {
                    proof {
                        assert(is_first_unknown(self@, split(text@), i as int));
                    }
                    return Err(QueryError::UnrecognizedWord(words[i].clone()));
                },
            }
            i += 1;
        }
        proof {
            assert(digits@ =~= digits_for(self@, split(text@)));
        }
        match Roman::try_from(string_of(&digits)) {
            Ok(roman) => Ok(roman),
            Err(error) => Err(QueryError::from(error)),
        }
    }

    /// The answer to `question`, which was read from `text`: see
    /// `evaluation`.
    pub fn evaluate(&self, price_set: &PriceBook, question: &Sentence, text: &str) -> (result:
        Result<Amount, QueryError>)
        ensures
            evaluated(result) == evaluation(self@, price_set@, question@, text@),
    {
        match question {
            Sentence::AskValue { words } => {
                let roman = self.translate(words.as_str())?;
                Ok(Amount::from(u32::from(roman)))
            },
            Sentence::AskPrice { words, item } => {
                let roman = self.translate(words.as_str())?;
                let count = Amount::from(u32::from(roman));
                match price_set.get(item.as_str()) {
                    Some(price) => match count.times(price) {
                        Some(total) => Ok(total),
                        None => Err(QueryError::UnrecognizedQuery(text.to_owned())),
                    },
                    None => Err(QueryError::UnrecognizedItem(item.clone())),
                }
            },
            _ => Err(QueryError::UnrecognizedQuery(text.to_owned())),
        }
    }

    /// Query the translation of a number or the price of an item.
    ///
    /// Valid queries are of one of the following forms:
    /// - How much is <number>?
    /// - How many credits is <number> <Item>?
    ///
    /// Numbers must always be all lowercase, while items must always be
    /// capitalized.
    pub fn query(&self, price_set: &PriceBook, text: &str) -> (result: Result<Amount, QueryError>)
        ensures
            evaluated(result) == evaluation(self@, price_set@, question_of(text@), text@),
    {
        let question = Sentence::read_question(text);
        self.evaluate(price_set, &question, text)
    }
}

impl Default for Language {
    fn default() -> (language: Language)
        ensures
            language@ == dictionary_of(Seq::empty()),
    {
        Language::new()
    }
}

} // verus!
