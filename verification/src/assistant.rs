//! A personal assistant for all your galaxy hitchhiking needs.
use vstd::prelude::*;

use crate::amount::decimal_from_text;
use crate::amount::decimal_product;
use crate::amount::decimal_quotient;
use crate::amount::decimal_text;
use crate::amount::stripped;
use crate::amount::Amount;
use crate::collections::digit_members;
use crate::collections::DigitSet;
use crate::error::Failure;
use crate::error::QueryError;
use crate::language::translation;
use crate::language::Language;
use crate::pricebook::PriceBook;
use crate::roman::decoded;
use crate::sentence::sentence_of;
use crate::sentence::Form;
use crate::sentence::Sentence;
use crate::text::decimal_chars;
use crate::text::decimal_digits;
use crate::text::string_of;
use crate::text::trim;
use crate::text::trimmed;

verus! {

/// What an assistant knows: the digit of each word, the digits in use, and
/// the unit price of each item, as mantissa and scale.
pub struct Session {
    pub dictionary: Map<Seq<char>, char>,
    pub digits: Set<char>,
    pub prices: Map<Seq<char>, (int, nat)>,
}

impl Session {
    /// The digits in use are those that some word stands for.
    pub open spec fn consistent(self) -> bool {
        self.digits == self.dictionary.values()
    }

    /// No two words stand for the same digit.
    pub open spec fn one_to_one(self) -> bool {
        forall|first: Seq<char>, second: Seq<char>|
            self.dictionary.contains_key(first) && self.dictionary.contains_key(second)
                && self.dictionary[first] == self.dictionary[second] ==> first == second
    }
}

/// The reply to a question for a value: `<words> is <value>`.
pub open spec fn value_reply(words: Seq<char>, value: nat) -> Seq<char> {
    words + seq![' ', 'i', 's', ' '] + decimal_digits(value)
}

/// The reply to a question for a price: `<words> <item> is <total> Credits`.
pub open spec fn price_reply(words: Seq<char>, item: Seq<char>, total: Seq<char>) -> Seq<char> {
    words + seq![' '] + item + seq![' ', 'i', 's', ' '] + total + seq![
        ' ',
        'C',
        'r',
        'e',
        'd',
        'i',
        't',
        's',
    ]
}

/// What the definition of a digit does: it fails where the word has a digit
/// or the digit has a word; else the word gets the digit.
pub open spec fn digit_defined(session: Session, word: Seq<char>, digit: char) -> (
    Session,
    Result<Option<Seq<char>>, Failure>,
) {
    if session.dictionary.contains_key(word) {
        (session, Err(Failure::WordAlreadyExists(word)))
    } else if session.digits.contains(digit) {
        (session, Err(Failure::DigitAlreadyExists(digit)))
    } else {
        (
            Session {
                dictionary: session.dictionary.insert(word, digit),
                digits: session.digits.insert(digit),
                prices: session.prices,
            },
            Ok(None),
        )
    }
}

/// What the definition of a price does: the words are translated to a
/// count; the item must have no price yet; its unit price becomes the
/// credits divided by the count. Credits that are no decimal, and a quotient
/// that cannot be had, make the query unrecognized.
pub open spec fn price_defined(
    session: Session,
    words: Seq<char>,
    item: Seq<char>,
    credits: Seq<char>,
    text: Seq<char>,
) -> (Session, Result<Option<Seq<char>>, Failure>) {
    match translation(session.dictionary, words) {
        Err(failure) => (session, Err(failure)),
        Ok(digits) => if session.prices.contains_key(item) {
            (session, Err(Failure::ItemAlreadyExists(item)))
        } else {
            match decimal_from_text(credits) {
                None => (session, Err(Failure::UnrecognizedQuery(text))),
                Some(total) => match decimal_quotient(total.0, total.1, decoded(digits) as int, 0) {
                    None => (session, Err(Failure::UnrecognizedQuery(text))),
                    Some(unit) => (
                        Session {
                            dictionary: session.dictionary,
                            digits: session.digits,
                            prices: session.prices.insert(item, unit),
                        },
                        Ok(None),
                    ),
                },
            }
        },
    }
}

/// The reply to a question for a value, or why there is none.
pub open spec fn value_asked(session: Session, words: Seq<char>) -> Result<
    Option<Seq<char>>,
    Failure,
> {
    match translation(session.dictionary, words) {
        Err(failure) => Err(failure),
        Ok(digits) => Ok(Some(value_reply(words, decoded(digits)))),
    }
}

/// The reply to a question for a price, or why there is none: the item
/// must have a price; the total is the count times the unit price, shown
/// without trailing zeros. A product that is too large makes the query
/// unrecognized.
pub open spec fn price_asked(
    session: Session,
    words: Seq<char>,
    item: Seq<char>,
    text: Seq<char>,
) -> Result<Option<Seq<char>>, Failure> {
    match translation(session.dictionary, words) {
        Err(failure) => Err(failure),
        Ok(digits) => if session.prices.contains_key(item) {
            let price = session.prices[item];
            match decimal_product(decoded(digits) as int, 0, price.0, price.1) {
                None => Err(Failure::UnrecognizedQuery(text)),
                Some(total) => {
                    let shown = stripped(total.0, total.1);
                    Ok(Some(price_reply(words, item, decimal_text(shown.0, shown.1))))
                },
            }
        } else {
            Err(Failure::UnrecognizedItem(item))
        },
    }
}

/// What a sentence, read from `text`, does to a session and what is replied.
/// The phrases of words and the items count without the whitespace around
/// them.
pub open spec fn outcome(session: Session, sentence: Form, text: Seq<char>) -> (
    Session,
    Result<Option<Seq<char>>, Failure>,
) {
    match sentence {
        Form::DefineDigit { word, digit } => digit_defined(session, word, digit),
        Form::DefinePrice { words, item, credits } => price_defined(
            session,
            trim(words),
            trim(item),
            credits,
            text,
        ),
        Form::AskValue { words } => (session, value_asked(session, trim(words))),
        Form::AskPrice { words, item } => (
            session,
            price_asked(session, trim(words), trim(item), text),
        ),
        Form::Unrecognized => (session, Err(Failure::UnrecognizedQuery(text))),
    }
}

/// What a query returned, as the reply's text or the failure.
pub open spec fn replied(result: Result<Option<String>, QueryError>) -> Result<
    Option<Seq<char>>,
    Failure,
> {
    match result {
        Ok(Some(reply)) => Ok(Some(reply@)),
        Ok(None) => Ok(None),
        Err(error) => Err(error@),
    }
}

/// Fast Omniscient Robotic guiDe is a personal assistant on your hitchhike
/// through the galaxy.
#[derive(Debug)]
pub struct Ford {
    language: Language,
    known_digits: DigitSet,
    price_set: PriceBook,
}

impl View for Ford {
    type V = Session;

    closed spec fn view(&self) -> Session {
        Session {
            dictionary: self.language@,
            digits: digit_members(self.known_digits),
            prices: self.price_set@,
        }
    }
}

impl Ford {
    /// Constructs a new empty `Ford`.
    pub fn new() -> (ford: Ford)
        ensures
            ford@.dictionary == Map::<Seq<char>, char>::empty(),
            ford@.digits == Set::<char>::empty(),
            ford@.prices == Map::<Seq<char>, (int, nat)>::empty(),
            ford@.consistent(),
            ford@.one_to_one(),
    {
        let ford = Ford {
            language: Language::new(),
            known_digits: DigitSet::new(),
            price_set: PriceBook::new(),
        };
        proof {
            assert(ford@.dictionary.values() =~= Set::<char>::empty());
        }
        ford
    }

    /// Constructs a new `Ford` with a `Language` and a set of prices. The
    /// digits in use are those of the language.
    pub fn with(language: Language, price_set: PriceBook) -> (ford: Ford)
        ensures
            ford@.dictionary == language@,
            ford@.digits == language@.values(),
            ford@.prices == price_set@,
            ford@.consistent(),
    {
        let digits = language.known_digits();
        let mut known_digits = DigitSet::new();
        let mut i: usize = 0;
        proof {
            assert(digits@.take(0).to_set() =~= Set::<char>::empty());
        }
        while i < digits.len()
            invariant
                i <= digits.len(),
                digit_members(known_digits) == digits@.take(i as int).to_set(),
            decreases digits.len() - i,
        {
            known_digits.insert(digits[i]);
            proof {
                assert(digits@.take(i + 1) =~= digits@.take(i as int).push(digits@[i as int]));
                digits@.take(i as int).lemma_push_to_set_commute(digits@[i as int]);
            }
            i += 1;
        }
        proof {
            assert(digits@.take(i as int) =~= digits@);
        }
        Ford { language, known_digits, price_set }
    }

    fn define_digit(&mut self, word: &String, digit: char) -> (result: Result<
        Option<String>,
        QueryError,
    >)
        ensures
            (final(self)@, replied(result)) == digit_defined(old(self)@, word@, digit),
    {
        if self.language.contains(word.as_str()) {
            return Err(QueryError::WordAlreadyExists(word.clone()));
        }
        if self.known_digits.contains(digit) {
            return Err(QueryError::DigitAlreadyExists(digit));
        }
        self.language.insert(word.clone(), digit);
        self.known_digits.insert(digit);
        Ok(None)
    }

    fn define_price(&mut self, words: &str, item: String, credits: &str, query: &str) -> (result:
        Result<Option<String>, QueryError>)
        ensures
            (final(self)@, replied(result)) == price_defined(
                old(self)@,
                words@,
                item@,
                credits@,
                query@,
            ),
    {
        let roman = self.language.translate(words)?;
        let count = Amount::from(u32::from(roman));
        if self.price_set.get(item.as_str()).is_some() {
            return Err(QueryError::ItemAlreadyExists(item));
        }
        let total = match Amount::parse(credits) {
            Some(total) => total,
            None => return Err(QueryError::UnrecognizedQuery(query.to_owned())),
        };
        let unit = match total.divided_by(count) {
            Some(unit) => unit,
            None => return Err(QueryError::UnrecognizedQuery(query.to_owned())),
        };
        self.price_set.insert_if_absent(item, unit);
        Ok(None)
    }

    /// The reply to a question for a value: `<words> is <value>`.
    pub fn value_line(words: &str, value: u32) -> (reply: String)
        ensures
            reply@ == value_reply(words@, value as nat),
    {
        let mut reply = words.to_owned();
        reply.append(" is ");
        reply.append(string_of(&decimal_chars(value)).as_str());
        proof {
            reveal_strlit(" is ");
            assert(" is "@ =~= seq![' ', 'i', 's', ' ']);
        }
        reply
    }

    /// The reply to a question for a price:
    /// `<words> <item> is <total> Credits`.
    pub fn price_line(words: &str, item: &str, total: &str) -> (reply: String)
        ensures
            reply@ == price_reply(words@, item@, total@),
    {
        let mut reply = words.to_owned();
        reply.append(" ");
        reply.append(item);
        reply.append(" is ");
        reply.append(total);
        reply.append(" Credits");
        proof {
            reveal_strlit(" ");
            reveal_strlit(" is ");
            reveal_strlit(" Credits");
            assert(" "@ =~= seq![' ']);
            assert(" is "@ =~= seq![' ', 'i', 's', ' ']);
            assert(" Credits"@ =~= seq![' ', 'C', 'r', 'e', 'd', 'i', 't', 's']);
        }
        reply
    }

    fn ask_value(&self, words: &str) -> (result: Result<Option<String>, QueryError>)
        ensures
            replied(result) == value_asked(self@, words@),
    {
        let roman = self.language.translate(words)?;
        Ok(Some(Ford::value_line(words, u32::from(roman))))
    }

    fn ask_price(&self, words: &str, item: &str, query: &str) -> (result: Result<
        Option<String>,
        QueryError,
    >)
        ensures
            replied(result) == price_asked(self@, words@, item@, query@),
    {
        let roman = self.language.translate(words)?;
        let count = Amount::from(u32::from(roman));
        let price = match self.price_set.get(item) {
            Some(price) => price,
            None => return Err(QueryError::UnrecognizedItem(item.to_owned())),
        };
        let total_price = match count.times(price) {
            Some(total_price) => total_price.normalized(),
            None => return Err(QueryError::UnrecognizedQuery(query.to_owned())),
        };
        Ok(Some(Ford::price_line(words, item, total_price.shown().as_str())))
    }

    /// Applies `sentence`, which was read from `query`, and gives the reply:
    /// see `outcome`. Where it fails, nothing has changed.
    pub fn respond(&mut self, sentence: &Sentence, query: &str) -> (result: Result<
        Option<String>,
        QueryError,
    >)
        ensures
            (final(self)@, replied(result)) == outcome(old(self)@, sentence@, query@),
            result is Err ==> final(self)@ == old(self)@,
            old(self)@.consistent() ==> final(self)@.consistent(),
            old(self)@.consistent() && old(self)@.one_to_one() ==> final(self)@.one_to_one(),
    {
        proof {
            lemma_outcome_keeps(self@, sentence@, query@);
            if self@.consistent() && self@.one_to_one() {
                lemma_outcome_one_to_one(self@, sentence@, query@);
            }
        }
        match sentence {
            Sentence::DefineDigit { word, digit } => self.define_digit(word, *digit),
            Sentence::DefinePrice { words, item, credits } => {
                let words = trimmed(words.as_str());
                let item = trimmed(item.as_str());
                self.define_price(words.as_str(), item, credits.as_str(), query)
            },
            Sentence::AskValue { words } => {
                let words = trimmed(words.as_str());
                self.ask_value(words.as_str())
            },
            Sentence::AskPrice { words, item } => {
                let words = trimmed(words.as_str());
                let item = trimmed(item.as_str());
                self.ask_price(words.as_str(), item.as_str(), query)
            },
            Sentence::Unrecognized => Err(QueryError::UnrecognizedQuery(query.to_owned())),
        }
    }

    /// Query the translation of a number or the price of an item.
    ///
    /// Valid queries are of one of the following forms:
    /// - <number> is <roman digit>
    /// - <number> <Item> is <decimal> credits
    /// - How much is <number>?
    /// - How many credits is <number> <Item>?
    ///
    /// Numbers must always be all lowercase, while items must always be
    /// capitalized. Roman digit can be one off: I, V, X, L, C, D, M.
    pub fn query(&mut self, query: &str) -> (result: Result<Option<String>, QueryError>)
        ensures
            (final(self)@, replied(result)) == outcome(old(self)@, sentence_of(query@), query@),
            result is Err ==> final(self)@ == old(self)@,
            old(self)@.consistent() ==> final(self)@.consistent(),
            old(self)@.consistent() && old(self)@.one_to_one() ==> final(self)@.one_to_one(),
    {
        let sentence = Sentence::read(query);
        self.respond(&sentence, query)
    }
}

impl Default for Ford {
    fn default() -> (ford: Ford)
        ensures
            ford@.dictionary == Map::<Seq<char>, char>::empty(),
            ford@.digits == Set::<char>::empty(),
            ford@.prices == Map::<Seq<char>, (int, nat)>::empty(),
            ford@.consistent(),
            ford@.one_to_one(),
    {
        Ford::new()
    }
}

/// A query that fails changes nothing, and the digits in use go on being
/// those of the dictionary.
pub proof fn lemma_outcome_keeps(session: Session, sentence: Form, text: Seq<char>)
    ensures
        outcome(session, sentence, text).1 is Err ==> outcome(session, sentence, text).0
            == session,
        session.consistent() ==> outcome(session, sentence, text).0.consistent(),
{
    let after = outcome(session, sentence, text).0;
    if session.consistent() {
        match sentence {
            Form::DefineDigit { word, digit } => {
                if !session.dictionary.contains_key(word) && !session.digits.contains(digit) {
                    lemma_values_insert(session.dictionary, word, digit);
                }
            },
            _ => {},
        }
    }
}

/// A question changes nothing, so the same question, asked again at once,
/// gets the same reply.
pub proof fn lemma_question_repeats(session: Session, sentence: Form, text: Seq<char>)
    requires
        sentence is AskValue || sentence is AskPrice,
    ensures
        outcome(session, sentence, text).0 == session,
        outcome(outcome(session, sentence, text).0, sentence, text) == outcome(
            session,
            sentence,
            text,
        ),
{
}

/// A text in none of the forms is an unrecognized query, which carries the
/// text, and changes nothing.
pub proof fn lemma_unrecognized(session: Session, text: Seq<char>)
    ensures
        outcome(session, Form::Unrecognized, text) == (
            session,
            Err::<Option<Seq<char>>, Failure>(Failure::UnrecognizedQuery(text)),
        ),
{
}

/// Nothing is ever taken back: after any query each word stands for the
/// digit that it stood for, each item has the unit price that it had, and
/// each digit that was in use is in use.
pub proof fn lemma_outcome_grows(session: Session, sentence: Form, text: Seq<char>)
    ensures
        forall|word: Seq<char>| #[trigger]
            session.dictionary.contains_key(word) ==> outcome(
                session,
                sentence,
                text,
            ).0.dictionary.contains_key(word) && outcome(session, sentence, text).0.dictionary[word]
                == session.dictionary[word],
        forall|item: Seq<char>| #[trigger]
            session.prices.contains_key(item) ==> outcome(
                session,
                sentence,
                text,
            ).0.prices.contains_key(item) && outcome(session, sentence, text).0.prices[item]
                == session.prices[item],
        session.digits.subset_of(outcome(session, sentence, text).0.digits),
{
}

/// A digit that is in use gets no second word: where the digits in use are
/// those of the dictionary and no two words stand for the same digit, no
/// two words stand for the same digit after any query.
pub proof fn lemma_outcome_one_to_one(session: Session, sentence: Form, text: Seq<char>)
    requires
        session.consistent(),
        session.one_to_one(),
    ensures
        outcome(session, sentence, text).0.one_to_one(),
{
    let after = outcome(session, sentence, text).0;
    match sentence {
        Form::DefineDigit { word, digit } => {
            if !session.dictionary.contains_key(word) && !session.digits.contains(digit) {
                assert forall|first: Seq<char>, second: Seq<char>|
                    after.dictionary.contains_key(first) && after.dictionary.contains_key(second)
                        && after.dictionary[first] == after.dictionary[second] implies first
                    == second by {
                    if first != word {
                        assert(session.dictionary.values().contains(session.dictionary[first]));
                    }
                    if second != word {
                        assert(session.dictionary.values().contains(session.dictionary[second]));
                    }
                }
            }
        },
        _ => {},
    }
}

/// A new key adds its value to the values of a map.
proof fn lemma_values_insert(map: Map<Seq<char>, char>, key: Seq<char>, value: char)
    requires
        !map.contains_key(key),
    ensures
        map.insert(key, value).values() == map.values().insert(value),
{
    let after = map.insert(key, value);
    assert forall|v: char| after.values().contains(v) <==> map.values().insert(value).contains(
        v,
    ) by {
        if after.values().contains(v) {
            let k = choose|k: Seq<char>| after.contains_key(k) && after[k] == v;
            if k != key {
                assert(map.contains_key(k) && map[k] == v);
            }
        }
        if map.values().contains(v) {
            let k = choose|k: Seq<char>| map.contains_key(k) && map[k] == v;
            assert(after.contains_key(k) && after[k] == v);
        }
        if v == value {
            assert(after.contains_key(key) && after[key] == v);
        }
    }
    assert(after.values() =~= map.values().insert(value));
}

} // verus!
