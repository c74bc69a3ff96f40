//! The sentences that the assistant understands, and how the groups of a
//! pattern's match become one.
use vstd::prelude::*;

use crate::patterns::captures;
use crate::patterns::found_text;
use crate::patterns::group_text;
use crate::patterns::regex_captures;
use crate::patterns::ASK_PRICE;
use crate::patterns::ASK_PRICE_STRICT;
use crate::patterns::ASK_VALUE;
use crate::patterns::DEFINE_DIGIT;
use crate::patterns::DEFINE_PRICE;
use crate::text::chars_of;

verus! {

/// A sentence in one of the known forms, with the phrases as they stand in
/// the text.
#[derive(Debug, Clone, PartialEq, Eq)]
pub enum Sentence {
    /// `<word> is <digit>`
    DefineDigit { word: String, digit: char },
    /// `<words> <item> is <credits> credits`
    DefinePrice { words: String, item: String, credits: String },
    /// `how much is <words>?`
    AskValue { words: String },
    /// `how many credits is <words> <item>?`
    AskPrice { words: String, item: String },
    /// None of these.
    Unrecognized,
}

/// What a `Sentence` says, with each string as the sequence of its
/// characters.
pub enum Form {
    DefineDigit { word: Seq<char>, digit: char },
    DefinePrice { words: Seq<char>, item: Seq<char>, credits: Seq<char> },
    AskValue { words: Seq<char> },
    AskPrice { words: Seq<char>, item: Seq<char> },
    Unrecognized,
}

impl View for Sentence {
    type V = Form;

    open spec fn view(&self) -> Form {
        match self {
            Sentence::DefineDigit { word, digit } => Form::DefineDigit {
                word: word@,
                digit: *digit,
            },
            Sentence::DefinePrice { words, item, credits } => Form::DefinePrice {
                words: words@,
                item: item@,
                credits: credits@,
            },
            Sentence::AskValue { words } => Form::AskValue { words: words@ },
            Sentence::AskPrice { words, item } => Form::AskPrice { words: words@, item: item@ },
            Sentence::Unrecognized => Form::Unrecognized,
        }
    }
}

/// The form of a sentence that may be missing.
pub open spec fn optional_form(sentence: Option<Sentence>) -> Option<Form> {
    match sentence {
        Some(sentence) => Some(sentence@),
        None => None,
    }
}

/// The text of the group `index` of a match; `None` where the match has no
/// such group or the group took no part in it.
pub open spec fn group_at(found: Option<Seq<Option<Seq<char>>>>, index: int) -> Option<Seq<char>> {
    match found {
        Some(groups) => if 0 <= index < groups.len() {
            groups[index]
        } else {
            None
        },
        None => None,
    }
}

/// The definition of a digit that a match of `DEFINE_DIGIT` stands for: the
/// word is the first group, the digit the first character of the second.
pub open spec fn define_digit_of(found: Option<Seq<Option<Seq<char>>>>) -> Option<Form> {
    match (group_at(found, 1), group_at(found, 2)) {
        (Some(word), Some(digit)) => if digit.len() > 0 {
            Some(Form::DefineDigit { word, digit: digit[0] })
        } else {
            None
        },
        _ => None,
    }
}

/// The definition of a price that a match of `DEFINE_PRICE` stands for.
pub open spec fn define_price_of(found: Option<Seq<Option<Seq<char>>>>) -> Option<Form> {
    match (group_at(found, 1), group_at(found, 2), group_at(found, 3)) {
        (Some(words), Some(item), Some(credits)) => Some(
            Form::DefinePrice { words, item, credits },
        ),
        _ => None,
    }
}

/// The question for a value that a match of `ASK_VALUE` stands for.
pub open spec fn ask_value_of(found: Option<Seq<Option<Seq<char>>>>) -> Option<Form> {
    match group_at(found, 1) {
        Some(words) => Some(Form::AskValue { words }),
        None => None,
    }
}

/// The question for a price that a match of `ASK_PRICE` or of
/// `ASK_PRICE_STRICT` stands for.
pub open spec fn ask_price_of(found: Option<Seq<Option<Seq<char>>>>) -> Option<Form> {
    match (group_at(found, 1), group_at(found, 2)) {
        (Some(words), Some(item)) => Some(Form::AskPrice { words, item }),
        _ => None,
    }
}

/// The first of the four forms that `text` has, in their fixed order.
pub open spec fn sentence_of(text: Seq<char>) -> Form {
    if let Some(form) = define_digit_of(regex_captures(DEFINE_DIGIT@, text)) {
        form
    } else if let Some(form) = define_price_of(regex_captures(DEFINE_PRICE@, text)) {
        form
    } else if let Some(form) = ask_value_of(regex_captures(ASK_VALUE@, text)) {
        form
    } else if let Some(form) = ask_price_of(regex_captures(ASK_PRICE@, text)) {
        form
    } else {
        Form::Unrecognized
    }
}

/// The first of the two questions that `text` is, where the item of a price
/// has to reach up to the question mark.
pub open spec fn question_of(text: Seq<char>) -> Form {
    if let Some(form) = ask_value_of(regex_captures(ASK_VALUE@, text)) {
        form
    } else if let Some(form) = ask_price_of(regex_captures(ASK_PRICE_STRICT@, text)) {
        form
    } else {
        Form::Unrecognized
    }
}

fn group(found: &Option<Vec<Option<String>>>, index: usize) -> (part: Option<String>)
    ensures
        group_text(part) == group_at(found_text(*found), index as int),
{
    match found {
        Some(groups) => {
            if index < groups.len() {
                groups[index].clone()
            } else {
                None
            }
        },
        None => None,
    }
}

impl Sentence {
    /// The definition of a digit that a match of `DEFINE_DIGIT` stands for.
    pub fn define_digit(found: &Option<Vec<Option<String>>>) -> (sentence: Option<Sentence>)
        ensures
            optional_form(sentence) == define_digit_of(found_text(*found)),
    {
        match (group(found, 1), group(found, 2)) {
            (Some(word), Some(digit)) => {
                let digits = chars_of(digit.as_str());
                if digits.len() > 0 {
                    Some(Sentence::DefineDigit { word, digit: digits[0] })
                } else {
                    None
                }
            },
            _ => None,
        }
    }

    /// The definition of a price that a match of `DEFINE_PRICE` stands for.
    pub fn define_price(found: &Option<Vec<Option<String>>>) -> (sentence: Option<Sentence>)
        ensures
            optional_form(sentence) == define_price_of(found_text(*found)),
    {
        match (group(found, 1), group(found, 2), group(found, 3)) {
            (Some(words), Some(item), Some(credits)) => Some(
                Sentence::DefinePrice { words, item, credits },
            ),
            _ => None,
        }
    }

    /// The question for a value that a match of `ASK_VALUE` stands for.
    pub fn ask_value(found: &Option<Vec<Option<String>>>) -> (sentence: Option<Sentence>)
        ensures
            optional_form(sentence) == ask_value_of(found_text(*found)),
    {
        match group(found, 1) {
            Some(words) => Some(Sentence::AskValue { words }),
            None => None,
        }
    }

    /// The question for a price that a match of `ASK_PRICE` or of
    /// `ASK_PRICE_STRICT` stands for.
    pub fn ask_price(found: &Option<Vec<Option<String>>>) -> (sentence: Option<Sentence>)
        ensures
            optional_form(sentence) == ask_price_of(found_text(*found)),
    {
        match (group(found, 1), group(found, 2)) {
            (Some(words), Some(item)) => Some(Sentence::AskPrice { words, item }),
            _ => None,
        }
    }

    /// Reads `text` as the first of the four forms that it has.
    pub fn read(text: &str) -> (sentence: Sentence)
        ensures
            sentence@ == sentence_of(text@),
    {
        if let Some(sentence) = Sentence::define_digit(&captures(DEFINE_DIGIT, text)) {
            return sentence;
        }
        if let Some(sentence) = Sentence::define_price(&captures(DEFINE_PRICE, text)) {
            return sentence;
        }
        if let Some(sentence) = Sentence::ask_value(&captures(ASK_VALUE, text)) {
            return sentence;
        }
        if let Some(sentence) = Sentence::ask_price(&captures(ASK_PRICE, text)) {
            return sentence;
        }
        Sentence::Unrecognized
    }

    /// Reads `text` as the first of the two questions that it is.
    pub fn read_question(text: &str) -> (sentence: Sentence)
        ensures
            sentence@ == question_of(text@),
    {
        if let Some(sentence) = Sentence::ask_value(&captures(ASK_VALUE, text)) {
            return sentence;
        }
        if let Some(sentence) = Sentence::ask_price(&captures(ASK_PRICE_STRICT, text)) {
            return sentence;
        }
        Sentence::Unrecognized
    }
}

} // verus!
