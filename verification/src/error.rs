//! All possible error states of the library.
use vstd::prelude::*;
use vstd::std_specs::convert::FromSpecImpl;

verus! {

/// The error of trying to construct a `Roman` from a string that is not a
/// canonical Roman numeral.
#[derive(Debug, Clone, Copy, PartialEq, Eq, Structural)]
pub struct InvalidRomanNumeral;

/// The error of a query that was not recognized, or that cannot be applied.
#[derive(Debug, Clone, PartialEq, Eq)]
pub enum QueryError {
    /// The digits that the words stand for are not a canonical numeral.
    InvalidRomanNumeral(InvalidRomanNumeral),
    /// The word has no entry in the dictionary.
    UnrecognizedWord(String),
    /// The text has none of the known forms.
    UnrecognizedQuery(String),
    /// The item has no price.
    UnrecognizedItem(String),
    /// The word has an entry in the dictionary already.
    WordAlreadyExists(String),
    /// The digit is some word's already.
    DigitAlreadyExists(char),
    /// The item has a price already.
    ItemAlreadyExists(String),
}

/// What a `QueryError` says, with each string as the sequence of its
/// characters.
pub enum Failure {
    InvalidRomanNumeral,
    UnrecognizedWord(Seq<char>),
    UnrecognizedQuery(Seq<char>),
    UnrecognizedItem(Seq<char>),
    WordAlreadyExists(Seq<char>),
    DigitAlreadyExists(char),
    ItemAlreadyExists(Seq<char>),
}

impl View for QueryError {
    type V = Failure;

    open spec fn view(&self) -> Failure {
        match self {
            QueryError::InvalidRomanNumeral(_) => Failure::InvalidRomanNumeral,
            QueryError::UnrecognizedWord(word) => Failure::UnrecognizedWord(word@),
            QueryError::UnrecognizedQuery(text) => Failure::UnrecognizedQuery(text@),
            QueryError::UnrecognizedItem(item) => Failure::UnrecognizedItem(item@),
            QueryError::WordAlreadyExists(word) => Failure::WordAlreadyExists(word@),
            QueryError::DigitAlreadyExists(digit) => Failure::DigitAlreadyExists(*digit),
            QueryError::ItemAlreadyExists(item) => Failure::ItemAlreadyExists(item@),
        }
    }
}

impl FromSpecImpl<InvalidRomanNumeral> for QueryError {
    open spec fn obeys_from_spec() -> bool {
        true
    }

    open spec fn from_spec(err: InvalidRomanNumeral) -> QueryError {
        QueryError::InvalidRomanNumeral(err)
    }
}

impl From<InvalidRomanNumeral> for QueryError {
    fn from(err: InvalidRomanNumeral) -> (error: QueryError)
        ensures
            error == QueryError::InvalidRomanNumeral(err),
    {
        QueryError::InvalidRomanNumeral(err)
    }
}

} // verus!
