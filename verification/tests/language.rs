use intra::amount::Amount;
use intra::error::InvalidRomanNumeral;
use intra::error::QueryError;
use intra::pricebook::PriceBook;
use intra::Language;
use intra::Roman;

fn dialect() -> Language {
    Language::with(&vec![
        ("glob".to_string(), 'I'),
        ("prok".to_string(), 'V'),
        ("pish".to_string(), 'X'),
        ("tegj".to_string(), 'L'),
    ])
}

fn market() -> PriceBook {
    PriceBook::with(&vec![
        ("Gold".to_string(), Amount::from(10)),
        ("Silver".to_string(), Amount::from(5)),
        ("Iron".to_string(), Amount::from(1)),
    ])
}

#[test]
fn translate() {
    let lang = dialect();

    // positive tests
    assert_eq!(
        lang.translate("glob").unwrap(),
        Roman::try_from("I").unwrap()
    );
    assert_eq!(
        lang.translate("glob glob glob").unwrap(),
        Roman::try_from("III").unwrap()
    );
    assert_eq!(
        lang.translate("pish tegj glob glob").unwrap(),
        Roman::try_from("XLII").unwrap()
    );

    // negative tests
    assert!(lang.translate("foo").is_err());
    assert!(lang.translate("glob foo").is_err());
    assert!(lang.translate("foo glob").is_err());
    assert!(lang.translate("glob glob glob glob").is_err());
}

#[test]
fn language_query() {
    let lang = dialect();
    let price_set = market();

    // positive tests
    assert_eq!(
        lang.query(&price_set, "How much is pish tegj glob glob?")
            .unwrap(),
        Amount::from(42),
    );
    assert_eq!(
        lang.query(&price_set, "How many credits is glob glob Gold?")
            .unwrap(),
        Amount::from(20),
    );

    // negative tests
    assert!(lang.query(&price_set, "How much is foo bar?").is_err());
    assert!(lang
        .query(&price_set, "What is pish tegj glob glob?")
        .is_err());
    assert!(lang
        .query(&price_set, "How many credits is glob glob Copper?")
        .is_err());
    assert!(lang
        .query(&price_set, "How many credits is glob glob glob glob Gold?")
        .is_err());
}

#[test]
fn translation_keeps_the_order_of_the_words() {
    let lang = dialect();
    let roman = lang.translate("pish tegj glob glob").unwrap();
    assert_eq!(roman, Roman::try_from("XLII").unwrap());
    assert_eq!(u32::from(roman), 42);
    assert_eq!(u32::from(lang.translate("tegj pish glob glob").unwrap()), 62);
    assert!(lang.translate("glob glob pish tegj").is_err());
}

#[test]
fn translation_names_the_first_unknown_word() {
    let lang = dialect();
    assert_eq!(
        lang.translate("glob foo bar"),
        Err(QueryError::UnrecognizedWord("foo".to_string()))
    );
    assert_eq!(
        lang.translate("bar glob foo"),
        Err(QueryError::UnrecognizedWord("bar".to_string()))
    );
    // an unknown word counts before the numeral is looked at
    assert_eq!(
        lang.translate("glob glob glob glob foo"),
        Err(QueryError::UnrecognizedWord("foo".to_string()))
    );
}

#[test]
fn translation_rejects_digits_that_are_no_numeral() {
    let lang = dialect();
    assert_eq!(
        lang.translate("glob glob glob glob"),
        Err(QueryError::InvalidRomanNumeral(InvalidRomanNumeral))
    );
    assert_eq!(
        lang.translate("glob pish tegj"),
        Err(QueryError::InvalidRomanNumeral(InvalidRomanNumeral))
    );
}

#[test]
fn every_whitespace_character_ends_a_word() {
    let lang = dialect();
    assert_eq!(
        lang.translate(""),
        Err(QueryError::UnrecognizedWord(String::new()))
    );
    assert_eq!(
        lang.translate("glob  glob"),
        Err(QueryError::UnrecognizedWord(String::new()))
    );
    assert_eq!(
        lang.translate(" glob"),
        Err(QueryError::UnrecognizedWord(String::new()))
    );
    assert_eq!(
        lang.translate("glob "),
        Err(QueryError::UnrecognizedWord(String::new()))
    );
    assert_eq!(u32::from(lang.translate("pish\tglob\nprok").unwrap()), 14);
    assert_eq!(u32::from(lang.translate("pish\u{a0}glob\u{3000}prok").unwrap()), 14);
}

#[test]
fn dictionary_entries() {
    let mut lang = Language::new();
    assert!(!lang.contains("glob"));
    assert!(lang.known_digits().is_empty());
    lang.insert("glob".to_string(), 'I');
    assert!(lang.contains("glob"));
    assert!(!lang.contains("prok"));
    assert_eq!(lang.known_digits(), vec!['I']);
    assert_eq!(u32::from(lang.translate("glob").unwrap()), 1);
    // an entry is overwritten without question
    lang.insert("glob".to_string(), 'V');
    assert_eq!(lang.known_digits(), vec!['V']);
    assert_eq!(u32::from(lang.translate("glob").unwrap()), 5);
    lang.insert("prok".to_string(), 'X');
    let mut digits = lang.known_digits();
    digits.sort();
    assert_eq!(digits, vec!['V', 'X']);
}

#[test]
fn later_entries_replace_earlier_ones() {
    let lang = Language::with(&vec![
        ("glob".to_string(), 'I'),
        ("glob".to_string(), 'X'),
    ]);
    assert_eq!(u32::from(lang.translate("glob").unwrap()), 10);
    assert_eq!(lang.known_digits(), vec!['X']);
    assert!(Language::default().known_digits().is_empty());
}

#[test]
fn questions_of_the_language() {
    let lang = dialect();
    let price_set = market();
    assert_eq!(
        lang.query(&price_set, "how MUCH is pish?").unwrap(),
        Amount::from(10)
    );
    assert_eq!(
        lang.query(&price_set, "How many Credits is pish glob prok Silver?")
            .unwrap(),
        Amount::from(70)
    );
    assert_eq!(
        lang.query(&price_set, "What is pish tegj glob glob?"),
        Err(QueryError::UnrecognizedQuery(
            "What is pish tegj glob glob?".to_string()
        ))
    );
    assert_eq!(
        lang.query(&price_set, "How many credits is glob glob Copper?"),
        Err(QueryError::UnrecognizedItem("Copper".to_string()))
    );
    assert_eq!(
        lang.query(&price_set, "How much is foo bar?"),
        Err(QueryError::UnrecognizedWord("foo".to_string()))
    );
    assert_eq!(
        lang.query(&price_set, "How many credits is glob glob glob glob Gold?"),
        Err(QueryError::InvalidRomanNumeral(InvalidRomanNumeral))
    );
    // here the item reaches up to the question mark
    assert_eq!(
        lang.query(&price_set, "How many credits is glob glob Gold ?"),
        Err(QueryError::UnrecognizedItem("Gold ".to_string()))
    );
}

#[test]
fn prices_with_a_fraction() {
    let lang = dialect();
    let price_set = PriceBook::with(&vec![("Salt".to_string(), Amount::new(125, 2).unwrap())]);
    let total = lang
        .query(&price_set, "how many credits is glob glob Salt?")
        .unwrap();
    assert_eq!((total.mantissa(), total.scale()), (250, 2));
}

#[test]
fn a_total_that_is_too_large_is_no_answer() {
    let lang = dialect();
    let largest = Amount::new(0xFFFF_FFFF_FFFF_FFFF_FFFF_FFFF, 0).unwrap();
    let price_set = PriceBook::with(&vec![("Sun".to_string(), largest)]);
    assert_eq!(
        lang.query(&price_set, "how many credits is glob Sun?").unwrap(),
        largest
    );
    assert_eq!(
        lang.query(&price_set, "how many credits is glob glob Sun?"),
        Err(QueryError::UnrecognizedQuery(
            "how many credits is glob glob Sun?".to_string()
        ))
    );
}

#[test]
fn an_invalid_numeral_is_a_query_error() {
    assert_eq!(
        QueryError::from(InvalidRomanNumeral),
        QueryError::InvalidRomanNumeral(InvalidRomanNumeral)
    );
    let error = Roman::try_from("VX").unwrap_err();
    assert_eq!(QueryError::from(error), QueryError::InvalidRomanNumeral(InvalidRomanNumeral));
}
