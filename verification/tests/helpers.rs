use intra::amount::Amount;
use intra::pricebook::PriceBook;
use intra::sentence::Sentence;
use intra::text::chars_of;
use intra::text::decimal_chars;
use intra::text::is_whitespace;
use intra::text::split_words;
use intra::text::trimmed;

#[test]
fn characters_of_a_text() {
    assert_eq!(chars_of("a b"), vec!['a', ' ', 'b']);
    assert_eq!(chars_of(""), Vec::<char>::new());
    assert_eq!(chars_of("pish\u{a0}tegj").len(), 9);
}

#[test]
fn whitespace_is_what_std_says() {
    for code in 0..=0x11_0000u32 {
        if let Some(c) = char::from_u32(code) {
            assert_eq!(is_whitespace(c), c.is_whitespace(), "{code:x}");
        }
    }
}

#[test]
fn trimming() {
    assert_eq!(trimmed("  pish tegj \t"), "pish tegj");
    assert_eq!(trimmed("pish"), "pish");
    assert_eq!(trimmed(" \n "), "");
    assert_eq!(trimmed(""), "");
    for text in ["", " ", "a", " a", "a ", " a b ", "\u{a0}x\u{2003}y\u{3000}"] {
        assert_eq!(trimmed(text), text.trim(), "{text:?}");
    }
}

#[test]
fn splitting() {
    assert_eq!(split_words("pish tegj"), vec!["pish", "tegj"]);
    assert_eq!(split_words(""), vec![""]);
    assert_eq!(split_words(" "), vec!["", ""]);
    assert_eq!(split_words("a  b "), vec!["a", "", "b", ""]);
    for text in ["", " ", "a", " a", "a ", " a b ", "a\tb\nc", "\u{a0}x\u{2003}y\u{3000}"] {
        let expected: Vec<&str> = text.split(char::is_whitespace).collect();
        assert_eq!(split_words(text), expected, "{text:?}");
    }
}

#[test]
fn decimal_digits_of_a_number() {
    assert_eq!(decimal_chars(0), vec!['0']);
    assert_eq!(decimal_chars(7), vec!['7']);
    assert_eq!(decimal_chars(42), vec!['4', '2']);
    assert_eq!(decimal_chars(3999), vec!['3', '9', '9', '9']);
    for n in [10, 99, 100, 101, 1000, 65535, 1_000_000_007, u32::MAX] {
        let digits: String = decimal_chars(n).iter().collect();
        assert_eq!(digits, n.to_string());
    }
}

#[test]
fn amounts() {
    let amount = Amount::new(-12345, 3).unwrap();
    assert_eq!((amount.mantissa(), amount.scale()), (-12345, 3));
    assert_eq!(Amount::new(0, 28).map(|amount| amount.scale()), Some(28));
    assert!(Amount::new(0, 29).is_none());
    let largest: i128 = 0xFFFF_FFFF_FFFF_FFFF_FFFF_FFFF;
    assert!(Amount::new(largest, 0).is_some());
    assert!(Amount::new(-largest, 0).is_some());
    assert!(Amount::new(largest + 1, 0).is_none());
    assert!(Amount::new(-largest - 1, 0).is_none());
    let seven = Amount::from(7);
    assert_eq!((seven.mantissa(), seven.scale()), (7, 0));
    assert_eq!(Amount::from(7), Amount::new(7, 0).unwrap());
    assert_ne!(Amount::from(7), Amount::new(70, 1).unwrap());
}

#[test]
fn price_book() {
    let mut book = PriceBook::new();
    assert_eq!(book.get("Gold"), None);
    assert!(book.insert_if_absent("Gold".to_string(), Amount::from(10)));
    assert_eq!(book.get("Gold"), Some(Amount::from(10)));
    assert!(!book.insert_if_absent("Gold".to_string(), Amount::from(11)));
    assert_eq!(book.get("Gold"), Some(Amount::from(10)));
    assert_eq!(book.get("gold"), None);
    assert!(book.insert_if_absent("Iron".to_string(), Amount::from(1)));
    assert_eq!(book.get("Iron"), Some(Amount::from(1)));
    let book = PriceBook::with(&vec![
        ("Gold".to_string(), Amount::from(1)),
        ("Gold".to_string(), Amount::from(2)),
    ]);
    assert_eq!(book.get("Gold"), Some(Amount::from(2)));
    assert_eq!(PriceBook::default().get("Gold"), None);
}

#[test]
fn sentences_from_groups() {
    let group = |text: &str| Some(text.to_string());
    let found = Some(vec![group("glob is I"), group("glob"), group("IV")]);
    assert_eq!(
        Sentence::define_digit(&found),
        Some(Sentence::DefineDigit { word: "glob".to_string(), digit: 'I' })
    );
    assert_eq!(
        Sentence::ask_price(&found),
        Some(Sentence::AskPrice { words: "glob".to_string(), item: "IV".to_string() })
    );
    assert_eq!(
        Sentence::ask_value(&found),
        Some(Sentence::AskValue { words: "glob".to_string() })
    );
    assert_eq!(Sentence::define_price(&found), None);
    let found = Some(vec![group("x"), group("a"), group("B"), group("3")]);
    assert_eq!(
        Sentence::define_price(&found),
        Some(Sentence::DefinePrice {
            words: "a".to_string(),
            item: "B".to_string(),
            credits: "3".to_string(),
        })
    );
    assert_eq!(Sentence::define_digit(&Some(vec![group("x"), group("a"), group("")])), None);
    assert_eq!(Sentence::define_digit(&Some(vec![group("x"), None, group("I")])), None);
    assert_eq!(Sentence::define_digit(&Some(vec![group("x"), group("a")])), None);
    assert_eq!(Sentence::define_digit(&None), None);
    assert_eq!(Sentence::ask_value(&None), None);
    assert_eq!(Sentence::ask_value(&Some(vec![group("x")])), None);
    assert_eq!(Sentence::ask_price(&Some(vec![group("x"), group("a"), None])), None);
}
