use intra::Roman;

#[test]
fn syntax() {
    // positive tests
    assert!(Roman::try_from("I").is_ok());
    assert!(Roman::try_from("III").is_ok());
    assert!(Roman::try_from("IV").is_ok());
    assert!(Roman::try_from("XIV").is_ok());
    assert!(Roman::try_from("XXIV").is_ok());
    assert!(Roman::try_from("XXVI").is_ok());
    assert!(Roman::try_from("MMMCMXXXIII").is_ok());

    // negative tests
    assert!(Roman::try_from("").is_err());
    assert!(Roman::try_from("IIII").is_err());
    assert!(Roman::try_from("MMMM").is_err());
    assert!(Roman::try_from("XM").is_err());
    assert!(Roman::try_from("XM").is_err());
}

#[test]
fn conversion() {
    assert_eq!(u32::from(Roman::try_from("I").unwrap()), 1);
    assert_eq!(u32::from(Roman::try_from("III").unwrap()), 3);
    assert_eq!(u32::from(Roman::try_from("X").unwrap()), 10);
    assert_eq!(u32::from(Roman::try_from("XXX").unwrap()), 30);
    assert_eq!(u32::from(Roman::try_from("XIV").unwrap()), 14);
    assert_eq!(u32::from(Roman::try_from("XXVI").unwrap()), 26);
    assert_eq!(u32::from(Roman::try_from("CXXIV").unwrap()), 124);
    assert_eq!(u32::from(Roman::try_from("MMMCMIX").unwrap()), 3909);
}

#[test]
fn owned_strings_are_accepted_alike() {
    assert!(Roman::try_from("XLII".to_string()).is_ok());
    assert!(Roman::try_from(String::new()).is_err());
    assert!(Roman::try_from("IIII".to_string()).is_err());
    assert_eq!(
        Roman::try_from("XLII".to_string()).unwrap(),
        Roman::try_from("XLII").unwrap()
    );
    assert_eq!(u32::from(&Roman::try_from("XLII").unwrap()), 42);
}

#[test]
fn grammar_accepts_the_empty_string_but_parsing_does_not() {
    assert!(Roman::is_valid(""));
    assert!(Roman::try_from("").is_err());
}

#[test]
fn grammar_rejects_what_is_not_canonical() {
    for text in [
        "IIII", "MMMM", "XM", "VV", "IL", "IC", "ID", "IM", "VX", "XD", "LC", "DM", "IIV", "IXI",
        "IVI", "XCX", "CMC", "CDC", "XLX", "LL", "DD", "i", "I ", " I", "MMMMI", "ABC", "IXIV",
        "CCCC", "XXXX", "MCMC", "VIV", "IXX", "IIX",
    ] {
        assert!(!Roman::is_valid(text), "{text}");
        assert!(Roman::try_from(text).is_err(), "{text}");
    }
}

#[test]
fn digit_values() {
    assert_eq!(Roman::digit_value('I'), 1);
    assert_eq!(Roman::digit_value('V'), 5);
    assert_eq!(Roman::digit_value('X'), 10);
    assert_eq!(Roman::digit_value('L'), 50);
    assert_eq!(Roman::digit_value('C'), 100);
    assert_eq!(Roman::digit_value('D'), 500);
    assert_eq!(Roman::digit_value('M'), 1000);
    assert_eq!(Roman::digit_value('i'), 0);
    assert_eq!(Roman::digit_value('A'), 0);
}

fn classic(mut n: u32) -> String {
    let table = [
        (1000, "M"),
        (900, "CM"),
        (500, "D"),
        (400, "CD"),
        (100, "C"),
        (90, "XC"),
        (50, "L"),
        (40, "XL"),
        (10, "X"),
        (9, "IX"),
        (5, "V"),
        (4, "IV"),
        (1, "I"),
    ];
    let mut text = String::new();
    for (value, symbol) in table {
        while n >= value {
            text.push_str(symbol);
            n -= value;
        }
    }
    text
}

#[test]
fn every_numeral_from_1_to_3999_decodes_to_its_number() {
    for n in 1..=3999u32 {
        let text = classic(n);
        let roman = Roman::try_from(text.as_str()).unwrap();
        assert_eq!(u32::from(roman), n, "{text}");
    }
}

#[test]
fn subtractive_pairs_and_repeats() {
    assert_eq!(u32::from(Roman::try_from("IV").unwrap()), 4);
    assert_eq!(u32::from(Roman::try_from("IX").unwrap()), 9);
    assert_eq!(u32::from(Roman::try_from("XL").unwrap()), 40);
    assert_eq!(u32::from(Roman::try_from("XC").unwrap()), 90);
    assert_eq!(u32::from(Roman::try_from("CD").unwrap()), 400);
    assert_eq!(u32::from(Roman::try_from("CM").unwrap()), 900);
    assert_eq!(u32::from(Roman::try_from("II").unwrap()), 2);
    assert_eq!(u32::from(Roman::try_from("CXC").unwrap()), 190);
    assert_eq!(u32::from(Roman::try_from("MMMCMXCIX").unwrap()), 3999);
    assert_eq!(u32::from(Roman::try_from("MMMDCCCLXXXVIII").unwrap()), 3888);
}

#[test]
fn clones_are_equal() {
    let roman = Roman::try_from("MCMXCIV").unwrap();
    assert_eq!(roman.clone(), roman);
    assert_eq!(u32::from(roman.clone()), 1994);
}

fn strings_over(alphabet: &[char], length: usize) -> Vec<String> {
    let mut strings = vec![String::new()];
    for _ in 0..length {
        let mut longer = Vec::new();
        for string in &strings {
            for digit in alphabet {
                let mut next = string.clone();
                next.push(*digit);
                longer.push(next);
            }
        }
        strings = longer;
    }
    strings
}

#[test]
fn the_grammar_is_that_of_the_usual_pattern() {
    let pattern =
        regex::Regex::new("^M{0,3}(C[MD]|D?C{0,3})(X[CL]|L?X{0,3})(I[XV]|V?I{0,3})$").unwrap();
    let digits = ['I', 'V', 'X', 'L', 'C', 'D', 'M'];
    for length in 0..=5 {
        for text in strings_over(&digits, length) {
            assert_eq!(Roman::is_valid(&text), pattern.is_match(&text), "{text}");
        }
    }
    for n in 0..=3999 {
        let text = classic(n);
        assert!(Roman::is_valid(&text), "{text}");
        for extra in ["I", "M", "X", "\n", " ", "i"] {
            let longer = format!("{text}{extra}");
            assert_eq!(Roman::is_valid(&longer), pattern.is_match(&longer), "{longer:?}");
            let longer = format!("{extra}{text}");
            assert_eq!(Roman::is_valid(&longer), pattern.is_match(&longer), "{longer:?}");
        }
    }
}
