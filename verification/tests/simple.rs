use rust_decimal::Decimal;

use intra::amount::Amount;
use intra::pricebook::PriceBook;
use intra::Ford;
use intra::Language;

#[test]
fn simple() {
    let lang = Language::with(&vec![
        ("glob".to_string(), 'I'),
        ("prok".to_string(), 'V'),
        ("pish".to_string(), 'X'),
        ("tegj".to_string(), 'L'),
    ]);

    let price_set = PriceBook::with(&vec![
        ("Gold".to_string(), Amount::from(10)),
        ("Silver".to_string(), Amount::from(5)),
        ("Iron".to_string(), Amount::from(1)),
    ]);

    let roman = lang.translate("pish glob prok").unwrap();
    let decimal = u32::from(roman);

    // unwrap is safe, since Gold is inserted just a few lines ago
    let gold_price = price_set.get("Gold").unwrap();
    let gold_price = Decimal::from_i128_with_scale(gold_price.mantissa(), gold_price.scale());
    let shopping_bill = gold_price * Decimal::from(decimal);

    assert_eq!(shopping_bill, Decimal::from(140));
}

#[test]
fn simple_query() {
    let lang = Language::with(&vec![
        ("glob".to_string(), 'I'),
        ("prok".to_string(), 'V'),
        ("pish".to_string(), 'X'),
        ("tegj".to_string(), 'L'),
    ]);

    let price_set = PriceBook::with(&vec![
        ("Gold".to_string(), Amount::from(10)),
        ("Silver".to_string(), Amount::from(5)),
        ("Iron".to_string(), Amount::from(1)),
    ]);

    let shopping_bill = lang
        .query(&price_set, "How many Credits is pish glob prok Gold?")
        .unwrap();

    assert_eq!(shopping_bill, Amount::from(140));
}

#[test]
fn assistant() {
    let mut ford = Ford::new();

    assert_eq!(ford.query("glob is I").unwrap(), None);
    assert_eq!(ford.query("prok is V").unwrap(), None);
    assert_eq!(ford.query("pish is X").unwrap(), None);
    assert_eq!(ford.query("tegj is L").unwrap(), None);

    assert_eq!(ford.query("glob glob Silver is 34 Credits").unwrap(), None);
    assert_eq!(ford.query("glob prok Gold is 57800 Credits").unwrap(), None);
    assert_eq!(ford.query("pish pish Iron is 3910 Credits").unwrap(), None);

    assert_eq!(
        ford.query("how much is pish tegj glob glob ?").unwrap(),
        Some("pish tegj glob glob is 42".to_string())
    );
    assert_eq!(
        ford.query("how many Credits is glob prok Silver ?")
            .unwrap(),
        Some("glob prok Silver is 68 Credits".to_string())
    );
    assert_eq!(
        ford.query("how many Credits is glob prok Gold ?").unwrap(),
        Some("glob prok Gold is 57800 Credits".to_string())
    );
    assert_eq!(
        ford.query("how many Credits is glob prok Iron ?").unwrap(),
        Some("glob prok Iron is 782 Credits".to_string())
    );
}
