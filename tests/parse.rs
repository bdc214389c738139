use money::{
    kind_of_idiomatic_parse_money, more_idiomatic_parse_money, parse_money_with_custome_error_type,
    parse_money_with_slice_pattern, unidiomatic_parse_money, Amount, Currency, Money, MoneyError,
};

fn value(a: &Amount) -> f64 {
    let mut v: f64 = 0.0;
    for d in a.digits() {
        v = v * 10.0 + f64::from(*d);
    }
    v /= 10f64.powi(a.scale() as i32);
    if a.is_negative() {
        -v
    } else {
        v
    }
}

fn money(input: &str) -> Money {
    Money::parse(input).expect("a money value")
}

fn is_amount_error(r: &Result<Money, MoneyError>) -> bool {
    matches!(r, Err(MoneyError::ParseAmount(_)))
}

fn is_structure_error(r: &Result<Money, MoneyError>) -> bool {
    matches!(r, Err(MoneyError::ParseFormatting(m)) if m == "Expected amount and currency")
}

fn is_currency_error(r: &Result<Money, MoneyError>) -> bool {
    matches!(r, Err(MoneyError::ParseCurrency(m)) if m == "Unknown currency")
}

#[test]
fn euro_sign_amount() {
    let m = money("56 €");
    assert_eq!(value(m.amount()), 56.0);
    assert_eq!(m.currency(), Currency::Euro);
}

#[test]
fn dollar_word_amount() {
    let m = money("45 Dollar");
    assert_eq!(value(m.amount()), 45.0);
    assert_eq!(m.currency(), Currency::Dollar);
}

#[test]
fn fractional_amount() {
    let m = money("55.5 Dollar");
    assert_eq!(value(m.amount()), 55.5);
    assert_eq!(m.amount().digits(), &vec![5u8, 5, 5]);
    assert_eq!(m.amount().scale(), 1);
    assert_eq!(m.currency(), Currency::Dollar);
}

#[test]
fn amount_checked_before_currency() {
    assert!(is_amount_error(&Money::parse("OneMillion Bitcoin")));
}

#[test]
fn single_token_is_structure_error() {
    assert!(is_structure_error(&Money::parse("Dollar")));
}

#[test]
fn plural_alias_is_unknown() {
    assert!(is_currency_error(&Money::parse("40 Euros")));
}

#[test]
fn wrong_token_counts() {
    for input in ["", "   ", "12", "1 2 3", "10 euro extra", "\t\n"] {
        assert!(is_structure_error(&Money::parse(input)), "{:?}", input);
    }
}

#[test]
fn structure_checked_before_amount() {
    assert!(is_structure_error(&Money::parse("abc def ghi")));
}

#[test]
fn any_whitespace_separates_tokens() {
    let m = money("  \t12.25\u{a0}\n eur  ");
    assert_eq!(value(m.amount()), 12.25);
    assert_eq!(m.currency(), Currency::Euro);
}

#[test]
fn bad_amounts() {
    for input in ["abc $", "12a euro", "1,000 $", "inf $", "NaN euro", "- $", ". $", "1.2.3 $", "$5 Dollar", "1e5 $"] {
        assert!(is_amount_error(&Money::parse(input)), "{:?}", input);
    }
}

#[test]
fn bad_amount_whatever_the_currency() {
    assert!(is_amount_error(&Money::parse("x Dollar")));
    assert!(is_amount_error(&Money::parse("x Yen")));
}

#[test]
fn amount_error_message() {
    assert_eq!(
        Money::parse("ten $"),
        Err(MoneyError::ParseAmount("invalid decimal literal".to_string()))
    );
}

#[test]
fn unknown_currency() {
    assert!(is_currency_error(&Money::parse("10 Bitcoin")));
    assert!(is_currency_error(&Money::parse("10 usd")));
}

#[test]
fn signed_and_bare_point_amounts() {
    let m = money("-3.75 eur");
    assert_eq!(value(m.amount()), -3.75);
    assert!(m.amount().is_negative());
    assert_eq!(value(money("+.5 $").amount()), 0.5);
    assert_eq!(value(money("7. $").amount()), 7.0);
    assert_eq!(money("007.50 $").amount().digits(), &vec![0u8, 0, 7, 5, 0]);
    assert_eq!(money("007.50 $").amount().scale(), 2);
}

#[test]
fn long_amount_is_kept_exactly() {
    let digits = "123456789012345678901234567890123456789012345678901234567890";
    let m = money(&format!("{} dollar", digits));
    assert_eq!(m.amount().digits().len(), 60);
    assert_eq!(m.amount().scale(), 0);
}

#[test]
fn currency_case_insensitive() {
    for t in ["EURO", "Euro", "euro", "EUR", "eUr", "€"] {
        assert_eq!(Currency::parse(t), Ok(Currency::Euro), "{}", t);
    }
    for t in ["DOLLAR", "Dollar", "dollar", "$"] {
        assert_eq!(Currency::parse(t), Ok(Currency::Dollar), "{}", t);
    }
    assert_eq!(money("1 EURO").currency(), Currency::Euro);
}

#[test]
fn currency_from_str() {
    assert_eq!("euro".parse::<Currency>(), Ok(Currency::Euro));
    assert_eq!(
        "pound".parse::<Currency>(),
        Err(MoneyError::ParseCurrency("Unknown currency".to_string()))
    );
}

#[test]
fn currency_alias_needs_lower_case() {
    assert_eq!(Currency::from_alias("euro"), Some(Currency::Euro));
    assert_eq!(Currency::from_alias("EURO"), None);
    assert_eq!(Currency::named("EURO"), Some(Currency::Euro));
}

#[test]
fn money_from_str() {
    let m: Money = "56 €".parse().unwrap();
    assert_eq!(m.currency(), Currency::Euro);
    assert!(is_amount_error(&"OneMillion Bitcoin".parse::<Money>()));
}

#[test]
fn unidiomatic_pair() {
    assert_eq!(unidiomatic_parse_money("20 Euro"), (20, "Euro".to_string()));
    assert_eq!(unidiomatic_parse_money("abc"), (-1, "invalid".to_string()));
    assert_eq!(unidiomatic_parse_money("-7 $"), (-7, "$".to_string()));
}

#[test]
fn more_idiomatic_pair() {
    assert_eq!(more_idiomatic_parse_money("45 Dollar"), (45, "Dollar".to_string()));
}

#[test]
fn kind_of_idiomatic_pair() {
    assert!(kind_of_idiomatic_parse_money("55.5 Dollar").is_err());
    assert!(kind_of_idiomatic_parse_money("3000000000 Dollar").is_err());
    assert_eq!(kind_of_idiomatic_parse_money("+12 eur"), Ok((12, "eur".to_string())));
}

#[test]
fn custom_error_pair() {
    assert_eq!(
        parse_money_with_custome_error_type("Dollar"),
        Err(MoneyError::ParseFormatting("Expecting amount and currency".to_string()))
    );
    let (a, c) = parse_money_with_custome_error_type("2.5 Yen").unwrap();
    assert_eq!(value(&a), 2.5);
    assert_eq!(c, "Yen");
}

#[test]
fn slice_pattern_pair() {
    let (a, c) = parse_money_with_slice_pattern("40 Euros").unwrap();
    assert_eq!(value(&a), 40.0);
    assert_eq!(c, "Euros");
    assert_eq!(
        parse_money_with_slice_pattern("1 2 3"),
        Err(MoneyError::ParseFormatting("Expected amount and currency".to_string()))
    );
    assert!(matches!(parse_money_with_slice_pattern("x y"), Err(MoneyError::ParseAmount(_))));
}
