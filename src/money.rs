//! Money values and the parser that reads them from "amount currency" text.

use vstd::prelude::*;
use crate::amount::{Amount, decimal_of, lemma_decimal_is_word};
use crate::currency::{Currency, currency_of};
use crate::pair::parse_money_with_slice_pattern;
use crate::text::{is_white, lemma_tokens_of_two_words, tokens_of};

verus! {

/// Why a text could not be read as money. Each kind carries a message.
#[derive(Debug, Clone, PartialEq, Eq)]
pub enum MoneyError {
    /// The amount token is not a decimal number.
    ParseAmount(String),
    /// The text is not made of exactly two tokens.
    ParseFormatting(String),
    /// The currency token names no known currency.
    ParseCurrency(String),
}

pub open spec fn structure_message() -> Seq<char> {
    "Expected amount and currency"@
}

pub open spec fn amount_message() -> Seq<char> {
    "invalid decimal literal"@
}

pub open spec fn currency_message() -> Seq<char> {
    "Unknown currency"@
}

/// An amount of money in a currency.
#[derive(Debug, Clone, PartialEq, Eq)]
pub struct Money {
    amount: Amount,
    currency: Currency,
}

impl Money {
    pub open spec fn wf(&self) -> bool {
        self.amount_spec().wf()
    }

    pub closed spec fn amount_spec(&self) -> Amount {
        self.amount
    }

    pub closed spec fn currency_spec(&self) -> Currency {
        self.currency
    }

    fn new(amount: Amount, currency: Currency) -> (r: Money)
        ensures
            r.amount_spec() == amount,
            r.currency_spec() == currency,
    {
        Money { amount, currency }
    }

    /// The amount, a finite decimal number.
    pub fn amount(&self) -> (r: &Amount)
        ensures
            r == self.amount_spec(),
    {
        &self.amount
    }

    pub fn currency(&self) -> (r: Currency)
        ensures
            r == self.currency_spec(),
    {
        self.currency
    }

    /// Reads `input` as an amount followed by a currency, separated by
    /// whitespace. The checks run in order: exactly two tokens, then a
    /// decimal amount, then a known currency, and the first that fails
    /// gives the error.
    pub fn parse(input: &str) -> (r: Result<Money, MoneyError>)
        ensures
            tokens_of(input@).len() != 2 ==> (r matches Err(MoneyError::ParseFormatting(m))
                && m@ == structure_message()),
            tokens_of(input@).len() == 2 && decimal_of(tokens_of(input@)[0]) is None ==> (r matches Err(
                MoneyError::ParseAmount(m),
            ) && m@ == amount_message()),
            tokens_of(input@).len() == 2 && decimal_of(tokens_of(input@)[0]) is Some && currency_of(
                tokens_of(input@)[1],
            ) is None ==> (r matches Err(MoneyError::ParseCurrency(m)) && m@ == currency_message()),
            tokens_of(input@).len() == 2 && decimal_of(tokens_of(input@)[0]) is Some && currency_of(
                tokens_of(input@)[1],
            ) is Some ==> (r matches Ok(money) && money.wf() && money.amount_spec()@ == decimal_of(
                tokens_of(input@)[0],
            )->Some_0 && money.currency_spec() == currency_of(tokens_of(input@)[1])->Some_0),
    {
        match parse_money_with_slice_pattern(input) {
            Err(e) => Err(e),
            Ok((amount, currency_text)) => match Currency::named(currency_text.as_str()) {
                None => Err(MoneyError::ParseCurrency(String::from_str("Unknown currency"))),
                Some(currency) => Ok(Money::new(amount, currency)),
            },
        }
    }
}

/// A decimal literal, one space and a currency spelling without whitespace
/// are read as those two tokens, so that `Money::parse` returns the money
/// with that amount in that currency.
pub proof fn lemma_amount_then_alias_parses(a: Seq<char>, b: Seq<char>)
    requires
        decimal_of(a) is Some,
        currency_of(b) is Some,
        b.len() > 0,
        forall|i: int| 0 <= i < b.len() ==> !is_white(#[trigger] b[i]),
    ensures
        tokens_of(a + seq![' '] + b) == seq![a, b],
        decimal_of(tokens_of(a + seq![' '] + b)[0]) == decimal_of(a),
        currency_of(tokens_of(a + seq![' '] + b)[1]) == currency_of(b),
{
    lemma_decimal_is_word(a);
    lemma_tokens_of_two_words(a, b);
}

impl Currency {
    /// Reads `t` as a currency, without regard to case.
    pub fn parse(t: &str) -> (r: Result<Currency, MoneyError>)
        ensures
            currency_of(t@) matches Some(c) ==> r == Ok::<Currency, MoneyError>(c),
            currency_of(t@) is None ==> (r matches Err(MoneyError::ParseCurrency(m)) && m@
                == currency_message()),
    {
        match Currency::named(t) {
            Some(c) => Ok(c),
            None => Err(MoneyError::ParseCurrency(String::from_str("Unknown currency"))),
        }
    }
}

impl std::str::FromStr for Money {
    type Err = MoneyError;

    /// The same as `Money::parse`.
    fn from_str(s: &str) -> (r: Result<Money, MoneyError>)
        ensures
            tokens_of(s@).len() != 2 ==> (r matches Err(MoneyError::ParseFormatting(m)) && m@
                == structure_message()),
            tokens_of(s@).len() == 2 && decimal_of(tokens_of(s@)[0]) is None ==> (r matches Err(
                MoneyError::ParseAmount(m),
            ) && m@ == amount_message()),
            tokens_of(s@).len() == 2 && decimal_of(tokens_of(s@)[0]) is Some && currency_of(
                tokens_of(s@)[1],
            ) is None ==> (r matches Err(MoneyError::ParseCurrency(m)) && m@ == currency_message()),
            tokens_of(s@).len() == 2 && decimal_of(tokens_of(s@)[0]) is Some && currency_of(
                tokens_of(s@)[1],
            ) is Some ==> (r matches Ok(money) && money.wf() && money.amount_spec()@ == decimal_of(
                tokens_of(s@)[0],
            )->Some_0 && money.currency_spec() == currency_of(tokens_of(s@)[1])->Some_0),
    {
        Money::parse(s)
    }
}

impl std::str::FromStr for Currency {
    type Err = MoneyError;

    /// The same as `Currency::parse`.
    fn from_str(s: &str) -> (r: Result<Currency, MoneyError>)
        ensures
            currency_of(s@) matches Some(c) ==> r == Ok::<Currency, MoneyError>(c),
            currency_of(s@) is None ==> (r matches Err(MoneyError::ParseCurrency(m)) && m@
                == currency_message()),
    {
        Currency::parse(s)
    }
}

} // verus!
