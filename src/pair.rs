//! Reading "amount currency" text as a plain pair of values, without
//! resolving the currency.

use vstd::prelude::*;
use std::num::ParseIntError;
use crate::amount::{Amount, decimal_of, i32_of};
use crate::money::{MoneyError, amount_message};
use crate::text::{spans_of, text_of, tokens_of};

verus! {

#[verifier::external_type_specification]
#[verifier::external_body]
pub struct ExParseIntError(ParseIntError);

/// Relies on `<i32 as FromStr>::from_str`: it accepts an optional `+` or
/// `-` followed by one or more ASCII digits whose value fits in `i32`, and
/// returns that value; anything else is an error.
#[verifier::external_body]
fn parse_i32(s: &str) -> (r: Result<i32, ParseIntError>)
    ensures
        r is Ok <==> i32_of(s@) is Some,
        r matches Ok(v) ==> i32_of(s@) == Some(v),
{
    s.parse::<i32>()
}

pub open spec fn invalid_text() -> Seq<char> {
    "invalid"@
}

/// Whether `input` holds enough tokens to be read as an integer pair
/// without indexing past the tokens: a first token, and a second one
/// wherever the first is an integer.
pub open spec fn has_pair_tokens(input: Seq<char>) -> bool {
    let t = tokens_of(input);
    t.len() >= 1 && (i32_of(t[0]) is Some ==> t.len() >= 2)
}

/// Reads the first token as an `i32` and returns it with the second token;
/// `(-1, "invalid")` when the first token is no `i32`.
pub fn unidiomatic_parse_money(input: &str) -> (r: (i32, String))
    requires
        has_pair_tokens(input@),
    ensures
        i32_of(tokens_of(input@)[0]) matches Some(v) ==> r.0 == v && r.1@ == tokens_of(input@)[1],
        i32_of(tokens_of(input@)[0]) is None ==> r.0 == -1 && r.1@ == invalid_text(),
{
    let spans = spans_of(input);
    let maybe_amount = parse_i32(text_of(input, spans[0]).as_str());
    match maybe_amount {
        Err(_) => (-1, String::from_str("invalid")),
        Ok(amount) => (amount, text_of(input, spans[1])),
    }
}

/// Reads the first token as an `i32` and returns it with the second token.
pub fn more_idiomatic_parse_money(input: &str) -> (r: (i32, String))
    requires
        tokens_of(input@).len() >= 2,
        i32_of(tokens_of(input@)[0]) is Some,
    ensures
        Some(r.0) == i32_of(tokens_of(input@)[0]),
        r.1@ == tokens_of(input@)[1],
{
    let spans = spans_of(input);
    let amount = parse_i32(text_of(input, spans[0]).as_str()).unwrap();
    (amount, text_of(input, spans[1]))
}

/// Reads the first token as an `i32` and returns it with the second token,
/// or the error of reading the first token.
pub fn kind_of_idiomatic_parse_money(input: &str) -> (r: Result<(i32, String), ParseIntError>)
    requires
        has_pair_tokens(input@),
    ensures
        r is Ok <==> i32_of(tokens_of(input@)[0]) is Some,
        r matches Ok(p) ==> Some(p.0) == i32_of(tokens_of(input@)[0]) && p.1@ == tokens_of(
            input@,
        )[1],
{
    let spans = spans_of(input);
    let amount = parse_i32(text_of(input, spans[0]).as_str())?;
    Ok((amount, text_of(input, spans[1])))
}

pub open spec fn expecting_message() -> Seq<char> {
    "Expecting amount and currency"@
}

pub open spec fn expected_message() -> Seq<char> {
    "Expected amount and currency"@
}

/// Reads exactly two tokens as a decimal amount and the currency token as
/// it stands; `message` is the text of the error for a wrong token count.
fn decimal_pair(input: &str, message: &str) -> (r: Result<(Amount, String), MoneyError>)
    ensures
        tokens_of(input@).len() != 2 ==> (r matches Err(MoneyError::ParseFormatting(m)) && m@
            == message@),
        tokens_of(input@).len() == 2 && decimal_of(tokens_of(input@)[0]) is None ==> (r matches Err(
            MoneyError::ParseAmount(m),
        ) && m@ == amount_message()),
        tokens_of(input@).len() == 2 && decimal_of(tokens_of(input@)[0]) is Some ==> (r matches Ok(
            p,
        ) && p.0.wf() && p.0@ == decimal_of(tokens_of(input@)[0])->Some_0 && p.1@ == tokens_of(
            input@,
        )[1]),
{
    let spans = spans_of(input);
    if spans.len() != 2 {
        return Err(MoneyError::ParseFormatting(String::from_str(message)));
    }
    match Amount::parse(text_of(input, spans[0]).as_str()) {
        None => Err(MoneyError::ParseAmount(String::from_str("invalid decimal literal"))),
        Some(amount) => Ok((amount, text_of(input, spans[1]))),
    }
}

/// Reads exactly two tokens as a decimal amount and the currency token as
/// it stands.
pub fn parse_money_with_custome_error_type(input: &str) -> (r: Result<(Amount, String), MoneyError>)
    ensures
        tokens_of(input@).len() != 2 ==> (r matches Err(MoneyError::ParseFormatting(m)) && m@
            == expecting_message()),
        tokens_of(input@).len() == 2 && decimal_of(tokens_of(input@)[0]) is None ==> (r matches Err(
            MoneyError::ParseAmount(m),
        ) && m@ == amount_message()),
        tokens_of(input@).len() == 2 && decimal_of(tokens_of(input@)[0]) is Some ==> (r matches Ok(
            p,
        ) && p.0.wf() && p.0@ == decimal_of(tokens_of(input@)[0])->Some_0 && p.1@ == tokens_of(
            input@,
        )[1]),
{
    decimal_pair(input, "Expecting amount and currency")
}

/// Reads exactly two tokens as a decimal amount and the currency token as
/// it stands.
pub fn parse_money_with_slice_pattern(input: &str) -> (r: Result<(Amount, String), MoneyError>)
    ensures
        tokens_of(input@).len() != 2 ==> (r matches Err(MoneyError::ParseFormatting(m)) && m@
            == expected_message()),
        tokens_of(input@).len() == 2 && decimal_of(tokens_of(input@)[0]) is None ==> (r matches Err(
            MoneyError::ParseAmount(m),
        ) && m@ == amount_message()),
        tokens_of(input@).len() == 2 && decimal_of(tokens_of(input@)[0]) is Some ==> (r matches Ok(
            p,
        ) && p.0.wf() && p.0@ == decimal_of(tokens_of(input@)[0])->Some_0 && p.1@ == tokens_of(
            input@,
        )[1]),
{
    decimal_pair(input, "Expected amount and currency")
}

} // verus!
