//! The currencies and their spellings.

use vstd::prelude::*;
use crate::text::same_chars;

verus! {

/// A currency that an amount of money is counted in.
#[derive(Debug, Clone, Copy, PartialEq, Eq, Structural)]
pub enum Currency {
    Dollar,
    Euro,
}

/// The currency that a lower-case spelling names, if any:
/// `dollar` and `$` for the dollar, `euro`, `eur` and `€` for the euro.
pub open spec fn currency_of_alias(t: Seq<char>) -> Option<Currency> {
    if t == "dollar"@ || t == "$"@ {
        Some(Currency::Dollar)
    } else if t == "euro"@ || t == "eur"@ || t == "€"@ {
        Some(Currency::Euro)
    } else {
        None
    }
}

/// What `str::to_lowercase` makes of a string: a function of its characters
/// alone, by the Unicode case tables, whatever the locale.
pub uninterp spec fn lower_of(s: Seq<char>) -> Seq<char>;

/// The currency that `t` names, whatever the case of its letters.
pub open spec fn currency_of(t: Seq<char>) -> Option<Currency> {
    currency_of_alias(lower_of(t))
}

/// Relies on `str::to_lowercase`: the lower-case form of `s`, which depends
/// on the characters of `s` alone.
#[verifier::external_body]
fn lowercase(s: &str) -> (r: String)
    ensures
        r@ == lower_of(s@),
{
    s.to_lowercase()
}

impl Currency {
    /// The currency that the lower-case spelling `t` names, if any.
    pub fn from_alias(t: &str) -> (r: Option<Currency>)
        ensures
            r == currency_of_alias(t@),
    {
        if same_chars(t, "dollar") || same_chars(t, "$") {
            Some(Currency::Dollar)
        } else if same_chars(t, "euro") || same_chars(t, "eur") || same_chars(t, "€") {
            Some(Currency::Euro)
        } else {
            None
        }
    }

    /// The currency that `t` names, compared without regard to case.
    pub fn named(t: &str) -> (r: Option<Currency>)
        ensures
            r == currency_of(t@),
    {
        let lower = lowercase(t);
        Currency::from_alias(lower.as_str())
    }
}

/// Two spellings whose lower-case forms agree name the same currency, or
/// both name none: matching ignores case.
pub proof fn lemma_currency_ignores_case(a: Seq<char>, b: Seq<char>)
    requires
        lower_of(a) == lower_of(b),
    ensures
        currency_of(a) == currency_of(b),
{
}

} // verus!
