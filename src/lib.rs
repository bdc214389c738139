//! Parsing of "amount currency" text into a typed money value.

pub mod amount;
pub mod currency;
pub mod money;
pub mod pair;
pub mod text;

pub use amount::Amount;
pub use currency::Currency;
pub use money::{Money, MoneyError};
pub use pair::{
    kind_of_idiomatic_parse_money, more_idiomatic_parse_money, parse_money_with_custome_error_type,
    parse_money_with_slice_pattern, unidiomatic_parse_money,
};
