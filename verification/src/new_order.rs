//! The pure part of taking a new order from a dialogue: reading a price.

use vstd::prelude::*;
use vstd::string::StrSliceExecFns;
use vstd::string::StringExecFns;

use crate::strutil::all_digits;
use crate::strutil::dec_val;
use crate::strutil::is_digit;
use crate::strutil::parse_u64;

verus! {

/// Why a price could not be read from a message.
#[derive(Clone, Copy, Debug, PartialEq, Eq, Structural)]
pub enum PriceParseError {
    /// A character that is not a decimal digit
    InvalidSymbol,
    /// Nothing was written at all
    Empty,
    /// The number does not fit the price range
    Overflow,
}

pub open spec fn spec_price_error_message(e: PriceParseError) -> Seq<char> {
    match e {
        PriceParseError::InvalidSymbol => "invalid symbol, only numbers are allowed"@,
        PriceParseError::Empty => "you haven't written anything"@,
        PriceParseError::Overflow => "ain't no one got that much money"@,
    }
}

impl PriceParseError {
    pub fn message(&self) -> (r: String)
        ensures
            r@ == spec_price_error_message(*self),
    {
        match self {
            PriceParseError::InvalidSymbol => String::from_str(
                "invalid symbol, only numbers are allowed",
            ),
            PriceParseError::Empty => String::from_str("you haven't written anything"),
            PriceParseError::Overflow => String::from_str("ain't no one got that much money"),
        }
    }
}

/// What reading a price accepts and which complaint each rejection carries.
pub open spec fn spec_parse_price(s: Seq<char>) -> Result<u64, PriceParseError> {
    if s.len() == 0 {
        Err(PriceParseError::Empty)
    } else if !all_digits(s) {
        Err(PriceParseError::InvalidSymbol)
    } else if dec_val(s) > u64::MAX {
        Err(PriceParseError::Overflow)
    } else {
        Ok(dec_val(s) as u64)
    }
}

/// Reads a price in whole drams, with a price-specific complaint for each
/// way the text can fail to be one.
pub fn parse_price(text: &str) -> (r: Result<u64, PriceParseError>)
    ensures
        r == spec_parse_price(text@),
{
    let n = text.unicode_len();
    if n == 0 {
        return Err(PriceParseError::Empty);
    }
    let mut i: usize = 0;
    while i < n
        invariant
            n == text@.len(),
            i <= n,
            forall|k: int| 0 <= k < i ==> is_digit(#[trigger] text@[k]),
        decreases n - i,
    {
        let c = text.get_char(i);
        let cv = c as u32;
        if cv < 48 || cv > 57 {
            assert(!is_digit(text@[i as int]));
            return Err(PriceParseError::InvalidSymbol);
        }
        i += 1;
    }
    assert(all_digits(text@));
    match parse_u64(text) {
        Some(v) => Ok(v),
        None => {
            proof {
                assert(dec_val(text@) > u64::MAX);
            }
            Err(PriceParseError::Overflow)
        },
    }
}

} // verus!
