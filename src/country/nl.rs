//! the Netherlands.
use vstd::prelude::*;
use super::bank_code_within;

verus! {

pub const IBAN_LENGTH: usize = 18;

pub const BANK_CODE_LENGTH: usize = 4;

/// Where the Dutch registry is published.
pub const SOURCE_URL: &'static str = "https://www.betaalvereniging.nl/wp-content/uploads/BIC-lijst-NL.xlsx";

/// The local copy of the last download.
pub const CACHE_FILE: &'static str = "nl-data-download.xlsx";

/// The publisher refuses downloads without a browser's user agent.
pub const USER_AGENT: &'static str = "Mozilla/5.0 (Windows NT 6.1; Win64; x64; rv:60.0) Gecko/20100101 Firefox/60.0";

pub const SHEET: &'static str = "BIC-lijst";

/// The headers are on the fourth row.
pub const FIRST_DATA_ROW: usize = 4;

pub const BIC_COLUMN: usize = 0;

pub const CODE_COLUMN: usize = 1;

pub const NAME_COLUMN: usize = 2;

/// Whether the IBAN has the length that the Netherlands's IBANs have.
pub fn verify_length(iban: &str) -> (r: bool)
    ensures
        r == (iban@.len() == IBAN_LENGTH),
{
    iban.unicode_len() == IBAN_LENGTH
}

/// The bank code: the 4 characters after the country code and check digits.
pub fn bank_code(iban: &str) -> (r: String)
    ensures
        r@ == bank_code_within(iban@, BANK_CODE_LENGTH as nat),
{
    super::bank_code_of_length(iban, BANK_CODE_LENGTH)
}

} // verus!
