//! Germany.
use vstd::prelude::*;
use super::bank_code_within;

verus! {

pub const IBAN_LENGTH: usize = 22;

pub const BANK_CODE_LENGTH: usize = 8;

/// Where the German registry is published.
pub const SOURCE_URL: &'static str = "https://www.bundesbank.de/resource/blob/602630/38698577eac2fb9d6fe2265bbbeacdd5/mL/blz-aktuell-xls-data.xlsx";

/// The local copy of the last download.
pub const CACHE_FILE: &'static str = "de-data-download.xlsx";

pub const SHEET: &'static str = "Daten";

/// The first row holds the headers.
pub const FIRST_DATA_ROW: usize = 1;

pub const CODE_COLUMN: usize = 0;

pub const ZIP_COLUMN: usize = 3;

pub const CITY_COLUMN: usize = 4;

pub const NAME_COLUMN: usize = 5;

pub const BIC_COLUMN: usize = 7;

pub const ID_COLUMN: usize = 9;

/// Whether the IBAN has the length that Germany's IBANs have.
pub fn verify_length(iban: &str) -> (r: bool)
    ensures
        r == (iban@.len() == IBAN_LENGTH),
{
    iban.unicode_len() == IBAN_LENGTH
}

/// The bank code: the 8 characters after the country code and check digits.
pub fn bank_code(iban: &str) -> (r: String)
    ensures
        r@ == bank_code_within(iban@, BANK_CODE_LENGTH as nat),
{
    super::bank_code_of_length(iban, BANK_CODE_LENGTH)
}

} // verus!
