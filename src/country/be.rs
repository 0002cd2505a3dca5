//! Belgium.
use vstd::prelude::*;
use super::bank_code_within;

verus! {

pub const IBAN_LENGTH: usize = 16;

pub const BANK_CODE_LENGTH: usize = 3;

/// Where the Belgian registry is published.
pub const SOURCE_URL: &'static str = "https://www.nbb.be/doc/be/be/protocol/r_fulllist_of_codes_current.xlsx";

/// The local copy of the last download.
pub const CACHE_FILE: &'static str = "be-data-download.xlsx";

pub const SHEET: &'static str = "Q_FULL_LIST_XLS_REPORT";

/// The first row holds the publication date and the second the headers.
pub const FIRST_DATA_ROW: usize = 2;

pub const CODE_COLUMN: usize = 0;

pub const BIC_COLUMN: usize = 1;

pub const NAME_COLUMN: usize = 2;

/// Whether the IBAN has the length that Belgium's IBANs have.
pub fn verify_length(iban: &str) -> (r: bool)
    ensures
        r == (iban@.len() == IBAN_LENGTH),
{
    iban.unicode_len() == IBAN_LENGTH
}

/// The bank code: the 3 characters after the country code and check digits.
pub fn bank_code(iban: &str) -> (r: String)
    ensures
        r@ == bank_code_within(iban@, BANK_CODE_LENGTH as nat),
{
    super::bank_code_of_length(iban, BANK_CODE_LENGTH)
}

} // verus!
