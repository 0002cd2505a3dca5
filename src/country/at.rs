//! Austria.
use vstd::prelude::*;
use super::bank_code_within;

verus! {

pub const IBAN_LENGTH: usize = 20;

pub const BANK_CODE_LENGTH: usize = 5;

/// Where the Austrian registry is published.
pub const SOURCE_URL: &'static str = "https://www.oenb.at/docroot/downloads_observ/sepa-zv-vz_gesamt.csv";

/// The local copy of the last download.
pub const CACHE_FILE: &'static str = "at-data-download.csv";

/// The published file opens with this many bytes of preamble before the
/// header line.
pub const SKIP_BYTES: usize = 512;

pub const DELIMITER: u8 = 59u8;

/// Header texts of the columns that the directory takes.
pub const ID_HEADER: &'static str = "Identnummer";

pub const CODE_HEADER: &'static str = "Bankleitzahl";

pub const NAME_HEADER: &'static str = "Bankenname";

pub const ZIP_HEADER: &'static str = "PLZ";

pub const CITY_HEADER: &'static str = "Ort";

pub const BIC_HEADER: &'static str = "SWIFT-Code";

/// Whether the IBAN has the length that Austria's IBANs have.
pub fn verify_length(iban: &str) -> (r: bool)
    ensures
        r == (iban@.len() == IBAN_LENGTH),
{
    iban.unicode_len() == IBAN_LENGTH
}

/// The bank code: the 5 characters after the country code and check digits.
pub fn bank_code(iban: &str) -> (r: String)
    ensures
        r@ == bank_code_within(iban@, BANK_CODE_LENGTH as nat),
{
    super::bank_code_of_length(iban, BANK_CODE_LENGTH)
}

} // verus!
