//! The supported countries: how long their IBANs are, where the bank code
//! sits, and the canonical bank record that every country's registry is
//! normalized into.
use vstd::prelude::*;
use crate::checksum::is_lower;

pub mod at;
pub mod be;
pub mod de;
pub mod nl;

verus! {

/// A bank as the directory holds it, whatever country it comes from.
/// Countries whose registry has no postal code or city use 0 and "".
#[derive(Debug)]
pub struct BankData {
    pub code: String,
    pub name: String,
    pub zip: i32,
    pub city: String,
    pub bic: Option<String>,
}

/// What a bank record holds, as plain values.
pub struct BankRecord {
    pub code: Seq<char>,
    pub name: Seq<char>,
    pub zip: int,
    pub city: Seq<char>,
    pub bic: Option<Seq<char>>,
}

impl View for BankData {
    type V = BankRecord;

    open spec fn view(&self) -> BankRecord {
        BankRecord {
            code: self.code@,
            name: self.name@,
            zip: self.zip as int,
            city: self.city@,
            bic: match self.bic {
                Some(b) => Some(b@),
                None => None,
            },
        }
    }
}

impl Clone for BankData {
    fn clone(&self) -> (r: Self)
        ensures
            r == *self,
    {
        let bic = match &self.bic {
            Some(b) => Some(b.clone()),
            None => None,
        };
        BankData {
            code: self.code.clone(),
            name: self.name.clone(),
            zip: self.zip,
            city: self.city.clone(),
            bic,
        }
    }
}

/// A supported country, the capability that the pipelines dispatch on.
#[derive(Clone, Copy, Debug, PartialEq, Eq, Structural)]
pub enum Country {
    At,
    Be,
    De,
    Nl,
}

pub const UNSUPPORTED_COUNTRY: &'static str = "Failure: Country specified is not supported.";

/// The characters from position 4 on, at most `k` of them.
pub open spec fn bank_code_within(iban: Seq<char>, k: nat) -> Seq<char> {
    let n = iban.len() as int;
    let from: int = if n < 4 { n } else { 4 };
    let to: int = if n < 4 + k { n } else { 4 + k as int };
    iban.subrange(from, to)
}

pub open spec fn ascii_upper(c: char) -> char {
    if is_lower(c) {
        (c as int - 32) as char
    } else {
        c
    }
}

/// The country that a two-letter code names, in either case.
pub open spec fn country_of(code: Seq<char>) -> Option<Country> {
    if code.len() != 2 {
        None
    } else {
        let a = ascii_upper(code[0]);
        let b = ascii_upper(code[1]);
        if a == 'A' && b == 'T' {
            Some(Country::At)
        } else if a == 'B' && b == 'E' {
            Some(Country::Be)
        } else if a == 'D' && b == 'E' {
            Some(Country::De)
        } else if a == 'N' && b == 'L' {
            Some(Country::Nl)
        } else {
            None
        }
    }
}

impl Country {
    pub open spec fn iban_length(self) -> nat {
        match self {
            Country::At => at::IBAN_LENGTH as nat,
            Country::Be => be::IBAN_LENGTH as nat,
            Country::De => de::IBAN_LENGTH as nat,
            Country::Nl => nl::IBAN_LENGTH as nat,
        }
    }

    pub open spec fn code_length(self) -> nat {
        match self {
            Country::At => at::BANK_CODE_LENGTH as nat,
            Country::Be => be::BANK_CODE_LENGTH as nat,
            Country::De => de::BANK_CODE_LENGTH as nat,
            Country::Nl => nl::BANK_CODE_LENGTH as nat,
        }
    }

    pub open spec fn spec_bank_code(self, iban: Seq<char>) -> Seq<char> {
        bank_code_within(iban, self.code_length())
    }

    /// The number of characters of a valid IBAN of this country.
    pub fn expected_length(&self) -> (r: usize)
        ensures
            r == self.iban_length(),
    {
        match self {
            Country::At => at::IBAN_LENGTH,
            Country::Be => be::IBAN_LENGTH,
            Country::De => de::IBAN_LENGTH,
            Country::Nl => nl::IBAN_LENGTH,
        }
    }

    pub fn verify_length(&self, iban: &str) -> (r: bool)
        ensures
            r == (iban@.len() == self.iban_length()),
    {
        match self {
            Country::At => at::verify_length(iban),
            Country::Be => be::verify_length(iban),
            Country::De => de::verify_length(iban),
            Country::Nl => nl::verify_length(iban),
        }
    }

    /// The bank code of an IBAN of this country.
    pub fn bank_code(&self, iban: &str) -> (r: String)
        ensures
            r@ == self.spec_bank_code(iban@),
    {
        match self {
            Country::At => at::bank_code(iban),
            Country::Be => be::bank_code(iban),
            Country::De => de::bank_code(iban),
            Country::Nl => nl::bank_code(iban),
        }
    }

    /// The file name of the local copy of the country's registry.
    pub fn cache_file(&self) -> (r: &'static str)
        ensures
            r@ == match *self {
                Country::At => at::CACHE_FILE@,
                Country::Be => be::CACHE_FILE@,
                Country::De => de::CACHE_FILE@,
                Country::Nl => nl::CACHE_FILE@,
            },
    {
        match self {
            Country::At => at::CACHE_FILE,
            Country::Be => be::CACHE_FILE,
            Country::De => de::CACHE_FILE,
            Country::Nl => nl::CACHE_FILE,
        }
    }

    /// Where the country's registry is published.
    pub fn source_url(&self) -> (r: &'static str)
        ensures
            r@ == match *self {
                Country::At => at::SOURCE_URL@,
                Country::Be => be::SOURCE_URL@,
                Country::De => de::SOURCE_URL@,
                Country::Nl => nl::SOURCE_URL@,
            },
    {
        match self {
            Country::At => at::SOURCE_URL,
            Country::Be => be::SOURCE_URL,
            Country::De => de::SOURCE_URL,
            Country::Nl => nl::SOURCE_URL,
        }
    }

    /// The user agent a download must present, where the publisher asks for one.
    pub fn user_agent(&self) -> (r: Option<&'static str>)
        ensures
            r is Some <==> *self == Country::Nl,
            r is Some ==> r->0@ == nl::USER_AGENT@,
    {
        match self {
            Country::Nl => Some(nl::USER_AGENT),
            _ => None,
        }
    }

    /// The two-letter code, in upper case.
    pub fn code(&self) -> (r: &'static str)
        ensures
            country_of(r@) == Some(*self),
    {
        proof {
            reveal_strlit("AT");
            reveal_strlit("BE");
            reveal_strlit("DE");
            reveal_strlit("NL");
        }
        match self {
            Country::At => "AT",
            Country::Be => "BE",
            Country::De => "DE",
            Country::Nl => "NL",
        }
    }
}

/// Shared by the country modules: the bank code is the `k` characters that
/// follow the country code and the check digits.
pub(crate) fn bank_code_of_length(iban: &str, k: usize) -> (r: String)
    requires
        k <= 8,
    ensures
        r@ == bank_code_within(iban@, k as nat),
{
    let n = iban.unicode_len();
    let from: usize = if n < 4 {
        n
    } else {
        4
    };
    let to: usize = if n - from < k {
        n
    } else {
        from + k
    };
    crate::text::char_slice(iban, from, to)
}

fn to_upper(c: char) -> (r: char)
    ensures
        r == ascii_upper(c),
{
    if 'a' <= c && c <= 'z' {
        ((c as u32 - 32) as u8) as char
    } else {
        c
    }
}

/// Resolves a country code, in upper, lower or mixed case, to its country.
pub fn get_country(country_code: &str) -> (r: Result<Country, String>)
    ensures
        match r {
            Ok(c) => country_of(country_code@) == Some(c),
            Err(m) => country_of(country_code@) is None && m@ == UNSUPPORTED_COUNTRY@,
        },
{
    if country_code.unicode_len() != 2 {
        return Err(String::from_str(UNSUPPORTED_COUNTRY));
    }
    let a = to_upper(country_code.get_char(0));
    let b = to_upper(country_code.get_char(1));
    if a == 'A' && b == 'T' {
        Ok(Country::At)
    } else if a == 'B' && b == 'E' {
        Ok(Country::Be)
    } else if a == 'D' && b == 'E' {
        Ok(Country::De)
    } else if a == 'N' && b == 'L' {
        Ok(Country::Nl)
    } else {
        Err(String::from_str(UNSUPPORTED_COUNTRY))
    }
}

/// Whether a country code is supported does not depend on the case of its
/// letters: codes that agree up to case resolve to the same country, and an
/// unknown code fails in every spelling.
pub proof fn lemma_resolve_ignores_case(a: Seq<char>, b: Seq<char>)
    requires
        a.len() == b.len(),
        forall|i: int| 0 <= i < a.len() ==> ascii_upper(#[trigger] a[i]) == ascii_upper(b[i]),
    ensures
        country_of(a) == country_of(b),
{
    if a.len() == 2 {
        assert(ascii_upper(a[0]) == ascii_upper(b[0]));
        assert(ascii_upper(a[1]) == ascii_upper(b[1]));
    }
}

} // verus!
