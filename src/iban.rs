//! The verification pipeline: country, length, checksum, blacklist and
//! directory lookup, in that order, stopping at the first failure.
use vstd::prelude::*;
use crate::checksum::{checksum_valid, verify_mod};
use crate::country::{country_of, get_country, BankData, Country};
use crate::db::{blocked_in, lookup, BankDirectory, Blacklist};

verus! {

/// Which checks an IBAN passed. A check that was not reached, because an
/// earlier one failed, counts as failed.
#[derive(Clone, Copy, Debug, PartialEq, Eq, Structural)]
pub struct ValidityChecks {
    pub country: bool,
    pub length: bool,
    pub modulo: bool,
    pub blacklist: bool,
    pub in_db: bool,
}

pub const COUNTRY_FAILURE: &'static str = "Failure: Country not supported.";

pub const LENGTH_FAILURE: &'static str = "Failure: Length check failed.";

pub const MODULO_FAILURE: &'static str = "Failure: Modulo check failed.";

pub const BLACKLIST_FAILURE: &'static str = "Failure: IBAN is blacklisted.";

pub const NOT_FOUND_FAILURE: &'static str = "Failure: IBAN valid but not found in database.";

/// The message for the first failed check, empty when all passed.
pub open spec fn message_of(v: ValidityChecks) -> Seq<char> {
    if !v.country {
        COUNTRY_FAILURE@
    } else if !v.length {
        LENGTH_FAILURE@
    } else if !v.modulo {
        MODULO_FAILURE@
    } else if !v.blacklist {
        BLACKLIST_FAILURE@
    } else if !v.in_db {
        NOT_FOUND_FAILURE@
    } else {
        Seq::empty()
    }
}

/// The country named by the first two characters.
pub open spec fn country_prefix(s: Seq<char>) -> Option<Country> {
    if s.len() < 2 {
        None
    } else {
        country_of(s.subrange(0, 2))
    }
}

/// The country of a well-formed IBAN: a supported country code, the length
/// of that country's IBANs, and a passing checksum.
pub open spec fn iban_country(s: Seq<char>) -> Option<Country> {
    match country_prefix(s) {
        Some(c) => if s.len() == c.iban_length() && checksum_valid(s) {
            Some(c)
        } else {
            None
        },
        None => None,
    }
}

/// The checks up to the checksum.
pub open spec fn pre_checks(s: Seq<char>) -> ValidityChecks {
    let country = country_prefix(s) is Some;
    let length = country && s.len() == country_prefix(s)->0.iban_length();
    let modulo = length && checksum_valid(s);
    ValidityChecks { country, length, modulo, blacklist: false, in_db: false }
}

/// All checks of an IBAN against a directory and blacklist contents.
pub open spec fn checks_of(dir: BankDirectory, list: Map<Seq<char>, bool>, s: Seq<char>) -> ValidityChecks {
    let pre = pre_checks(s);
    let c = country_prefix(s)->0;
    let blacklist = pre.modulo && !blocked_in(list, s);
    let in_db = blacklist && lookup(dir.table(c), c.spec_bank_code(s)) is Some;
    ValidityChecks { blacklist, in_db, ..pre }
}

/// The record the pipeline hands back: the directory's, when every check passed.
pub open spec fn found_record(dir: BankDirectory, list: Map<Seq<char>, bool>, s: Seq<char>) -> Option<BankData> {
    if checks_of(dir, list, s).in_db {
        let c = country_prefix(s)->0;
        lookup(dir.table(c), c.spec_bank_code(s))
    } else {
        None
    }
}

impl ValidityChecks {
    pub open spec fn spec_pass(self) -> bool {
        self.country && self.length && self.modulo && self.blacklist && self.in_db
    }

    /// Whether the country, length and checksum checks passed.
    pub fn pre_check_pass(&self) -> (r: bool)
        ensures
            r == (self.country && self.length && self.modulo),
    {
        self.country && self.length && self.modulo
    }

    /// Whether every check passed.
    pub fn pass(&self) -> (r: bool)
        ensures
            r == self.spec_pass(),
    {
        self.country && self.length && self.modulo && self.blacklist && self.in_db
    }

    /// Describes the first failed check.
    pub fn gen_message(&self) -> (r: String)
        ensures
            r@ == message_of(*self),
    {
        if !self.country {
            String::from_str(COUNTRY_FAILURE)
        } else if !self.length {
            String::from_str(LENGTH_FAILURE)
        } else if !self.modulo {
            String::from_str(MODULO_FAILURE)
        } else if !self.blacklist {
            String::from_str(BLACKLIST_FAILURE)
        } else if !self.in_db {
            String::from_str(NOT_FOUND_FAILURE)
        } else {
            String::new()
        }
    }
}

/// An IBAN that has passed the country, length and checksum checks.
#[derive(Debug)]
pub struct Iban {
    text: String,
    country: Country,
}

impl View for Iban {
    type V = Seq<char>;

    closed spec fn view(&self) -> Seq<char> {
        self.text@
    }
}

impl Iban {
    pub closed spec fn spec_country(&self) -> Country {
        self.country
    }

    pub closed spec fn wf(&self) -> bool {
        iban_country(self.text@) == Some(self.country)
    }

    pub fn as_str(&self) -> (r: &str)
        ensures
            r@ == self@,
    {
        self.text.as_str()
    }

    pub fn country(&self) -> (r: Country)
        ensures
            r == self.spec_country(),
    {
        self.country
    }

    /// The bank code that the IBAN carries.
    pub fn bank_code(&self) -> (r: String)
        ensures
            r@ == self.spec_country().spec_bank_code(self@),
    {
        self.country.bank_code(self.text.as_str())
    }
}

/// The country named by the first two characters, if it is supported.
pub fn country_code(iban: &str) -> (r: Option<Country>)
    ensures
        r == country_prefix(iban@),
{
    if iban.unicode_len() < 2 {
        return None;
    }
    let prefix = crate::text::char_slice(iban, 0, 2);
    match get_country(prefix.as_str()) {
        Ok(c) => Some(c),
        Err(_) => None,
    }
}

/// The country, length and checksum checks.
pub fn pre_check(iban: &str) -> (r: (ValidityChecks, Option<Country>))
    ensures
        r.0 == pre_checks(iban@),
        r.1 == country_prefix(iban@),
{
    let mut checks = ValidityChecks {
        country: false,
        length: false,
        modulo: false,
        blacklist: false,
        in_db: false,
    };
    let country = country_code(iban);
    if let Some(c) = country {
        checks.country = true;
        checks.length = c.verify_length(iban);
        if checks.length {
            checks.modulo = verify_mod(iban);
        }
    }
    (checks, country)
}

/// Reads an IBAN: it must name a supported country, have that country's
/// length and pass the checksum; otherwise the message names the first
/// check that failed.
pub fn parse(iban_str: &str) -> (r: Result<Iban, String>)
    ensures
        match r {
            Ok(i) => i.wf() && i@ == iban_str@ && iban_country(iban_str@) == Some(i.spec_country()),
            Err(m) => iban_country(iban_str@) is None && m@ == message_of(pre_checks(iban_str@)),
        },
{
    let (checks, country) = pre_check(iban_str);
    if checks.pre_check_pass() {
        let c = country.unwrap();
        Ok(Iban { text: String::from_str(iban_str), country: c })
    } else {
        Err(checks.gen_message())
    }
}

/// The blacklist check and the directory lookup of a well-formed IBAN.
pub fn verify(dir: &BankDirectory, list: &Blacklist, iban: &Iban) -> (r: Result<BankData, String>)
    requires
        list.wf(),
        iban.wf(),
    ensures
        match r {
            Ok(d) => !blocked_in(list@, iban@) && lookup(
                dir.table(iban.spec_country()),
                iban.spec_country().spec_bank_code(iban@),
            ) == Some(d),
            Err(m) => if blocked_in(list@, iban@) {
                m@ == BLACKLIST_FAILURE@
            } else {
                lookup(dir.table(iban.spec_country()), iban.spec_country().spec_bank_code(iban@))
                    is None && m@ == NOT_FOUND_FAILURE@
            },
        },
{
    if list.is_blacklisted(iban.as_str()) {
        return Err(String::from_str(BLACKLIST_FAILURE));
    }
    let code = iban.bank_code();
    match dir.get_bank_data(iban.country(), code.as_str()) {
        Some(d) => Ok(d),
        None => Err(String::from_str(NOT_FOUND_FAILURE)),
    }
}

/// The outcome of verifying one IBAN, as reported to a client.
#[derive(Debug)]
pub struct IbanResponse {
    pub iban: String,
    pub valid: bool,
    pub bank_data: Option<BankData>,
    pub message: String,
}

/// Runs every check on the IBAN and reports the outcome: valid only when
/// all pass, the bank's record only then, and the first failure's message.
pub fn verify_request(dir: &BankDirectory, list: &Blacklist, iban_str: &str) -> (r: IbanResponse)
    requires
        list.wf(),
    ensures
        r.iban@ == iban_str@,
        r.valid == checks_of(*dir, list@, iban_str@).spec_pass(),
        r.message@ == message_of(checks_of(*dir, list@, iban_str@)),
        r.bank_data == found_record(*dir, list@, iban_str@),
{
    let (mut checks, country) = pre_check(iban_str);
    let mut bank_data = None;
    if checks.pre_check_pass() {
        let iban = Iban { text: String::from_str(iban_str), country: country.unwrap() };
        match verify(dir, list, &iban) {
            Ok(d) => {
                checks.blacklist = true;
                checks.in_db = true;
                bank_data = Some(d);
            },
            Err(_) => {
                checks.blacklist = !list.is_blacklisted(iban_str);
            },
        }
    }
    let message = checks.gen_message();
    IbanResponse { iban: String::from_str(iban_str), valid: checks.pass(), bank_data, message }
}

} // verus!
