use iban_beaver::checksum::{char_to_num, verify_mod};
use iban_beaver::country::{get_country, BankData, Country};
use iban_beaver::db::{BankDirectory, Blacklist};
use iban_beaver::iban::{parse, pre_check, verify, verify_request, ValidityChecks};
use iban_beaver::interface::blacklist_request;

fn record(code: &str, name: &str, zip: i32, city: &str, bic: Option<&str>) -> BankData {
    BankData {
        code: code.to_string(),
        name: name.to_string(),
        zip,
        city: city.to_string(),
        bic: bic.map(|b| b.to_string()),
    }
}

fn directory() -> BankDirectory {
    let mut dir = BankDirectory::new();
    dir.replace_all(
        Country::De,
        vec![
            record("10010010", "Postbank", 10559, "Berlin", Some("PBNKDEFFXXX")),
            record("10077777", "norisbank", 10117, "Berlin", Some("NORSDE51XXX")),
        ],
    );
    dir.replace_all(Country::Be, vec![record("539", "Nagelmackers", 0, "", Some("NAP"))]);
    dir
}

/// Builds an IBAN with correct check digits, for fixtures.
fn with_check_digits(country: &str, bban: &str) -> String {
    let rearranged = format!("{}{}00", bban, country);
    let mut m: u32 = 0;
    for c in rearranged.chars() {
        if c.is_ascii_digit() {
            m = (m * 10 + c.to_digit(10).unwrap()) % 97;
        } else {
            let v = c.to_ascii_uppercase() as u32 - 'A' as u32 + 10;
            m = (m * 100 + v) % 97;
        }
    }
    format!("{}{:02}{}", country, 98 - m, bban)
}

#[test]
fn parse_iban_checksum() {
    let de_ok = parse("DE27100777770209299700");
    let de_err_math = parse("DE27100777770209299704");
    let de_err_length = parse("DE2710077777209299700");
    assert!(de_ok.is_ok());
    assert!(de_err_math.is_err());
    assert!(de_err_length.is_err());
}

#[test]
fn parse_iban_country_code() {
    let de_ok = parse("DE27100777770209299700");
    let de_err = parse("XE27100777770209299700");
    assert!(de_ok.is_ok());
    assert!(de_err.is_err());
}

#[test]
fn verify_iban() {
    let dir = directory();
    let list = Blacklist::new();
    let iban = parse("DE27100777770209299700").unwrap();
    let de_ok = verify(&dir, &list, &iban).unwrap();
    assert!(de_ok.code.eq("10077777"));
    assert!(de_ok.bic.eq(&Some("NORSDE51XXX".to_string())));

    let iban = parse("BE68539007547034").unwrap();
    let be_ok = verify(&dir, &list, &iban).unwrap();
    assert!(be_ok.code.eq("539"));
    assert!(be_ok.bic.eq(&Some("NAP".to_string())));
}

#[test]
fn blacklist() {
    let mut list = Blacklist::new();
    let add = blacklist_request(&mut list, "HEJHOPP", "ADD");
    let remove = blacklist_request(&mut list, "HEJHOPP", "REMOVE");
    assert!(add.success);
    assert!(remove.success);
}

#[test]
fn scenario_valid_iban_gives_bic() {
    let r = verify_request(&directory(), &Blacklist::new(), "DE27100777770209299700");
    assert!(r.valid);
    assert_eq!(r.iban, "DE27100777770209299700");
    assert_eq!(r.message, "");
    let bank = r.bank_data.unwrap();
    assert_eq!(bank.code, "10077777");
    assert_eq!(bank.bic, Some("NORSDE51XXX".to_string()));
}

#[test]
fn scenario_checksum_failure() {
    let r = verify_request(&directory(), &Blacklist::new(), "DE27100777770209299704");
    assert!(!r.valid);
    assert!(r.bank_data.is_none());
    assert_eq!(r.message, "Failure: Modulo check failed.");
}

#[test]
fn scenario_length_failure() {
    let r = verify_request(&directory(), &Blacklist::new(), "DE2710077777209299700");
    assert!(!r.valid);
    assert_eq!(r.message, "Failure: Length check failed.");
}

#[test]
fn scenario_unsupported_country() {
    let r = verify_request(&directory(), &Blacklist::new(), "XX27100777770209299700");
    assert!(!r.valid);
    assert_eq!(r.message, "Failure: Country not supported.");
}

#[test]
fn scenario_blacklisted_iban() {
    let dir = directory();
    let mut list = Blacklist::new();
    assert!(blacklist_request(&mut list, "DE27100777770209299700", "add").success);
    let r = verify_request(&dir, &list, "DE27100777770209299700");
    assert!(!r.valid);
    assert!(r.bank_data.is_none());
    assert_eq!(r.message, "Failure: IBAN is blacklisted.");
}

#[test]
fn valid_iban_missing_from_directory() {
    let r = verify_request(&directory(), &Blacklist::new(), "DE89370400440532013000");
    assert!(!r.valid);
    assert!(r.bank_data.is_none());
    assert_eq!(r.message, "Failure: IBAN valid but not found in database.");
}

#[test]
fn empty_and_short_input_fail_early() {
    for s in ["", "D"] {
        let r = verify_request(&directory(), &Blacklist::new(), s);
        assert!(!r.valid);
        assert_eq!(r.message, "Failure: Country not supported.");
    }
    let r = verify_request(&directory(), &Blacklist::new(), "DE");
    assert_eq!(r.message, "Failure: Length check failed.");
}

#[test]
fn lower_case_country_code_is_accepted() {
    let r = verify_request(&directory(), &Blacklist::new(), "de27100777770209299700");
    assert!(r.valid);
    assert_eq!(r.bank_data.unwrap().bic, Some("NORSDE51XXX".to_string()));
}

#[test]
fn checksum_accepts_valid_ibans_of_each_country() {
    for s in [
        "DE27100777770209299700",
        "DE89370400440532013000",
        "AT611904300234573201",
        "BE68539007547034",
        "NL91ABNA0417164300",
        "nl91abna0417164300",
    ] {
        assert!(verify_mod(s), "{}", s);
    }
}

#[test]
fn checksum_rejects_bad_input() {
    assert!(!verify_mod(""));
    assert!(!verify_mod("DE27 100777770209299700"));
    assert!(!verify_mod("DE27-100777770209299700"));
    assert!(!verify_mod("+E27100777770209299700"));
    assert!(!verify_mod("DE28100777770209299700"));
}

#[test]
fn checksum_is_not_limited_to_u128() {
    // 34 characters with letters expand to far more than 38 digits.
    let long = with_check_digits("MT", "MALT011000012345MTLCAST001SABCDEF");
    assert!(verify_mod(&long));
    let mut chars: Vec<char> = long.chars().collect();
    chars[10] = if chars[10] == '9' { '8' } else { '9' };
    let broken: String = chars.into_iter().collect();
    assert!(!verify_mod(&broken));
}

#[test]
fn flipping_any_account_digit_fails_checksum() {
    let valid = "DE27100777770209299700";
    assert!(verify_mod(valid));
    let chars: Vec<char> = valid.chars().collect();
    for i in 12..22 {
        for d in '0'..='9' {
            if d == chars[i] {
                continue;
            }
            let mut changed = chars.clone();
            changed[i] = d;
            let s: String = changed.into_iter().collect();
            assert!(!verify_mod(&s), "{}", s);
        }
    }
}

#[test]
fn char_to_num_values() {
    assert_eq!(char_to_num('A'), "10");
    assert_eq!(char_to_num('a'), "10");
    assert_eq!(char_to_num('D'), "13");
    assert_eq!(char_to_num('Z'), "35");
    assert_eq!(char_to_num('z'), "35");
    assert_eq!(char_to_num('7'), "7");
    assert_eq!(char_to_num('-'), "-");
}

#[test]
fn same_bank_code_same_record_whatever_the_account() {
    let dir = directory();
    let list = Blacklist::new();
    let a = with_check_digits("DE", "100777770209299700");
    let b = with_check_digits("DE", "100777770000012345");
    assert_eq!(a, "DE27100777770209299700");
    let ra = verify_request(&dir, &list, &a).bank_data.unwrap();
    let rb = verify_request(&dir, &list, &b).bank_data.unwrap();
    assert_eq!(ra.code, rb.code);
    assert_eq!(ra.name, rb.name);
    assert_eq!(ra.zip, rb.zip);
    assert_eq!(ra.city, rb.city);
    assert_eq!(ra.bic, rb.bic);
}

#[test]
fn unknown_country_fails_in_every_case() {
    let messages: Vec<String> =
        ["xx", "XX", "Xx", "xX"].iter().map(|c| get_country(c).unwrap_err()).collect();
    for m in &messages {
        assert_eq!(m, "Failure: Country specified is not supported.");
    }
    assert!(get_country("DEU").is_err());
    assert!(get_country("").is_err());
}

#[test]
fn known_country_resolves_in_every_case() {
    for c in ["de", "DE", "De", "dE"] {
        assert_eq!(get_country(c), Ok(Country::De));
    }
    assert_eq!(get_country("at"), Ok(Country::At));
    assert_eq!(get_country("Be"), Ok(Country::Be));
    assert_eq!(get_country("NL"), Ok(Country::Nl));
}

#[test]
fn lengths_and_bank_codes_per_country() {
    assert_eq!(Country::De.expected_length(), 22);
    assert_eq!(Country::At.expected_length(), 20);
    assert_eq!(Country::Be.expected_length(), 16);
    assert_eq!(Country::Nl.expected_length(), 18);
    assert_eq!(Country::De.bank_code("DE27100777770209299700"), "10077777");
    assert_eq!(Country::At.bank_code("AT611904300234573201"), "19043");
    assert_eq!(Country::Be.bank_code("BE68539007547034"), "539");
    assert_eq!(Country::Nl.bank_code("NL91ABNA0417164300"), "ABNA");
    assert_eq!(Country::De.bank_code("DE2710"), "10");
    assert_eq!(iban_beaver::country::de::bank_code("DE27100777770209299700"), "10077777");
    assert!(iban_beaver::country::at::verify_length("AT611904300234573201"));
    assert!(!iban_beaver::country::de::verify_length("DE2710077777209299700"));
}

#[test]
fn validity_checks_messages_and_passes() {
    let (checks, country) = pre_check("DE27100777770209299704");
    assert_eq!(country, Some(Country::De));
    assert!(!checks.pre_check_pass());
    assert_eq!(checks.gen_message(), "Failure: Modulo check failed.");
    let all = ValidityChecks { country: true, length: true, modulo: true, blacklist: true, in_db: true };
    assert!(all.pass());
    assert_eq!(all.gen_message(), "");
    let listed = ValidityChecks { blacklist: false, in_db: false, ..all };
    assert!(listed.pre_check_pass());
    assert!(!listed.pass());
    assert_eq!(listed.gen_message(), "Failure: IBAN is blacklisted.");
}

#[test]
fn parse_error_names_first_failed_check() {
    assert_eq!(parse("XE27100777770209299700").unwrap_err(), "Failure: Country not supported.");
    assert_eq!(parse("DE2710077777209299700").unwrap_err(), "Failure: Length check failed.");
    assert_eq!(parse("DE27100777770209299704").unwrap_err(), "Failure: Modulo check failed.");
    let ok = parse("BE68539007547034").unwrap();
    assert_eq!(ok.country(), Country::Be);
    assert_eq!(ok.as_str(), "BE68539007547034");
    assert_eq!(ok.bank_code(), "539");
}
