use iban_beaver::country::{BankData, Country};
use iban_beaver::db::{blacklist, is_blacklisted, parse_op, BankDirectory, Blacklist, BlacklistOp};
use iban_beaver::interface::blacklist_request;

fn record(code: &str, name: &str) -> BankData {
    BankData { code: code.to_string(), name: name.to_string(), zip: 0, city: String::new(), bic: None }
}

#[test]
fn blacklist_add_twice_is_add_once() {
    let mut list = Blacklist::new();
    assert!(!is_blacklisted(&list, "DE27100777770209299700"));
    blacklist(&mut list, "DE27100777770209299700", "add").unwrap();
    assert!(is_blacklisted(&list, "DE27100777770209299700"));
    blacklist(&mut list, "DE27100777770209299700", "add").unwrap();
    assert!(is_blacklisted(&list, "DE27100777770209299700"));
    blacklist(&mut list, "DE27100777770209299700", "remove").unwrap();
    assert!(!is_blacklisted(&list, "DE27100777770209299700"));
    blacklist(&mut list, "DE27100777770209299700", "remove").unwrap();
    assert!(!is_blacklisted(&list, "DE27100777770209299700"));
}

#[test]
fn blacklist_is_keyed_by_exact_text() {
    let mut list = Blacklist::new();
    list.set_blacklisted("DE27100777770209299700", true);
    assert!(list.is_blacklisted("DE27100777770209299700"));
    assert!(!list.is_blacklisted("de27100777770209299700"));
    assert!(!list.is_blacklisted("DE89370400440532013000"));
}

#[test]
fn blacklist_unknown_operation_changes_nothing() {
    let mut list = Blacklist::new();
    let r = blacklist_request(&mut list, "HEJHOPP", "delete");
    assert!(!r.success);
    assert_eq!(r.message, "Failure: Operation not recognized. Use ADD or REMOVE");
    assert!(!list.is_blacklisted("HEJHOPP"));
    assert_eq!(blacklist(&mut list, "HEJHOPP", "aDd"), Err("Failure: Operation not recognized. Use ADD or REMOVE".to_string()));
}

#[test]
fn operation_names() {
    for op in ["add", "Add", "ADD"] {
        assert_eq!(parse_op(op), Some(BlacklistOp::Add));
    }
    for op in ["remove", "Remove", "REMOVE"] {
        assert_eq!(parse_op(op), Some(BlacklistOp::Remove));
    }
    assert_eq!(parse_op(""), None);
    assert!(BlacklistOp::Add.is_add());
    assert!(!BlacklistOp::Remove.is_add());
}

#[test]
fn lookup_returns_first_record_with_the_code() {
    let mut dir = BankDirectory::new();
    assert!(dir.get_bank_data(Country::De, "10077777").is_none());
    dir.replace_all(Country::De, vec![record("1", "first"), record("2", "second"), record("1", "third")]);
    assert_eq!(dir.get_bank_data(Country::De, "1").unwrap().name, "first");
    assert_eq!(dir.get_bank_data(Country::De, "2").unwrap().name, "second");
    assert!(dir.get_bank_data(Country::De, "3").is_none());
    assert!(dir.get_bank_data(Country::At, "1").is_none());
}

#[test]
fn replace_all_replaces_one_table_only() {
    let mut dir = BankDirectory::new();
    dir.replace_all(Country::Nl, vec![record("ABNA", "ABN AMRO"), record("INGB", "ING")]);
    dir.replace_all(Country::Be, vec![record("539", "Nagelmackers")]);
    dir.replace_all(Country::Nl, vec![record("RABO", "Rabobank")]);
    assert_eq!(dir.records(Country::Nl).len(), 1);
    assert!(dir.get_bank_data(Country::Nl, "ABNA").is_none());
    assert_eq!(dir.get_bank_data(Country::Nl, "RABO").unwrap().name, "Rabobank");
    assert_eq!(dir.get_bank_data(Country::Be, "539").unwrap().name, "Nagelmackers");
}

#[test]
fn cloned_record_keeps_every_field() {
    let r = BankData {
        code: "10077777".to_string(),
        name: "norisbank".to_string(),
        zip: 10117,
        city: "Berlin".to_string(),
        bic: Some("NORSDE51XXX".to_string()),
    };
    let c = r.clone();
    assert_eq!(c.code, r.code);
    assert_eq!(c.name, r.name);
    assert_eq!(c.zip, r.zip);
    assert_eq!(c.city, r.city);
    assert_eq!(c.bic, r.bic);
}
