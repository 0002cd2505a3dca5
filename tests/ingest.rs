use iban_beaver::country::{BankData, Country};
use iban_beaver::db::BankDirectory;
use iban_beaver::ingest::{
    columns_from_header, fill_table, parse_i32, record_from_row, records_from, Columns, IngestError,
};
use iban_beaver::interface::fill_table_request;
use iban_beaver::source::decode_latin1;

const HEADER: &str = "Kennzeichen;Identnummer;Bankleitzahl;Institutsart;Bankenname;PLZ;Ort;SWIFT-Code";

/// An Austrian registry file: a preamble of 512 bytes, then the header line
/// and the rows, in Latin-1.
fn austrian_source(rows: &[&str]) -> Vec<u8> {
    let mut bytes = vec![b'#'; 510];
    bytes.extend_from_slice(b"\r\n");
    let mut text = String::from(HEADER);
    for r in rows {
        text.push('\n');
        text.push_str(r);
    }
    text.push('\n');
    bytes.extend(text.chars().map(|c| c as u32 as u8));
    bytes
}

const ROWS: [&str; 3] = [
    "H;7000000;12000;Aktienbank;UniCredit Bank Austria AG;1020;Wien;BKAUATWWXXX",
    "H;7300000;20111;Sparkasse;Erste Bank der oesterreichischen Sparkassen AG;1100;Wien;GIBAATWWXXX",
    "H;7500000;36000;Raiffeisen;Raiffeisen Landesbank Tirol AG;6020;Innsbruck;",
];

#[test]
fn ingest_yields_one_record_per_row() {
    let mut dir = BankDirectory::new();
    let n = fill_table(&mut dir, Country::At, &austrian_source(&ROWS)).unwrap();
    assert_eq!(n, 3);
    assert_eq!(dir.records(Country::At).len(), 3);
    for code in ["12000", "20111", "36000"] {
        assert_eq!(dir.get_bank_data(Country::At, code).unwrap().code, code);
    }
    let tirol = dir.get_bank_data(Country::At, "36000").unwrap();
    assert_eq!(tirol.name, "Raiffeisen Landesbank Tirol AG");
    assert_eq!(tirol.zip, 6020);
    assert_eq!(tirol.city, "Innsbruck");
    assert_eq!(tirol.bic, None);
    let vienna = dir.get_bank_data(Country::At, "12000").unwrap();
    assert_eq!(vienna.bic, Some("BKAUATWWXXX".to_string()));
}

#[test]
fn reingest_drops_removed_records() {
    let mut dir = BankDirectory::new();
    fill_table(&mut dir, Country::At, &austrian_source(&ROWS)).unwrap();
    let n = fill_table(&mut dir, Country::At, &austrian_source(&ROWS[..2])).unwrap();
    assert_eq!(n, 2);
    assert!(dir.get_bank_data(Country::At, "36000").is_none());
    assert!(dir.get_bank_data(Country::At, "20111").is_some());
}

#[test]
fn ingest_decodes_latin1() {
    let mut dir = BankDirectory::new();
    let row = "H;7600000;36200;Raiffeisen;Raiffeisenbank W\u{f6}rgl;6300;W\u{f6}rgl;RZTIAT22263";
    fill_table(&mut dir, Country::At, &austrian_source(&[row])).unwrap();
    let r = dir.get_bank_data(Country::At, "36200").unwrap();
    assert_eq!(r.city, "W\u{f6}rgl");
    assert_eq!(r.name, "Raiffeisenbank W\u{f6}rgl");
}

#[test]
fn ingest_empty_postal_code_is_zero() {
    let mut dir = BankDirectory::new();
    fill_table(&mut dir, Country::At, &austrian_source(&["H;1;99999;X;Bank ohne PLZ;;Wien;"])).unwrap();
    assert_eq!(dir.get_bank_data(Country::At, "99999").unwrap().zip, 0);
}

#[test]
fn ingest_bad_row_aborts_and_keeps_old_table() {
    let mut dir = BankDirectory::new();
    fill_table(&mut dir, Country::At, &austrian_source(&ROWS)).unwrap();
    let bad = ["H;1;11111;X;Bank A;1010;Wien;", "H;2;22222;X;Bank B;abc;Wien;"];
    let r = fill_table(&mut dir, Country::At, &austrian_source(&bad));
    assert_eq!(r, Err(IngestError::BadRow(2)));
    assert_eq!(dir.records(Country::At).len(), 3);
    assert!(dir.get_bank_data(Country::At, "11111").is_none());
}

#[test]
fn ingest_short_row_is_bad() {
    let mut dir = BankDirectory::new();
    let r = fill_table(&mut dir, Country::At, &austrian_source(&["H;1;11111"]));
    assert_eq!(r, Err(IngestError::BadRow(1)));
}

#[test]
fn ingest_missing_column() {
    let mut dir = BankDirectory::new();
    let mut bytes = vec![b'#'; 512];
    bytes.extend_from_slice(b"Kennzeichen;Identnummer;Bankleitzahl;Bankenname;PLZ;Ort\nH;1;11111;Bank;1010;Wien\n");
    assert_eq!(fill_table(&mut dir, Country::At, &bytes), Err(IngestError::MissingColumn));
}

#[test]
fn ingest_preamble_only_is_empty() {
    let mut dir = BankDirectory::new();
    assert_eq!(fill_table(&mut dir, Country::At, &vec![b'#'; 100]), Err(IngestError::EmptySource));
    assert_eq!(fill_table(&mut dir, Country::At, &vec![b'#'; 512]), Err(IngestError::EmptySource));
}

#[test]
fn ingest_spreadsheet_rejects_non_workbook() {
    let mut dir = BankDirectory::new();
    for c in [Country::De, Country::Be, Country::Nl] {
        assert_eq!(fill_table(&mut dir, c, b"not a workbook"), Err(IngestError::UnreadableSource));
    }
}

#[test]
fn fill_table_request_reports_outcome() {
    let mut dir = BankDirectory::new();
    let ok = fill_table_request(&mut dir, Country::At, Ok(austrian_source(&ROWS)));
    assert!(ok.success);
    assert_eq!(ok.message, "Success: table has been (re)filled with data");
    let bad = fill_table_request(&mut dir, Country::De, Ok(b"garbage".to_vec()));
    assert!(!bad.success);
    assert_eq!(bad.message, "Failure: the source file could not be read.");
    let missing = fill_table_request(&mut dir, Country::Nl, Err("no such file".to_string()));
    assert!(!missing.success);
    assert_eq!(missing.message, "no such file");
    assert_eq!(dir.records(Country::At).len(), 3);
}

#[test]
fn error_messages() {
    assert_eq!(IngestError::MissingSheet.message(), "Failure: the source file lacks the expected worksheet.");
    assert_eq!(IngestError::EmptySource.message(), "Failure: the source file holds no header line.");
    assert_eq!(IngestError::MissingColumn.message(), "Failure: the source file lacks an expected column.");
    assert_eq!(IngestError::BadRow(4).message(), "Failure: a row of the source file could not be read.");
}

#[test]
fn integers() {
    assert_eq!(parse_i32("0"), Some(0));
    assert_eq!(parse_i32("1020"), Some(1020));
    assert_eq!(parse_i32("+7"), Some(7));
    assert_eq!(parse_i32("-15"), Some(-15));
    assert_eq!(parse_i32("2147483647"), Some(i32::MAX));
    assert_eq!(parse_i32("-2147483648"), Some(i32::MIN));
    assert_eq!(parse_i32("2147483648"), None);
    assert_eq!(parse_i32("99999999999999999999"), None);
    assert_eq!(parse_i32(""), None);
    assert_eq!(parse_i32("-"), None);
    assert_eq!(parse_i32("12a"), None);
    assert_eq!(parse_i32(" 12"), None);
}

#[test]
fn latin1_decoding_skips_preamble() {
    assert_eq!(decode_latin1(&[0x41, 0x42, 0xE9, 0xFC], 1), "B\u{e9}\u{fc}");
    assert_eq!(decode_latin1(&[0x41, 0x42], 5), "");
}

fn strings(cells: &[&str]) -> Vec<String> {
    cells.iter().map(|c| c.to_string()).collect()
}

#[test]
fn header_columns_by_name() {
    let cols = columns_from_header(&strings(&HEADER.split(';').collect::<Vec<_>>())).unwrap();
    assert_eq!(
        cols,
        Columns { id: Some(1), code: 2, name: 4, zip: Some(5), city: Some(6), bic: 7 }
    );
    assert!(columns_from_header(&strings(&["Bankleitzahl"])).is_none());
}

#[test]
fn spreadsheet_rows_by_position() {
    // Dutch layout: BIC, code, name.
    let cols = Columns { id: None, code: 1, name: 2, zip: None, city: None, bic: 0 };
    let rows = vec![
        strings(&["date"]),
        strings(&["BIC", "Identifier", "Naam"]),
        strings(&["ABNANL2A", "ABNA", "ABN AMRO"]),
        strings(&["", "XXXX", "Zonder BIC"]),
    ];
    let recs: Vec<BankData> = records_from(&rows, 2, &cols).unwrap();
    assert_eq!(recs.len(), 2);
    assert_eq!(recs[0].code, "ABNA");
    assert_eq!(recs[0].bic, Some("ABNANL2A".to_string()));
    assert_eq!(recs[0].zip, 0);
    assert_eq!(recs[0].city, "");
    assert_eq!(recs[1].bic, None);
    assert_eq!(records_from(&rows, 9, &cols).unwrap().len(), 0);
    let short = vec![strings(&["h"]), strings(&["ABNANL2A", "ABNA"])];
    assert_eq!(records_from(&short, 1, &cols).unwrap_err(), IngestError::BadRow(1));
}

#[test]
fn german_row_by_position() {
    let cols = Columns { id: Some(9), code: 0, name: 5, zip: Some(3), city: Some(4), bic: 7 };
    let row = strings(&[
        "10077777", "1", "norisbank GmbH", "10117", "Berlin", "norisbank Berlin", "10077", "NORSDE51XXX", "09",
        "42", "U", "0", "00000000",
    ]);
    let r = record_from_row(&row, &cols).unwrap();
    assert_eq!(r.code, "10077777");
    assert_eq!(r.name, "norisbank Berlin");
    assert_eq!(r.zip, 10117);
    assert_eq!(r.city, "Berlin");
    assert_eq!(r.bic, Some("NORSDE51XXX".to_string()));
    let mut no_id = row.clone();
    no_id[9] = "x".to_string();
    assert!(record_from_row(&no_id, &cols).is_none());
}
