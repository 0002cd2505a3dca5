//! Reading registry source files: Latin-1 text, delimited records and
//! spreadsheet rows.
use vstd::prelude::*;

verus! {

/// Rows of cells, each cell as its text.
pub open spec fn rows_view(rows: Seq<Vec<String>>) -> Seq<Seq<Seq<char>>> {
    rows.map_values(|r: Vec<String>| r@.map_values(|s: String| s@))
}

/// Latin-1 text: each byte is the character with that code.
pub open spec fn latin1(b: Seq<u8>) -> Seq<char> {
    b.map_values(|x: u8| x as char)
}

/// The bytes from position `skip` on, or none if there are fewer.
pub open spec fn after(b: Seq<u8>, skip: nat) -> Seq<u8> {
    if skip <= b.len() {
        b.skip(skip as int)
    } else {
        Seq::empty()
    }
}

/// Decodes Latin-1 text, leaving out the first `skip` bytes.
pub fn decode_latin1(bytes: &[u8], skip: usize) -> (r: String)
    ensures
        r@ == latin1(after(bytes@, skip as nat)),
{
    let mut r = String::new();
    let mut i = skip;
    let ghost start = skip;
    if i > bytes.len() {
        proof {
            assert(latin1(after(bytes@, skip as nat)) =~= Seq::<char>::empty());
        }
        return r;
    }
    while i < bytes.len()
        invariant
            start <= i <= bytes@.len(),
            start == skip,
            r@ == latin1(bytes@.subrange(start as int, i as int)),
        decreases bytes.len() - i,
    {
        let c = bytes[i] as char;
        crate::text::push_char(&mut r, c);
        proof {
            assert(latin1(bytes@.subrange(start as int, i + 1)) =~= latin1(
                bytes@.subrange(start as int, i as int),
            ).push(c));
        }
        i += 1;
    }
    proof {
        assert(bytes@.subrange(start as int, i as int) =~= after(bytes@, skip as nat));
    }
    r
}

/// The records that csv reads from a text with the given delimiter: each
/// record as its fields, the first line included.
pub uninterp spec fn delimited_records(text: Seq<char>, delimiter: u8) -> Option<Seq<Seq<Seq<char>>>>;

/// Relies on csv's `ReaderBuilder` with the given delimiter, records of
/// differing lengths accepted (`flexible`) and no header row taken apart
/// (`has_headers(false)`), and on `Reader::records`: every record of the
/// text, or nothing when csv reports an error. What it reads depends on the
/// text and the delimiter alone.
#[verifier::external_body]
pub(crate) fn read_delimited(text: &str, delimiter: u8) -> (r: Option<Vec<Vec<String>>>)
    ensures
        match r {
            Some(rows) => delimited_records(text@, delimiter) == Some(rows_view(rows@)),
            None => delimited_records(text@, delimiter) is None,
        },
{
    let mut reader = csv::ReaderBuilder::new()
        .delimiter(delimiter)
        .flexible(true)
        .has_headers(false)
        .from_reader(text.as_bytes());
    reader
        .records()
        .map(|rec| rec.map(|rec| rec.iter().map(String::from).collect()))
        .collect::<Result<Vec<Vec<String>>, csv::Error>>()
        .ok()
}

/// The rows of the used range of an xlsx workbook's named worksheet, each
/// cell as its text.
pub uninterp spec fn sheet_rows(bytes: Seq<u8>, sheet: Seq<char>) -> Option<Seq<Seq<Seq<char>>>>;

/// Why a worksheet could not be read.
#[derive(Clone, Copy, Debug, PartialEq, Eq, Structural)]
pub enum SheetError {
    MissingSheet,
    Unreadable,
}

/// Relies on calamine's `open_workbook_from_rs` for an `Xlsx` workbook held
/// in memory and on `Reader::worksheet_range`: the rows of the worksheet's
/// used range, each cell as calamine's `Display` for `Data` writes it (an
/// empty cell as ""). `XlsxError::WorksheetNotFound` becomes
/// `MissingSheet`, any other failure `Unreadable`. What it reads depends on
/// the bytes and the sheet name alone.
#[verifier::external_body]
pub(crate) fn read_sheet(bytes: &[u8], sheet: &str) -> (r: Result<Vec<Vec<String>>, SheetError>)
    ensures
        match r {
            Ok(rows) => sheet_rows(bytes@, sheet@) == Some(rows_view(rows@)),
            Err(_) => sheet_rows(bytes@, sheet@) is None,
        },
{
    let opened: Result<calamine::Xlsx<_>, _> =
        calamine::open_workbook_from_rs(std::io::Cursor::new(bytes.to_vec()));
    let mut book = match opened {
        Ok(book) => book,
        Err(_) => return Err(SheetError::Unreadable),
    };
    match calamine::Reader::worksheet_range(&mut book, sheet) {
        Ok(range) => Ok(range.rows().map(|row| row.iter().map(|c| c.to_string()).collect()).collect()),
        Err(calamine::XlsxError::WorksheetNotFound(_)) => Err(SheetError::MissingSheet),
        Err(_) => Err(SheetError::Unreadable),
    }
}

} // verus!
