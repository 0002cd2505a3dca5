//! Rebuilding a country's table from its registry source file: read the
//! rows, turn each into a bank record, and replace the table as a whole.
use vstd::prelude::*;
use crate::checksum::{digits_value, is_digit, lemma_digits_value_push};
use crate::country::{at, be, de, nl, BankData, BankRecord, Country};
use crate::db::{lookup, BankDirectory};
use crate::source::{
    after, decode_latin1, delimited_records, latin1, read_delimited, read_sheet, rows_view,
    sheet_rows, SheetError,
};
use crate::text::same_text;

verus! {

/// Where a row keeps each field of a bank record. A field without a column
/// takes its empty value; `id` is only checked to be a number.
#[derive(Clone, Copy, Debug, PartialEq, Eq, Structural)]
pub struct Columns {
    pub id: Option<usize>,
    pub code: usize,
    pub name: usize,
    pub zip: Option<usize>,
    pub city: Option<usize>,
    pub bic: usize,
}

/// Why a source file could not be ingested.
#[derive(Clone, Copy, Debug, PartialEq, Eq, Structural)]
pub enum IngestError {
    /// The file could not be read as the country's format.
    UnreadableSource,
    /// The workbook has no worksheet of the expected name.
    MissingSheet,
    /// The delimited file holds no header line.
    EmptySource,
    /// The header line lacks one of the expected columns.
    MissingColumn,
    /// The row at this position could not be turned into a bank record.
    BadRow(usize),
}

pub open spec fn all_digits(s: Seq<char>) -> bool {
    forall|i: int| 0 <= i < s.len() ==> is_digit(#[trigger] s[i])
}

/// A decimal integer with an optional sign.
pub open spec fn int_text_value(s: Seq<char>) -> Option<int> {
    if s.len() > 0 && (s[0] == '-' || s[0] == '+') {
        let d = s.skip(1);
        if d.len() > 0 && all_digits(d) {
            Some(
                if s[0] == '-' {
                    -digits_value(d)
                } else {
                    digits_value(d)
                },
            )
        } else {
            None
        }
    } else if s.len() > 0 && all_digits(s) {
        Some(digits_value(s))
    } else {
        None
    }
}

/// A decimal integer that fits in an `i32`.
pub open spec fn i32_text_value(s: Seq<char>) -> Option<int> {
    match int_text_value(s) {
        Some(v) => if i32::MIN <= v <= i32::MAX {
            Some(v)
        } else {
            None
        },
        None => None,
    }
}

/// A postal code: empty stands for 0.
pub open spec fn zip_text_value(s: Seq<char>) -> Option<int> {
    if s.len() == 0 {
        Some(0)
    } else {
        i32_text_value(s)
    }
}

pub open spec fn optional_text(s: Seq<char>) -> Option<Seq<char>> {
    if s.len() == 0 {
        None
    } else {
        Some(s)
    }
}

pub open spec fn cell(row: Seq<Seq<char>>, i: int) -> Option<Seq<char>> {
    if 0 <= i < row.len() {
        Some(row[i])
    } else {
        None
    }
}

/// The bank record a row stands for, if it has every required cell and its
/// numbers read as numbers.
pub open spec fn row_record(row: Seq<Seq<char>>, cols: Columns) -> Option<BankRecord> {
    let id_ok = match cols.id {
        Some(i) => cell(row, i as int) is Some && i32_text_value(cell(row, i as int)->0) is Some,
        None => true,
    };
    let zip = match cols.zip {
        Some(i) => if cell(row, i as int) is Some {
            zip_text_value(cell(row, i as int)->0)
        } else {
            None
        },
        None => Some(0int),
    };
    let city = match cols.city {
        Some(i) => cell(row, i as int),
        None => Some(Seq::<char>::empty()),
    };
    let code = cell(row, cols.code as int);
    let name = cell(row, cols.name as int);
    if id_ok && code is Some && name is Some && zip is Some && city is Some {
        Some(
            BankRecord {
                code: code->0,
                name: name->0,
                zip: zip->0,
                city: city->0,
                bic: match cell(row, cols.bic as int) {
                    Some(t) => optional_text(t),
                    None => None,
                },
            },
        )
    } else {
        None
    }
}

/// The records of all rows, or the position of the first row that has none.
pub open spec fn records_of(rows: Seq<Seq<Seq<char>>>, cols: Columns) -> Result<Seq<BankRecord>, nat>
    decreases rows.len(),
{
    if rows.len() == 0 {
        Ok(Seq::empty())
    } else {
        match records_of(rows.drop_last(), cols) {
            Ok(prev) => match row_record(rows.last(), cols) {
                Some(r) => Ok(prev.push(r)),
                None => Err((rows.len() - 1) as nat),
            },
            Err(i) => Err(i),
        }
    }
}

/// The rows from position `k` on, or none if there are fewer.
pub open spec fn rows_after(rows: Seq<Seq<Seq<char>>>, k: nat) -> Seq<Seq<Seq<char>>> {
    if k <= rows.len() {
        rows.skip(k as int)
    } else {
        Seq::empty()
    }
}

/// The first column whose header is `name`, looking from position `i` on.
pub open spec fn column_from(header: Seq<Seq<char>>, name: Seq<char>, i: int) -> Option<int>
    decreases header.len() - i,
{
    if i < 0 || i >= header.len() {
        None
    } else if header[i] == name {
        Some(i)
    } else {
        column_from(header, name, i + 1)
    }
}

/// Where the Austrian header line puts each field.
pub open spec fn header_columns(header: Seq<Seq<char>>) -> Option<Columns> {
    let id = column_from(header, at::ID_HEADER@, 0);
    let code = column_from(header, at::CODE_HEADER@, 0);
    let name = column_from(header, at::NAME_HEADER@, 0);
    let zip = column_from(header, at::ZIP_HEADER@, 0);
    let city = column_from(header, at::CITY_HEADER@, 0);
    let bic = column_from(header, at::BIC_HEADER@, 0);
    if id is Some && code is Some && name is Some && zip is Some && city is Some && bic is Some {
        Some(
            Columns {
                id: Some(id->0 as usize),
                code: code->0 as usize,
                name: name->0 as usize,
                zip: Some(zip->0 as usize),
                city: Some(city->0 as usize),
                bic: bic->0 as usize,
            },
        )
    } else {
        None
    }
}

/// The worksheet that a spreadsheet country's registry is published in.
pub open spec fn sheet_of(c: Country) -> Seq<char> {
    match c {
        Country::Be => be::SHEET@,
        Country::De => de::SHEET@,
        Country::Nl => nl::SHEET@,
        Country::At => Seq::empty(),
    }
}

pub open spec fn first_data_row_of(c: Country) -> nat {
    match c {
        Country::Be => be::FIRST_DATA_ROW as nat,
        Country::De => de::FIRST_DATA_ROW as nat,
        Country::Nl => nl::FIRST_DATA_ROW as nat,
        Country::At => 0,
    }
}

/// Where a spreadsheet country's rows keep each field.
pub open spec fn sheet_columns(c: Country) -> Columns {
    match c {
        Country::Be => Columns {
            id: None,
            code: be::CODE_COLUMN,
            name: be::NAME_COLUMN,
            zip: None,
            city: None,
            bic: be::BIC_COLUMN,
        },
        Country::Nl => Columns {
            id: None,
            code: nl::CODE_COLUMN,
            name: nl::NAME_COLUMN,
            zip: None,
            city: None,
            bic: nl::BIC_COLUMN,
        },
        _ => Columns {
            id: Some(de::ID_COLUMN),
            code: de::CODE_COLUMN,
            name: de::NAME_COLUMN,
            zip: Some(de::ZIP_COLUMN),
            city: Some(de::CITY_COLUMN),
            bic: de::BIC_COLUMN,
        },
    }
}

/// The data rows of a country's source file and where they keep each field.
/// Austria publishes delimited Latin-1 text after a preamble, with a header
/// line; the others publish a workbook whose data starts at a fixed row.
pub open spec fn source_table(c: Country, bytes: Seq<u8>) -> Result<
    (Seq<Seq<Seq<char>>>, Columns),
    IngestError,
> {
    match c {
        Country::At => match delimited_records(
            latin1(after(bytes, at::SKIP_BYTES as nat)),
            at::DELIMITER,
        ) {
            Some(recs) => if recs.len() == 0 {
                Err(IngestError::EmptySource)
            } else {
                match header_columns(recs[0]) {
                    Some(cols) => Ok((rows_after(recs, 1), cols)),
                    None => Err(IngestError::MissingColumn),
                }
            },
            None => Err(IngestError::UnreadableSource),
        },
        _ => match sheet_rows(bytes, sheet_of(c)) {
            Some(rows) => Ok((rows_after(rows, first_data_row_of(c)), sheet_columns(c))),
            None => Err(IngestError::UnreadableSource),
        },
    }
}

/// What ingesting the source file yields: the records of its data rows, in
/// order, or why it cannot be ingested. A row is reported by its position
/// among all rows that were read.
pub open spec fn expected_records(c: Country, bytes: Seq<u8>) -> Result<Seq<BankRecord>, IngestError> {
    match source_table(c, bytes) {
        Ok((rows, cols)) => match records_of(rows, cols) {
            Ok(recs) => Ok(recs),
            Err(i) => Err(
                IngestError::BadRow(
                    (i + if c == Country::At {
                        1
                    } else {
                        first_data_row_of(c)
                    }) as usize,
                ),
            ),
        },
        Err(e) => Err(e),
    }
}

pub open spec fn records_view(t: Seq<BankData>) -> Seq<BankRecord> {
    t.map_values(|d: BankData| d@)
}

/// Reads a decimal integer with an optional sign that fits in an `i32`.
pub fn parse_i32(s: &str) -> (r: Option<i32>)
    ensures
        match r {
            Some(v) => i32_text_value(s@) == Some(v as int),
            None => i32_text_value(s@) is None,
        },
{
    let n = s.unicode_len();
    if n == 0 {
        return None;
    }
    let first = s.get_char(0);
    let negative = first == '-';
    let start: usize = if first == '-' || first == '+' {
        1
    } else {
        0
    };
    if start == n {
        return None;
    }
    let ghost d = s@.skip(start as int);
    proof {
        assert(s@.skip(0) =~= s@);
    }
    let mut acc: i64 = 0;
    let mut too_big = false;
    let mut k: usize = start;
    while k < n
        invariant
            n == s@.len(),
            start <= k <= n,
            start < n,
            start == 0 || start == 1,
            (start == 1) == (s@[0] == '-' || s@[0] == '+'),
            negative == (s@[0] == '-'),
            d == s@.skip(start as int),
            all_digits(s@.subrange(start as int, k as int)),
            !too_big ==> acc as int == digits_value(s@.subrange(start as int, k as int)),
            !too_big ==> 0 <= acc <= 2147483648,
            too_big ==> digits_value(s@.subrange(start as int, k as int)) > 2147483648,
        decreases n - k,
    {
        let c = s.get_char(k);
        if !('0' <= c && c <= '9') {
            proof {
                assert(d[k - start] == c);
                assert(!is_digit(d[k - start]));
                assert(!all_digits(d));
                if start == 0 {
                    assert(d =~= s@);
                    assert(!all_digits(s@));
                } else {
                    assert(s@[0] == '-' || s@[0] == '+');
                    assert(d.len() > 0);
                }
            }
            return None;
        }
        let ghost prev = s@.subrange(start as int, k as int);
        proof {
            assert(s@.subrange(start as int, k + 1) =~= prev.push(c));
            lemma_digits_value_push(prev, c);
        }
        if !too_big {
            acc = acc * 10 + ((c as u32 - '0' as u32) as i64);
            if acc > 2147483648 {
                too_big = true;
            }
        }
        k += 1;
    }
    proof {
        assert(s@.subrange(start as int, n as int) =~= d);
    }
    if too_big {
        return None;
    }
    if negative {
        Some((-acc) as i32)
    } else if acc > 2147483647 {
        None
    } else {
        Some(acc as i32)
    }
}

fn cell_at(row: &Vec<String>, i: usize) -> (r: Option<String>)
    ensures
        match r {
            Some(t) => cell(row@.map_values(|s: String| s@), i as int) == Some(t@),
            None => cell(row@.map_values(|s: String| s@), i as int) is None,
        },
{
    if i < row.len() {
        Some(row[i].clone())
    } else {
        None
    }
}

/// Turns one row into the bank record it stands for.
pub fn record_from_row(row: &Vec<String>, cols: &Columns) -> (r: Option<BankData>)
    ensures
        match r {
            Some(d) => row_record(row@.map_values(|s: String| s@), *cols) == Some(d@),
            None => row_record(row@.map_values(|s: String| s@), *cols) is None,
        },
{
    let ghost v = row@.map_values(|s: String| s@);
    if let Some(i) = cols.id {
        match cell_at(row, i) {
            Some(t) => {
                if parse_i32(t.as_str()).is_none() {
                    return None;
                }
            },
            None => return None,
        }
    }
    let zip: i32 = match cols.zip {
        Some(i) => match cell_at(row, i) {
            Some(t) => {
                if t.as_str().unicode_len() == 0 {
                    0
                } else {
                    match parse_i32(t.as_str()) {
                        Some(z) => z,
                        None => return None,
                    }
                }
            },
            None => return None,
        },
        None => 0,
    };
    let city = match cols.city {
        Some(i) => match cell_at(row, i) {
            Some(t) => t,
            None => return None,
        },
        None => String::new(),
    };
    let code = match cell_at(row, cols.code) {
        Some(t) => t,
        None => return None,
    };
    let name = match cell_at(row, cols.name) {
        Some(t) => t,
        None => return None,
    };
    let bic = match cell_at(row, cols.bic) {
        Some(t) => if t.as_str().unicode_len() == 0 {
            None
        } else {
            Some(t)
        },
        None => None,
    };
    let d = BankData { code, name, zip, city, bic };
    proof {
        assert(row_record(v, *cols) == Some(d@));
    }
    Some(d)
}

/// Turns the rows from position `start` on into bank records; fails at the
/// first row that does not make one, reporting its position among all rows.
pub fn records_from(rows: &Vec<Vec<String>>, start: usize, cols: &Columns) -> (r: Result<
    Vec<BankData>,
    IngestError,
>)
    ensures
        match records_of(rows_after(rows_view(rows@), start as nat), *cols) {
            Ok(recs) => r is Ok && records_view(r->Ok_0@) == recs,
            Err(i) => r == Err::<Vec<BankData>, IngestError>(IngestError::BadRow((i + start) as usize)),
        },
{
    let ghost all = rows_view(rows@);
    let ghost data = rows_after(all, start as nat);
    let mut out: Vec<BankData> = Vec::new();
    if start >= rows.len() {
        proof {
            assert(data =~= Seq::<Seq<Seq<char>>>::empty());
            assert(records_view(out@) =~= Seq::<BankRecord>::empty());
        }
        return Ok(out);
    }
    let mut i: usize = start;
    proof {
        assert(data.take(0) =~= Seq::<Seq<Seq<char>>>::empty());
        assert(records_view(out@) =~= Seq::<BankRecord>::empty());
    }
    while i < rows.len()
        invariant
            start <= i <= rows@.len(),
            all == rows_view(rows@),
            data == rows_after(all, start as nat),
            data.len() == rows@.len() - start,
            records_of(data.take(i - start), *cols) == Ok::<Seq<BankRecord>, nat>(
                records_view(out@),
            ),
        decreases rows.len() - i,
    {
        let ghost k = i - start;
        proof {
            assert(data[k] == all[i as int]);
            assert(all[i as int] == rows@[i as int]@.map_values(|s: String| s@));
            assert(data.take(k + 1).drop_last() =~= data.take(k));
            assert(data.take(k + 1).last() == data[k]);
        }
        match record_from_row(&rows[i], cols) {
            Some(d) => {
                let ghost before = out@;
                out.push(d);
                proof {
                    assert(records_view(out@) =~= records_view(before).push(d@));
                }
            },
            None => {
                proof {
                    assert(records_of(data.take(k + 1), *cols) == Err::<Seq<BankRecord>, nat>(
                        k as nat,
                    ));
                    lemma_records_of_first_failure(data, *cols, k + 1);
                    assert(data.take(data.len() as int) =~= data);
                }
                return Err(IngestError::BadRow(i));
            },
        }
        i += 1;
    }
    proof {
        assert(data.take(i - start) =~= data);
    }
    Ok(out)
}

/// A failure among the first rows stays the reported failure when more rows
/// follow.
proof fn lemma_records_of_first_failure(rows: Seq<Seq<Seq<char>>>, cols: Columns, k: int)
    requires
        0 <= k <= rows.len(),
        records_of(rows.take(k), cols) is Err,
    ensures
        records_of(rows, cols) == records_of(rows.take(k), cols),
    decreases rows.len() - k,
{
    if k < rows.len() {
        assert(rows.take(k + 1).drop_last() =~= rows.take(k));
        lemma_records_of_first_failure(rows, cols, k + 1);
    } else {
        assert(rows.take(k) =~= rows);
    }
}

/// The first column whose header is `name`.
pub fn find_column(header: &Vec<String>, name: &str) -> (r: Option<usize>)
    ensures
        match r {
            Some(i) => column_from(header@.map_values(|s: String| s@), name@, 0) == Some(
                i as int,
            ),
            None => column_from(header@.map_values(|s: String| s@), name@, 0) is None,
        },
{
    let ghost h = header@.map_values(|s: String| s@);
    let mut i: usize = 0;
    while i < header.len()
        invariant
            h == header@.map_values(|s: String| s@),
            0 <= i <= header@.len(),
            column_from(h, name@, 0) == column_from(h, name@, i as int),
        decreases header.len() - i,
    {
        if same_text(header[i].as_str(), name) {
            return Some(i);
        }
        i += 1;
    }
    None
}

/// Where an Austrian header line puts each field.
pub fn columns_from_header(header: &Vec<String>) -> (r: Option<Columns>)
    ensures
        r == header_columns(header@.map_values(|s: String| s@)),
{
    let id = find_column(header, at::ID_HEADER);
    let code = find_column(header, at::CODE_HEADER);
    let name = find_column(header, at::NAME_HEADER);
    let zip = find_column(header, at::ZIP_HEADER);
    let city = find_column(header, at::CITY_HEADER);
    let bic = find_column(header, at::BIC_HEADER);
    match (id, code, name, zip, city, bic) {
        (Some(id), Some(code), Some(name), Some(zip), Some(city), Some(bic)) => Some(
            Columns { id: Some(id), code, name, zip: Some(zip), city: Some(city), bic },
        ),
        _ => None,
    }
}

/// Where a spreadsheet country's rows keep each field.
pub fn spreadsheet_columns(country: Country) -> (r: Columns)
    ensures
        r == sheet_columns(country),
{
    match country {
        Country::Be => Columns {
            id: None,
            code: be::CODE_COLUMN,
            name: be::NAME_COLUMN,
            zip: None,
            city: None,
            bic: be::BIC_COLUMN,
        },
        Country::Nl => Columns {
            id: None,
            code: nl::CODE_COLUMN,
            name: nl::NAME_COLUMN,
            zip: None,
            city: None,
            bic: nl::BIC_COLUMN,
        },
        _ => Columns {
            id: Some(de::ID_COLUMN),
            code: de::CODE_COLUMN,
            name: de::NAME_COLUMN,
            zip: Some(de::ZIP_COLUMN),
            city: Some(de::CITY_COLUMN),
            bic: de::BIC_COLUMN,
        },
    }
}

fn sheet_name(country: Country) -> (r: &'static str)
    ensures
        r@ == sheet_of(country),
{
    proof {
        reveal_strlit("");
    }
    match country {
        Country::Be => be::SHEET,
        Country::De => de::SHEET,
        Country::Nl => nl::SHEET,
        Country::At => "",
    }
}

fn first_data_row(country: Country) -> (r: usize)
    ensures
        r == first_data_row_of(country),
{
    match country {
        Country::Be => be::FIRST_DATA_ROW,
        Country::De => de::FIRST_DATA_ROW,
        Country::Nl => nl::FIRST_DATA_ROW,
        Country::At => 0,
    }
}

/// Rebuilds a country's table from the bytes of its source file. Either
/// every data row becomes a record and the table is replaced by exactly
/// those records, in order, or nothing changes and the error says why.
pub fn fill_table(dir: &mut BankDirectory, country: Country, source: &[u8]) -> (r: Result<
    usize,
    IngestError,
>)
    ensures
        match expected_records(country, source@) {
            Ok(recs) => r == Ok::<usize, IngestError>(recs.len() as usize) && records_view(
                final(dir).table(country),
            ) == recs && forall|c: Country|
                c != country ==> #[trigger] final(dir).table(c) == old(dir).table(c),
            Err(e) => r is Err && (forall|c: Country| #[trigger] final(dir).table(c) == old(
                dir,
            ).table(c)) && if e == IngestError::UnreadableSource {
                r->Err_0 == IngestError::UnreadableSource || r->Err_0 == IngestError::MissingSheet
            } else {
                r->Err_0 == e
            },
        },
{
    let (rows, start, cols) = match country {
        Country::At => {
            let text = decode_latin1(source, at::SKIP_BYTES);
            match read_delimited(text.as_str(), at::DELIMITER) {
                Some(recs) => {
                    if recs.len() == 0 {
                        return Err(IngestError::EmptySource);
                    }
                    proof {
                        assert(rows_view(recs@)[0] == recs@[0]@.map_values(|s: String| s@));
                    }
                    match columns_from_header(&recs[0]) {
                        Some(cols) => (recs, 1usize, cols),
                        None => return Err(IngestError::MissingColumn),
                    }
                },
                None => return Err(IngestError::UnreadableSource),
            }
        },
        _ => match read_sheet(source, sheet_name(country)) {
            Ok(rows) => (rows, first_data_row(country), spreadsheet_columns(country)),
            Err(SheetError::MissingSheet) => return Err(IngestError::MissingSheet),
            Err(SheetError::Unreadable) => return Err(IngestError::UnreadableSource),
        },
    };
    let records = match records_from(&rows, start, &cols) {
        Ok(records) => records,
        Err(e) => return Err(e),
    };
    let n = records.len();
    dir.replace_all(country, records);
    Ok(n)
}

/// After a table is rebuilt from N records it holds exactly N records, and
/// a bank code is found exactly when one of those records carries it: a
/// record left out of the source is gone after the rebuild.
pub proof fn lemma_rebuilt_table_lookup(table: Seq<BankData>, recs: Seq<BankRecord>, code: Seq<char>)
    requires
        records_view(table) == recs,
    ensures
        table.len() == recs.len(),
        lookup(table, code) is Some <==> exists|i: int|
            0 <= i < recs.len() && (#[trigger] recs[i]).code == code,
        lookup(table, code) is Some ==> lookup(table, code)->0.code@ == code,
{
    crate::db::lemma_lookup_finds_stored_codes(table, code);
    assert(table.len() == records_view(table).len());
    if exists|i: int| 0 <= i < recs.len() && (#[trigger] recs[i]).code == code {
        let i = choose|i: int| 0 <= i < recs.len() && (#[trigger] recs[i]).code == code;
        assert(table[i]@ == recs[i]);
        assert(table[i].code@ == code);
    }
    if exists|i: int| 0 <= i < table.len() && (#[trigger] table[i]).code@ == code {
        let i = choose|i: int| 0 <= i < table.len() && (#[trigger] table[i]).code@ == code;
        assert(recs[i] == table[i]@);
    }
}

} // verus!
