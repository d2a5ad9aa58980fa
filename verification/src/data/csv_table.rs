//! Tables in CSV form: headers, records, and the columns that a reader looks for.

use crate::base::error::CoreError;
use crate::scalar::Scalar;
use crate::text::{
    concat2, concat3, copy_of, decimal_digits, decimal_wide, eq_ignore_ascii_case, lowered, trim,
    trimmed, views,
};
use vstd::prelude::*;
use vstd::string::StringExecFns;

verus! {

/// What a table is read for. It decides the words of complaints.
#[derive(Clone, Copy, Debug, PartialEq, Eq, Structural)]
pub enum TableUse {
    /// Samples for training.
    Samples,
    /// Measurements to diagnose.
    Diagnostics,
}

impl TableUse {
    /// What is said of headers that cannot be read.
    pub open spec fn headers_complaint(self) -> Seq<char> {
        match self {
            TableUse::Samples => "failed to read CSV headers: "@,
            TableUse::Diagnostics => "Failed to read diagnostics CSV headers: "@,
        }
    }

    /// What is said of a column that is missing.
    pub open spec fn column_complaint(self) -> Seq<char> {
        match self {
            TableUse::Samples => "missing required CSV column '"@,
            TableUse::Diagnostics => "Missing required diagnostics CSV column '"@,
        }
    }

    /// What is said of a field that is missing.
    pub open spec fn value_complaint(self) -> Seq<char> {
        match self {
            TableUse::Samples => "missing value for column '"@,
            TableUse::Diagnostics => "Missing value for column '"@,
        }
    }

    /// What is said of a field that is no number.
    pub open spec fn number_complaint(self) -> Seq<char> {
        match self {
            TableUse::Samples => "failed to parse column '"@,
            TableUse::Diagnostics => "Failed to parse column '"@,
        }
    }

    /// What is said of a record that cannot be read.
    pub open spec fn record_complaint(self) -> Seq<char> {
        match self {
            TableUse::Samples => "failed to read CSV record: "@,
            TableUse::Diagnostics => "Failed to read diagnostics CSV record: "@,
        }
    }

    /// What is said of headers that cannot be read.
    pub fn headers_words(self) -> (result: &'static str)
        ensures
            result@ == self.headers_complaint(),
    {
        match self {
            TableUse::Samples => "failed to read CSV headers: ",
            TableUse::Diagnostics => "Failed to read diagnostics CSV headers: ",
        }
    }

    /// What is said of a column that is missing.
    pub fn column_words(self) -> (result: &'static str)
        ensures
            result@ == self.column_complaint(),
    {
        match self {
            TableUse::Samples => "missing required CSV column '",
            TableUse::Diagnostics => "Missing required diagnostics CSV column '",
        }
    }

    /// What is said of a field that is missing.
    pub fn value_words(self) -> (result: &'static str)
        ensures
            result@ == self.value_complaint(),
    {
        match self {
            TableUse::Samples => "missing value for column '",
            TableUse::Diagnostics => "Missing value for column '",
        }
    }

    /// What is said of a field that is no number.
    pub fn number_words(self) -> (result: &'static str)
        ensures
            result@ == self.number_complaint(),
    {
        match self {
            TableUse::Samples => "failed to parse column '",
            TableUse::Diagnostics => "Failed to parse column '",
        }
    }

    /// What is said of a record that cannot be read.
    pub fn record_words(self) -> (result: &'static str)
        ensures
            result@ == self.record_complaint(),
    {
        match self {
            TableUse::Samples => "failed to read CSV record: ",
            TableUse::Diagnostics => "Failed to read diagnostics CSV record: ",
        }
    }
}

/// A text that a CSV writer puts down as it is: printable ASCII, not empty, with
/// neither comma, quote nor space.
pub open spec fn plain_field(field: Seq<char>) -> bool {
    field.len() > 0 && (forall|i: int|
        0 <= i < field.len() ==> 0x21 <= (#[trigger] field[i]) as u32 && field[i] as u32 <= 0x7e
            && field[i] != ',' && field[i] != '"')
}

/// A table of plain fields with one header row, all rows equally long.
pub open spec fn plain_table(rows: Seq<Seq<Seq<char>>>) -> bool {
    &&& rows.len() > 0
    &&& rows[0].len() > 0
    &&& forall|r: int| 0 <= r < rows.len() ==> (#[trigger] rows[r]).len() == rows[0].len()
    &&& forall|r: int, c: int|
        0 <= r < rows.len() && 0 <= c < rows[r].len() ==> plain_field(#[trigger] rows[r][c])
}

/// Fields with commas between them.
pub open spec fn comma_separated(fields: Seq<Seq<char>>) -> Seq<char>
    decreases fields.len(),
{
    if fields.len() == 0 {
        Seq::<char>::empty()
    } else if fields.len() == 1 {
        fields[0]
    } else {
        comma_separated(fields.drop_last()) + seq![','] + fields.last()
    }
}

/// Rows of plain fields as CSV text: a line per row.
pub open spec fn plain_csv(rows: Seq<Seq<Seq<char>>>) -> Seq<char>
    decreases rows.len(),
{
    if rows.len() == 0 {
        Seq::<char>::empty()
    } else {
        plain_csv(rows.drop_last()) + comma_separated(rows.last()) + seq!['\n']
    }
}

/// The bytes of ASCII text.
pub open spec fn ascii_bytes(text: Seq<char>) -> Seq<u8> {
    text.map_values(|c: char| c as u8)
}

/// The texts of one record, or the message of the error in its place.
pub open spec fn record_view(record: Result<Vec<String>, String>) -> Result<
    Seq<Seq<char>>,
    Seq<char>,
> {
    match record {
        Ok(fields) => Ok(views(fields@)),
        Err(text) => Err(text@),
    }
}

/// A record that was read without an error.
pub open spec fn good_record(fields: Seq<Seq<char>>) -> Result<Seq<Seq<char>>, Seq<char>> {
    Ok(fields)
}

/// Records that were all read without an error.
pub open spec fn good_records(rows: Seq<Seq<Seq<char>>>) -> Seq<
    Result<Seq<Seq<char>>, Seq<char>>,
> {
    rows.map_values(|row: Seq<Seq<char>>| good_record(row))
}

/// Bytes, or the message of the error in their place.
pub open spec fn bytes_view(result: Result<Vec<u8>, String>) -> Result<Seq<u8>, Seq<char>> {
    match result {
        Ok(bytes) => Ok(bytes@),
        Err(text) => Err(text@),
    }
}

/// The views of a list of records.
pub open spec fn record_views(records: Seq<Result<Vec<String>, String>>) -> Seq<
    Result<Seq<Seq<char>>, Seq<char>>,
> {
    records.map_values(|r: Result<Vec<String>, String>| record_view(r))
}

/// The views of a list of rows.
pub open spec fn row_views(rows: Seq<Vec<String>>) -> Seq<Seq<Seq<char>>> {
    rows.map_values(|r: Vec<String>| views(r@))
}

/// What `Reader::headers` of the crate `csv` makes of some bytes: the fields of
/// the first record, or an error message.
pub uninterp spec fn csv_headers(bytes: Seq<u8>) -> Result<Seq<Seq<char>>, Seq<char>>;

/// What `Reader::records` of the crate `csv` makes of some bytes: the records
/// after the first, each with its fields or an error message.
pub uninterp spec fn csv_records(bytes: Seq<u8>) -> Seq<Result<Seq<Seq<char>>, Seq<char>>>;

/// What `Writer::write_record` of the crate `csv` makes of some rows: bytes, or an
/// error message.
pub uninterp spec fn csv_written(rows: Seq<Seq<Seq<char>>>) -> Result<Seq<u8>, Seq<char>>;

/// `csv::Reader::headers` over bytes in memory, with the default settings. It
/// depends on the bytes alone. For the CSV text of a plain table it gives the
/// first row.
#[verifier::external_body]
fn read_csv_headers(bytes: &[u8]) -> (result: Result<Vec<String>, String>)
    ensures
        record_view(result) == csv_headers(bytes@),
        forall|rows: Seq<Seq<Seq<char>>>|
            plain_table(rows) && bytes@ == ascii_bytes(#[trigger] plain_csv(rows)) ==> record_view(
                result,
            ) == good_record(rows[0]),
{
    let mut reader = csv::Reader::from_reader(bytes);
    match reader.headers() {
        Ok(record) => Ok(record.iter().map(String::from).collect()),
        Err(error) => Err(error.to_string()),
    }
}

/// `csv::Reader::records` over bytes in memory, with the default settings. It
/// depends on the bytes alone. For the CSV text of a plain table it gives every
/// row after the first, without an error.
#[verifier::external_body]
fn read_csv_records(bytes: &[u8]) -> (result: Vec<Result<Vec<String>, String>>)
    ensures
        record_views(result@) == csv_records(bytes@),
        forall|rows: Seq<Seq<Seq<char>>>|
            plain_table(rows) && bytes@ == ascii_bytes(#[trigger] plain_csv(rows)) ==> record_views(
                result@,
            ) == good_records(rows.skip(1)),
{
    let reader = csv::Reader::from_reader(bytes);
    let mut result = Vec::new();
    for record in reader.into_records() {
        result.push(match record {
            Ok(record) => Ok(record.iter().map(String::from).collect()),
            Err(error) => Err(error.to_string()),
        });
    }
    result
}

/// `csv::Writer::write_record` for each row, into memory, with the default
/// settings. It depends on the rows alone. A plain table is put down as its CSV
/// text.
#[verifier::external_body]
fn write_csv_rows(rows: &Vec<Vec<String>>) -> (result: Result<Vec<u8>, String>)
    ensures
        bytes_view(result) == csv_written(row_views(rows@)),
        plain_table(row_views(rows@)) ==> result is Ok && result->Ok_0@ == ascii_bytes(
            plain_csv(row_views(rows@)),
        ),
{
    let mut writer = csv::Writer::from_writer(Vec::new());
    for row in rows {
        if let Err(error) = writer.write_record(row) {
            return Err(error.to_string());
        }
    }
    writer.into_inner().map_err(|error| error.to_string())
}

/// A header names a column when they agree but for case and surrounding white
/// space.
pub open spec fn names_column(header: Seq<char>, name: Seq<char>) -> bool {
    lowered(trimmed(header)) == lowered(name)
}

/// The first column of that name, if there is one.
pub open spec fn column_of(headers: Seq<Seq<char>>, name: Seq<char>) -> Option<int>
    decreases headers.len(),
{
    if headers.len() == 0 {
        None
    } else {
        match column_of(headers.drop_last(), name) {
            Some(i) => Some(i),
            None => if names_column(headers.last(), name) {
                Some(headers.len() - 1)
            } else {
                None
            },
        }
    }
}

/// The column that was found is within the headers and has the name.
pub proof fn column_is_found_where_named(headers: Seq<Seq<char>>, name: Seq<char>)
    ensures
        column_of(headers, name) matches Some(i) ==> 0 <= i < headers.len() && names_column(
            headers[i],
            name,
        ) && (forall|k: int| 0 <= k < i ==> !names_column(#[trigger] headers[k], name)),
        column_of(headers, name) is None ==> (forall|k: int|
            0 <= k < headers.len() ==> !names_column(#[trigger] headers[k], name)),
    decreases headers.len(),
{
    if headers.len() > 0 {
        column_is_found_where_named(headers.drop_last(), name);
        let shorter = headers.drop_last();
        match column_of(shorter, name) {
            Some(i) => {
                assert forall|k: int| 0 <= k < i implies !names_column(
                    #[trigger] headers[k],
                    name,
                ) by {
                    assert(!names_column(shorter[k], name));
                }
            },
            None => {
                assert forall|k: int| 0 <= k < headers.len() - 1 implies !names_column(
                    #[trigger] headers[k],
                    name,
                ) by {
                    assert(!names_column(shorter[k], name));
                }
            },
        }
    }
}

/// The first column whose header, trimmed, is `name` but for case.
pub fn find_column(headers: &Vec<String>, name: &str, purpose: TableUse) -> (result: Result<
    usize,
    CoreError,
>)
    ensures
        result is Ok <==> column_of(views(headers@), name@) is Some,
        result matches Ok(i) ==> column_of(views(headers@), name@) == Some(i as int) && i
            < headers@.len(),
        result matches Err(e) ==> e.says(purpose.column_complaint() + name@ + "'"@),
{
    let ghost all = views(headers@);
    let mut i: usize = 0;
    proof {
        assert(all.take(0) == Seq::<Seq<char>>::empty());
    }
    while i < headers.len()
        invariant
            i <= headers@.len(),
            all == views(headers@),
            column_of(all.take(i as int), name@) is None,
        decreases headers@.len() - i,
    {
        let bare = trim(headers[i].as_str());
        proof {
            assert(all.take(i + 1).drop_last() == all.take(i as int));
            assert(all.take(i + 1).last() == headers@[i as int]@);
        }
        if eq_ignore_ascii_case(bare.as_str(), name) {
            proof {
                lemma_column_is_kept(all, name@, i + 1);
            }
            return Ok(i);
        }
        i += 1;
    }
    proof {
        assert(all.take(all.len() as int) == all);
    }
    Err(CoreError::Msg(concat3(purpose.column_words(), name, "'")))
}

proof fn lemma_column_is_kept(headers: Seq<Seq<char>>, name: Seq<char>, k: int)
    requires
        0 <= k <= headers.len(),
        column_of(headers.take(k), name) is Some,
    ensures
        column_of(headers, name) == column_of(headers.take(k), name),
    decreases headers.len(),
{
    if k < headers.len() {
        assert(headers.drop_last().take(k) == headers.take(k));
        lemma_column_is_kept(headers.drop_last(), name, k);
    } else {
        assert(headers.take(k) == headers);
    }
}

/// A table that has been read: its headers, and its records with the white space
/// around each field taken away.
#[derive(Debug)]
pub struct CsvTable {
    pub headers: Vec<String>,
    pub records: Vec<Result<Vec<String>, String>>,
}

/// The fields of a record without the white space around them.
pub open spec fn trimmed_record(record: Result<Seq<Seq<char>>, Seq<char>>) -> Result<
    Seq<Seq<char>>,
    Seq<char>,
> {
    match record {
        Ok(fields) => Ok(fields.map_values(|f: Seq<char>| trimmed(f))),
        Err(text) => Err(text),
    }
}

fn trim_fields(fields: &Vec<String>) -> (result: Vec<String>)
    ensures
        views(result@) == views(fields@).map_values(|f: Seq<char>| trimmed(f)),
{
    let mut result: Vec<String> = Vec::new();
    let mut i: usize = 0;
    while i < fields.len()
        invariant
            i <= fields@.len(),
            views(result@) == views(fields@).take(i as int).map_values(
                |f: Seq<char>| trimmed(f),
            ),
        decreases fields@.len() - i,
    {
        let bare = trim(fields[i].as_str());
        let ghost before = views(result@);
        result.push(bare);
        proof {
            assert(views(result@) == before.push(bare@));
            assert(views(fields@).take(i + 1).map_values(|f: Seq<char>| trimmed(f)) == views(
                fields@,
            ).take(i as int).map_values(|f: Seq<char>| trimmed(f)).push(
                trimmed(fields@[i as int]@),
            ));
        }
        i += 1;
    }
    proof {
        assert(views(fields@).take(views(fields@).len() as int) == views(fields@));
    }
    result
}

/// Reads a table from the bytes of a CSV file.
pub fn read_table(bytes: &[u8], purpose: TableUse) -> (result: Result<CsvTable, CoreError>)
    ensures
        result is Ok <==> csv_headers(bytes@) is Ok,
        result matches Ok(table) ==> {
            &&& Ok::<Seq<Seq<char>>, Seq<char>>(views(table.headers@)) == csv_headers(bytes@)
            &&& record_views(table.records@) == csv_records(bytes@).map_values(
                |r: Result<Seq<Seq<char>>, Seq<char>>| trimmed_record(r),
            )
        },
        result matches Err(e) ==> e.says(
            purpose.headers_complaint() + csv_headers(bytes@)->Err_0,
        ),
        forall|rows: Seq<Seq<Seq<char>>>|
            plain_table(rows) && bytes@ == ascii_bytes(#[trigger] plain_csv(rows)) ==> result is Ok
                && views(result->Ok_0.headers@) == rows[0] && record_views(
                result->Ok_0.records@,
            ) == good_records(rows.skip(1)),
{
    let headers = match read_csv_headers(bytes) {
        Ok(headers) => headers,
        Err(text) => {
            return Err(CoreError::Msg(concat2(purpose.headers_words(), text.as_str())));
        },
    };
    let raw = read_csv_records(bytes);
    let records = trim_records(&raw);
    proof {
        assert forall|rows: Seq<Seq<Seq<char>>>|
            plain_table(rows) && bytes@ == ascii_bytes(#[trigger] plain_csv(rows)) implies views(
            headers@,
        ) == rows[0] && record_views(records@) == rows.skip(1).map_values(
            |row: Seq<Seq<char>>| Ok::<Seq<Seq<char>>, Seq<char>>(row),
        ) by {
            let body = rows.skip(1);
            let wrapped = good_records(body);
            assert(record_views(raw@) == wrapped);
            assert forall|i: int| 0 <= i < wrapped.len() implies trimmed_record(
                #[trigger] wrapped[i],
            ) == wrapped[i] by {
                let row = body[i];
                assert(row == rows[i + 1]);
                let bare = row.map_values(|f: Seq<char>| trimmed(f));
                assert forall|c: int| 0 <= c < row.len() implies bare[c] == row[c] by {
                    assert(plain_field(rows[i + 1][c]));
                    lemma_plain_is_trimmed(row[c]);
                }
                assert(bare == row);
            }
            assert(wrapped.map_values(
                |r: Result<Seq<Seq<char>>, Seq<char>>| trimmed_record(r),
            ) == wrapped);
        }
    }
    Ok(CsvTable { headers, records })
}

proof fn lemma_plain_is_trimmed(field: Seq<char>)
    requires
        plain_field(field),
    ensures
        trimmed(field) == field,
{
    assert(!crate::text::white_space(field[0]));
    assert(!crate::text::white_space(field[field.len() - 1]));
}

fn trim_records(raw: &Vec<Result<Vec<String>, String>>) -> (result: Vec<
    Result<Vec<String>, String>,
>)
    ensures
        record_views(result@) == record_views(raw@).map_values(
            |r: Result<Seq<Seq<char>>, Seq<char>>| trimmed_record(r),
        ),
{
    let mut result: Vec<Result<Vec<String>, String>> = Vec::new();
    let mut i: usize = 0;
    while i < raw.len()
        invariant
            i <= raw@.len(),
            record_views(result@) == record_views(raw@).take(i as int).map_values(
                |r: Result<Seq<Seq<char>>, Seq<char>>| trimmed_record(r),
            ),
        decreases raw@.len() - i,
    {
        let next = match &raw[i] {
            Ok(fields) => Ok(trim_fields(fields)),
            Err(text) => Err(copy_of(text.as_str())),
        };
        let ghost before = record_views(result@);
        result.push(next);
        proof {
            assert(record_views(result@) == before.push(record_view(next)));
            assert(record_views(raw@).take(i + 1).map_values(
                |r: Result<Seq<Seq<char>>, Seq<char>>| trimmed_record(r),
            ) == record_views(raw@).take(i as int).map_values(
                |r: Result<Seq<Seq<char>>, Seq<char>>| trimmed_record(r),
            ).push(trimmed_record(record_view(raw@[i as int]))));
        }
        i += 1;
    }
    proof {
        assert(record_views(raw@).take(raw@.len() as int) == record_views(raw@));
    }
    result
}

/// The bytes of a CSV file with the given rows.
pub fn write_table(rows: &Vec<Vec<String>>) -> (result: Result<Vec<u8>, CoreError>)
    ensures
        result is Ok <==> csv_written(row_views(rows@)) is Ok,
        result matches Ok(bytes) ==> csv_written(row_views(rows@)) == Ok::<Seq<u8>, Seq<char>>(
            bytes@,
        ),
        result matches Err(e) ==> e.says(
            "failed to write CSV record: "@ + csv_written(row_views(rows@))->Err_0,
        ),
        plain_table(row_views(rows@)) ==> result is Ok && result->Ok_0@ == ascii_bytes(
            plain_csv(row_views(rows@)),
        ),
{
    match write_csv_rows(rows) {
        Ok(bytes) => Ok(bytes),
        Err(text) => Err(CoreError::Msg(concat2("failed to write CSV record: ", text.as_str()))),
    }
}

/// What the text of a field was read as: a number, or why it is none.
pub type Reading = Result<Scalar, String>;

/// The fault of reading a column of a record; `None` where it holds a number.
pub open spec fn field_fault(
    fields: Seq<Reading>,
    index: int,
    row_number: int,
    name: Seq<char>,
    purpose: TableUse,
) -> Option<Seq<char>> {
    if index >= fields.len() {
        Some(
            purpose.value_complaint() + name + "' on row "@ + decimal_digits(
                row_number as nat,
            ),
        )
    } else {
        match fields[index] {
            Ok(_) => None,
            Err(text) => Some(
                purpose.number_complaint() + name + "' on row "@ + decimal_digits(
                    row_number as nat,
                ) + ": "@ + text@,
            ),
        }
    }
}

/// The number in a column of a record.
pub fn parse_record_value(
    fields: &Vec<Reading>,
    index: usize,
    row_number: u128,
    name: &str,
    purpose: TableUse,
) -> (result: Result<Scalar, CoreError>)
    ensures
        result is Ok <==> field_fault(
            fields@,
            index as int,
            row_number as int,
            name@,
            purpose,
        ) is None,
        result matches Ok(value) ==> fields@[index as int] == Ok::<Scalar, String>(value),
        result matches Err(e) ==> e.says(
            field_fault(fields@, index as int, row_number as int, name@, purpose)->0,
        ),
{
    let row = decimal_wide(row_number);
    if index >= fields.len() {
        let mut message = concat3(purpose.value_words(), name, "' on row ");
        message.append(row.as_str());
        return Err(CoreError::Msg(message));
    }
    match &fields[index] {
        Ok(value) => Ok(*value),
        Err(text) => {
            let mut message = concat3(purpose.number_words(), name, "' on row ");
            message.append(row.as_str());
            message.append(": ");
            message.append(text.as_str());
            Err(CoreError::Msg(message))
        },
    }
}

/// A column goes by its name in any case and with any space around it in the header.
pub proof fn columns_go_by_their_names(header: Seq<char>, name: Seq<char>)
    ensures
        names_column(header, name) <==> lowered(trimmed(header)) == lowered(name),
        names_column(header, name) <==> names_column(header, lowered(name)),
        trimmed(name) == name ==> names_column(name, name),
{
    if name.len() > 0 {
        crate::text::cases_are_inverse(name, 0);
    }
    assert(lowered(lowered(name)) =~= lowered(name));
}

} // verus!
