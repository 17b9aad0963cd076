use vstd::prelude::*;

verus! {

/// The bytes that a CSV writer with default settings emits for one record
/// with the given fields, terminator included.
pub uninterp spec fn csv_record(fields: Seq<Seq<char>>) -> Seq<u8>;

#[verifier::external_type_specification]
#[verifier::external_body]
pub struct ExCsvError(csv::Error);

/// A character that the default CSV writer copies as it is, one byte, without
/// quoting: ASCII other than the delimiter, the quote and the line breaks.
pub open spec fn plain_char(c: char) -> bool {
    (c as u32) < 128 && c != ',' && c != '"' && c != '\r' && c != '\n'
}

/// A non-empty field made of plain characters only.
pub open spec fn plain_field(f: Seq<char>) -> bool {
    f.len() > 0 && forall|i: int| 0 <= i < f.len() ==> plain_char(#[trigger] f[i])
}

/// A record of at least one field, all plain.
pub open spec fn plain_fields(fields: Seq<Seq<char>>) -> bool {
    fields.len() > 0 && forall|j: int| 0 <= j < fields.len() ==> plain_field(#[trigger] fields[j])
}

/// The bytes of an ASCII field.
pub open spec fn ascii_bytes(f: Seq<char>) -> Seq<u8> {
    f.map_values(|c: char| (c as u32) as u8)
}

/// The fields joined by commas (byte 44).
pub open spec fn joined(fields: Seq<Seq<char>>) -> Seq<u8>
    decreases fields.len(),
{
    if fields.len() <= 1 {
        if fields.len() == 0 {
            Seq::empty()
        } else {
            ascii_bytes(fields[0])
        }
    } else {
        joined(fields.drop_last()) + seq![44u8] + ascii_bytes(fields.last())
    }
}

/// One line of plain CSV: the fields joined by commas, then a line feed
/// (byte 10).
pub open spec fn plain_record(fields: Seq<Seq<char>>) -> Seq<u8> {
    joined(fields) + seq![10u8]
}

/// Relies on `csv::Writer::from_writer`, `write_record` and `into_inner`:
/// a writer with default settings over an in-memory buffer encodes one record.
/// Writing into a `Vec` cannot fail and the first record of a writer always
/// passes its field-count check, so the result is `Ok`; the bytes depend on
/// the fields alone. Under the default `QuoteStyle::Necessary` a plain field
/// is copied unquoted, fields are separated by `,`, and the default terminator
/// is `\n`.
#[verifier::external_body]
fn encode_record(fields: &Vec<String>) -> (r: Result<Vec<u8>, csv::Error>)
    ensures
        r is Ok,
        r matches Ok(bytes) ==> bytes@ == csv_record(fields@.map_values(|s: String| s@)),
        plain_fields(fields@.map_values(|s: String| s@)) ==> r->Ok_0@ == plain_record(
            fields@.map_values(|s: String| s@),
        ),
{
    let mut writer = csv::Writer::from_writer(Vec::new());
    writer.write_record(fields)?;
    match writer.into_inner() {
        Ok(bytes) => Ok(bytes),
        Err(e) => Err(csv::Error::from(e.into_error())),
    }
}

/// The fields of one row, as character sequences.
pub open spec fn fields_of(row: Vec<String>) -> Seq<Seq<char>> {
    row@.map_values(|s: String| s@)
}

/// The CSV text of a table: its records one after the other.
pub open spec fn csv_text(rows: Seq<Vec<String>>) -> Seq<u8>
    decreases rows.len(),
{
    if rows.len() == 0 {
        Seq::empty()
    } else {
        csv_text(rows.drop_last()) + csv_record(fields_of(rows.last()))
    }
}

/// Whether every row has at least one field and every field is plain.
pub open spec fn plain_table(rows: Seq<Vec<String>>) -> bool {
    forall|i: int| 0 <= i < rows.len() ==> plain_fields(#[trigger] fields_of(rows[i]))
}

/// The text of a plain table: one line per row, fields joined by commas,
/// no header.
pub open spec fn plain_text(rows: Seq<Vec<String>>) -> Seq<u8>
    decreases rows.len(),
{
    if rows.len() == 0 {
        Seq::empty()
    } else {
        plain_text(rows.drop_last()) + plain_record(fields_of(rows.last()))
    }
}

/// Whether every row has as many fields as the first.
pub open spec fn is_rectangular(rows: Seq<Vec<String>>) -> bool {
    forall|i: int| 0 <= i < rows.len() ==> #[trigger] rows[i]@.len() == rows[0]@.len()
}

/// Why a table could not be encoded as CSV.
#[derive(Clone, Copy, Debug, PartialEq, Eq, Structural)]
pub enum EncodeError {
    /// Some row has another number of fields than the first.
    RaggedRow,
}

/// Encodes a table of text fields as CSV, one record per row, with no header.
pub fn encode_table(rows: &Vec<Vec<String>>) -> (r: Result<Vec<u8>, EncodeError>)
    ensures
        r is Ok <==> is_rectangular(rows@),
        r matches Ok(bytes) ==> bytes@ == csv_text(rows@),
        is_rectangular(rows@) && plain_table(rows@) ==> r->Ok_0@ == plain_text(rows@),
{
    let n: usize = rows.len();
    let mut i: usize = 0;
    while i < n
        invariant
            n == rows@.len(),
            i <= n,
            forall|j: int| 0 <= j < i ==> #[trigger] rows@[j]@.len() == rows@[0]@.len(),
        decreases n - i,
    {
        if rows[i].len() != rows[0].len() {
            return Err(EncodeError::RaggedRow);
        }
        i += 1;
    }
    let mut out: Vec<u8> = Vec::new();
    let mut k: usize = 0;
    while k < n
        invariant
            n == rows@.len(),
            is_rectangular(rows@),
            k <= n,
            out@ == csv_text(rows@.subrange(0, k as int)),
            plain_table(rows@) ==> out@ == plain_text(rows@.subrange(0, k as int)),
        decreases n - k,
    {
        let mut bytes = encode_record(&rows[k]).unwrap();
        proof {
            let prefix = rows@.subrange(0, k + 1);
            assert(prefix.drop_last() =~= rows@.subrange(0, k as int));
            assert(prefix.last() == rows@[k as int]);
            if plain_table(rows@) {
                assert(plain_fields(fields_of(rows@[k as int])));
            }
        }
        out.append(&mut bytes);
        k += 1;
    }
    assert(rows@.subrange(0, n as int) =~= rows@);
    Ok(out)
}

} // verus!
