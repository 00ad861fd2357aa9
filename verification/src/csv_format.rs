//! The table-text format: a header row, then one row of eight fields for
//! each record.
//!
//! Splitting a stream into rows and fields, and quoting a field on the way
//! out, is the `csv` crate's work. What a row means is decided here.

use vstd::prelude::*;
use vstd::string::*;
use crate::decimal::{
    format_i64, format_u64, int_text, nat_text, parse_i64, parse_i64_spec, parse_u64,
    parse_u64_spec,
};
use crate::error::{unknown_status, unknown_type, BankFormatError, ErrorView};
use crate::format::{after, BankFormat, Written};
use crate::record::{Status, Transaction, TransactionView, TxType};

verus! {

/// What `csv::Reader`, as `csv::Reader::from_reader` sets it up, makes of a
/// byte stream: the rows after the header row, each as its fields, up to
/// the end of the stream or to the first row that the reader refuses, and
/// for such a row the reader's rendered error. The reader's work depends on
/// the bytes alone; how it splits them is not stated here.
pub uninterp spec fn csv_scan(bytes: Seq<u8>) -> (Seq<Seq<Seq<char>>>, Option<Seq<char>>);

/// What `csv::Writer`, as `csv::Writer::from_writer` sets it up, writes for
/// one record of the given fields, terminator included, or its rendered
/// error where it refuses the record. The writer's work depends on the
/// fields alone; how it quotes them is not stated here.
pub uninterp spec fn csv_line(fields: Seq<Seq<char>>) -> Result<Seq<u8>, Seq<char>>;

/// Calls `csv::Reader::from_reader` on `bytes` and walks `records()`: the
/// rows that it yields, each field as a string, up to the first error, and
/// that error as text.
///
/// Believed without proof: that this is `csv_scan` of the bytes, which
/// says no more than that the same bytes always give the same rows.
#[verifier::external_body]
fn csv_read_rows(bytes: &[u8]) -> (res: (Vec<Vec<String>>, Option<String>))
    ensures
        res.0.deep_view() == csv_scan(bytes@).0,
        res.1.deep_view() == csv_scan(bytes@).1,
{
    let mut reader = csv::Reader::from_reader(bytes);
    let mut rows: Vec<Vec<String>> = Vec::new();
    for item in reader.records() {
        match item {
            Ok(row) => rows.push(row.iter().map(String::from).collect()),
            Err(e) => return (rows, Some(e.to_string())),
        }
    }
    (rows, None)
}

/// Calls `csv::Writer::write_record` on a fresh writer over an empty
/// buffer, then `into_inner` for the buffer: the line written for one
/// record, or the writer's error as text.
///
/// Believed without proof: that this is `csv_line` of the fields, which
/// says no more than that the same fields always give the same line.
#[verifier::external_body]
fn csv_write_row(fields: &Vec<String>) -> (res: Result<Vec<u8>, String>)
    ensures
        match csv_line(fields.deep_view()) {
            Ok(line) => (res matches Ok(written) && written@ == line),
            Err(m) => (res matches Err(refusal) && refusal@ == m),
        },
{
    let mut writer = csv::Writer::from_writer(Vec::new());
    match writer.write_record(fields) {
        Ok(()) => match writer.into_inner() {
            Ok(line) => Ok(line),
            Err(e) => Err(e.to_string()),
        },
        Err(e) => Err(e.to_string()),
    }
}

/// The number of fields in a row.
pub const FIELD_COUNT: usize = 8;

/// The header row: the eight column names, in field order.
pub open spec fn header_row() -> Seq<Seq<char>> {
    seq![
        "id"@,
        "kind"@,
        "fromAccount"@,
        "toAccount"@,
        "amount"@,
        "timestamp"@,
        "status"@,
        "description"@,
    ]
}

/// The error for a row that does not have eight fields.
pub open spec fn bad_field_count(found: nat) -> ErrorView {
    ErrorView::Parse("expected 8 fields, found "@ + nat_text(found))
}

/// The record that a row stands for, or the first thing wrong with the
/// row, going through its fields in order.
pub open spec fn row_record(row: Seq<Seq<char>>) -> Result<TransactionView, ErrorView> {
    if row.len() != FIELD_COUNT {
        Err(bad_field_count(row.len()))
    } else if parse_u64_spec(row[0]) is None {
        Err(ErrorView::Parse("tx_id"@))
    } else if TxType::spec_from_token(row[1]) is None {
        Err(unknown_type(row[1]))
    } else if parse_i64_spec(row[2]) is None {
        Err(ErrorView::Parse("from_user_id"@))
    } else if parse_i64_spec(row[3]) is None {
        Err(ErrorView::Parse("to_user_id"@))
    } else if parse_i64_spec(row[4]) is None {
        Err(ErrorView::Parse("amount"@))
    } else if parse_i64_spec(row[5]) is None {
        Err(ErrorView::Parse("timestamp"@))
    } else if Status::spec_from_token(row[6]) is None {
        Err(unknown_status(row[6]))
    } else {
        Ok(
            TransactionView {
                tx_id: parse_u64_spec(row[0])->0,
                tx_type: TxType::spec_from_token(row[1])->0,
                from_user_id: parse_i64_spec(row[2])->0,
                to_user_id: parse_i64_spec(row[3])->0,
                amount: parse_i64_spec(row[4])->0,
                timestamp: parse_i64_spec(row[5])->0,
                status: Status::spec_from_token(row[6])->0,
                description: row[7],
            },
        )
    }
}

/// The records of a list of rows, or the error of the first bad row.
pub open spec fn rows_records(rows: Seq<Seq<Seq<char>>>) -> Result<Seq<TransactionView>, ErrorView>
    decreases rows.len(),
{
    if rows.len() == 0 {
        Ok(Seq::empty())
    } else {
        match row_record(rows[0]) {
            Err(e) => Err(e),
            Ok(t) => after(seq![t], rows_records(rows.skip(1))),
        }
    }
}

/// The records of a stream. The first row is the header and stands for no
/// record. A bad row before the place where the reader stopped is reported
/// first; then the reader's own refusal, as a parse error.
pub open spec fn decode_table(bytes: Seq<u8>) -> Result<Seq<TransactionView>, ErrorView> {
    match rows_records(csv_scan(bytes).0) {
        Err(e) => Err(e),
        Ok(records) => match csv_scan(bytes).1 {
            Some(m) => Err(ErrorView::Parse(m)),
            None => Ok(records),
        },
    }
}

/// The eight fields of a record, as text.
pub open spec fn record_row(t: TransactionView) -> Seq<Seq<char>> {
    seq![
        nat_text(t.tx_id as nat),
        t.tx_type.spec_token(),
        int_text(t.from_user_id as int),
        int_text(t.to_user_id as int),
        int_text(t.amount as int),
        int_text(t.timestamp as int),
        t.status.spec_token(),
        t.description,
    ]
}

/// The rows of a list of records.
pub open spec fn records_rows(records: Seq<TransactionView>) -> Seq<Seq<Seq<char>>> {
    records.map_values(|t: TransactionView| record_row(t))
}

/// The lines of a list of records, one after the other, up to the first
/// record that the writer refuses.
pub open spec fn encode_rows(records: Seq<TransactionView>) -> Written
    decreases records.len(),
{
    if records.len() == 0 {
        Written { bytes: Seq::empty(), fault: None }
    } else {
        match csv_line(record_row(records[0])) {
            Err(m) => Written { bytes: Seq::empty(), fault: Some(ErrorView::Csv(m)) },
            Ok(line) => {
                let rest = encode_rows(records.skip(1));
                Written { bytes: line + rest.bytes, fault: rest.fault }
            },
        }
    }
}

/// The header line, then the lines of the records.
pub open spec fn encode_table(records: Seq<TransactionView>) -> Written {
    match csv_line(header_row()) {
        Err(m) => Written { bytes: Seq::empty(), fault: Some(ErrorView::Csv(m)) },
        Ok(line) => {
            let body = encode_rows(records);
            Written { bytes: line + body.bytes, fault: body.fault }
        },
    }
}

fn parse_error(field: &str) -> (e: BankFormatError)
    ensures
        e@ == ErrorView::Parse(field@),
{
    BankFormatError::Parse(String::from_str(field))
}

pub struct CsvFormat;

impl CsvFormat {
    /// Reads one row: eight fields, the integers in decimal, the type and
    /// the status by their tokens.
    pub fn parse_row(row: &Vec<String>) -> (res: Result<Transaction, BankFormatError>)
        ensures
            match row_record(row.deep_view()) {
                Ok(t) => (res matches Ok(tx) && tx@ == t),
                Err(e) => (res matches Err(f) && f@ == e),
            },
    {
        assert(forall|k: int| 0 <= k < row.len() ==> row.deep_view()[k] == row[k]@);
        if row.len() != FIELD_COUNT {
            let mut m = String::from_str("expected 8 fields, found ");
            m.append(format_u64(row.len() as u64).as_str());
            return Err(BankFormatError::Parse(m));
        }
        let tx_id = match parse_u64(row[0].as_str()) {
            Some(v) => v,
            None => {
                return Err(parse_error("tx_id"));
            },
        };
        let tx_type = match TxType::from_token(row[1].as_str()) {
            Some(v) => v,
            None => {
                let mut m = String::from_str("unknown tx_type: ");
                m.append(row[1].as_str());
                return Err(BankFormatError::Parse(m));
            },
        };
        let from_user_id = match parse_i64(row[2].as_str()) {
            Some(v) => v,
            None => {
                return Err(parse_error("from_user_id"));
            },
        };
        let to_user_id = match parse_i64(row[3].as_str()) {
            Some(v) => v,
            None => {
                return Err(parse_error("to_user_id"));
            },
        };
        let amount = match parse_i64(row[4].as_str()) {
            Some(v) => v,
            None => {
                return Err(parse_error("amount"));
            },
        };
        let timestamp = match parse_i64(row[5].as_str()) {
            Some(v) => v,
            None => {
                return Err(parse_error("timestamp"));
            },
        };
        let status = match Status::from_token(row[6].as_str()) {
            Some(v) => v,
            None => {
                let mut m = String::from_str("unknown status: ");
                m.append(row[6].as_str());
                return Err(BankFormatError::Parse(m));
            },
        };
        Ok(
            Transaction {
                tx_id,
                tx_type,
                from_user_id,
                to_user_id,
                amount,
                timestamp,
                status,
                description: row[7].clone(),
            },
        )
    }

    /// The eight fields of a record, as text.
    pub fn record_fields(tx: &Transaction) -> (row: Vec<String>)
        ensures
            row.deep_view() == record_row(tx@),
    {
        let row = vec![
            format_u64(tx.tx_id),
            String::from_str(tx.tx_type.as_str()),
            format_i64(tx.from_user_id),
            format_i64(tx.to_user_id),
            format_i64(tx.amount),
            format_i64(tx.timestamp),
            String::from_str(tx.status.as_str()),
            tx.description.clone(),
        ];
        assert(row.deep_view() =~= record_row(tx@));
        row
    }

    /// The eight column names.
    pub fn header_fields() -> (row: Vec<String>)
        ensures
            row.deep_view() == header_row(),
    {
        let row = vec![
            String::from_str("id"),
            String::from_str("kind"),
            String::from_str("fromAccount"),
            String::from_str("toAccount"),
            String::from_str("amount"),
            String::from_str("timestamp"),
            String::from_str("status"),
            String::from_str("description"),
        ];
        assert(row.deep_view() =~= header_row());
        row
    }

    /// Appends a line that the writer made, or hands on its refusal and
    /// leaves the sink as it is.
    pub fn put_line(w: &mut Vec<u8>, line: Result<Vec<u8>, String>) -> (res: Result<
        (),
        BankFormatError,
    >)
        ensures
            match line {
                Ok(bytes) => res is Ok && final(w)@ == old(w)@ + bytes@,
                Err(m) => final(w)@ == old(w)@ && (res matches Err(e) && e@ == ErrorView::Csv(
                    m@,
                )),
            },
    {
        match line {
            Ok(bytes) => {
                w.extend_from_slice(bytes.as_slice());
                Ok(())
            },
            Err(m) => Err(BankFormatError::Csv(m)),
        }
    }

    /// Turns the rows of a stream into records: the first bad row decides,
    /// then the reader's refusal, if it stopped early.
    pub fn parse_rows(rows: &Vec<Vec<String>>, refusal: Option<String>) -> (res: Result<
        Vec<Transaction>,
        BankFormatError,
    >)
        ensures
            crate::error::decoded_view(res) == (match rows_records(rows.deep_view()) {
                Err(e) => Err(e),
                Ok(records) => match refusal {
                    Some(m) => Err(ErrorView::Parse(m@)),
                    None => Ok(records),
                },
            }),
    {
        let ghost all = rows.deep_view();
        let mut transactions: Vec<Transaction> = Vec::new();
        let mut i: usize = 0;
        assert(all.skip(0) =~= all);
        assert(Seq::<TransactionView>::empty() + rows_records(all)->Ok_0 =~= rows_records(
            all,
        )->Ok_0);
        while i < rows.len()
            invariant
                i <= rows.len(),
                all == rows.deep_view(),
                rows_records(all) == after(
                    transactions.deep_view(),
                    rows_records(all.skip(i as int)),
                ),
            decreases rows.len() - i,
        {
            let ghost rest = all.skip(i as int);
            assert(rest[0] == rows[i as int].deep_view());
            assert(rest.skip(1) =~= all.skip(i + 1));
            match CsvFormat::parse_row(&rows[i]) {
                Err(e) => {
                    return Err(e);
                },
                Ok(tx) => {
                    proof {
                        let head = transactions.deep_view();
                        let tail = rows_records(rest.skip(1));
                        assert(head.push(tx@) =~= head + seq![tx@]);
                        if tail is Ok {
                            assert(head + (seq![tx@] + tail->Ok_0) =~= head.push(tx@)
                                + tail->Ok_0);
                        }
                    }
                    let ghost before = transactions.deep_view();
                    transactions.push(tx);
                    assert(transactions.deep_view() =~= before.push(tx@));
                },
            }
            i += 1;
        }
        assert(all.skip(i as int) =~= Seq::<Seq<Seq<char>>>::empty());
        assert(transactions.deep_view() + Seq::<TransactionView>::empty()
            =~= transactions.deep_view());
        match refusal {
            Some(m) => Err(BankFormatError::Parse(m)),
            None => Ok(transactions),
        }
    }
}

impl BankFormat for CsvFormat {
    open spec fn decoded(bytes: Seq<u8>) -> Result<Seq<TransactionView>, ErrorView> {
        decode_table(bytes)
    }

    open spec fn encoded(records: Seq<TransactionView>) -> Written {
        encode_table(records)
    }

    /// The record lists that the writer accepts and whose lines the reader
    /// splits back into the rows that they were written from.
    open spec fn representable(records: Seq<TransactionView>) -> bool {
        &&& encode_table(records).fault is None
        &&& csv_scan(encode_table(records).bytes) == (records_rows(records), None::<Seq<char>>)
    }

    proof fn round_trip(records: Seq<TransactionView>) {
        lemma_rows_records(records);
    }

    fn read_all(r: &[u8]) -> (res: Result<Vec<Transaction>, BankFormatError>) {
        let (rows, refusal) = csv_read_rows(r);
        CsvFormat::parse_rows(&rows, refusal)
    }

    fn write_all(w: &mut Vec<u8>, records: &[Transaction]) -> (res: Result<(), BankFormatError>) {
        match CsvFormat::put_line(w, csv_write_row(&CsvFormat::header_fields())) {
            Err(e) => {
                assert(w@ + Seq::<u8>::empty() =~= w@);
                return Err(e);
            },
            Ok(()) => {},
        }
        let ghost all = records.deep_view();
        let ghost start = w@;
        let mut i: usize = 0;
        assert(all.skip(0) =~= all);
        while i < records.len()
            invariant
                i <= records.len(),
                all == records.deep_view(),
                csv_line(header_row()) is Ok,
                start == old(w)@ + csv_line(header_row())->Ok_0,
                start + encode_rows(all).bytes == w@ + encode_rows(all.skip(i as int)).bytes,
                encode_rows(all).fault == encode_rows(all.skip(i as int)).fault,
            decreases records.len() - i,
        {
            let ghost rest = all.skip(i as int);
            let ghost before = w@;
            assert(rest[0] == records[i as int]@);
            assert(rest.skip(1) =~= all.skip(i + 1));
            match CsvFormat::put_line(w, csv_write_row(&CsvFormat::record_fields(&records[i]))) {
                Err(e) => {
                    assert(w@ + Seq::<u8>::empty() =~= w@);
                    assert(old(w)@ + (csv_line(header_row())->Ok_0 + encode_rows(all).bytes)
                        =~= start + encode_rows(all).bytes);
                    return Err(e);
                },
                Ok(()) => {
                    assert(before + (csv_line(record_row(rest[0]))->Ok_0 + encode_rows(
                        rest.skip(1),
                    ).bytes) =~= w@ + encode_rows(rest.skip(1)).bytes);
                },
            }
            i += 1;
        }
        assert(w@ + Seq::<u8>::empty() =~= w@);
        assert(old(w)@ + (csv_line(header_row())->Ok_0 + encode_rows(all).bytes) =~= start
            + encode_rows(all).bytes);
        Ok(())
    }
}

/// The fields written for a record are read back as that record.
pub proof fn lemma_row_round_trip(t: TransactionView)
    ensures
        row_record(record_row(t)) == Ok::<_, ErrorView>(t),
{
    crate::decimal::lemma_u64_text_round_trip(t.tx_id);
    crate::decimal::lemma_i64_text_round_trip(t.from_user_id);
    crate::decimal::lemma_i64_text_round_trip(t.to_user_id);
    crate::decimal::lemma_i64_text_round_trip(t.amount);
    crate::decimal::lemma_i64_text_round_trip(t.timestamp);
    t.tx_type.lemma_token_round_trip();
    t.status.lemma_token_round_trip();
}

/// The rows written for a list of records are read back as that list.
pub proof fn lemma_rows_records(records: Seq<TransactionView>)
    ensures
        rows_records(records_rows(records)) == Ok::<_, ErrorView>(records),
    decreases records.len(),
{
    let rows = records_rows(records);
    if records.len() == 0 {
        assert(records =~= Seq::empty());
    } else {
        lemma_row_round_trip(records[0]);
        lemma_rows_records(records.skip(1));
        assert(rows.skip(1) =~= records_rows(records.skip(1)));
        assert(seq![records[0]] + records.skip(1) =~= records);
    }
}

} // verus!
