//! The block-text format: one block of `KEY: value` lines for each record,
//! the blocks set apart by comment lines that begin with `#`.

use vstd::prelude::*;
use vstd::slice::slice_to_vec;
use vstd::string::*;
use vstd::utf8::{decode_utf8, encode_utf8, valid_utf8};
use crate::decimal::{
    format_i64, format_u64, int_text, nat_text, parse_i64, parse_i64_spec, parse_u64,
    parse_u64_spec,
};
use crate::error::{bad_field, unknown_status, unknown_type, BankFormatError, ErrorView};
use crate::format::{after, BankFormat, Written};
use crate::record::{Status, Transaction, TransactionView, TxType};
use crate::text::{
    chars_of, find_byte, find_char, first_index, str_eq, string_from_utf8, strip_range, trim,
    trim_quotes,
};

verus! {

/// The byte that ends a line.
pub const NEWLINE: u8 = 0x0a;

/// The values collected for one block, by key. A key that is given twice
/// keeps its later value. Keys other than the eight known ones are not
/// kept: of them the collection only knows that there were some.
#[derive(Debug)]
pub struct FieldMap {
    tx_id: Option<String>,
    tx_type: Option<String>,
    from_user_id: Option<String>,
    to_user_id: Option<String>,
    amount: Option<String>,
    timestamp: Option<String>,
    status: Option<String>,
    description: Option<String>,
    touched: bool,
}

/// The mathematical value of a [`FieldMap`].
pub struct FieldMapView {
    pub tx_id: Option<Seq<char>>,
    pub tx_type: Option<Seq<char>>,
    pub from_user_id: Option<Seq<char>>,
    pub to_user_id: Option<Seq<char>>,
    pub amount: Option<Seq<char>>,
    pub timestamp: Option<Seq<char>>,
    pub status: Option<Seq<char>>,
    pub description: Option<Seq<char>>,
    /// Whether any key was given since the collection was empty.
    pub touched: bool,
}

impl FieldMapView {
    /// The collection with no key.
    pub open spec fn empty() -> FieldMapView {
        FieldMapView {
            tx_id: None,
            tx_type: None,
            from_user_id: None,
            to_user_id: None,
            amount: None,
            timestamp: None,
            status: None,
            description: None,
            touched: false,
        }
    }

    /// A collection holds nothing unless a key was given.
    pub open spec fn well_formed(self) -> bool {
        self.touched || self == FieldMapView::empty()
    }

    /// The collection after `key` was given `value`.
    pub open spec fn insert(self, key: Seq<char>, value: Seq<char>) -> FieldMapView {
        if key == "TX_ID"@ {
            FieldMapView { tx_id: Some(value), touched: true, ..self }
        } else if key == "TX_TYPE"@ {
            FieldMapView { tx_type: Some(value), touched: true, ..self }
        } else if key == "FROM_USER_ID"@ {
            FieldMapView { from_user_id: Some(value), touched: true, ..self }
        } else if key == "TO_USER_ID"@ {
            FieldMapView { to_user_id: Some(value), touched: true, ..self }
        } else if key == "AMOUNT"@ {
            FieldMapView { amount: Some(value), touched: true, ..self }
        } else if key == "TIMESTAMP"@ {
            FieldMapView { timestamp: Some(value), touched: true, ..self }
        } else if key == "STATUS"@ {
            FieldMapView { status: Some(value), touched: true, ..self }
        } else if key == "DESCRIPTION"@ {
            FieldMapView { description: Some(value), touched: true, ..self }
        } else {
            FieldMapView { touched: true, ..self }
        }
    }
}

impl View for FieldMap {
    type V = FieldMapView;

    closed spec fn view(&self) -> FieldMapView {
        FieldMapView {
            tx_id: self.tx_id.deep_view(),
            tx_type: self.tx_type.deep_view(),
            from_user_id: self.from_user_id.deep_view(),
            to_user_id: self.to_user_id.deep_view(),
            amount: self.amount.deep_view(),
            timestamp: self.timestamp.deep_view(),
            status: self.status.deep_view(),
            description: self.description.deep_view(),
            touched: self.touched,
        }
    }
}

impl FieldMap {
    /// A collection with no key.
    pub fn new() -> (map: FieldMap)
        ensures
            map@ == FieldMapView::empty(),
            map@.well_formed(),
    {
        FieldMap {
            tx_id: None,
            tx_type: None,
            from_user_id: None,
            to_user_id: None,
            amount: None,
            timestamp: None,
            status: None,
            description: None,
            touched: false,
        }
    }

    /// Whether no key was given.
    pub fn is_empty(&self) -> (empty: bool)
        ensures
            empty == !self@.touched,
    {
        !self.touched
    }

    /// Gives `key` the value `value`, in place of an earlier one.
    pub fn insert(&mut self, key: &str, value: String)
        ensures
            final(self)@ == old(self)@.insert(key@, value@),
            final(self)@.well_formed(),
    {
        self.touched = true;
        if str_eq(key, "TX_ID") {
            self.tx_id = Some(value);
        } else if str_eq(key, "TX_TYPE") {
            self.tx_type = Some(value);
        } else if str_eq(key, "FROM_USER_ID") {
            self.from_user_id = Some(value);
        } else if str_eq(key, "TO_USER_ID") {
            self.to_user_id = Some(value);
        } else if str_eq(key, "AMOUNT") {
            self.amount = Some(value);
        } else if str_eq(key, "TIMESTAMP") {
            self.timestamp = Some(value);
        } else if str_eq(key, "STATUS") {
            self.status = Some(value);
        } else if str_eq(key, "DESCRIPTION") {
            self.description = Some(value);
        }
    }
}

/// The error for a block that lacks a key.
pub open spec fn missing(key: Seq<char>) -> ErrorView {
    ErrorView::Parse("missing field: "@ + key)
}

/// The record that a block's values stand for, or the first thing wrong
/// with them, going through the eight keys in order: a key that is
/// missing, then a value that cannot be read.
pub open spec fn fields_record(m: FieldMapView) -> Result<TransactionView, ErrorView> {
    if m.tx_id is None {
        Err(missing("TX_ID"@))
    } else if parse_u64_spec(m.tx_id->0) is None {
        Err(bad_field("TX_ID"@))
    } else if m.tx_type is None {
        Err(missing("TX_TYPE"@))
    } else if TxType::spec_from_token(m.tx_type->0) is None {
        Err(unknown_type(m.tx_type->0))
    } else if m.from_user_id is None {
        Err(missing("FROM_USER_ID"@))
    } else if parse_i64_spec(m.from_user_id->0) is None {
        Err(bad_field("FROM_USER_ID"@))
    } else if m.to_user_id is None {
        Err(missing("TO_USER_ID"@))
    } else if parse_i64_spec(m.to_user_id->0) is None {
        Err(bad_field("TO_USER_ID"@))
    } else if m.amount is None {
        Err(missing("AMOUNT"@))
    } else if parse_i64_spec(m.amount->0) is None {
        Err(bad_field("AMOUNT"@))
    } else if m.timestamp is None {
        Err(missing("TIMESTAMP"@))
    } else if parse_i64_spec(m.timestamp->0) is None {
        Err(bad_field("TIMESTAMP"@))
    } else if m.status is None {
        Err(missing("STATUS"@))
    } else if Status::spec_from_token(m.status->0) is None {
        Err(unknown_status(m.status->0))
    } else if m.description is None {
        Err(missing("DESCRIPTION"@))
    } else {
        Ok(
            TransactionView {
                tx_id: parse_u64_spec(m.tx_id->0)->0,
                tx_type: TxType::spec_from_token(m.tx_type->0)->0,
                from_user_id: parse_i64_spec(m.from_user_id->0)->0,
                to_user_id: parse_i64_spec(m.to_user_id->0)->0,
                amount: parse_i64_spec(m.amount->0)->0,
                timestamp: parse_i64_spec(m.timestamp->0)->0,
                status: Status::spec_from_token(m.status->0)->0,
                description: m.description->0,
            },
        )
    }
}

/// What one line says.
pub enum Line {
    /// A comment: the line that sets two blocks apart.
    Comment,
    /// A key and its value.
    Pair { key: Seq<char>, value: Seq<char> },
    /// Nothing: a line that is blank or has no colon.
    Other,
}

/// Reads one line. White space around the line, around the key and around
/// the value does not count, nor do double quotes around the value.
pub open spec fn classify(line: Seq<char>) -> Line {
    let t = trim(line);
    let colon = first_index(t, ':');
    if t.len() > 0 && t[0] == '#' {
        Line::Comment
    } else if colon < t.len() {
        Line::Pair { key: trim(t.take(colon)), value: trim_quotes(trim(t.skip(colon + 1))) }
    } else {
        Line::Other
    }
}

/// The error for a line that is not UTF-8.
pub open spec fn invalid_text() -> ErrorView {
    ErrorView::Io("stream did not contain valid UTF-8"@)
}

/// What one line does to the block that is being collected.
pub enum Step {
    /// The block goes on, with these values.
    Keep(FieldMapView),
    /// The block is complete and stands for this record.
    Emit(TransactionView),
    /// Decoding ends with this error.
    Fail(ErrorView),
}

/// The effect of one line, given as its bytes without the newline. A
/// comment line completes a block that holds anything.
pub open spec fn step(block: FieldMapView, line: Seq<u8>) -> Step {
    if !valid_utf8(line) {
        Step::Fail(invalid_text())
    } else {
        match classify(decode_utf8(line)) {
            Line::Comment => if block.touched {
                match fields_record(block) {
                    Ok(t) => Step::Emit(t),
                    Err(e) => Step::Fail(e),
                }
            } else {
                Step::Keep(block)
            },
            Line::Pair { key, value } => Step::Keep(block.insert(key, value)),
            Line::Other => Step::Keep(block),
        }
    }
}

/// What the end of the stream makes of the block that is being collected.
pub open spec fn finish(block: FieldMapView) -> Result<Seq<TransactionView>, ErrorView> {
    if block.touched {
        match fields_record(block) {
            Ok(t) => Ok(seq![t]),
            Err(e) => Err(e),
        }
    } else {
        Ok(Seq::empty())
    }
}

/// The length of the first line of `b` with its newline, if it has one.
pub open spec fn line_span(b: Seq<u8>) -> int {
    if first_index(b, NEWLINE) < b.len() {
        first_index(b, NEWLINE) + 1
    } else {
        first_index(b, NEWLINE)
    }
}

/// The records of a stream, read line by line, with `block` collected so
/// far.
pub open spec fn decode_stream(b: Seq<u8>, block: FieldMapView) -> Result<
    Seq<TransactionView>,
    ErrorView,
>
    decreases b.len(),
    via decode_stream_decreases
{
    if b.len() == 0 {
        finish(block)
    } else {
        let rest = b.skip(line_span(b));
        match step(block, b.take(first_index(b, NEWLINE))) {
            Step::Fail(e) => Err(e),
            Step::Keep(next) => decode_stream(rest, next),
            Step::Emit(t) => after(seq![t], decode_stream(rest, FieldMapView::empty())),
        }
    }
}

#[via_fn]
proof fn decode_stream_decreases(b: Seq<u8>, block: FieldMapView) {
    crate::text::lemma_first_index(b, NEWLINE);
}

/// The bytes of one line of text, newline included.
pub open spec fn line_bytes(line: Seq<char>) -> Seq<u8> {
    encode_utf8(line) + seq![NEWLINE]
}

/// The comment line that opens the block of the `n`-th record.
pub open spec fn title_line(n: nat, t: TransactionView) -> Seq<char> {
    "# Record "@ + nat_text(n) + " ("@ + t.tx_type.spec_token() + ")"@
}

/// The line that gives `key` the value `value`.
pub open spec fn pair_line(key: Seq<char>, value: Seq<char>) -> Seq<char> {
    key + ": "@ + value
}

/// The text in double quotes.
pub open spec fn quoted(text: Seq<char>) -> Seq<char> {
    "\""@ + text + "\""@
}

/// The block of the `n`-th record: a comment line, the eight keys in
/// their order, and a blank line.
pub open spec fn block_bytes(n: nat, t: TransactionView) -> Seq<u8> {
    line_bytes(title_line(n, t)) + line_bytes(pair_line("TX_ID"@, nat_text(t.tx_id as nat)))
        + line_bytes(pair_line("TX_TYPE"@, t.tx_type.spec_token())) + line_bytes(
        pair_line("FROM_USER_ID"@, int_text(t.from_user_id as int)),
    ) + line_bytes(pair_line("TO_USER_ID"@, int_text(t.to_user_id as int))) + line_bytes(
        pair_line("AMOUNT"@, int_text(t.amount as int)),
    ) + line_bytes(pair_line("TIMESTAMP"@, int_text(t.timestamp as int))) + line_bytes(
        pair_line("STATUS"@, t.status.spec_token()),
    ) + line_bytes(pair_line("DESCRIPTION"@, quoted(t.description))) + line_bytes(Seq::empty())
}

/// The blocks of a list of records, numbered from `first` on.
pub open spec fn encode_blocks(records: Seq<TransactionView>, first: nat) -> Seq<u8>
    decreases records.len(),
{
    if records.len() == 0 {
        Seq::empty()
    } else {
        block_bytes(first, records[0]) + encode_blocks(records.skip(1), first + 1)
    }
}

/// A description that a block gives back as it is: text without a line
/// feed that neither begins nor ends with a double quote.
pub open spec fn plain_text(d: Seq<char>) -> bool {
    &&& !d.contains('\n')
    &&& d.len() > 0 ==> d[0] != '"' && d.last() != '"'
}

/// Whether every description is plain text.
pub open spec fn all_plain(records: Seq<TransactionView>) -> bool {
    forall|i: int| 0 <= i < records.len() ==> plain_text((#[trigger] records[i]).description)
}

fn missing_error(key: &str) -> (e: BankFormatError)
    ensures
        e@ == missing(key@),
{
    let mut m = String::from_str("missing field: ");
    m.append(key);
    BankFormatError::Parse(m)
}

fn field_error(key: &str) -> (e: BankFormatError)
    ensures
        e@ == bad_field(key@),
{
    BankFormatError::Parse(String::from_str(key))
}

fn read_u64_field(field: &Option<String>, key: &str) -> (res: Result<u64, BankFormatError>)
    ensures
        match field.deep_view() {
            None => (res matches Err(e) && e@ == missing(key@)),
            Some(text) => match parse_u64_spec(text) {
                None => (res matches Err(e) && e@ == bad_field(key@)),
                Some(v) => res == Ok::<u64, BankFormatError>(v),
            },
        },
{
    match field {
        None => Err(missing_error(key)),
        Some(text) => match parse_u64(text.as_str()) {
            None => Err(field_error(key)),
            Some(v) => Ok(v),
        },
    }
}

fn read_i64_field(field: &Option<String>, key: &str) -> (res: Result<i64, BankFormatError>)
    ensures
        match field.deep_view() {
            None => (res matches Err(e) && e@ == missing(key@)),
            Some(text) => match parse_i64_spec(text) {
                None => (res matches Err(e) && e@ == bad_field(key@)),
                Some(v) => res == Ok::<i64, BankFormatError>(v),
            },
        },
{
    match field {
        None => Err(missing_error(key)),
        Some(text) => match parse_i64(text.as_str()) {
            None => Err(field_error(key)),
            Some(v) => Ok(v),
        },
    }
}

/// One line, as read.
#[derive(Debug)]
pub enum ParsedLine {
    Comment,
    Pair(String, String),
    Other,
}

impl View for ParsedLine {
    type V = Line;

    open spec fn view(&self) -> Line {
        match self {
            ParsedLine::Comment => Line::Comment,
            ParsedLine::Pair(key, value) => Line::Pair { key: key@, value: value@ },
            ParsedLine::Other => Line::Other,
        }
    }
}

fn invalid_text_error() -> (e: BankFormatError)
    ensures
        e@ == invalid_text(),
{
    BankFormatError::Io(String::from_str("stream did not contain valid UTF-8"))
}

/// Appends one line of text and its newline.
fn push_line(w: &mut Vec<u8>, line: &str)
    ensures
        final(w)@ == old(w)@ + line_bytes(line@),
{
    w.extend_from_slice(line.as_bytes());
    w.push(NEWLINE);
    assert(w@ =~= old(w)@ + line_bytes(line@));
}

/// Appends the line that gives `key` the value `value`.
fn push_pair(w: &mut Vec<u8>, key: &str, value: &str)
    ensures
        final(w)@ == old(w)@ + line_bytes(pair_line(key@, value@)),
{
    let mut line = String::from_str(key);
    line.append(": ");
    line.append(value);
    push_line(w, line.as_str());
}

pub struct TxtFormat;

impl TxtFormat {
    /// Reads one line of text.
    pub fn read_line(line: &str) -> (parsed: ParsedLine)
        ensures
            parsed@ == classify(line@),
    {
        let chars = chars_of(line);
        let (lo, hi) = strip_range(&chars, 0, chars.len(), false);
        assert(chars@.subrange(0, chars.len() as int) =~= chars@);
        let ghost t = chars@.subrange(lo as int, hi as int);
        if lo < hi && chars[lo] == '#' {
            return ParsedLine::Comment;
        }
        let colon = find_char(&chars, lo, hi, ':');
        if colon == hi {
            return ParsedLine::Other;
        }
        let (key_lo, key_hi) = strip_range(&chars, lo, colon, false);
        let (value_lo, value_hi) = strip_range(&chars, colon + 1, hi, false);
        let (bare_lo, bare_hi) = strip_range(&chars, value_lo, value_hi, true);
        proof {
            assert(t.take(colon - lo) =~= chars@.subrange(lo as int, colon as int));
            assert(t.skip(colon - lo + 1) =~= chars@.subrange(colon + 1, hi as int));
        }
        let key = String::from_str(line.substring_char(key_lo, key_hi));
        let value = String::from_str(line.substring_char(bare_lo, bare_hi));
        ParsedLine::Pair(key, value)
    }

    /// Takes one line, given as its bytes without the newline, into the
    /// block that is being collected. A comment line completes a block
    /// that holds anything: its record is handed back and the block is
    /// empty again.
    pub fn feed(current: &mut FieldMap, line: &[u8]) -> (res: Result<
        Option<Transaction>,
        BankFormatError,
    >)
        ensures
            match step(old(current)@, line@) {
                Step::Fail(e) => (res matches Err(f) && f@ == e),
                Step::Keep(next) => res is Ok && res->Ok_0 is None && final(current)@ == next,
                Step::Emit(t) => (res matches Ok(Some(tx)) && tx@ == t) && final(current)@
                    == FieldMapView::empty(),
            },
            old(current)@.well_formed() ==> final(current)@.well_formed(),
    {
        let text = match string_from_utf8(slice_to_vec(line)) {
            Ok(text) => text,
            Err(_) => {
                return Err(invalid_text_error());
            },
        };
        match TxtFormat::read_line(text.as_str()) {
            ParsedLine::Comment => {
                if !current.is_empty() {
                    let tx = match TxtFormat::parse_map(current) {
                        Ok(tx) => tx,
                        Err(e) => {
                            return Err(e);
                        },
                    };
                    *current = FieldMap::new();
                    return Ok(Some(tx));
                }
            },
            ParsedLine::Pair(key, value) => {
                current.insert(key.as_str(), value);
            },
            ParsedLine::Other => {},
        }
        Ok(None)
    }

    /// Appends the block of the `n`-th record.
    pub fn write_block(w: &mut Vec<u8>, n: usize, tx: &Transaction)
        ensures
            final(w)@ == old(w)@ + block_bytes(n as nat, tx@),
    {
        let mut title = String::from_str("# Record ");
        title.append(format_u64(n as u64).as_str());
        title.append(" (");
        title.append(tx.tx_type.as_str());
        title.append(")");
        push_line(w, title.as_str());
        push_pair(w, "TX_ID", format_u64(tx.tx_id).as_str());
        push_pair(w, "TX_TYPE", tx.tx_type.as_str());
        push_pair(w, "FROM_USER_ID", format_i64(tx.from_user_id).as_str());
        push_pair(w, "TO_USER_ID", format_i64(tx.to_user_id).as_str());
        push_pair(w, "AMOUNT", format_i64(tx.amount).as_str());
        push_pair(w, "TIMESTAMP", format_i64(tx.timestamp).as_str());
        push_pair(w, "STATUS", tx.status.as_str());
        let mut description = String::from_str("\"");
        description.append(tx.description.as_str());
        description.append("\"");
        push_pair(w, "DESCRIPTION", description.as_str());
        push_line(w, "");
        proof {
            reveal_strlit("");
            assert(""@ =~= Seq::<char>::empty());
        }
    }

    /// Reads a type by its token.
    pub fn parse_tx_type(s: &str) -> (res: Result<TxType, BankFormatError>)
        ensures
            match TxType::spec_from_token(s@) {
                Some(kind) => res == Ok::<TxType, BankFormatError>(kind),
                None => (res matches Err(e) && e@ == unknown_type(s@)),
            },
    {
        match TxType::from_token(s) {
            Some(kind) => Ok(kind),
            None => {
                let mut m = String::from_str("unknown tx_type: ");
                m.append(s);
                Err(BankFormatError::Parse(m))
            },
        }
    }

    /// Reads a status by its token.
    pub fn parse_status(s: &str) -> (res: Result<Status, BankFormatError>)
        ensures
            match Status::spec_from_token(s@) {
                Some(status) => res == Ok::<Status, BankFormatError>(status),
                None => (res matches Err(e) && e@ == unknown_status(s@)),
            },
    {
        match Status::from_token(s) {
            Some(status) => Ok(status),
            None => {
                let mut m = String::from_str("unknown status: ");
                m.append(s);
                Err(BankFormatError::Parse(m))
            },
        }
    }

    /// Makes a record of the values collected for a block.
    pub fn parse_map(map: &FieldMap) -> (res: Result<Transaction, BankFormatError>)
        ensures
            match fields_record(map@) {
                Ok(t) => (res matches Ok(tx) && tx@ == t),
                Err(e) => (res matches Err(f) && f@ == e),
            },
    {
        let tx_id = match read_u64_field(&map.tx_id, "TX_ID") {
            Ok(v) => v,
            Err(e) => {
                return Err(e);
            },
        };
        let tx_type = match &map.tx_type {
            None => {
                return Err(missing_error("TX_TYPE"));
            },
            Some(token) => match TxtFormat::parse_tx_type(token.as_str()) {
                Ok(v) => v,
                Err(e) => {
                    return Err(e);
                },
            },
        };
        let from_user_id = match read_i64_field(&map.from_user_id, "FROM_USER_ID") {
            Ok(v) => v,
            Err(e) => {
                return Err(e);
            },
        };
        let to_user_id = match read_i64_field(&map.to_user_id, "TO_USER_ID") {
            Ok(v) => v,
            Err(e) => {
                return Err(e);
            },
        };
        let amount = match read_i64_field(&map.amount, "AMOUNT") {
            Ok(v) => v,
            Err(e) => {
                return Err(e);
            },
        };
        let timestamp = match read_i64_field(&map.timestamp, "TIMESTAMP") {
            Ok(v) => v,
            Err(e) => {
                return Err(e);
            },
        };
        let status = match &map.status {
            None => {
                return Err(missing_error("STATUS"));
            },
            Some(token) => match TxtFormat::parse_status(token.as_str()) {
                Ok(v) => v,
                Err(e) => {
                    return Err(e);
                },
            },
        };
        let description = match &map.description {
            None => {
                return Err(missing_error("DESCRIPTION"));
            },
            Some(text) => text.clone(),
        };
        Ok(
            Transaction {
                tx_id,
                tx_type,
                from_user_id,
                to_user_id,
                amount,
                timestamp,
                status,
                description,
            },
        )
    }
}

impl BankFormat for TxtFormat {
    open spec fn decoded(bytes: Seq<u8>) -> Result<Seq<TransactionView>, ErrorView> {
        decode_stream(bytes, FieldMapView::empty())
    }

    open spec fn encoded(records: Seq<TransactionView>) -> Written {
        Written { bytes: encode_blocks(records, 1), fault: None }
    }

    /// A description comes back as it was written where it holds no line
    /// feed and neither begins nor ends with a double quote.
    open spec fn representable(records: Seq<TransactionView>) -> bool {
        all_plain(records)
    }

    proof fn round_trip(records: Seq<TransactionView>) {
        crate::txt_laws::lemma_decode_blocks(records, 1, FieldMapView::empty());
    }

    fn read_all(r: &[u8]) -> (res: Result<Vec<Transaction>, BankFormatError>) {
        let mut transactions: Vec<Transaction> = Vec::new();
        let mut current = FieldMap::new();
        let mut pos: usize = 0;
        assert(r@.skip(0) =~= r@);
        assert(Seq::<TransactionView>::empty() + decode_stream(r@, current@)->Ok_0
            =~= decode_stream(r@, current@)->Ok_0);
        while pos < r.len()
            invariant
                pos <= r.len(),
                decode_stream(r@, FieldMapView::empty()) == after(
                    transactions.deep_view(),
                    decode_stream(r@.skip(pos as int), current@),
                ),
            decreases r.len() - pos,
        {
            let ghost rest = r@.skip(pos as int);
            let end = find_byte(r, pos, NEWLINE);
            let next: usize = if end < r.len() {
                end + 1
            } else {
                end
            };
            proof {
                assert(rest.take(end - pos) =~= r@.subrange(pos as int, end as int));
                assert(rest.skip(line_span(rest)) =~= r@.skip(next as int));
            }
            match TxtFormat::feed(&mut current, &r[pos..end]) {
                Err(e) => {
                    return Err(e);
                },
                Ok(None) => {},
                Ok(Some(tx)) => {
                    proof {
                        let head = transactions.deep_view();
                        let tail = decode_stream(r@.skip(next as int), FieldMapView::empty());
                        assert(head.push(tx@) =~= head + seq![tx@]);
                        if tail is Ok {
                            assert(head + (seq![tx@] + tail->Ok_0) =~= head.push(tx@)
                                + tail->Ok_0);
                        }
                    }
                    let ghost before = transactions.deep_view();
                    transactions.push(tx);
                    assert(transactions.deep_view() =~= before.push(tx@));
                },
            }
            pos = next;
        }
        assert(r@.skip(pos as int).len() == 0);
        if !current.is_empty() {
            let tx = match TxtFormat::parse_map(&current) {
                Ok(tx) => tx,
                Err(e) => {
                    return Err(e);
                },
            };
            let ghost before = transactions.deep_view();
            transactions.push(tx);
            assert(transactions.deep_view() =~= before + seq![tx@]);
        } else {
            assert(transactions.deep_view() + Seq::<TransactionView>::empty()
                =~= transactions.deep_view());
        }
        Ok(transactions)
    }

    fn write_all(w: &mut Vec<u8>, records: &[Transaction]) -> (res: Result<(), BankFormatError>) {
        let ghost all = records.deep_view();
        let mut i: usize = 0;
        assert(all.skip(0) =~= all);
        while i < records.len()
            invariant
                i <= records.len(),
                all == records.deep_view(),
                old(w)@ + encode_blocks(all, 1) == w@ + encode_blocks(
                    all.skip(i as int),
                    (i + 1) as nat,
                ),
            decreases records.len() - i,
        {
            let ghost rest = all.skip(i as int);
            let ghost before = w@;
            assert(rest[0] == records[i as int]@);
            assert(rest.skip(1) =~= all.skip(i + 1));
            TxtFormat::write_block(w, i + 1, &records[i]);
            assert(before + (block_bytes((i + 1) as nat, rest[0]) + encode_blocks(
                rest.skip(1),
                (i + 2) as nat,
            )) =~= w@ + encode_blocks(rest.skip(1), (i + 2) as nat));
            i += 1;
        }
        assert(w@ + Seq::<u8>::empty() =~= w@);
        Ok(())
    }
}

} // verus!
