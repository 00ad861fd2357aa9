//! The binary format: self-framed records, all integers big-endian.
//!
//! | field       | bytes   |
//! |-------------|---------|
//! | magic       | 4       |
//! | record size | 4       |
//! | id          | 8       |
//! | type        | 1       |
//! | sender      | 8       |
//! | recipient   | 8       |
//! | amount      | 8       |
//! | timestamp   | 8       |
//! | status      | 1       |
//! | length      | 4       |
//! | description | length  |

use vstd::prelude::*;
use vstd::slice::slice_to_vec;
use vstd::string::*;
use vstd::utf8::{decode_utf8, encode_utf8, valid_utf8};
use crate::decimal::{format_u64, nat_text};
use crate::error::{BankFormatError, ErrorView};
use crate::format::{after, BankFormat, Written};
use crate::record::{Status, Transaction, TransactionView, TxType};
use crate::text::{string_from_utf8, utf8_fault_text};
use crate::wire::{
    be_i64, be_u32, be_u64, i64_be, lemma_i64_be_round_trip, lemma_u32_be_round_trip,
    lemma_u64_be_round_trip, push_i64_be, push_u32_be, push_u64_be, read_i64_be, read_u32_be,
    read_u64_be, u32_be, u64_be,
};

verus! {

/// The longest description, in bytes, that the decoder accepts.
pub const MAX_DESC_LEN: u32 = 4096;

/// The size of a record's body without its description, which is also the
/// least record size that the decoder accepts.
pub const MIN_RECORD_SIZE: u32 = 46;

/// The longest description, in bytes, that a record can frame: its size
/// field counts 46 bytes more and has 32 bits.
pub const MAX_FRAMED_DESC_LEN: u32 = 0xffff_ffd1;

/// The length of a record up to its description.
pub const HEAD_LEN: usize = 54;

/// The token that opens every record: `YPBN`.
pub open spec fn magic() -> Seq<u8> {
    seq![0x59u8, 0x50u8, 0x42u8, 0x4eu8]
}

/// The error for a stream that ends inside a record.
pub open spec fn truncated() -> ErrorView {
    ErrorView::Io("failed to fill whole buffer"@)
}

/// The error for four bytes that are not the magic token.
pub open spec fn bad_magic(found: Seq<u8>) -> ErrorView {
    ErrorView::InvalidBinary(
        "invalid magic: ["@ + nat_text(found[0] as nat) + ", "@ + nat_text(found[1] as nat) + ", "@
            + nat_text(found[2] as nat) + ", "@ + nat_text(found[3] as nat) + "]"@,
    )
}

/// The error for a declared record size under the minimum.
pub open spec fn bad_size(size: u32) -> ErrorView {
    ErrorView::InvalidBinary(
        "record_size "@ + nat_text(size as nat) + " is too small, minimum is 46 bytes"@,
    )
}

/// The error for a type byte that stands for no variant.
pub open spec fn bad_type(code: u8) -> ErrorView {
    ErrorView::InvalidBinary("unknown tx_type byte: "@ + nat_text(code as nat))
}

/// The error for a status byte that stands for no variant.
pub open spec fn bad_status(code: u8) -> ErrorView {
    ErrorView::InvalidBinary("unknown status byte: "@ + nat_text(code as nat))
}

/// The error for a description that is longer than `limit` bytes.
pub open spec fn desc_too_long(len: nat, limit: nat) -> ErrorView {
    ErrorView::InvalidBinary(
        "description length "@ + nat_text(len) + " exceeds maximum allowed "@ + nat_text(limit),
    )
}

/// The error for description bytes that are not UTF-8.
pub open spec fn bad_text(desc: Seq<u8>) -> ErrorView {
    ErrorView::InvalidBinary(utf8_fault_text(desc))
}

/// What stands at the front of a byte stream.
pub enum Frame {
    /// Nothing: the stream is at its end.
    End,
    /// A well-formed record of `len` bytes.
    Record { record: TransactionView, len: nat },
    /// A malformed or cut-off record.
    Fault(ErrorView),
}

/// Reads the front of a stream field by field. The declared record size is
/// only held to its minimum: the fields stand at fixed offsets whatever it
/// says.
#[verifier::opaque]
pub open spec fn first_frame(b: Seq<u8>) -> Frame {
    if b.len() == 0 {
        Frame::End
    } else if b.len() < 4 {
        Frame::Fault(truncated())
    } else if b.subrange(0, 4) != magic() {
        Frame::Fault(bad_magic(b.subrange(0, 4)))
    } else if b.len() < 8 {
        Frame::Fault(truncated())
    } else if be_u32(b.subrange(4, 8)) < MIN_RECORD_SIZE {
        Frame::Fault(bad_size(be_u32(b.subrange(4, 8))))
    } else if b.len() < 17 {
        Frame::Fault(truncated())
    } else if TxType::spec_from_code(b[16]) is None {
        Frame::Fault(bad_type(b[16]))
    } else if b.len() < 50 {
        Frame::Fault(truncated())
    } else if Status::spec_from_code(b[49]) is None {
        Frame::Fault(bad_status(b[49]))
    } else if b.len() < 54 {
        Frame::Fault(truncated())
    } else {
        let n = be_u32(b.subrange(50, 54));
        let desc = b.subrange(54, 54 + n);
        if n > MAX_DESC_LEN {
            Frame::Fault(desc_too_long(n as nat, MAX_DESC_LEN as nat))
        } else if b.len() < 54 + n {
            Frame::Fault(truncated())
        } else if !valid_utf8(desc) {
            Frame::Fault(bad_text(desc))
        } else {
            Frame::Record {
                record: TransactionView {
                    tx_id: be_u64(b.subrange(8, 16)),
                    tx_type: TxType::spec_from_code(b[16])->0,
                    from_user_id: be_i64(b.subrange(17, 25)),
                    to_user_id: be_i64(b.subrange(25, 33)),
                    amount: be_i64(b.subrange(33, 41)),
                    timestamp: be_i64(b.subrange(41, 49)),
                    status: Status::spec_from_code(b[49])->0,
                    description: decode_utf8(desc),
                },
                len: (54 + n) as nat,
            }
        }
    }
}

/// The records of a stream: frame after frame up to its end, or the fault
/// of the first frame that has one.
pub open spec fn decode_frames(b: Seq<u8>) -> Result<Seq<TransactionView>, ErrorView>
    decreases b.len(),
    via decode_frames_decreases
{
    match first_frame(b) {
        Frame::End => Ok(Seq::empty()),
        Frame::Fault(e) => Err(e),
        Frame::Record { record, len } => after(seq![record], decode_frames(b.skip(len as int))),
    }
}

#[via_fn]
proof fn decode_frames_decreases(b: Seq<u8>) {
    reveal(first_frame);
}

/// Whether a record's description leaves room for the size field.
pub open spec fn fits_frame(t: TransactionView) -> bool {
    encode_utf8(t.description).len() <= MAX_FRAMED_DESC_LEN
}

/// The bytes of one record.
pub open spec fn frame_bytes(t: TransactionView) -> Seq<u8> {
    let desc = encode_utf8(t.description);
    magic() + u32_be((MIN_RECORD_SIZE + desc.len()) as u32) + u64_be(t.tx_id) + seq![
        t.tx_type.spec_code(),
    ] + i64_be(t.from_user_id) + i64_be(t.to_user_id) + i64_be(t.amount) + i64_be(t.timestamp)
        + seq![t.status.spec_code()] + u32_be(desc.len() as u32) + desc
}

/// The frames of a list of records, one after the other, up to the first
/// record that no frame can hold.
pub open spec fn encode_frames(records: Seq<TransactionView>) -> Written
    decreases records.len(),
{
    if records.len() == 0 {
        Written { bytes: Seq::empty(), fault: None }
    } else if !fits_frame(records[0]) {
        Written {
            bytes: Seq::empty(),
            fault: Some(
                desc_too_long(
                    encode_utf8(records[0].description).len(),
                    MAX_FRAMED_DESC_LEN as nat,
                ),
            ),
        }
    } else {
        let rest = encode_frames(records.skip(1));
        Written { bytes: frame_bytes(records[0]) + rest.bytes, fault: rest.fault }
    }
}

/// Whether every description is short enough for the decoder.
pub open spec fn all_short(records: Seq<TransactionView>) -> bool {
    forall|i: int|
        0 <= i < records.len() ==> encode_utf8((#[trigger] records[i]).description).len()
            <= MAX_DESC_LEN
}

fn truncated_error() -> (e: BankFormatError)
    ensures
        e@ == truncated(),
{
    BankFormatError::Io(String::from_str("failed to fill whole buffer"))
}

fn bad_magic_error(found: &[u8]) -> (e: BankFormatError)
    requires
        found.len() == 4,
    ensures
        e@ == bad_magic(found@),
{
    let mut m = String::from_str("invalid magic: [");
    m.append(format_u64(found[0] as u64).as_str());
    m.append(", ");
    m.append(format_u64(found[1] as u64).as_str());
    m.append(", ");
    m.append(format_u64(found[2] as u64).as_str());
    m.append(", ");
    m.append(format_u64(found[3] as u64).as_str());
    m.append("]");
    BankFormatError::InvalidBinary(m)
}

fn bad_size_error(size: u32) -> (e: BankFormatError)
    ensures
        e@ == bad_size(size),
{
    let mut m = String::from_str("record_size ");
    m.append(format_u64(size as u64).as_str());
    m.append(" is too small, minimum is 46 bytes");
    BankFormatError::InvalidBinary(m)
}

fn bad_type_error(code: u8) -> (e: BankFormatError)
    ensures
        e@ == bad_type(code),
{
    let mut m = String::from_str("unknown tx_type byte: ");
    m.append(format_u64(code as u64).as_str());
    BankFormatError::InvalidBinary(m)
}

fn bad_status_error(code: u8) -> (e: BankFormatError)
    ensures
        e@ == bad_status(code),
{
    let mut m = String::from_str("unknown status byte: ");
    m.append(format_u64(code as u64).as_str());
    BankFormatError::InvalidBinary(m)
}

fn desc_too_long_error(len: usize, limit: u32) -> (e: BankFormatError)
    ensures
        e@ == desc_too_long(len as nat, limit as nat),
{
    let mut m = String::from_str("description length ");
    m.append(format_u64(len as u64).as_str());
    m.append(" exceeds maximum allowed ");
    m.append(format_u64(limit as u64).as_str());
    BankFormatError::InvalidBinary(m)
}

/// Whether the four bytes at the front are the magic token.
fn is_magic(b: &[u8]) -> (yes: bool)
    requires
        b.len() >= 4,
    ensures
        yes == (b@.subrange(0, 4) == magic()),
{
    let yes = b[0] == 0x59 && b[1] == 0x50 && b[2] == 0x42 && b[3] == 0x4e;
    proof {
        let found = b@.subrange(0, 4);
        if yes {
            assert(found =~= magic());
        } else {
            assert(found[0] == b@[0] && found[1] == b@[1] && found[2] == b@[2] && found[3]
                == b@[3]);
            assert(magic()[0] == 0x59 && magic()[1] == 0x50 && magic()[2] == 0x42 && magic()[3]
                == 0x4e);
        }
    }
    yes
}

pub struct BinFormat;

impl BinFormat {
    /// Reads the record at the front of `b`: `Ok(None)` at the end of the
    /// stream, else the record and its length in bytes, or what is wrong
    /// with it.
    pub fn read_frame(b: &[u8]) -> (res: Result<Option<(Transaction, usize)>, BankFormatError>)
        ensures
            match first_frame(b@) {
                Frame::End => res matches Ok(None),
                Frame::Fault(e) => (res matches Err(f) && f@ == e),
                Frame::Record { record, len } => (res matches Ok(Some(found)) && found.0@
                    == record && found.1 == len && 0 < len <= b.len()),
            },
    {
        reveal(first_frame);
        if b.len() == 0 {
            return Ok(None);
        }
        if b.len() < 4 {
            return Err(truncated_error());
        }
        if !is_magic(b) {
            return Err(bad_magic_error(&b[0..4]));
        }
        if b.len() < 8 {
            return Err(truncated_error());
        }
        let record_size = read_u32_be(b, 4);
        if record_size < MIN_RECORD_SIZE {
            return Err(bad_size_error(record_size));
        }
        if b.len() < 17 {
            return Err(truncated_error());
        }
        let tx_id = read_u64_be(b, 8);
        let tx_type = match TxType::from_code(b[16]) {
            Some(kind) => kind,
            None => {
                return Err(bad_type_error(b[16]));
            },
        };
        if b.len() < 50 {
            return Err(truncated_error());
        }
        let from_user_id = read_i64_be(b, 17);
        let to_user_id = read_i64_be(b, 25);
        let amount = read_i64_be(b, 33);
        let timestamp = read_i64_be(b, 41);
        let status = match Status::from_code(b[49]) {
            Some(status) => status,
            None => {
                return Err(bad_status_error(b[49]));
            },
        };
        if b.len() < HEAD_LEN {
            return Err(truncated_error());
        }
        let desc_len = read_u32_be(b, 50);
        if desc_len > MAX_DESC_LEN {
            return Err(desc_too_long_error(desc_len as usize, MAX_DESC_LEN));
        }
        let desc_len: usize = desc_len as usize;
        if b.len() - HEAD_LEN < desc_len {
            return Err(truncated_error());
        }
        let end: usize = HEAD_LEN + desc_len;
        let description = match string_from_utf8(slice_to_vec(&b[HEAD_LEN..end])) {
            Ok(text) => text,
            Err(m) => {
                return Err(BankFormatError::InvalidBinary(m));
            },
        };
        Ok(
            Some(
                (
                    Transaction {
                        tx_id,
                        tx_type,
                        from_user_id,
                        to_user_id,
                        amount,
                        timestamp,
                        status,
                        description,
                    },
                    end,
                ),
            ),
        )
    }

    /// Appends the frame of one record, or refuses a description that no
    /// frame can hold and leaves the sink as it is.
    pub fn write_frame(w: &mut Vec<u8>, tx: &Transaction) -> (res: Result<(), BankFormatError>)
        ensures
            fits_frame(tx@) ==> res is Ok && final(w)@ == old(w)@ + frame_bytes(tx@),
            !fits_frame(tx@) ==> final(w)@ == old(w)@ && (res matches Err(e) && e@
                == desc_too_long(
                encode_utf8(tx@.description).len(),
                MAX_FRAMED_DESC_LEN as nat,
            )),
    {
        let desc_bytes = tx.description.as_str().as_bytes();
        if desc_bytes.len() > MAX_FRAMED_DESC_LEN as usize {
            return Err(desc_too_long_error(desc_bytes.len(), MAX_FRAMED_DESC_LEN));
        }
        let desc_len: u32 = desc_bytes.len() as u32;
        let record_size: u32 = MIN_RECORD_SIZE + desc_len;
        w.push(0x59);
        w.push(0x50);
        w.push(0x42);
        w.push(0x4e);
        assert(w@ =~= old(w)@ + magic());
        push_u32_be(w, record_size);
        push_u64_be(w, tx.tx_id);
        w.push(tx.tx_type.code());
        push_i64_be(w, tx.from_user_id);
        push_i64_be(w, tx.to_user_id);
        push_i64_be(w, tx.amount);
        push_i64_be(w, tx.timestamp);
        w.push(tx.status.code());
        push_u32_be(w, desc_len);
        w.extend_from_slice(desc_bytes);
        assert(w@ =~= old(w)@ + frame_bytes(tx@));
        Ok(())
    }
}

impl BankFormat for BinFormat {
    open spec fn decoded(bytes: Seq<u8>) -> Result<Seq<TransactionView>, ErrorView> {
        decode_frames(bytes)
    }

    open spec fn encoded(records: Seq<TransactionView>) -> Written {
        encode_frames(records)
    }

    /// The decoder accepts descriptions of up to 4096 bytes.
    open spec fn representable(records: Seq<TransactionView>) -> bool {
        all_short(records)
    }

    proof fn round_trip(records: Seq<TransactionView>) {
        lemma_frames_round_trip(records);
    }

    fn read_all(r: &[u8]) -> (res: Result<Vec<Transaction>, BankFormatError>) {
        let mut transactions: Vec<Transaction> = Vec::new();
        let mut pos: usize = 0;
        assert(r@.skip(0) =~= r@);
        assert(Seq::<TransactionView>::empty() + decode_frames(r@)->Ok_0 =~= decode_frames(
            r@,
        )->Ok_0);
        loop
            invariant
                pos <= r.len(),
                decode_frames(r@) == after(transactions.deep_view(), decode_frames(r@.skip(pos as int))),
            decreases r.len() - pos,
        {
            let rest = &r[pos..r.len()];
            assert(rest@ =~= r@.skip(pos as int));
            match BinFormat::read_frame(rest) {
                Err(e) => {
                    return Err(e);
                },
                Ok(None) => {
                    assert(transactions.deep_view() + Seq::<TransactionView>::empty()
                        =~= transactions.deep_view());
                    return Ok(transactions);
                },
                Ok(Some((tx, len))) => {
                    proof {
                        let head = transactions.deep_view();
                        let tail = decode_frames(r@.skip(pos as int).skip(len as int));
                        assert(r@.skip(pos as int).skip(len as int) =~= r@.skip(pos + len));
                        assert(head.push(tx@) =~= head + seq![tx@]);
                        if tail is Ok {
                            assert(head + (seq![tx@] + tail->Ok_0) =~= head.push(tx@)
                                + tail->Ok_0);
                        }
                    }
                    let ghost before = transactions.deep_view();
                    transactions.push(tx);
                    assert(transactions.deep_view() =~= before.push(tx@));
                    pos = pos + len;
                },
            }
        }
    }

    fn write_all(w: &mut Vec<u8>, records: &[Transaction]) -> (res: Result<(), BankFormatError>) {
        let mut i: usize = 0;
        assert(records.deep_view().skip(0) =~= records.deep_view());
        assert(w@ + encode_frames(records.deep_view()).bytes =~= old(w)@ + encode_frames(
            records.deep_view(),
        ).bytes);
        while i < records.len()
            invariant
                i <= records.len(),
                old(w)@ + encode_frames(records.deep_view()).bytes == w@ + encode_frames(
                    records.deep_view().skip(i as int),
                ).bytes,
                encode_frames(records.deep_view()).fault == encode_frames(
                    records.deep_view().skip(i as int),
                ).fault,
            decreases records.len() - i,
        {
            let ghost rest = records.deep_view().skip(i as int);
            let ghost before = w@;
            assert(rest[0] == records[i as int]@);
            assert(rest.skip(1) =~= records.deep_view().skip(i + 1));
            match BinFormat::write_frame(w, &records[i]) {
                Err(e) => {
                    assert(w@ + Seq::<u8>::empty() =~= w@);
                    return Err(e);
                },
                Ok(()) => {
                    assert(before + (frame_bytes(rest[0]) + encode_frames(rest.skip(1)).bytes)
                        =~= w@ + encode_frames(rest.skip(1)).bytes);
                },
            }
            i += 1;
        }
        assert(w@ + Seq::<u8>::empty() =~= w@);
        Ok(())
    }
}

/// A frame that was written is read back as the record it was written
/// for, whatever follows it.
pub proof fn lemma_first_frame_of_written(t: TransactionView, tail: Seq<u8>)
    requires
        encode_utf8(t.description).len() <= MAX_DESC_LEN,
    ensures
        first_frame(frame_bytes(t) + tail) == (Frame::Record {
            record: t,
            len: frame_bytes(t).len(),
        }),
        frame_bytes(t).len() == 54 + encode_utf8(t.description).len(),
{
    reveal(first_frame);
    let desc = encode_utf8(t.description);
    let n = desc.len();
    let b = frame_bytes(t) + tail;
    lemma_u32_be_round_trip((MIN_RECORD_SIZE + n) as u32);
    lemma_u32_be_round_trip(n as u32);
    lemma_u64_be_round_trip(t.tx_id);
    lemma_i64_be_round_trip(t.from_user_id);
    lemma_i64_be_round_trip(t.to_user_id);
    lemma_i64_be_round_trip(t.amount);
    lemma_i64_be_round_trip(t.timestamp);
    t.tx_type.lemma_code_round_trip();
    t.status.lemma_code_round_trip();
    vstd::utf8::encode_utf8_valid_utf8(t.description);
    vstd::utf8::encode_utf8_decode_utf8(t.description);
    assert(frame_bytes(t).len() == 54 + n);
    assert(b.subrange(0, 4) =~= magic());
    assert(b.subrange(4, 8) =~= u32_be((MIN_RECORD_SIZE + n) as u32));
    assert(b.subrange(8, 16) =~= u64_be(t.tx_id));
    assert(b[16] == t.tx_type.spec_code());
    assert(b.subrange(17, 25) =~= i64_be(t.from_user_id));
    assert(b.subrange(25, 33) =~= i64_be(t.to_user_id));
    assert(b.subrange(33, 41) =~= i64_be(t.amount));
    assert(b.subrange(41, 49) =~= i64_be(t.timestamp));
    assert(b[49] == t.status.spec_code());
    assert(b.subrange(50, 54) =~= u32_be(n as u32));
    assert(b.subrange(54, 54 + n as int) =~= desc);
}

/// After the frames of records with short descriptions, decoding goes on
/// with what follows them.
pub proof fn lemma_decode_after_frames(records: Seq<TransactionView>, tail: Seq<u8>)
    requires
        all_short(records),
    ensures
        encode_frames(records).fault is None,
        decode_frames(encode_frames(records).bytes + tail) == after(records, decode_frames(tail)),
    decreases records.len(),
{
    if records.len() == 0 {
        assert(encode_frames(records).bytes + tail =~= tail);
        if decode_frames(tail) is Ok {
            assert(records + decode_frames(tail)->Ok_0 =~= decode_frames(tail)->Ok_0);
        }
    } else {
        let t = records[0];
        let rest = records.skip(1);
        assert(all_short(rest)) by {
            assert forall|i: int| 0 <= i < rest.len() implies encode_utf8(
                (#[trigger] rest[i]).description,
            ).len() <= MAX_DESC_LEN by {
                assert(rest[i] == records[i + 1]);
            }
        }
        lemma_decode_after_frames(rest, tail);
        let follow = encode_frames(rest).bytes + tail;
        lemma_first_frame_of_written(t, follow);
        let b = frame_bytes(t) + follow;
        assert(fits_frame(t));
        assert(encode_frames(records).bytes + tail =~= b);
        assert(b.skip(frame_bytes(t).len() as int) =~= follow);
        assert(decode_frames(b) == after(seq![t], decode_frames(follow)));
        if decode_frames(tail) is Ok {
            assert(seq![t] + (rest + decode_frames(tail)->Ok_0) =~= records + decode_frames(
                tail,
            )->Ok_0);
        }
    }
}

/// Decoding the frames of records with short descriptions gives the
/// records back.
pub proof fn lemma_frames_round_trip(records: Seq<TransactionView>)
    requires
        all_short(records),
    ensures
        encode_frames(records).fault is None,
        decode_frames(encode_frames(records).bytes) == Ok::<_, ErrorView>(records),
{
    let none = Seq::<u8>::empty();
    lemma_decode_after_frames(records, none);
    assert(encode_frames(records).bytes + none =~= encode_frames(records).bytes);
    assert(first_frame(none) == Frame::End) by {
        reveal(first_frame);
    }
    assert(records + Seq::<TransactionView>::empty() =~= records);
}

/// A stream that opens with four bytes other than the magic token is
/// refused as invalid binary data, and no record comes out of it.
pub proof fn lemma_bad_magic_rejected(b: Seq<u8>)
    requires
        b.len() >= 4,
        b.subrange(0, 4) != magic(),
    ensures
        decode_frames(b) == Err::<Seq<TransactionView>, _>(bad_magic(b.subrange(0, 4))),
        bad_magic(b.subrange(0, 4)) is InvalidBinary,
{
    reveal(first_frame);
}

/// A record that declares a description of more than 4096 bytes is refused
/// as invalid binary data, in words that name the declared length. The
/// same holds after any number of well-formed records.
pub proof fn lemma_long_description_rejected(before: Seq<TransactionView>, b: Seq<u8>)
    requires
        all_short(before),
        b.len() >= 54,
        b.subrange(0, 4) == magic(),
        be_u32(b.subrange(4, 8)) >= MIN_RECORD_SIZE,
        TxType::spec_from_code(b[16]) is Some,
        Status::spec_from_code(b[49]) is Some,
        be_u32(b.subrange(50, 54)) > MAX_DESC_LEN,
    ensures
        decode_frames(encode_frames(before).bytes + b) == Err::<Seq<TransactionView>, _>(
            desc_too_long(be_u32(b.subrange(50, 54)) as nat, MAX_DESC_LEN as nat),
        ),
        desc_too_long(be_u32(b.subrange(50, 54)) as nat, MAX_DESC_LEN as nat)
            == ErrorView::InvalidBinary(
            "description length "@ + nat_text(be_u32(b.subrange(50, 54)) as nat)
                + " exceeds maximum allowed "@ + nat_text(4096),
        ),
{
    lemma_decode_after_frames(before, b);
    assert(decode_frames(b) == Err::<Seq<TransactionView>, _>(
        desc_too_long(be_u32(b.subrange(50, 54)) as nat, MAX_DESC_LEN as nat),
    )) by {
        reveal(first_frame);
    }
}

} // verus!
