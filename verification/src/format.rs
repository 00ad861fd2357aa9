//! The contract that every codec meets.

use vstd::prelude::*;
use crate::error::{decoded_view, outcome_view, BankFormatError, ErrorView};
use crate::record::{Transaction, TransactionView};

verus! {

/// What an encoder makes of a list of records: the bytes it writes and,
/// where it cannot write them all, why it stopped.
pub struct Written {
    /// The records before the first one that was refused, encoded in order.
    pub bytes: Seq<u8>,
    /// Why the encoder stopped, if it did.
    pub fault: Option<ErrorView>,
}

/// Puts `head` before the records of a decoding that went well.
pub open spec fn after(
    head: Seq<TransactionView>,
    tail: Result<Seq<TransactionView>, ErrorView>,
) -> Result<Seq<TransactionView>, ErrorView> {
    match tail {
        Ok(rest) => Ok(head + rest),
        Err(e) => Err(e),
    }
}

/// A trait for reading and writing transaction records in a specific format.
///
/// Implement this trait to add support for a new format. A format is a
/// pair of functions on bytes: `decoded` from a whole stream to the records
/// in it, and `encoded` from records to the bytes that stand for them.
pub trait BankFormat: Sized {
    /// The records that a whole byte stream holds, in stream order, or the
    /// first error in it.
    spec fn decoded(bytes: Seq<u8>) -> Result<Seq<TransactionView>, ErrorView>;

    /// The bytes that stand for a list of records.
    spec fn encoded(records: Seq<TransactionView>) -> Written;

    /// The record lists that this format can carry without loss.
    spec fn representable(records: Seq<TransactionView>) -> bool;

    /// Decoding what was encoded gives back every record, field for field
    /// and in order.
    proof fn round_trip(records: Seq<TransactionView>)
        requires
            Self::representable(records),
        ensures
            Self::encoded(records).fault is None,
            Self::decoded(Self::encoded(records).bytes) == Ok::<_, ErrorView>(records),
    ;

    /// Read all transactions from the given bytes.
    fn read_all(r: &[u8]) -> (res: Result<Vec<Transaction>, BankFormatError>)
        ensures
            decoded_view(res) == Self::decoded(r@),
    ;

    /// Write all transactions to the given sink, after what it holds.
    fn write_all(w: &mut Vec<u8>, records: &[Transaction]) -> (res: Result<(), BankFormatError>)
        ensures
            final(w)@ == old(w)@ + Self::encoded(records.deep_view()).bytes,
            outcome_view(res) == (match Self::encoded(records.deep_view()).fault {
                Some(e) => Err(e),
                None => Ok(()),
            }),
    ;
}

} // verus!
