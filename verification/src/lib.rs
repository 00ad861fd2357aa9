//! # ypbank
//!
//! A library for parsing, serializing and comparing bank transaction records
//! in multiple formats: CSV, binary, and plain text.
//!
//! Every format is a pair of functions on bytes, stated by [`BankFormat`]:
//! what a stream decodes to and what a list of records encodes to.
//! [`convert`] and [`compare`] are written against that contract alone.

use vstd::prelude::*;

pub mod bin_format;
pub mod csv_format;
pub mod decimal;
pub mod error;
pub mod format;
pub mod reconcile;
pub mod record;
pub mod text;
pub mod txt_format;
pub mod txt_laws;
pub mod wire;

pub use bin_format::BinFormat;
pub use csv_format::CsvFormat;
pub use error::{BankFormatError, ErrorView};
pub use format::{BankFormat, Written};
pub use reconcile::{compare_records, identical, index_of, reconciles, CompareResult};
pub use record::{Status, Transaction, TransactionView, TxId, TxType};
pub use txt_format::TxtFormat;

verus! {

/// Convert transaction records from one format to another.
///
/// Decodes the whole of `r` in the format `Src` and, if that went well,
/// appends the records to `w` in the format `Dst`, in the same order and
/// with every field as it was read.
pub fn convert<Src, Dst>(r: &[u8], w: &mut Vec<u8>) -> (res: Result<(), BankFormatError>) where
    Src: BankFormat,
    Dst: BankFormat,

    ensures
        match Src::decoded(r@) {
            Err(e) => final(w)@ == old(w)@ && error::outcome_view(res) == Err::<(), _>(e),
            Ok(records) => {
                &&& final(w)@ == old(w)@ + Dst::encoded(records).bytes
                &&& error::outcome_view(res) == (match Dst::encoded(records).fault {
                    Some(e) => Err(e),
                    None => Ok(()),
                })
            },
        },
{
    let transactions = match Src::read_all(r) {
        Ok(transactions) => transactions,
        Err(e) => {
            return Err(e);
        },
    };
    Dst::write_all(w, transactions.as_slice())
}

/// Compare transaction records from two streams, potentially in different formats.
///
/// Returns [`CompareResult::Identical`] if both sources hold the same
/// record under every id, or [`CompareResult::Mismatch`] with the ids that
/// one side lacks and the records that differ. An error of the first
/// stream comes before one of the second.
pub fn compare<F1, F2>(r1: &[u8], r2: &[u8]) -> (res: Result<CompareResult, BankFormatError>) where
    F1: BankFormat,
    F2: BankFormat,

    ensures
        match F1::decoded(r1@) {
            Err(e) => (res matches Err(f) && f@ == e),
            Ok(one) => match F2::decoded(r2@) {
                Err(e) => (res matches Err(f) && f@ == e),
                Ok(two) => (res matches Ok(result) && reconciles(
                    result,
                    index_of(one),
                    index_of(two),
                )),
            },
        },
{
    let transactions_one = match F1::read_all(r1) {
        Ok(transactions) => transactions,
        Err(e) => {
            return Err(e);
        },
    };
    let transactions_two = match F2::read_all(r2) {
        Ok(transactions) => transactions,
        Err(e) => {
            return Err(e);
        },
    };
    Ok(compare_records(transactions_one.as_slice(), transactions_two.as_slice()))
}

/// A list of records that two formats can both carry, encoded in the one
/// and in the other, compares as identical: both streams decode, to lists
/// with the same record under every id, and no result that `compare` may
/// give for them is a mismatch.
pub proof fn lemma_cross_format_identity<F1: BankFormat, F2: BankFormat>(
    records: Seq<TransactionView>,
)
    requires
        F1::representable(records),
        F2::representable(records),
    ensures
        F1::decoded(F1::encoded(records).bytes) is Ok,
        F2::decoded(F2::encoded(records).bytes) is Ok,
        identical(
            F1::decoded(F1::encoded(records).bytes)->Ok_0,
            F2::decoded(F2::encoded(records).bytes)->Ok_0,
        ),
        forall|result: CompareResult|
            reconciles(
                result,
                index_of(F1::decoded(F1::encoded(records).bytes)->Ok_0),
                index_of(F2::decoded(F2::encoded(records).bytes)->Ok_0),
            ) ==> result is Identical,
{
    F1::round_trip(records);
    F2::round_trip(records);
}

/// Sum of two counters.
pub fn add(left: u64, right: u64) -> (sum: u64)
    requires
        left + right <= u64::MAX,
    ensures
        sum == left + right,
{
    left + right
}

} // verus!
