//! Error types for the ypbank library.

use vstd::prelude::*;
use vstd::string::*;

verus! {

/// All errors that can occur during parsing or serialization of transaction records.
#[derive(Debug)]
pub enum BankFormatError {
    /// The byte stream ended in the middle of a record, or held text that
    /// is not UTF-8.
    Io(String),
    /// The delimited-text writer refused a record.
    Csv(String),
    /// A general parse error with a description.
    Parse(String),
    /// The binary data is invalid or corrupted.
    InvalidBinary(String),
}

/// The mathematical value of a [`BankFormatError`]: its variant and the
/// characters of its message.
pub enum ErrorView {
    Io(Seq<char>),
    Csv(Seq<char>),
    Parse(Seq<char>),
    InvalidBinary(Seq<char>),
}

impl ErrorView {
    /// The message without the variant.
    pub open spec fn detail(self) -> Seq<char> {
        match self {
            ErrorView::Io(m) => m,
            ErrorView::Csv(m) => m,
            ErrorView::Parse(m) => m,
            ErrorView::InvalidBinary(m) => m,
        }
    }

    /// The words that name the variant in a rendered error.
    pub open spec fn label(self) -> Seq<char> {
        match self {
            ErrorView::Io(_) => "IO error: "@,
            ErrorView::Csv(_) => "CSV error: "@,
            ErrorView::Parse(_) => "Parse error: "@,
            ErrorView::InvalidBinary(_) => "Invalid binary format: "@,
        }
    }

    /// The rendered error: the variant's label, then the message.
    pub open spec fn text(self) -> Seq<char> {
        self.label() + self.detail()
    }
}

impl View for BankFormatError {
    type V = ErrorView;

    open spec fn view(&self) -> ErrorView {
        match self {
            BankFormatError::Io(m) => ErrorView::Io(m@),
            BankFormatError::Csv(m) => ErrorView::Csv(m@),
            BankFormatError::Parse(m) => ErrorView::Parse(m@),
            BankFormatError::InvalidBinary(m) => ErrorView::InvalidBinary(m@),
        }
    }
}

impl BankFormatError {
    /// The error as a line for the user.
    pub fn to_text(&self) -> (text: String)
        ensures
            text@ == self@.text(),
    {
        match self {
            BankFormatError::Io(m) => {
                let mut text = String::from_str("IO error: ");
                text.append(m.as_str());
                text
            },
            BankFormatError::Csv(m) => {
                let mut text = String::from_str("CSV error: ");
                text.append(m.as_str());
                text
            },
            BankFormatError::Parse(m) => {
                let mut text = String::from_str("Parse error: ");
                text.append(m.as_str());
                text
            },
            BankFormatError::InvalidBinary(m) => {
                let mut text = String::from_str("Invalid binary format: ");
                text.append(m.as_str());
                text
            },
        }
    }
}

/// The error for a type token that names no variant.
pub open spec fn unknown_type(token: Seq<char>) -> ErrorView {
    ErrorView::Parse("unknown tx_type: "@ + token)
}

/// The error for a status token that names no variant.
pub open spec fn unknown_status(token: Seq<char>) -> ErrorView {
    ErrorView::Parse("unknown status: "@ + token)
}

/// The error for a field that cannot be read, named by `field`.
pub open spec fn bad_field(field: Seq<char>) -> ErrorView {
    ErrorView::Parse(field)
}

/// The value of a decoder's result: the records' values, or the error's.
pub open spec fn decoded_view(res: Result<Vec<crate::record::Transaction>, BankFormatError>) -> Result<
    Seq<crate::record::TransactionView>,
    ErrorView,
> {
    match res {
        Ok(records) => Ok(records.deep_view()),
        Err(e) => Err(e@),
    }
}

/// The value of an outcome without a payload.
pub open spec fn outcome_view(res: Result<(), BankFormatError>) -> Result<(), ErrorView> {
    match res {
        Ok(()) => Ok(()),
        Err(e) => Err(e@),
    }
}

} // verus!
