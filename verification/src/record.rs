//! The record model: one ledger event and its two closed enumerations.
//!
//! Every codec speaks of a transaction through [`TransactionView`], the
//! mathematical value of a [`Transaction`]: the same seven fields, with the
//! description as a sequence of characters.

use vstd::prelude::*;
use vstd::std_specs::cmp::PartialEqSpecImpl;

verus! {

/// Unique transaction identifier type.
pub type TxId = u64;

/// The type of a bank transaction.
#[derive(Debug, Clone, Copy, Hash, PartialEq, Eq, Structural)]
pub enum TxType {
    /// Funds deposited into the system.
    Deposit,
    /// Funds transferred between two users.
    Transfer,
    /// Funds withdrawn from the system.
    Withdrawal,
}

/// The status of a bank transaction.
#[derive(Debug, Clone, Copy, Hash, PartialEq, Eq, Structural)]
pub enum Status {
    /// Transaction completed successfully.
    Success,
    /// Transaction failed.
    Failure,
    /// Transaction is pending processing.
    Pending,
}

impl TxType {
    /// The byte that stands for this variant on the wire.
    pub open spec fn spec_code(self) -> u8 {
        match self {
            TxType::Deposit => 0,
            TxType::Transfer => 1,
            TxType::Withdrawal => 2,
        }
    }

    /// The variant that a wire byte stands for, if any.
    pub open spec fn spec_from_code(code: u8) -> Option<TxType> {
        if code == 0 {
            Some(TxType::Deposit)
        } else if code == 1 {
            Some(TxType::Transfer)
        } else if code == 2 {
            Some(TxType::Withdrawal)
        } else {
            None
        }
    }

    /// The canonical token of this variant in the text formats.
    pub open spec fn spec_token(self) -> Seq<char> {
        match self {
            TxType::Deposit => "DEPOSIT"@,
            TxType::Transfer => "TRANSFER"@,
            TxType::Withdrawal => "WITHDRAWAL"@,
        }
    }

    /// The variant that a token names, if any. Tokens are case-sensitive.
    pub open spec fn spec_from_token(token: Seq<char>) -> Option<TxType> {
        if token == "DEPOSIT"@ {
            Some(TxType::Deposit)
        } else if token == "TRANSFER"@ {
            Some(TxType::Transfer)
        } else if token == "WITHDRAWAL"@ {
            Some(TxType::Withdrawal)
        } else {
            None
        }
    }

    /// The byte that stands for this variant on the wire.
    #[verifier::when_used_as_spec(spec_code)]
    pub fn code(self) -> (code: u8)
        ensures
            code == self.spec_code(),
    {
        match self {
            TxType::Deposit => 0,
            TxType::Transfer => 1,
            TxType::Withdrawal => 2,
        }
    }

    /// The variant that a wire byte stands for; `None` for any other byte.
    pub fn from_code(code: u8) -> (kind: Option<TxType>)
        ensures
            kind == Self::spec_from_code(code),
    {
        if code == 0 {
            Some(TxType::Deposit)
        } else if code == 1 {
            Some(TxType::Transfer)
        } else if code == 2 {
            Some(TxType::Withdrawal)
        } else {
            None
        }
    }

    /// The canonical token, as written by every text codec.
    pub fn as_str(&self) -> (token: &'static str)
        ensures
            token@ == self.spec_token(),
    {
        match self {
            TxType::Deposit => "DEPOSIT",
            TxType::Transfer => "TRANSFER",
            TxType::Withdrawal => "WITHDRAWAL",
        }
    }

    /// The variant that a token names; `None` for any other text.
    pub fn from_token(token: &str) -> (kind: Option<TxType>)
        ensures
            kind == Self::spec_from_token(token@),
    {
        if crate::text::str_eq(token, "DEPOSIT") {
            Some(TxType::Deposit)
        } else if crate::text::str_eq(token, "TRANSFER") {
            Some(TxType::Transfer)
        } else if crate::text::str_eq(token, "WITHDRAWAL") {
            Some(TxType::Withdrawal)
        } else {
            None
        }
    }

    /// Byte codes and variants correspond one to one.
    pub proof fn lemma_code_round_trip(self)
        ensures
            Self::spec_from_code(self.spec_code()) == Some(self),
            self.spec_code() <= 2,
    {
    }

    /// Tokens and variants correspond one to one.
    pub proof fn lemma_token_round_trip(self)
        ensures
            Self::spec_from_token(self.spec_token()) == Some(self),
    {
        reveal_strlit("DEPOSIT");
        reveal_strlit("TRANSFER");
        reveal_strlit("WITHDRAWAL");
        assert("DEPOSIT"@.len() == 7);
        assert("TRANSFER"@.len() == 8);
        assert("WITHDRAWAL"@.len() == 10);
    }
}

impl Status {
    /// The byte that stands for this variant on the wire.
    pub open spec fn spec_code(self) -> u8 {
        match self {
            Status::Success => 0,
            Status::Failure => 1,
            Status::Pending => 2,
        }
    }

    /// The variant that a wire byte stands for, if any.
    pub open spec fn spec_from_code(code: u8) -> Option<Status> {
        if code == 0 {
            Some(Status::Success)
        } else if code == 1 {
            Some(Status::Failure)
        } else if code == 2 {
            Some(Status::Pending)
        } else {
            None
        }
    }

    /// The canonical token of this variant in the text formats.
    pub open spec fn spec_token(self) -> Seq<char> {
        match self {
            Status::Success => "SUCCESS"@,
            Status::Failure => "FAILURE"@,
            Status::Pending => "PENDING"@,
        }
    }

    /// The variant that a token names, if any. Tokens are case-sensitive.
    pub open spec fn spec_from_token(token: Seq<char>) -> Option<Status> {
        if token == "SUCCESS"@ {
            Some(Status::Success)
        } else if token == "FAILURE"@ {
            Some(Status::Failure)
        } else if token == "PENDING"@ {
            Some(Status::Pending)
        } else {
            None
        }
    }

    /// The byte that stands for this variant on the wire.
    #[verifier::when_used_as_spec(spec_code)]
    pub fn code(self) -> (code: u8)
        ensures
            code == self.spec_code(),
    {
        match self {
            Status::Success => 0,
            Status::Failure => 1,
            Status::Pending => 2,
        }
    }

    /// The variant that a wire byte stands for; `None` for any other byte.
    pub fn from_code(code: u8) -> (status: Option<Status>)
        ensures
            status == Self::spec_from_code(code),
    {
        if code == 0 {
            Some(Status::Success)
        } else if code == 1 {
            Some(Status::Failure)
        } else if code == 2 {
            Some(Status::Pending)
        } else {
            None
        }
    }

    /// The canonical token, as written by every text codec.
    pub fn as_str(&self) -> (token: &'static str)
        ensures
            token@ == self.spec_token(),
    {
        match self {
            Status::Success => "SUCCESS",
            Status::Failure => "FAILURE",
            Status::Pending => "PENDING",
        }
    }

    /// The variant that a token names; `None` for any other text.
    pub fn from_token(token: &str) -> (status: Option<Status>)
        ensures
            status == Self::spec_from_token(token@),
    {
        if crate::text::str_eq(token, "SUCCESS") {
            Some(Status::Success)
        } else if crate::text::str_eq(token, "FAILURE") {
            Some(Status::Failure)
        } else if crate::text::str_eq(token, "PENDING") {
            Some(Status::Pending)
        } else {
            None
        }
    }

    /// Byte codes and variants correspond one to one.
    pub proof fn lemma_code_round_trip(self)
        ensures
            Self::spec_from_code(self.spec_code()) == Some(self),
            self.spec_code() <= 2,
    {
    }

    /// Tokens and variants correspond one to one.
    pub proof fn lemma_token_round_trip(self)
        ensures
            Self::spec_from_token(self.spec_token()) == Some(self),
    {
        reveal_strlit("SUCCESS");
        reveal_strlit("FAILURE");
        reveal_strlit("PENDING");
        assert("SUCCESS"@[0] == 'S');
        assert("FAILURE"@[0] == 'F');
        assert("PENDING"@[0] == 'P');
    }
}

/// Represents a single bank transaction.
#[derive(Debug, Hash)]
pub struct Transaction {
    /// Unique transaction identifier.
    pub tx_id: TxId,
    /// Type of the transaction.
    pub tx_type: TxType,
    /// Sender user ID. For system deposits (`DEPOSIT`), this is `0`.
    pub from_user_id: i64,
    /// Recipient user ID. For system withdrawals (`WITHDRAWAL`), this is `0`.
    pub to_user_id: i64,
    /// Transaction amount in smallest currency units (e.g. cents).
    pub amount: i64,
    /// Unix timestamp in milliseconds since epoch.
    pub timestamp: i64,
    /// Current status of the transaction.
    pub status: Status,
    /// Human-readable description of the transaction.
    pub description: String,
}

/// The mathematical value of a [`Transaction`].
pub struct TransactionView {
    pub tx_id: TxId,
    pub tx_type: TxType,
    pub from_user_id: i64,
    pub to_user_id: i64,
    pub amount: i64,
    pub timestamp: i64,
    pub status: Status,
    pub description: Seq<char>,
}

impl View for Transaction {
    type V = TransactionView;

    open spec fn view(&self) -> TransactionView {
        TransactionView {
            tx_id: self.tx_id,
            tx_type: self.tx_type,
            from_user_id: self.from_user_id,
            to_user_id: self.to_user_id,
            amount: self.amount,
            timestamp: self.timestamp,
            status: self.status,
            description: self.description@,
        }
    }
}

impl DeepView for Transaction {
    type V = TransactionView;

    open spec fn deep_view(&self) -> TransactionView {
        self@
    }
}

impl Clone for Transaction {
    fn clone(&self) -> (copy: Self)
        ensures
            copy@ == self@,
    {
        Transaction {
            tx_id: self.tx_id,
            tx_type: self.tx_type,
            from_user_id: self.from_user_id,
            to_user_id: self.to_user_id,
            amount: self.amount,
            timestamp: self.timestamp,
            status: self.status,
            description: self.description.clone(),
        }
    }
}

impl PartialEq for Transaction {
    /// Structural equality over all seven fields.
    fn eq(&self, other: &Self) -> (equal: bool) {
        self.tx_id == other.tx_id && self.tx_type == other.tx_type && self.from_user_id
            == other.from_user_id && self.to_user_id == other.to_user_id && self.amount
            == other.amount && self.timestamp == other.timestamp && self.status == other.status
            && self.description == other.description
    }
}

impl Eq for Transaction {

}

impl PartialEqSpecImpl for Transaction {
    open spec fn obeys_eq_spec() -> bool {
        true
    }

    open spec fn eq_spec(&self, other: &Self) -> bool {
        self@ == other@
    }
}

} // verus!
