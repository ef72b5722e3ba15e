//! What the ledger's operations report when they refuse.

use vstd::prelude::*;

verus! {

/// A refusal by the ledger, with the message for the caller.
#[derive(Debug)]
pub enum BlockchainError {
    /// Signature data is missing or cannot be decoded.
    ValidationError { content: String },
    /// A fault that is not the caller's.
    InternalError { content: String },
    /// A transaction breaks a rule of the ledger.
    TransactionError { content: String },
    /// A key was asked to sign for an address that is not its own.
    SigningError { content: String },
}

impl BlockchainError {
    /// The message of the refusal.
    pub open spec fn content(self) -> Seq<char> {
        match self {
            BlockchainError::ValidationError { content } => content@,
            BlockchainError::InternalError { content } => content@,
            BlockchainError::TransactionError { content } => content@,
            BlockchainError::SigningError { content } => content@,
        }
    }

    /// The message of the refusal.
    pub fn message(&self) -> (out: String)
        ensures
            out@ == self.content(),
    {
        match self {
            BlockchainError::ValidationError { content } => content.clone(),
            BlockchainError::InternalError { content } => content.clone(),
            BlockchainError::TransactionError { content } => content.clone(),
            BlockchainError::SigningError { content } => content.clone(),
        }
    }

    /// The HTTP status that answers this refusal: 400 for bad signature data,
    /// 500 for an internal fault, 406 for a refused transaction or signing.
    pub fn status_code(&self) -> (code: u16)
        ensures
            code == match self {
                BlockchainError::ValidationError { .. } => 400u16,
                BlockchainError::InternalError { .. } => 500u16,
                BlockchainError::TransactionError { .. } => 406u16,
                BlockchainError::SigningError { .. } => 406u16,
            },
    {
        match self {
            BlockchainError::ValidationError { .. } => 400,
            BlockchainError::InternalError { .. } => 500,
            BlockchainError::TransactionError { .. } => 406,
            BlockchainError::SigningError { .. } => 406,
        }
    }
}

} // verus!
