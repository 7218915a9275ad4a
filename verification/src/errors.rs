use vstd::prelude::*;
use crate::b256::B256;

verus! {

/// Failure taxonomy of the deposit-tracking core.
///
/// `InvalidSecret` aborts the affected key's operations; `TreeFull` and
/// `IndexOutOfRange` are capacity and programming errors; `DepositNotIndexed`
/// marks a witness request whose deposit was never ingested;
/// `ConfirmationTimeout` carries the transaction identifier whose receipt
/// never arrived within the retry budget; `NetworkError` is a transient
/// transport failure reported by a collaborator.
#[derive(Clone, Copy, Debug, PartialEq, Eq, Structural)]
pub enum MiningError {
    InvalidSecret,
    TreeFull,
    IndexOutOfRange,
    DepositNotIndexed,
    ConfirmationTimeout { tx_id: B256 },
    NetworkError,
}

impl MiningError {
    /// A short human-readable label for logs and operator messages.
    pub fn label(&self) -> (r: &'static str)
        ensures
            (*self is InvalidSecret) ==> r@ == "invalid secret"@,
            (*self is TreeFull) ==> r@ == "tree full"@,
            (*self is IndexOutOfRange) ==> r@ == "index out of range"@,
            (*self is DepositNotIndexed) ==> r@ == "deposit not indexed"@,
            (*self is ConfirmationTimeout) ==> r@ == "confirmation timeout"@,
            (*self is NetworkError) ==> r@ == "network error"@,
    {
        match self {
            MiningError::InvalidSecret => "invalid secret",
            MiningError::TreeFull => "tree full",
            MiningError::IndexOutOfRange => "index out of range",
            MiningError::DepositNotIndexed => "deposit not indexed",
            MiningError::ConfirmationTimeout { .. } => "confirmation timeout",
            MiningError::NetworkError => "network error",
        }
    }
}

} // verus!
