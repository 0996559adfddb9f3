//! What can go wrong while a PBH transaction is put together.
use vstd::prelude::*;

verus! {

/// A configuration value that cannot be used.
#[derive(Clone, Copy, Debug, PartialEq, Eq, Structural)]
pub enum ConfigError {
    /// The identity secret is not standard base64.
    SecretNotBase64,
    /// The identity secret does not decode to 64 bytes.
    SecretWrongLength,
    /// An address is not 20 bytes.
    BadAddress,
}

/// A failure that the proof backend reports.
#[derive(Clone, Copy, Debug, PartialEq, Eq, Structural)]
pub enum ProofError {
    /// No membership witness is held for the identity.
    NotEnrolled,
    /// The proving computation failed.
    GenerationFailed,
    /// The witness is for a root that the chain no longer accepts.
    StaleRoot,
}

/// A failure that the transaction broadcaster reports.
#[derive(Clone, Copy, Debug, PartialEq, Eq, Structural)]
pub enum SubmissionError {
    /// The entry point reverted because the nullifier hash is already spent.
    NullifierAlreadyUsed,
    /// The transaction reverted for another reason.
    Reverted,
    /// The transaction did not reach the chain.
    NetworkFailure,
}

/// Every failure of a transaction attempt, with the slot or period it
/// concerns where there is one.
#[derive(Clone, Copy, Debug, PartialEq, Eq, Structural)]
pub enum PbhError {
    Config(ConfigError),
    /// Every slot of the period is spent.
    AllocationExhausted { day: u32 },
    /// The chain lookup for this slot of this period failed; nothing is
    /// known of it.
    ChainRead { slot: u16, day: u32 },
    Proof(ProofError),
    Submission(SubmissionError),
    /// A length or offset of the call data does not fit its word.
    Encoding,
    /// The clock reads a time before 1970 or past the last numbered period.
    ClockOutOfRange,
}

} // verus!
