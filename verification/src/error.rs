use vstd::prelude::*;

verus! {

/// Why a byte string is not the encoding of an instruction or of a record.
#[derive(Clone, Copy, Debug, PartialEq, Eq, Structural)]
pub enum DecodeError {
    /// The tag byte names none of the instruction's variants.
    UnknownVariant,
    /// The bytes are fewer or more than the encoding of the value takes.
    WrongLength,
}

/// Why the account list could not yield the next account.
#[derive(Clone, Copy, Debug, PartialEq, Eq, Structural)]
pub enum ResolutionError {
    /// The instruction names more accounts than the host supplied.
    MissingAccount,
}

/// Why an instruction was refused. Every refusal is final for the
/// invocation and leaves every account as it was.
#[derive(Clone, Copy, Debug, PartialEq, Eq, Structural)]
pub enum TokenError {
    /// The instruction, or a record it operates on, is malformed.
    Decode(DecodeError),
    /// Fewer accounts were supplied than the instruction requires.
    MissingAccount,
    /// An account that has to attest to the instruction did not sign it.
    MissingSignature,
    /// The signing account is not the authority or owner that the record names.
    Unauthorized,
    /// The source balance is below the amount to transfer.
    InsufficientFunds,
    /// A supply or a balance would exceed what its field can represent.
    Overflow,
}

/// A refusal in the vocabulary of the host, which knows nothing of tokens.
#[derive(Clone, Copy, Debug, PartialEq, Eq, Structural)]
pub enum HostError {
    /// The instruction's bytes encode no instruction.
    InvalidInstructionData,
    /// An account's bytes store no record of the kind the instruction needs.
    InvalidAccountData,
    /// The instruction expected further accounts.
    NotEnoughAccountKeys,
    /// A signature was required and not found.
    MissingRequiredSignature,
    /// An account's balance was too small to complete the instruction.
    InsufficientFunds,
    /// An arithmetic operation overflowed.
    ArithmeticOverflow,
}

} // verus!
