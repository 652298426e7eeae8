use crate::error::DecodeError;
use crate::wire::{
    le_bytes, le_bytes_of_value, le_value, le_value_of_bytes, push_amount, read_amount,
};
use vstd::prelude::*;
use vstd::slice::slice_subrange;

verus! {

/// What a client asks of the ledger.
#[derive(Clone, Copy, Debug, PartialEq, Eq, Structural)]
pub enum TokenInstruction {
    /// Initialise a token definition.
    CreateToken,
    /// Initialise a balance account.
    CreateTokenAccount,
    /// Issue `amount` new units into a balance account.
    Mint { amount: u64 },
    /// Move `amount` units from one balance account to another.
    Transfer { amount: u64 },
}

impl TokenInstruction {
    /// The byte that selects this variant.
    pub open spec fn tag(self) -> u8 {
        match self {
            TokenInstruction::CreateToken => 0,
            TokenInstruction::CreateTokenAccount => 1,
            TokenInstruction::Mint { .. } => 2,
            TokenInstruction::Transfer { .. } => 3,
        }
    }

    /// The encoded form: the tag byte, then, for `Mint` and `Transfer`, the
    /// amount as eight little-endian bytes.
    pub open spec fn encoding(self) -> Seq<u8> {
        match self {
            TokenInstruction::CreateToken => seq![0u8],
            TokenInstruction::CreateTokenAccount => seq![1u8],
            TokenInstruction::Mint { amount } => seq![2u8] + le_bytes(amount),
            TokenInstruction::Transfer { amount } => seq![3u8] + le_bytes(amount),
        }
    }

    /// The instruction that `bytes` encode. No bytes at all are of the wrong
    /// length; a first byte above 3 names no variant, whatever follows it;
    /// under a known tag the length has to be the variant's own.
    pub open spec fn decoding(bytes: Seq<u8>) -> Result<TokenInstruction, DecodeError> {
        if bytes.len() == 0 {
            Err(DecodeError::WrongLength)
        } else if bytes[0] > 3 {
            Err(DecodeError::UnknownVariant)
        } else if bytes[0] == 0 || bytes[0] == 1 {
            if bytes.len() != 1 {
                Err(DecodeError::WrongLength)
            } else if bytes[0] == 0 {
                Ok(TokenInstruction::CreateToken)
            } else {
                Ok(TokenInstruction::CreateTokenAccount)
            }
        } else if bytes.len() != 9 {
            Err(DecodeError::WrongLength)
        } else if bytes[0] == 2 {
            Ok(TokenInstruction::Mint { amount: le_value(bytes.subrange(1, 9)) as u64 })
        } else {
            Ok(TokenInstruction::Transfer { amount: le_value(bytes.subrange(1, 9)) as u64 })
        }
    }

    /// The encoded form of this instruction.
    pub fn encode(&self) -> (out: Vec<u8>)
        ensures
            out@ == self.encoding(),
    {
        let mut out: Vec<u8> = Vec::new();
        match self {
            TokenInstruction::CreateToken => {
                out.push(0);
                assert(out@ =~= seq![0u8]);
            },
            TokenInstruction::CreateTokenAccount => {
                out.push(1);
                assert(out@ =~= seq![1u8]);
            },
            TokenInstruction::Mint { amount } => {
                out.push(2);
                assert(out@ =~= seq![2u8]);
                push_amount(&mut out, *amount);
            },
            TokenInstruction::Transfer { amount } => {
                out.push(3);
                assert(out@ =~= seq![3u8]);
                push_amount(&mut out, *amount);
            },
        }
        out
    }

    /// Decodes an instruction. It fails with `UnknownVariant` exactly when
    /// there is a first byte and it is above 3, and with `WrongLength`
    /// exactly when there is no byte, or the tag is known and the bytes are
    /// fewer or more than its variant takes.
    pub fn decode(bytes: &[u8]) -> (r: Result<TokenInstruction, DecodeError>)
        ensures
            r == TokenInstruction::decoding(bytes@),
    {
        if bytes.len() == 0 {
            return Err(DecodeError::WrongLength);
        }
        let tag = bytes[0];
        if tag > 3 {
            return Err(DecodeError::UnknownVariant);
        }
        if tag == 0 || tag == 1 {
            if bytes.len() != 1 {
                return Err(DecodeError::WrongLength);
            }
            if tag == 0 {
                return Ok(TokenInstruction::CreateToken);
            }
            return Ok(TokenInstruction::CreateTokenAccount);
        }
        match read_amount(slice_subrange(bytes, 1, bytes.len())) {
            Ok(amount) => {
                assert(bytes@.subrange(1, bytes@.len() as int) == bytes@.subrange(1, 9));
                if tag == 2 {
                    Ok(TokenInstruction::Mint { amount })
                } else {
                    Ok(TokenInstruction::Transfer { amount })
                }
            },
            Err(_) => Err(DecodeError::WrongLength),
        }
    }
}

/// Decoding undoes encoding: the encoded form of any instruction decodes to
/// that instruction.
pub proof fn instruction_round_trip(instruction: TokenInstruction)
    ensures
        TokenInstruction::decoding(instruction.encoding()) == Ok::<TokenInstruction, DecodeError>(
            instruction,
        ),
{
    let bytes = instruction.encoding();
    match instruction {
        TokenInstruction::Mint { amount } => {
            le_value_of_bytes(amount);
            assert(bytes.subrange(1, 9) =~= le_bytes(amount));
        },
        TokenInstruction::Transfer { amount } => {
            le_value_of_bytes(amount);
            assert(bytes.subrange(1, 9) =~= le_bytes(amount));
        },
        _ => {},
    }
}

/// Encoding undoes decoding: bytes that decode to an instruction are that
/// instruction's encoded form, so no instruction has two encodings.
pub proof fn instruction_encoding_unique(bytes: Seq<u8>)
    requires
        TokenInstruction::decoding(bytes) is Ok,
    ensures
        TokenInstruction::decoding(bytes).unwrap().encoding() == bytes,
{
    let instruction = TokenInstruction::decoding(bytes).unwrap();
    if bytes.len() == 9 {
        le_bytes_of_value(bytes.subrange(1, 9));
    }
    assert(instruction.encoding() =~= bytes);
}

} // verus!
