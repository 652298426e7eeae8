use token_program::account::AccountHandle;
use token_program::error::{DecodeError, TokenError};
use token_program::identity::Identity;
use token_program::instruction::TokenInstruction;
use token_program::state::{Token, TokenAccount};

fn id(byte: u8) -> Identity {
    Identity::new([byte; 32])
}

#[test]
fn identity_equality_compares_every_byte() {
    let mut bytes = [7u8; 32];
    assert_eq!(Identity::new(bytes), id(7));
    bytes[31] = 8;
    assert_ne!(Identity::new(bytes), id(7));
    let mut first = [7u8; 32];
    first[0] = 0;
    assert_ne!(Identity::new(first), id(7));
    assert_eq!(Identity::zero(), id(0));
}

#[test]
fn instruction_encodes_tag_then_little_endian_amount() {
    assert_eq!(TokenInstruction::CreateToken.encode(), vec![0u8]);
    assert_eq!(TokenInstruction::CreateTokenAccount.encode(), vec![1u8]);
    assert_eq!(
        TokenInstruction::Mint { amount: 100 }.encode(),
        vec![2u8, 100, 0, 0, 0, 0, 0, 0, 0]
    );
    assert_eq!(
        TokenInstruction::Transfer { amount: 0x0102_0304_0506_0708 }.encode(),
        vec![3u8, 8, 7, 6, 5, 4, 3, 2, 1]
    );
}

#[test]
fn instruction_decodes_each_variant() {
    assert_eq!(TokenInstruction::decode(&[0]), Ok(TokenInstruction::CreateToken));
    assert_eq!(TokenInstruction::decode(&[1]), Ok(TokenInstruction::CreateTokenAccount));
    assert_eq!(
        TokenInstruction::decode(&[2, 100, 0, 0, 0, 0, 0, 0, 0]),
        Ok(TokenInstruction::Mint { amount: 100 })
    );
    assert_eq!(
        TokenInstruction::decode(&[3, 0, 1, 0, 0, 0, 0, 0, 0]),
        Ok(TokenInstruction::Transfer { amount: 256 })
    );
    assert_eq!(
        TokenInstruction::decode(&[2, 255, 255, 255, 255, 255, 255, 255, 255]),
        Ok(TokenInstruction::Mint { amount: u64::MAX })
    );
}

#[test]
fn instruction_round_trips() {
    let all = [
        TokenInstruction::CreateToken,
        TokenInstruction::CreateTokenAccount,
        TokenInstruction::Mint { amount: 0 },
        TokenInstruction::Mint { amount: 1 << 40 },
        TokenInstruction::Transfer { amount: u64::MAX },
        TokenInstruction::Transfer { amount: 12_345_678_901_234 },
    ];
    for instruction in all {
        let bytes = instruction.encode();
        assert_eq!(TokenInstruction::decode(&bytes), Ok(instruction));
    }
}

#[test]
fn instruction_unknown_tag_is_refused() {
    assert_eq!(TokenInstruction::decode(&[4]), Err(DecodeError::UnknownVariant));
    assert_eq!(TokenInstruction::decode(&[255]), Err(DecodeError::UnknownVariant));
    assert_eq!(
        TokenInstruction::decode(&[9, 1, 2, 3, 4, 5, 6, 7, 8]),
        Err(DecodeError::UnknownVariant)
    );
    assert_eq!(TokenInstruction::decode(&[4, 0]), Err(DecodeError::UnknownVariant));
}

#[test]
fn instruction_wrong_length_is_refused() {
    assert_eq!(TokenInstruction::decode(&[]), Err(DecodeError::WrongLength));
    assert_eq!(TokenInstruction::decode(&[0, 0]), Err(DecodeError::WrongLength));
    assert_eq!(TokenInstruction::decode(&[1, 9]), Err(DecodeError::WrongLength));
    assert_eq!(TokenInstruction::decode(&[2]), Err(DecodeError::WrongLength));
    assert_eq!(TokenInstruction::decode(&[2, 1, 2, 3]), Err(DecodeError::WrongLength));
    assert_eq!(
        TokenInstruction::decode(&[3, 1, 0, 0, 0, 0, 0, 0, 0, 0]),
        Err(DecodeError::WrongLength)
    );
}

#[test]
fn token_encodes_authority_then_supply() {
    let token = Token { authority: id(0xAB), supply: 513 };
    let bytes = token.encode();
    assert_eq!(bytes.len(), 40);
    assert_eq!(&bytes[..32], &[0xABu8; 32][..]);
    assert_eq!(&bytes[32..], &[1u8, 2, 0, 0, 0, 0, 0, 0][..]);
}

#[test]
fn token_account_encodes_owner_token_amount() {
    let account = TokenAccount { owner: id(1), token: id(2), amount: 0xFF00 };
    let bytes = account.encode();
    assert_eq!(bytes.len(), 72);
    assert_eq!(&bytes[..32], &[1u8; 32][..]);
    assert_eq!(&bytes[32..64], &[2u8; 32][..]);
    assert_eq!(&bytes[64..], &[0u8, 0xFF, 0, 0, 0, 0, 0, 0][..]);
}

#[test]
fn token_round_trips() {
    for supply in [0u64, 1, 100, 1 << 33, u64::MAX] {
        let mut raw = [0u8; 32];
        for (i, b) in raw.iter_mut().enumerate() {
            *b = i as u8;
        }
        let token = Token { authority: Identity::new(raw), supply };
        assert_eq!(Token::decode(&token.encode()), Ok(token));
    }
}

#[test]
fn token_account_round_trips() {
    for amount in [0u64, 60, 40, 1 << 63, u64::MAX] {
        let mut raw = [0u8; 32];
        for (i, b) in raw.iter_mut().enumerate() {
            *b = 255 - i as u8;
        }
        let account = TokenAccount { owner: Identity::new(raw), token: id(3), amount };
        assert_eq!(TokenAccount::decode(&account.encode()), Ok(account));
    }
}

#[test]
fn encoding_is_the_inverse_of_decoding() {
    let mut bytes = Vec::new();
    for i in 0..40u8 {
        bytes.push(i.wrapping_mul(7));
    }
    let token = Token::decode(&bytes).unwrap();
    assert_eq!(token.encode(), bytes);
    let mut bytes = Vec::new();
    for i in 0..72u8 {
        bytes.push(i.wrapping_mul(11).wrapping_add(3));
    }
    let account = TokenAccount::decode(&bytes).unwrap();
    assert_eq!(account.encode(), bytes);
}

#[test]
fn record_of_wrong_length_is_refused() {
    assert_eq!(Token::decode(&[]), Err(DecodeError::WrongLength));
    assert_eq!(Token::decode(&[0u8; 39]), Err(DecodeError::WrongLength));
    assert_eq!(Token::decode(&[0u8; 41]), Err(DecodeError::WrongLength));
    assert_eq!(Token::decode(&[0u8; 72]), Err(DecodeError::WrongLength));
    assert_eq!(TokenAccount::decode(&[]), Err(DecodeError::WrongLength));
    assert_eq!(TokenAccount::decode(&[0u8; 71]), Err(DecodeError::WrongLength));
    assert_eq!(TokenAccount::decode(&[0u8; 73]), Err(DecodeError::WrongLength));
    assert_eq!(TokenAccount::decode(&[0u8; 40]), Err(DecodeError::WrongLength));
}

#[test]
fn zeroed_slot_decodes_to_zeroed_record() {
    assert_eq!(Token::decode(&[0u8; 40]), Ok(Token { authority: id(0), supply: 0 }));
    assert_eq!(Token::zeroed(), Token { authority: id(0), supply: 0 });
    assert_eq!(
        TokenAccount::decode(&[0u8; 72]),
        Ok(TokenAccount { owner: id(0), token: id(0), amount: 0 })
    );
    assert_eq!(TokenAccount::zeroed(), TokenAccount { owner: id(0), token: id(0), amount: 0 });
}

#[test]
fn load_reads_the_account_data() {
    let token = Token { authority: id(5), supply: 77 };
    let handle = AccountHandle::new(id(9), false, token.encode());
    assert_eq!(Token::load(&handle), Ok(token));
    assert_eq!(
        TokenAccount::load(&handle),
        Err(TokenError::Decode(DecodeError::WrongLength))
    );
    let account = TokenAccount { owner: id(1), token: id(9), amount: 3 };
    let handle = AccountHandle::new(id(10), true, account.encode());
    assert_eq!(TokenAccount::load(&handle), Ok(account));
    assert_eq!(Token::load(&handle), Err(TokenError::Decode(DecodeError::WrongLength)));
}

#[test]
fn load_unchecked_accepts_any_slot() {
    let empty = AccountHandle::new(id(9), false, Vec::new());
    assert_eq!(Token::load_unchecked(&empty), Token::zeroed());
    assert_eq!(TokenAccount::load_unchecked(&empty), TokenAccount::zeroed());
    let odd = AccountHandle::new(id(9), false, vec![0xEE; 17]);
    assert_eq!(Token::load_unchecked(&odd), Token::zeroed());
    assert_eq!(TokenAccount::load_unchecked(&odd), TokenAccount::zeroed());
    let token = Token { authority: id(5), supply: 77 };
    let stored = AccountHandle::new(id(9), false, token.encode());
    assert_eq!(Token::load_unchecked(&stored), token);
    assert_eq!(TokenAccount::load_unchecked(&stored), TokenAccount::zeroed());
}

#[test]
fn save_replaces_the_data_and_keeps_key_and_signer() {
    let mut handle = AccountHandle::new(id(9), true, vec![1, 2, 3]);
    let token = Token { authority: id(5), supply: 77 };
    token.save(&mut handle);
    assert_eq!(handle.key, id(9));
    assert!(handle.is_signer);
    assert_eq!(handle.data, token.encode());
    assert_eq!(Token::load(&handle), Ok(token));
    let account = TokenAccount { owner: id(1), token: id(9), amount: 3 };
    account.save(&mut handle);
    assert_eq!(handle.key, id(9));
    assert!(handle.is_signer);
    assert_eq!(handle.data, account.encode());
    assert_eq!(TokenAccount::load(&handle), Ok(account));
}
