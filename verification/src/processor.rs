use crate::account::{account_views, AccountCursor, AccountHandle, AccountView};
use crate::error::{DecodeError, HostError, TokenError};
use crate::identity::Identity;
use crate::instruction::TokenInstruction;
use crate::state::{Token, TokenAccount, TokenAccountView, TokenView};
use vstd::prelude::*;

verus! {

/// The account `account` with `data` stored in it.
pub open spec fn with_data(account: AccountView, data: Seq<u8>) -> AccountView {
    AccountView { key: account.key, is_signer: account.is_signer, data }
}

/// What `CreateToken` makes of the accounts it is given: the slot in first
/// place comes to store a definition with no supply, whose authority is the
/// account in second place.
pub open spec fn create_token_outcome(accounts: Seq<AccountView>) -> Result<
    Seq<AccountView>,
    TokenError,
> {
    if accounts.len() < 2 {
        Err(TokenError::MissingAccount)
    } else {
        let token = TokenView { authority: accounts[1].key, supply: 0 };
        Ok(accounts.update(0, with_data(accounts[0], token.encoding())))
    }
}

/// What `CreateTokenAccount` makes of the accounts it is given: the slot in
/// first place comes to store an empty balance of the token in second place,
/// owned by the account in third place.
pub open spec fn create_token_account_outcome(accounts: Seq<AccountView>) -> Result<
    Seq<AccountView>,
    TokenError,
> {
    if accounts.len() < 3 {
        Err(TokenError::MissingAccount)
    } else {
        let account = TokenAccountView {
            owner: accounts[2].key,
            token: accounts[1].key,
            amount: 0,
        };
        Ok(accounts.update(0, with_data(accounts[0], account.encoding())))
    }
}

/// What `Mint` makes of the accounts it is given: destination balance
/// account, token definition, token authority. The checks come in this
/// order, and the first that fails decides the error: three accounts are
/// there; both records decode; the authority signed; the authority is the
/// one the definition names; neither the supply nor the balance outgrows its
/// field. Then both grow by `amount`.
pub open spec fn mint_outcome(accounts: Seq<AccountView>, amount: u64) -> Result<
    Seq<AccountView>,
    TokenError,
> {
    if accounts.len() < 3 {
        Err(TokenError::MissingAccount)
    } else {
        match (
            TokenAccountView::decoding(accounts[0].data),
            TokenView::decoding(accounts[1].data),
        ) {
            (Some(destination), Some(token)) => {
                if !accounts[2].is_signer {
                    Err(TokenError::MissingSignature)
                } else if accounts[2].key != token.authority {
                    Err(TokenError::Unauthorized)
                } else if token.supply + amount > u64::MAX || destination.amount + amount
                    > u64::MAX {
                    Err(TokenError::Overflow)
                } else {
                    let minted = TokenView {
                        authority: token.authority,
                        supply: (token.supply + amount) as u64,
                    };
                    let credited = TokenAccountView {
                        owner: destination.owner,
                        token: destination.token,
                        amount: (destination.amount + amount) as u64,
                    };
                    Ok(
                        accounts.update(0, with_data(accounts[0], credited.encoding())).update(
                            1,
                            with_data(accounts[1], minted.encoding()),
                        ),
                    )
                }
            },
            _ => Err(TokenError::Decode(DecodeError::WrongLength)),
        }
    }
}

/// What `Transfer` makes of the accounts it is given: source balance
/// account, destination balance account, owner. The checks come in this
/// order, and the first that fails decides the error: three accounts are
/// there; both records decode; the owner signed; the owner is the one the
/// source names; the source holds at least `amount`. Where source and
/// destination are then one account, by their address, nothing moves: both
/// handles come to store the source's record, with the balance it had.
/// Otherwise the destination's balance must not outgrow its field, and
/// `amount` leaves the source and reaches the destination.
pub open spec fn transfer_outcome(accounts: Seq<AccountView>, amount: u64) -> Result<
    Seq<AccountView>,
    TokenError,
> {
    if accounts.len() < 3 {
        Err(TokenError::MissingAccount)
    } else {
        match (
            TokenAccountView::decoding(accounts[0].data),
            TokenAccountView::decoding(accounts[1].data),
        ) {
            (Some(source), Some(destination)) => {
                if !accounts[2].is_signer {
                    Err(TokenError::MissingSignature)
                } else if accounts[2].key != source.owner {
                    Err(TokenError::Unauthorized)
                } else if source.amount < amount {
                    Err(TokenError::InsufficientFunds)
                } else if accounts[0].key == accounts[1].key {
                    Ok(
                        accounts.update(0, with_data(accounts[0], source.encoding())).update(
                            1,
                            with_data(accounts[1], source.encoding()),
                        ),
                    )
                } else if destination.amount + amount > u64::MAX {
                    Err(TokenError::Overflow)
                } else {
                    let debited = TokenAccountView {
                        owner: source.owner,
                        token: source.token,
                        amount: (source.amount - amount) as u64,
                    };
                    let credited = TokenAccountView {
                        owner: destination.owner,
                        token: destination.token,
                        amount: (destination.amount + amount) as u64,
                    };
                    Ok(
                        accounts.update(0, with_data(accounts[0], debited.encoding())).update(
                            1,
                            with_data(accounts[1], credited.encoding()),
                        ),
                    )
                }
            },
            _ => Err(TokenError::Decode(DecodeError::WrongLength)),
        }
    }
}

/// What an instruction makes of the accounts it is given.
pub open spec fn route_outcome(instruction: TokenInstruction, accounts: Seq<AccountView>) -> Result<
    Seq<AccountView>,
    TokenError,
> {
    match instruction {
        TokenInstruction::CreateToken => create_token_outcome(accounts),
        TokenInstruction::CreateTokenAccount => create_token_account_outcome(accounts),
        TokenInstruction::Mint { amount } => mint_outcome(accounts, amount),
        TokenInstruction::Transfer { amount } => transfer_outcome(accounts, amount),
    }
}

/// What an encoded instruction makes of the accounts it is given: bytes that
/// encode no instruction are refused before any account is looked at.
pub open spec fn process_outcome(accounts: Seq<AccountView>, instruction_data: Seq<u8>) -> Result<
    Seq<AccountView>,
    TokenError,
> {
    match TokenInstruction::decoding(instruction_data) {
        Ok(instruction) => route_outcome(instruction, accounts),
        Err(e) => Err(TokenError::Decode(e)),
    }
}

/// The host's word for a refusal. A decode error is laid to the instruction
/// where the instruction itself does not decode, and to the accounts' data
/// otherwise; a signer who is not the authority or owner on record counts,
/// to the host, as a signature that is missing.
pub open spec fn host_error_of(error: TokenError, instruction_data: Seq<u8>) -> HostError {
    match error {
        TokenError::Decode(_) => if TokenInstruction::decoding(instruction_data) is Err {
            HostError::InvalidInstructionData
        } else {
            HostError::InvalidAccountData
        },
        TokenError::MissingAccount => HostError::NotEnoughAccountKeys,
        TokenError::MissingSignature => HostError::MissingRequiredSignature,
        TokenError::Unauthorized => HostError::MissingRequiredSignature,
        TokenError::InsufficientFunds => HostError::InsufficientFunds,
        TokenError::Overflow => HostError::ArithmeticOverflow,
    }
}

/// That a call which found the accounts as `before`, left them as `after`
/// and returned `result` did what `outcome` prescribes: on success the
/// accounts are the prescribed ones, and on a refusal the error is the
/// prescribed one and every account is as it was.
pub open spec fn carried_out(
    outcome: Result<Seq<AccountView>, TokenError>,
    before: Seq<AccountHandle>,
    after: Seq<AccountHandle>,
    result: Result<(), TokenError>,
) -> bool {
    match outcome {
        Ok(views) => result == Ok::<(), TokenError>(()) && account_views(after) == views,
        Err(e) => result == Err::<(), TokenError>(e) && after == before,
    }
}

/// The position of the next account, or `MissingAccount`.
fn next_account(cursor: &mut AccountCursor, accounts: &Vec<AccountHandle>) -> (r: Result<
    usize,
    TokenError,
>)
    ensures
        old(cursor).position < accounts@.len() ==> r == Ok::<usize, TokenError>(
            old(cursor).position,
        ) && final(cursor).position == old(cursor).position + 1,
        old(cursor).position >= accounts@.len() ==> r == Err::<usize, TokenError>(
            TokenError::MissingAccount,
        ) && *final(cursor) == *old(cursor),
{
    match cursor.next(accounts) {
        Ok(position) => Ok(position),
        Err(_) => Err(TokenError::MissingAccount),
    }
}

/// The instruction processor: decodes an instruction, resolves the accounts
/// it names by position, checks that it is authorised and applies it.
pub struct Processor {}

impl Processor {
    /// Initialises the token definition in the first account, with the
    /// second account as its authority and no supply.
    pub fn create_token(accounts: &mut Vec<AccountHandle>) -> (r: Result<(), TokenError>)
        ensures
            carried_out(
                create_token_outcome(account_views(old(accounts)@)),
                old(accounts)@,
                final(accounts)@,
                r,
            ),
    {
        let mut cursor = AccountCursor::new();
        let slot = next_account(&mut cursor, accounts)?;
        let authority = next_account(&mut cursor, accounts)?;
        let mut token = Token::load_unchecked(&accounts[slot]);
        token.authority = accounts[authority].key;
        token.supply = 0;
        token.save(&mut accounts[slot]);
        assert(account_views(accounts@) =~= create_token_outcome(
            account_views(old(accounts)@),
        ).unwrap());
        Ok(())
    }

    /// Initialises the balance account in the first account, for the token
    /// in the second account and the owner in the third, with no balance.
    pub fn create_token_account(accounts: &mut Vec<AccountHandle>) -> (r: Result<(), TokenError>)
        ensures
            carried_out(
                create_token_account_outcome(account_views(old(accounts)@)),
                old(accounts)@,
                final(accounts)@,
                r,
            ),
    {
        let mut cursor = AccountCursor::new();
        let slot = next_account(&mut cursor, accounts)?;
        let token = next_account(&mut cursor, accounts)?;
        let owner = next_account(&mut cursor, accounts)?;
        let mut account = TokenAccount::load_unchecked(&accounts[slot]);
        account.owner = accounts[owner].key;
        account.token = accounts[token].key;
        account.amount = 0;
        account.save(&mut accounts[slot]);
        assert(account_views(accounts@) =~= create_token_account_outcome(
            account_views(old(accounts)@),
        ).unwrap());
        Ok(())
    }

    /// Issues `amount` new units of the token in the second account into the
    /// balance account in the first, on the signature of the token's
    /// authority in the third.
    pub fn mint(accounts: &mut Vec<AccountHandle>, amount: u64) -> (r: Result<(), TokenError>)
        ensures
            carried_out(
                mint_outcome(account_views(old(accounts)@), amount),
                old(accounts)@,
                final(accounts)@,
                r,
            ),
    {
        let mut cursor = AccountCursor::new();
        let destination = next_account(&mut cursor, accounts)?;
        let definition = next_account(&mut cursor, accounts)?;
        let authority = next_account(&mut cursor, accounts)?;
        let mut token_account = TokenAccount::load(&accounts[destination])?;
        let mut token = Token::load(&accounts[definition])?;
        if !accounts[authority].is_signer {
            return Err(TokenError::MissingSignature);
        }
        if accounts[authority].key != token.authority {
            return Err(TokenError::Unauthorized);
        }
        let supply = match token.supply.checked_add(amount) {
            Some(sum) => sum,
            None => {
                return Err(TokenError::Overflow);
            },
        };
        let balance = match token_account.amount.checked_add(amount) {
            Some(sum) => sum,
            None => {
                return Err(TokenError::Overflow);
            },
        };
        token.supply = supply;
        token_account.amount = balance;
        token_account.save(&mut accounts[destination]);
        token.save(&mut accounts[definition]);
        assert(account_views(accounts@) =~= mint_outcome(
            account_views(old(accounts)@),
            amount,
        ).unwrap());
        Ok(())
    }

    /// Moves `amount` units from the balance account in the first account to
    /// the one in the second, on the signature of the source's owner in the
    /// third. Between an account and itself nothing moves.
    pub fn transfer(accounts: &mut Vec<AccountHandle>, amount: u64) -> (r: Result<(), TokenError>)
        ensures
            carried_out(
                transfer_outcome(account_views(old(accounts)@), amount),
                old(accounts)@,
                final(accounts)@,
                r,
            ),
    {
        let mut cursor = AccountCursor::new();
        let source = next_account(&mut cursor, accounts)?;
        let destination = next_account(&mut cursor, accounts)?;
        let owner = next_account(&mut cursor, accounts)?;
        let mut src_token_account = TokenAccount::load(&accounts[source])?;
        let mut dst_token_account = TokenAccount::load(&accounts[destination])?;
        if !accounts[owner].is_signer {
            return Err(TokenError::MissingSignature);
        }
        if accounts[owner].key != src_token_account.owner {
            return Err(TokenError::Unauthorized);
        }
        if src_token_account.amount < amount {
            return Err(TokenError::InsufficientFunds);
        }
        if accounts[source].key == accounts[destination].key {
            src_token_account.save(&mut accounts[source]);
            src_token_account.save(&mut accounts[destination]);
            assert(account_views(accounts@) =~= transfer_outcome(
                account_views(old(accounts)@),
                amount,
            ).unwrap());
            return Ok(());
        }
        let credited = match dst_token_account.amount.checked_add(amount) {
            Some(sum) => sum,
            None => {
                return Err(TokenError::Overflow);
            },
        };
        src_token_account.amount = src_token_account.amount - amount;
        dst_token_account.amount = credited;
        src_token_account.save(&mut accounts[source]);
        dst_token_account.save(&mut accounts[destination]);
        assert(account_views(accounts@) =~= transfer_outcome(
            account_views(old(accounts)@),
            amount,
        ).unwrap());
        Ok(())
    }

    /// Applies a decoded instruction to the accounts it names.
    pub fn route(instruction: TokenInstruction, accounts: &mut Vec<AccountHandle>) -> (r: Result<
        (),
        TokenError,
    >)
        ensures
            carried_out(
                route_outcome(instruction, account_views(old(accounts)@)),
                old(accounts)@,
                final(accounts)@,
                r,
            ),
    {
        match instruction {
            TokenInstruction::CreateToken => Processor::create_token(accounts),
            TokenInstruction::CreateTokenAccount => Processor::create_token_account(accounts),
            TokenInstruction::Mint { amount } => Processor::mint(accounts, amount),
            TokenInstruction::Transfer { amount } => Processor::transfer(accounts, amount),
        }
    }

    /// Puts the refusal of an instruction that was given as
    /// `instruction_data` into the words of the host.
    pub fn host_error(error: TokenError, instruction_data: &[u8]) -> (e: HostError)
        ensures
            e == host_error_of(error, instruction_data@),
    {
        match error {
            TokenError::Decode(_) => match TokenInstruction::decode(instruction_data) {
                Ok(_) => HostError::InvalidAccountData,
                Err(_) => HostError::InvalidInstructionData,
            },
            TokenError::MissingAccount => HostError::NotEnoughAccountKeys,
            TokenError::MissingSignature => HostError::MissingRequiredSignature,
            TokenError::Unauthorized => HostError::MissingRequiredSignature,
            TokenError::InsufficientFunds => HostError::InsufficientFunds,
            TokenError::Overflow => HostError::ArithmeticOverflow,
        }
    }

    /// Processes one instruction: decodes `instruction_data` and applies the
    /// instruction to `accounts`, which the host supplied in the order the
    /// instruction expects. Either the whole instruction takes effect or, on
    /// any error, no account changes.
    pub fn process_instruction(
        _program_id: &Identity,
        accounts: &mut Vec<AccountHandle>,
        instruction_data: &[u8],
    ) -> (r: Result<(), TokenError>)
        ensures
            carried_out(
                process_outcome(account_views(old(accounts)@), instruction_data@),
                old(accounts)@,
                final(accounts)@,
                r,
            ),
    {
        let instruction = match TokenInstruction::decode(instruction_data) {
            Ok(instruction) => instruction,
            Err(e) => {
                return Err(TokenError::Decode(e));
            },
        };
        Processor::route(instruction, accounts)
    }
}

} // verus!
