use crate::error::ResolutionError;
use crate::identity::Identity;
use vstd::prelude::*;

verus! {

/// One account as the host hands it to an instruction: its address, whether
/// its controller attested to the instruction, and the bytes it stores.
#[derive(Clone, Debug, PartialEq, Eq)]
pub struct AccountHandle {
    pub key: Identity,
    pub is_signer: bool,
    pub data: Vec<u8>,
}

/// What an account handle is to the contracts.
pub struct AccountView {
    pub key: Seq<u8>,
    pub is_signer: bool,
    pub data: Seq<u8>,
}

impl View for AccountHandle {
    type V = AccountView;

    open spec fn view(&self) -> AccountView {
        AccountView { key: self.key@, is_signer: self.is_signer, data: self.data@ }
    }
}

/// The views of a list of handles, in order.
pub open spec fn account_views(accounts: Seq<AccountHandle>) -> Seq<AccountView> {
    Seq::new(accounts.len(), |i: int| accounts[i]@)
}

impl AccountHandle {
    pub fn new(key: Identity, is_signer: bool, data: Vec<u8>) -> (account: AccountHandle)
        ensures
            account@ == (AccountView { key: key@, is_signer, data: data@ }),
    {
        AccountHandle { key, is_signer, data }
    }
}

/// What the cursor yields next from a list of `len` accounts when it stands
/// at `position`: that position, or nothing once the list is used up.
pub open spec fn next_position(position: int, len: int) -> Option<int> {
    if 0 <= position < len {
        Some(position)
    } else {
        None
    }
}

/// A cursor over the accounts of one instruction, which hands them out by
/// position, in the order the host supplied them. It extracts and judges
/// nothing.
#[derive(Clone, Copy, Debug)]
pub struct AccountCursor {
    pub position: usize,
}

impl AccountCursor {
    /// A cursor before the first account.
    pub fn new() -> (cursor: AccountCursor)
        ensures
            cursor.position == 0,
    {
        AccountCursor { position: 0 }
    }

    /// Yields the position of the next account of `accounts` and moves past
    /// it, or reports that the list holds no further account and stays.
    pub fn next(&mut self, accounts: &Vec<AccountHandle>) -> (r: Result<usize, ResolutionError>)
        ensures
            match next_position(old(self).position as int, accounts@.len() as int) {
                Some(p) => r == Ok::<usize, ResolutionError>(p as usize) && final(self).position
                    == p + 1,
                None => r == Err::<usize, ResolutionError>(ResolutionError::MissingAccount)
                    && *final(self) == *old(self),
            },
    {
        if self.position < accounts.len() {
            let p = self.position;
            self.position = p + 1;
            Ok(p)
        } else {
            Err(ResolutionError::MissingAccount)
        }
    }
}

} // verus!
