use crate::account::AccountHandle;
use crate::error::{DecodeError, TokenError};
use crate::identity::{zero_identity, Identity};
use crate::wire::{
    le_bytes, le_bytes_of_value, le_value, le_value_of_bytes, push_amount, read_amount,
};
use vstd::prelude::*;
use vstd::slice::slice_subrange;

verus! {

/// The width in bytes of a stored token definition.
pub const TOKEN_LEN: usize = 40;

/// The width in bytes of a stored balance account.
pub const TOKEN_ACCOUNT_LEN: usize = 72;

/// The definition of one token: who may mint it, and how much is outstanding.
#[derive(Clone, Copy, Debug, PartialEq, Eq)]
pub struct Token {
    pub authority: Identity,
    pub supply: u64,
}

/// The balance that one owner holds of one token.
#[derive(Clone, Copy, Debug, PartialEq, Eq)]
pub struct TokenAccount {
    pub owner: Identity,
    pub token: Identity,
    pub amount: u64,
}

/// What a token definition is to the contracts.
pub struct TokenView {
    pub authority: Seq<u8>,
    pub supply: u64,
}

/// What a balance account is to the contracts.
pub struct TokenAccountView {
    pub owner: Seq<u8>,
    pub token: Seq<u8>,
    pub amount: u64,
}

impl View for Token {
    type V = TokenView;

    open spec fn view(&self) -> TokenView {
        TokenView { authority: self.authority@, supply: self.supply }
    }
}

impl View for TokenAccount {
    type V = TokenAccountView;

    open spec fn view(&self) -> TokenAccountView {
        TokenAccountView { owner: self.owner@, token: self.token@, amount: self.amount }
    }
}

impl TokenView {
    /// A definition is valid when its authority is an address.
    pub open spec fn valid(self) -> bool {
        self.authority.len() == 32
    }

    /// The stored form: the authority's address, then the supply as eight
    /// little-endian bytes.
    pub open spec fn encoding(self) -> Seq<u8> {
        self.authority + le_bytes(self.supply)
    }

    /// The definition that `bytes` store, if they have its layout.
    pub open spec fn decoding(bytes: Seq<u8>) -> Option<TokenView> {
        if bytes.len() == 40 {
            Some(
                TokenView {
                    authority: bytes.subrange(0, 32),
                    supply: le_value(bytes.subrange(32, 40)) as u64,
                },
            )
        } else {
            None
        }
    }

    /// The definition with every field zero.
    pub open spec fn zeroed() -> TokenView {
        TokenView { authority: zero_identity(), supply: 0 }
    }

    /// What a slot holds when it is read without being held to the layout:
    /// the definition it stores, or the zeroed one where it stores none.
    pub open spec fn decoding_unchecked(bytes: Seq<u8>) -> TokenView {
        match TokenView::decoding(bytes) {
            Some(t) => t,
            None => TokenView::zeroed(),
        }
    }
}

impl TokenAccountView {
    /// A balance account is valid when its owner and its token are addresses.
    pub open spec fn valid(self) -> bool {
        self.owner.len() == 32 && self.token.len() == 32
    }

    /// The stored form: the owner's address, the token's address, then the
    /// amount as eight little-endian bytes.
    pub open spec fn encoding(self) -> Seq<u8> {
        self.owner + self.token + le_bytes(self.amount)
    }

    /// The balance account that `bytes` store, if they have its layout.
    pub open spec fn decoding(bytes: Seq<u8>) -> Option<TokenAccountView> {
        if bytes.len() == 72 {
            Some(
                TokenAccountView {
                    owner: bytes.subrange(0, 32),
                    token: bytes.subrange(32, 64),
                    amount: le_value(bytes.subrange(64, 72)) as u64,
                },
            )
        } else {
            None
        }
    }

    /// The balance account with every field zero.
    pub open spec fn zeroed() -> TokenAccountView {
        TokenAccountView { owner: zero_identity(), token: zero_identity(), amount: 0 }
    }

    /// What a slot holds when it is read without being held to the layout:
    /// the balance account it stores, or the zeroed one where it stores none.
    pub open spec fn decoding_unchecked(bytes: Seq<u8>) -> TokenAccountView {
        match TokenAccountView::decoding(bytes) {
            Some(a) => a,
            None => TokenAccountView::zeroed(),
        }
    }
}

/// Appends the 32 bytes of `id` to `out`.
fn push_identity(out: &mut Vec<u8>, id: &Identity)
    ensures
        final(out)@ == old(out)@ + id@,
{
    let ghost before = out@;
    let mut i: usize = 0;
    while i < 32
        invariant
            i <= 32,
            out@ == before + id@.subrange(0, i as int),
        decreases 32 - i,
    {
        out.push(id.bytes[i]);
        assert(out@ =~= before + id@.subrange(0, i + 1));
        i += 1;
    }
    assert(id@.subrange(0, 32) =~= id@);
}

/// The address that the 32 bytes of `bytes` from `start` on spell.
fn identity_at(bytes: &[u8], start: usize) -> (id: Identity)
    requires
        start + 32 <= bytes@.len(),
    ensures
        id@ == bytes@.subrange(start as int, start + 32),
{
    let len = bytes.len();
    let mut raw = [0u8; 32];
    let mut i: usize = 0;
    while i < 32
        invariant
            i <= 32,
            start + 32 <= len == bytes@.len(),
            forall|k: int| 0 <= k < i ==> raw@[k] == bytes@[start + k],
        decreases 32 - i,
    {
        raw[i] = bytes[start + i];
        i += 1;
    }
    assert(raw@ =~= bytes@.subrange(start as int, start + 32));
    Identity { bytes: raw }
}

impl Token {
    /// The stored form of this definition.
    pub fn encode(&self) -> (out: Vec<u8>)
        ensures
            out@ == self@.encoding(),
    {
        let mut out: Vec<u8> = Vec::new();
        push_identity(&mut out, &self.authority);
        push_amount(&mut out, self.supply);
        assert(out@ =~= self@.encoding());
        out
    }

    /// Reads a definition from its stored form. Fails with `WrongLength`
    /// exactly when `bytes` are not as long as a definition is.
    pub fn decode(bytes: &[u8]) -> (r: Result<Token, DecodeError>)
        ensures
            match TokenView::decoding(bytes@) {
                Some(t) => r matches Ok(token) && token@ == t,
                None => r == Err::<Token, DecodeError>(DecodeError::WrongLength),
            },
    {
        if bytes.len() != TOKEN_LEN {
            return Err(DecodeError::WrongLength);
        }
        let authority = identity_at(bytes, 0);
        match read_amount(slice_subrange(bytes, 32, 40)) {
            Ok(supply) => Ok(Token { authority, supply }),
            Err(_) => Err(DecodeError::WrongLength),
        }
    }

    /// The definition with every field zero.
    pub fn zeroed() -> (token: Token)
        ensures
            token@ == TokenView::zeroed(),
    {
        Token { authority: Identity::zero(), supply: 0 }
    }

    /// Loads the definition that `account` stores.
    pub fn load(account: &AccountHandle) -> (r: Result<Token, TokenError>)
        ensures
            match TokenView::decoding(account@.data) {
                Some(t) => r matches Ok(token) && token@ == t,
                None => r == Err::<Token, TokenError>(
                    TokenError::Decode(DecodeError::WrongLength),
                ),
            },
    {
        match Token::decode(account.data.as_slice()) {
            Ok(token) => Ok(token),
            Err(e) => Err(TokenError::Decode(e)),
        }
    }

    /// Loads a definition from a slot that may be freshly provisioned: the
    /// slot's bytes are not held to the layout, and where they do not have it
    /// the definition comes back zeroed.
    pub fn load_unchecked(account: &AccountHandle) -> (token: Token)
        ensures
            token@ == TokenView::decoding_unchecked(account@.data),
    {
        match Token::decode(account.data.as_slice()) {
            Ok(token) => token,
            Err(_) => Token::zeroed(),
        }
    }

    /// Stores this definition in `account`, whose address and signer flag stay.
    pub fn save(&self, account: &mut AccountHandle)
        ensures
            final(account)@.data == self@.encoding(),
            final(account)@.key == old(account)@.key,
            final(account)@.is_signer == old(account)@.is_signer,
    {
        account.data = self.encode();
    }
}

impl TokenAccount {
    /// The stored form of this balance account.
    pub fn encode(&self) -> (out: Vec<u8>)
        ensures
            out@ == self@.encoding(),
    {
        let mut out: Vec<u8> = Vec::new();
        push_identity(&mut out, &self.owner);
        push_identity(&mut out, &self.token);
        push_amount(&mut out, self.amount);
        assert(out@ =~= self@.encoding());
        out
    }

    /// Reads a balance account from its stored form. Fails with
    /// `WrongLength` exactly when `bytes` are not as long as a balance
    /// account is.
    pub fn decode(bytes: &[u8]) -> (r: Result<TokenAccount, DecodeError>)
        ensures
            match TokenAccountView::decoding(bytes@) {
                Some(a) => r matches Ok(account) && account@ == a,
                None => r == Err::<TokenAccount, DecodeError>(DecodeError::WrongLength),
            },
    {
        if bytes.len() != TOKEN_ACCOUNT_LEN {
            return Err(DecodeError::WrongLength);
        }
        let owner = identity_at(bytes, 0);
        let token = identity_at(bytes, 32);
        match read_amount(slice_subrange(bytes, 64, 72)) {
            Ok(amount) => Ok(TokenAccount { owner, token, amount }),
            Err(_) => Err(DecodeError::WrongLength),
        }
    }

    /// The balance account with every field zero.
    pub fn zeroed() -> (account: TokenAccount)
        ensures
            account@ == TokenAccountView::zeroed(),
    {
        TokenAccount { owner: Identity::zero(), token: Identity::zero(), amount: 0 }
    }

    /// Loads the balance account that `account` stores.
    pub fn load(account: &AccountHandle) -> (r: Result<TokenAccount, TokenError>)
        ensures
            match TokenAccountView::decoding(account@.data) {
                Some(a) => r matches Ok(loaded) && loaded@ == a,
                None => r == Err::<TokenAccount, TokenError>(
                    TokenError::Decode(DecodeError::WrongLength),
                ),
            },
    {
        match TokenAccount::decode(account.data.as_slice()) {
            Ok(loaded) => Ok(loaded),
            Err(e) => Err(TokenError::Decode(e)),
        }
    }

    /// Loads a balance account from a slot that may be freshly provisioned:
    /// the slot's bytes are not held to the layout, and where they do not
    /// have it the balance account comes back zeroed.
    pub fn load_unchecked(account: &AccountHandle) -> (loaded: TokenAccount)
        ensures
            loaded@ == TokenAccountView::decoding_unchecked(account@.data),
    {
        match TokenAccount::decode(account.data.as_slice()) {
            Ok(loaded) => loaded,
            Err(_) => TokenAccount::zeroed(),
        }
    }

    /// Stores this balance account in `account`, whose address and signer
    /// flag stay.
    pub fn save(&self, account: &mut AccountHandle)
        ensures
            final(account)@.data == self@.encoding(),
            final(account)@.key == old(account)@.key,
            final(account)@.is_signer == old(account)@.is_signer,
    {
        account.data = self.encode();
    }
}

/// Decoding undoes encoding: the stored form of any valid token definition
/// decodes to that definition.
pub proof fn token_round_trip(token: TokenView)
    requires
        token.valid(),
    ensures
        TokenView::decoding(token.encoding()) == Some(token),
{
    le_value_of_bytes(token.supply);
    let bytes = token.encoding();
    assert(bytes.subrange(0, 32) =~= token.authority);
    assert(bytes.subrange(32, 40) =~= le_bytes(token.supply));
}

/// Encoding undoes decoding: bytes that decode to a token definition are
/// that definition's stored form, and the definition is valid.
pub proof fn token_encoding_unique(bytes: Seq<u8>)
    requires
        TokenView::decoding(bytes) is Some,
    ensures
        TokenView::decoding(bytes).unwrap().valid(),
        TokenView::decoding(bytes).unwrap().encoding() == bytes,
{
    let token = TokenView::decoding(bytes).unwrap();
    le_bytes_of_value(bytes.subrange(32, 40));
    assert(token.encoding() =~= bytes);
}

/// Decoding undoes encoding: the stored form of any valid balance account
/// decodes to that balance account.
pub proof fn token_account_round_trip(account: TokenAccountView)
    requires
        account.valid(),
    ensures
        TokenAccountView::decoding(account.encoding()) == Some(account),
{
    le_value_of_bytes(account.amount);
    let bytes = account.encoding();
    assert(bytes.subrange(0, 32) =~= account.owner);
    assert(bytes.subrange(32, 64) =~= account.token);
    assert(bytes.subrange(64, 72) =~= le_bytes(account.amount));
}

/// Encoding undoes decoding: bytes that decode to a balance account are that
/// balance account's stored form, and the balance account is valid.
pub proof fn token_account_encoding_unique(bytes: Seq<u8>)
    requires
        TokenAccountView::decoding(bytes) is Some,
    ensures
        TokenAccountView::decoding(bytes).unwrap().valid(),
        TokenAccountView::decoding(bytes).unwrap().encoding() == bytes,
{
    let account = TokenAccountView::decoding(bytes).unwrap();
    le_bytes_of_value(bytes.subrange(64, 72));
    assert(account.encoding() =~= bytes);
}

/// The two layouts differ in length, so no bytes store both a token
/// definition and a balance account.
pub proof fn layouts_disjoint(bytes: Seq<u8>)
    ensures
        !(TokenView::decoding(bytes) is Some && TokenAccountView::decoding(bytes) is Some),
{
}

} // verus!
