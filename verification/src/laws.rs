use crate::account::{account_views, AccountHandle};
use crate::error::TokenError;
use crate::processor::{
    carried_out, create_token_account_outcome, create_token_outcome, mint_outcome,
    process_outcome, transfer_outcome,
};
use crate::state::{
    token_account_encoding_unique, token_account_round_trip, token_round_trip,
    TokenAccountView, TokenView,
};
use vstd::prelude::*;

verus! {

/// Whatever the instruction and the accounts, a call that is refused changes
/// no account: there is no partial commit.
pub proof fn refusal_changes_nothing(
    before: Seq<AccountHandle>,
    instruction_data: Seq<u8>,
    after: Seq<AccountHandle>,
    result: Result<(), TokenError>,
)
    requires
        carried_out(
            process_outcome(account_views(before), instruction_data),
            before,
            after,
            result,
        ),
        result is Err,
    ensures
        after == before,
{
}

/// A mint that finds its three accounts and both records, but whose
/// authority account did not sign, is refused with `MissingSignature` and
/// changes no account.
pub proof fn mint_needs_signature(
    before: Seq<AccountHandle>,
    amount: u64,
    after: Seq<AccountHandle>,
    result: Result<(), TokenError>,
)
    requires
        carried_out(mint_outcome(account_views(before), amount), before, after, result),
        before.len() >= 3,
        TokenAccountView::decoding(before[0]@.data) is Some,
        TokenView::decoding(before[1]@.data) is Some,
        !before[2]@.is_signer,
    ensures
        result == Err::<(), TokenError>(TokenError::MissingSignature),
        after == before,
{
}

/// A mint that finds its three accounts and both records, and whose
/// authority account signed but is not the authority that the token
/// definition names, is refused with `Unauthorized` and changes no account.
pub proof fn mint_needs_authority(
    before: Seq<AccountHandle>,
    amount: u64,
    after: Seq<AccountHandle>,
    result: Result<(), TokenError>,
)
    requires
        carried_out(mint_outcome(account_views(before), amount), before, after, result),
        before.len() >= 3,
        TokenAccountView::decoding(before[0]@.data) is Some,
        TokenView::decoding(before[1]@.data) is Some,
        before[2]@.is_signer,
        before[2]@.key != TokenView::decoding(before[1]@.data).unwrap().authority,
    ensures
        result == Err::<(), TokenError>(TokenError::Unauthorized),
        after == before,
{
}

/// A transfer that finds its three accounts and both records, but whose
/// owner account did not sign, is refused with `MissingSignature` and
/// changes no account.
pub proof fn transfer_needs_signature(
    before: Seq<AccountHandle>,
    amount: u64,
    after: Seq<AccountHandle>,
    result: Result<(), TokenError>,
)
    requires
        carried_out(transfer_outcome(account_views(before), amount), before, after, result),
        before.len() >= 3,
        TokenAccountView::decoding(before[0]@.data) is Some,
        TokenAccountView::decoding(before[1]@.data) is Some,
        !before[2]@.is_signer,
    ensures
        result == Err::<(), TokenError>(TokenError::MissingSignature),
        after == before,
{
}

/// A transfer that finds its three accounts and both records, and whose
/// owner account signed but is not the owner that the source names, is
/// refused with `Unauthorized` and changes no account.
pub proof fn transfer_needs_owner(
    before: Seq<AccountHandle>,
    amount: u64,
    after: Seq<AccountHandle>,
    result: Result<(), TokenError>,
)
    requires
        carried_out(transfer_outcome(account_views(before), amount), before, after, result),
        before.len() >= 3,
        TokenAccountView::decoding(before[0]@.data) is Some,
        TokenAccountView::decoding(before[1]@.data) is Some,
        before[2]@.is_signer,
        before[2]@.key != TokenAccountView::decoding(before[0]@.data).unwrap().owner,
    ensures
        result == Err::<(), TokenError>(TokenError::Unauthorized),
        after == before,
{
}

/// An authorised transfer of more than the source holds is refused with
/// `InsufficientFunds` and changes no account.
pub proof fn transfer_needs_funds(
    before: Seq<AccountHandle>,
    amount: u64,
    after: Seq<AccountHandle>,
    result: Result<(), TokenError>,
)
    requires
        carried_out(transfer_outcome(account_views(before), amount), before, after, result),
        before.len() >= 3,
        TokenAccountView::decoding(before[0]@.data) is Some,
        TokenAccountView::decoding(before[1]@.data) is Some,
        before[2]@.is_signer,
        before[2]@.key == TokenAccountView::decoding(before[0]@.data).unwrap().owner,
        amount > TokenAccountView::decoding(before[0]@.data).unwrap().amount,
    ensures
        result == Err::<(), TokenError>(TokenError::InsufficientFunds),
        after == before,
{
}

/// A transfer between two accounts that succeeds leaves both holding
/// balance accounts with the owners and tokens they had: the source holds
/// what it held less `amount`, which is not below zero, and the destination
/// what it held and `amount`. A transfer of a whole balance leaves the
/// source with none.
pub proof fn transfer_moves_amount(
    before: Seq<AccountHandle>,
    amount: u64,
    after: Seq<AccountHandle>,
    result: Result<(), TokenError>,
)
    requires
        carried_out(transfer_outcome(account_views(before), amount), before, after, result),
        result is Ok,
        before.len() >= 2 ==> before[0]@.key != before[1]@.key,
    ensures
        before.len() >= 3,
        after.len() == before.len(),
        TokenAccountView::decoding(before[0]@.data) is Some,
        TokenAccountView::decoding(before[1]@.data) is Some,
        TokenAccountView::decoding(after[0]@.data) is Some,
        TokenAccountView::decoding(after[1]@.data) is Some,
        ({
            let source = TokenAccountView::decoding(before[0]@.data).unwrap();
            let destination = TokenAccountView::decoding(before[1]@.data).unwrap();
            let debited = TokenAccountView::decoding(after[0]@.data).unwrap();
            let credited = TokenAccountView::decoding(after[1]@.data).unwrap();
            &&& debited.owner == source.owner
            &&& debited.token == source.token
            &&& credited.owner == destination.owner
            &&& credited.token == destination.token
            &&& debited.amount == source.amount - amount >= 0
            &&& credited.amount == destination.amount + amount
        }),
{
    let views = account_views(before);
    let source = TokenAccountView::decoding(views[0].data).unwrap();
    let destination = TokenAccountView::decoding(views[1].data).unwrap();
    let debited = TokenAccountView {
        owner: source.owner,
        token: source.token,
        amount: (source.amount - amount) as u64,
    };
    let credited = TokenAccountView {
        owner: destination.owner,
        token: destination.token,
        amount: (destination.amount + amount) as u64,
    };
    token_account_round_trip(debited);
    token_account_round_trip(credited);
    let out = transfer_outcome(views, amount).unwrap();
    assert(account_views(after) == out);
    assert(views.len() == before.len() >= 3);
    assert(out.len() == views.len());
    assert(account_views(after).len() == after.len());
    assert(account_views(after)[0] == after[0]@);
    assert(account_views(after)[1] == after[1]@);
}

/// A transfer from an account to itself moves nothing. Where source and
/// destination have one address, an authorised transfer of no more than the
/// balance succeeds whatever the amount, and leaves both handles storing the
/// source's record as it was: what the source stored is what it stores, and
/// a destination handle that held the same bytes holds them still.
pub proof fn transfer_to_self_moves_nothing(
    before: Seq<AccountHandle>,
    amount: u64,
    after: Seq<AccountHandle>,
    result: Result<(), TokenError>,
)
    requires
        carried_out(transfer_outcome(account_views(before), amount), before, after, result),
        before.len() >= 3,
        before[0]@.key == before[1]@.key,
        TokenAccountView::decoding(before[0]@.data) is Some,
        TokenAccountView::decoding(before[1]@.data) is Some,
        before[2]@.is_signer,
        before[2]@.key == TokenAccountView::decoding(before[0]@.data).unwrap().owner,
        amount <= TokenAccountView::decoding(before[0]@.data).unwrap().amount,
    ensures
        result == Ok::<(), TokenError>(()),
        after.len() == before.len(),
        after[0]@.data == before[0]@.data,
        after[1]@.data == before[0]@.data,
{
    let views = account_views(before);
    token_account_encoding_unique(views[0].data);
    let out = transfer_outcome(views, amount).unwrap();
    assert(account_views(after) == out);
    assert(out.len() == views.len());
    assert(account_views(after).len() == after.len());
    assert(account_views(after)[0] == after[0]@);
    assert(account_views(after)[1] == after[1]@);
}

/// A mint that succeeds leaves the destination holding a balance account
/// with the owner and token it had, and the second account a definition
/// with the authority it had: the balance and the supply have both grown by
/// `amount`, and the authority signed and is the one the definition names.
pub proof fn mint_issues_amount(
    before: Seq<AccountHandle>,
    amount: u64,
    after: Seq<AccountHandle>,
    result: Result<(), TokenError>,
)
    requires
        carried_out(mint_outcome(account_views(before), amount), before, after, result),
        result is Ok,
    ensures
        before.len() >= 3,
        after.len() == before.len(),
        TokenAccountView::decoding(before[0]@.data) is Some,
        TokenView::decoding(before[1]@.data) is Some,
        TokenAccountView::decoding(after[0]@.data) is Some,
        TokenView::decoding(after[1]@.data) is Some,
        ({
            let destination = TokenAccountView::decoding(before[0]@.data).unwrap();
            let definition = TokenView::decoding(before[1]@.data).unwrap();
            let credited = TokenAccountView::decoding(after[0]@.data).unwrap();
            let minted = TokenView::decoding(after[1]@.data).unwrap();
            &&& before[2]@.is_signer
            &&& before[2]@.key == definition.authority
            &&& credited.owner == destination.owner
            &&& credited.token == destination.token
            &&& minted.authority == definition.authority
            &&& credited.amount == destination.amount + amount
            &&& minted.supply == definition.supply + amount
        }),
{
    let views = account_views(before);
    let destination = TokenAccountView::decoding(views[0].data).unwrap();
    let definition = TokenView::decoding(views[1].data).unwrap();
    let credited = TokenAccountView {
        owner: destination.owner,
        token: destination.token,
        amount: (destination.amount + amount) as u64,
    };
    let minted = TokenView {
        authority: definition.authority,
        supply: (definition.supply + amount) as u64,
    };
    token_account_round_trip(credited);
    token_round_trip(minted);
    let out = mint_outcome(views, amount).unwrap();
    assert(account_views(after) == out);
    assert(views.len() == before.len() >= 3);
    assert(out.len() == views.len());
    assert(account_views(after).len() == after.len());
    assert(account_views(after)[0] == after[0]@);
    assert(account_views(after)[1] == after[1]@);
}

/// `CreateToken` succeeds whenever it is given two accounts, whatever the
/// slot holds, and leaves in it the definition of a token with no supply
/// whose authority is the second account.
pub proof fn create_token_initialises(
    before: Seq<AccountHandle>,
    after: Seq<AccountHandle>,
    result: Result<(), TokenError>,
)
    requires
        carried_out(create_token_outcome(account_views(before)), before, after, result),
        before.len() >= 2,
    ensures
        result is Ok,
        after.len() == before.len(),
        TokenView::decoding(after[0]@.data) == Some(
            TokenView { authority: before[1]@.key, supply: 0 },
        ),
{
    let views = account_views(before);
    token_round_trip(TokenView { authority: views[1].key, supply: 0 });
    let out = create_token_outcome(views).unwrap();
    assert(account_views(after) == out);
    assert(out.len() == views.len());
    assert(account_views(after).len() == after.len());
    assert(account_views(after)[0] == after[0]@);
}

/// `CreateTokenAccount` succeeds whenever it is given three accounts,
/// whatever the slot holds, and leaves in it an empty balance account of the
/// token in second place, owned by the account in third place.
pub proof fn create_token_account_initialises(
    before: Seq<AccountHandle>,
    after: Seq<AccountHandle>,
    result: Result<(), TokenError>,
)
    requires
        carried_out(create_token_account_outcome(account_views(before)), before, after, result),
        before.len() >= 3,
    ensures
        result is Ok,
        after.len() == before.len(),
        TokenAccountView::decoding(after[0]@.data) == Some(
            TokenAccountView { owner: before[2]@.key, token: before[1]@.key, amount: 0 },
        ),
{
    let views = account_views(before);
    token_account_round_trip(
        TokenAccountView { owner: views[2].key, token: views[1].key, amount: 0 },
    );
    let out = create_token_account_outcome(views).unwrap();
    assert(account_views(after) == out);
    assert(out.len() == views.len());
    assert(account_views(after).len() == after.len());
    assert(account_views(after)[0] == after[0]@);
}

/// An instruction writes to nothing but the data of the first two accounts
/// it is given: no account is added or dropped, every account keeps its
/// address and its signer flag, and every account from the third on is as it
/// was.
pub proof fn only_leading_data_changes(
    before: Seq<AccountHandle>,
    instruction_data: Seq<u8>,
    after: Seq<AccountHandle>,
    result: Result<(), TokenError>,
)
    requires
        carried_out(
            process_outcome(account_views(before), instruction_data),
            before,
            after,
            result,
        ),
    ensures
        after.len() == before.len(),
        forall|k: int|
            0 <= k < before.len() ==> (#[trigger] after[k])@.key == before[k]@.key && after[k]@.is_signer
                == before[k]@.is_signer,
        forall|k: int| 2 <= k < before.len() ==> (#[trigger] after[k])@ == before[k]@,
{
    let views = account_views(before);
    match process_outcome(views, instruction_data) {
        Ok(out) => {
            assert(account_views(after) == out);
            assert(out.len() == views.len());
            assert(account_views(after).len() == after.len());
            assert forall|k: int| 0 <= k < before.len() implies (#[trigger] after[k])@.key
                == before[k]@.key && after[k]@.is_signer == before[k]@.is_signer && (k >= 2
                ==> after[k]@ == before[k]@) by {
                assert(account_views(after)[k] == after[k]@);
                assert(views[k] == before[k]@);
            }
        },
        Err(_) => {},
    }
}

} // verus!
