use crate::account::AccountView;
use crate::instruction::TokenInstruction;
use crate::processor::process_outcome;
use crate::state::{
    token_account_encoding_unique, token_account_round_trip, token_round_trip,
    TokenAccountView, TokenView,
};
use vstd::prelude::*;

verus! {

/// One account as the host keeps it between instructions: its address and
/// the bytes it stores.
pub struct StoredAccount {
    pub key: Seq<u8>,
    pub data: Seq<u8>,
}

/// What `account` holds of `token`: the amount of the balance account it
/// stores, if it stores one of that token, and nothing otherwise.
pub open spec fn balance_held(account: StoredAccount, token: Seq<u8>) -> int {
    match TokenAccountView::decoding(account.data) {
        Some(held) => if held.token == token {
            held.amount as int
        } else {
            0
        },
        None => 0,
    }
}

/// What `account` records as issued of `token`: the supply of the
/// definition it stores, if it is the account of that token and stores one,
/// and nothing otherwise.
pub open spec fn supply_recorded(account: StoredAccount, token: Seq<u8>) -> int {
    match TokenView::decoding(account.data) {
        Some(definition) => if account.key == token {
            definition.supply as int
        } else {
            0
        },
        None => 0,
    }
}

/// The sum of `weight` over the accounts of `ledger`.
pub open spec fn sum_over(ledger: Seq<StoredAccount>, weight: spec_fn(StoredAccount) -> int) -> int
    decreases ledger.len(),
{
    if ledger.len() == 0 {
        0
    } else {
        sum_over(ledger.drop_last(), weight) + weight(ledger.last())
    }
}

/// The sum of the amounts of all balance accounts of `token` in `ledger`.
pub open spec fn total_balance(ledger: Seq<StoredAccount>, token: Seq<u8>) -> int {
    sum_over(ledger, |account: StoredAccount| balance_held(account, token))
}

/// The supply that `ledger` records for `token`: that of the definition
/// stored under the token's address, and nothing where there is none.
pub open spec fn total_supply(ledger: Seq<StoredAccount>, token: Seq<u8>) -> int {
    sum_over(ledger, |account: StoredAccount| supply_recorded(account, token))
}

/// The books of `token` balance: what is recorded as issued is what the
/// balance accounts of the token hold together.
pub open spec fn conserved(ledger: Seq<StoredAccount>, token: Seq<u8>) -> bool {
    total_supply(ledger, token) == total_balance(ledger, token)
}

/// No two accounts of the ledger share an address.
pub open spec fn distinct_keys(ledger: Seq<StoredAccount>) -> bool {
    forall|i: int, j: int|
        0 <= i < j < ledger.len() ==> (#[trigger] ledger[i]).key != (#[trigger] ledger[j]).key
}

/// A ledger is valid when each of its accounts has an address and no two
/// have the same: the address is what an account is known by.
pub open spec fn ledger_valid(ledger: Seq<StoredAccount>) -> bool {
    &&& forall|i: int| 0 <= i < ledger.len() ==> (#[trigger] ledger[i]).key.len() == 32
    &&& distinct_keys(ledger)
}

/// The account records no supply and holds no balance, of any token: it
/// stores no record, or one whose supply or amount is zero.
pub open spec fn blank(account: StoredAccount) -> bool {
    &&& TokenView::decoding(account.data) matches Some(definition) ==> definition.supply == 0
    &&& TokenAccountView::decoding(account.data) matches Some(held) ==> held.amount == 0
}

/// One invocation by the host: which accounts of the ledger it presents, in
/// order, which of them signed, and the encoded instruction.
pub struct Invocation {
    pub picks: Seq<int>,
    pub signers: Seq<bool>,
    pub instruction_data: Seq<u8>,
}

impl Invocation {
    /// The host presents accounts of the ledger, any of them as often as it
    /// likes, and a signer flag for each.
    pub open spec fn well_formed(self, ledger: Seq<StoredAccount>) -> bool {
        &&& self.signers.len() == self.picks.len()
        &&& forall|k: int| 0 <= k < self.picks.len() ==> 0 <= #[trigger] self.picks[k] < ledger.len()
    }

    /// The accounts as the instruction sees them.
    pub open spec fn presented(self, ledger: Seq<StoredAccount>) -> Seq<AccountView> {
        Seq::new(
            self.picks.len(),
            |k: int|
                AccountView {
                    key: ledger[self.picks[k]].key,
                    is_signer: self.signers[k],
                    data: ledger[self.picks[k]].data,
                },
        )
    }

    /// That the instruction, where it succeeds, keeps the books of `token`.
    /// These are exactly the instructions that do: a creation keeps them
    /// unless its slot already holds a supply or a balance of the token,
    /// which it wipes; a mint unless it issues the token to a balance account
    /// of another token, or another token to a balance account of this one;
    /// a transfer unless it moves units between balance accounts of which
    /// just one is of the token.
    pub open spec fn keeps_books(self, ledger: Seq<StoredAccount>, token: Seq<u8>) -> bool {
        let accounts = self.presented(ledger);
        match TokenInstruction::decoding(self.instruction_data) {
            Ok(TokenInstruction::CreateToken) | Ok(TokenInstruction::CreateTokenAccount) => {
                let slot = ledger[self.picks[0]];
                supply_recorded(slot, token) == 0 && balance_held(slot, token) == 0
            },
            Ok(TokenInstruction::Mint { amount }) => {
                let destination = TokenAccountView::decoding(accounts[0].data).unwrap();
                amount == 0 || ((accounts[1].key == token) == (destination.token == token))
            },
            Ok(TokenInstruction::Transfer { amount }) => {
                let source = TokenAccountView::decoding(accounts[0].data).unwrap();
                let destination = TokenAccountView::decoding(accounts[1].data).unwrap();
                amount == 0 || ((source.token == token) == (destination.token == token))
            },
            Err(_) => true,
        }
    }
}

/// The ledger once the host has stored, in the order presented, what the
/// instruction left in the first `count` handles. A handle whose data the
/// instruction left as the ledger had them is not stored, so that of two
/// handles of one account the one that was written to counts.
pub open spec fn stored_through(
    ledger: Seq<StoredAccount>,
    picks: Seq<int>,
    after: Seq<AccountView>,
    count: nat,
) -> Seq<StoredAccount>
    decreases count,
{
    if count == 0 {
        ledger
    } else {
        let k = count - 1;
        let earlier = stored_through(ledger, picks, after, k as nat);
        if after[k].data == ledger[picks[k]].data {
            earlier
        } else {
            earlier.update(
                picks[k],
                StoredAccount { key: ledger[picks[k]].key, data: after[k].data },
            )
        }
    }
}

/// The ledger once the host has stored what the instruction left in the
/// handles it was presented with.
pub open spec fn written_back(
    ledger: Seq<StoredAccount>,
    picks: Seq<int>,
    after: Seq<AccountView>,
) -> Seq<StoredAccount> {
    stored_through(ledger, picks, after, picks.len())
}

/// The ledger after one invocation: a refused instruction leaves it as it
/// was, and what a successful one wrote is stored.
pub open spec fn step(ledger: Seq<StoredAccount>, invocation: Invocation) -> Seq<StoredAccount> {
    match process_outcome(invocation.presented(ledger), invocation.instruction_data) {
        Ok(after) => written_back(ledger, invocation.picks, after),
        Err(_) => ledger,
    }
}

/// The ledger after a series of invocations, the first of them first.
pub open spec fn run(ledger: Seq<StoredAccount>, invocations: Seq<Invocation>) -> Seq<
    StoredAccount,
>
    decreases invocations.len(),
{
    if invocations.len() == 0 {
        ledger
    } else {
        step(run(ledger, invocations.drop_last()), invocations.last())
    }
}

/// Each invocation of the series is well formed for the ledger it meets,
/// and each that succeeds keeps the books of `token`.
pub open spec fn orderly(
    ledger: Seq<StoredAccount>,
    invocations: Seq<Invocation>,
    token: Seq<u8>,
) -> bool
    decreases invocations.len(),
{
    if invocations.len() == 0 {
        true
    } else {
        let met = run(ledger, invocations.drop_last());
        let last = invocations.last();
        &&& orderly(ledger, invocations.drop_last(), token)
        &&& last.well_formed(met)
        &&& process_outcome(last.presented(met), last.instruction_data) is Ok ==> last.keeps_books(
            met,
            token,
        )
    }
}

/// Replacing one account changes a sum by what the new account weighs more
/// than the old.
proof fn sum_over_update(
    ledger: Seq<StoredAccount>,
    weight: spec_fn(StoredAccount) -> int,
    i: int,
    account: StoredAccount,
)
    requires
        0 <= i < ledger.len(),
    ensures
        sum_over(ledger.update(i, account), weight) == sum_over(ledger, weight) - weight(
            ledger[i],
        ) + weight(account),
    decreases ledger.len(),
{
    let updated = ledger.update(i, account);
    if i == ledger.len() - 1 {
        assert(updated.drop_last() =~= ledger.drop_last());
    } else {
        assert(updated.drop_last() =~= ledger.drop_last().update(i, account));
        sum_over_update(ledger.drop_last(), weight, i, account);
    }
}

/// Handles that the instruction left as they were change nothing when
/// they are stored: only the first two count.
proof fn stored_through_head(
    ledger: Seq<StoredAccount>,
    picks: Seq<int>,
    after: Seq<AccountView>,
    count: nat,
)
    requires
        2 <= count <= picks.len(),
        after.len() == picks.len(),
        forall|k: int| 2 <= k < after.len() ==> (#[trigger] after[k]).data == ledger[picks[k]].data,
    ensures
        stored_through(ledger, picks, after, count) == stored_through(ledger, picks, after, 2),
    decreases count,
{
    if count > 2 {
        assert(after[count - 1].data == ledger[picks[count - 1]].data);
        stored_through_head(ledger, picks, after, (count - 1) as nat);
    }
}

/// Where an instruction touched at most the first two handles, storing what
/// it left replaces the first account, and then the second if its handle
/// was written to.
proof fn written_back_two(ledger: Seq<StoredAccount>, invocation: Invocation, after: Seq<AccountView>)
    requires
        invocation.well_formed(ledger),
        invocation.picks.len() >= 2,
        after.len() == invocation.picks.len(),
        forall|k: int|
            2 <= k < after.len() ==> (#[trigger] after[k]).data == ledger[invocation.picks[k]].data,
    ensures
        written_back(ledger, invocation.picks, after) == ({
            let first = ledger.update(
                invocation.picks[0],
                StoredAccount { key: ledger[invocation.picks[0]].key, data: after[0].data },
            );
            if after[1].data == ledger[invocation.picks[1]].data {
                first
            } else {
                first.update(
                    invocation.picks[1],
                    StoredAccount { key: ledger[invocation.picks[1]].key, data: after[1].data },
                )
            }
        }),
{
    let picks = invocation.picks;
    stored_through_head(ledger, picks, after, picks.len());
    reveal_with_fuel(stored_through, 3);
    let first = ledger.update(
        picks[0],
        StoredAccount { key: ledger[picks[0]].key, data: after[0].data },
    );
    assert(0 <= picks[0] < ledger.len());
    if after[0].data == ledger[picks[0]].data {
        assert(first =~= ledger);
    }
    assert(stored_through(ledger, picks, after, 1) == first);
}

/// What a successful invocation does to books that balance: they balance
/// afterwards exactly if the instruction is one that keeps them.
proof fn successful_step(ledger: Seq<StoredAccount>, invocation: Invocation, token: Seq<u8>)
    requires
        ledger_valid(ledger),
        conserved(ledger, token),
        invocation.well_formed(ledger),
        process_outcome(invocation.presented(ledger), invocation.instruction_data) is Ok,
    ensures
        ledger_valid(step(ledger, invocation)),
        conserved(step(ledger, invocation), token) <==> invocation.keeps_books(ledger, token),
{
    let accounts = invocation.presented(ledger);
    let picks = invocation.picks;
    let after = process_outcome(accounts, invocation.instruction_data).unwrap();
    let instruction = TokenInstruction::decoding(invocation.instruction_data).unwrap();
    assert(accounts.len() >= 2);
    assert(after.len() == accounts.len());
    assert(0 <= picks[0] < ledger.len() && 0 <= picks[1] < ledger.len());
    let old0 = ledger[picks[0]];
    let old1 = ledger[picks[1]];
    assert(old0.key.len() == 32 && old1.key.len() == 32);
    assert(accounts[0].data == old0.data && accounts[0].key == old0.key);
    assert(accounts[1].data == old1.data && accounts[1].key == old1.key);
    let new0 = StoredAccount { key: old0.key, data: after[0].data };
    let new1 = StoredAccount { key: old1.key, data: after[1].data };
    assert forall|k: int| 2 <= k < after.len() implies (#[trigger] after[k]).data
        == ledger[picks[k]].data by {
        assert(after[k] == accounts[k]);
    }
    written_back_two(ledger, invocation, after);
    let mid = ledger.update(picks[0], new0);
    let end = step(ledger, invocation);
    let held = |account: StoredAccount| balance_held(account, token);
    let recorded = |account: StoredAccount| supply_recorded(account, token);
    sum_over_update(ledger, held, picks[0], new0);
    sum_over_update(ledger, recorded, picks[0], new0);
    if picks[0] == picks[1] {
        // Two handles of one account: only the first can have been written to.
        match instruction {
            TokenInstruction::CreateToken => {
                token_round_trip(TokenView { authority: accounts[1].key, supply: 0 });
            },
            TokenInstruction::CreateTokenAccount => {
                assert(0 <= picks[2] < ledger.len());
                assert(ledger[picks[2]].key.len() == 32);
                token_account_round_trip(
                    TokenAccountView { owner: accounts[2].key, token: accounts[1].key, amount: 0 },
                );
            },
            TokenInstruction::Mint { amount } => {
                assert(false);
            },
            TokenInstruction::Transfer { amount } => {
                token_account_encoding_unique(accounts[0].data);
                assert(new0 == old0);
                assert(mid =~= ledger);
            },
        }
        assert(after[1].data == old1.data);
        assert(end == mid);
    } else {
        assert(old0.key != old1.key);
        assert(mid[picks[1]] == old1);
        if after[1].data == old1.data {
            assert(new1 == old1);
            assert(mid.update(picks[1], new1) =~= mid);
        }
        assert(end == mid.update(picks[1], new1));
        sum_over_update(mid, held, picks[1], new1);
        sum_over_update(mid, recorded, picks[1], new1);
        assert(total_balance(end, token) == total_balance(ledger, token) - balance_held(
            old0,
            token,
        ) + balance_held(new0, token) - balance_held(old1, token) + balance_held(new1, token));
        assert(total_supply(end, token) == total_supply(ledger, token) - supply_recorded(
            old0,
            token,
        ) + supply_recorded(new0, token) - supply_recorded(old1, token) + supply_recorded(
            new1,
            token,
        ));
        match instruction {
            TokenInstruction::CreateToken => {
                token_round_trip(TokenView { authority: accounts[1].key, supply: 0 });
                assert(new1 == old1);
            },
            TokenInstruction::CreateTokenAccount => {
                assert(0 <= picks[2] < ledger.len());
                assert(ledger[picks[2]].key.len() == 32);
                token_account_round_trip(
                    TokenAccountView { owner: accounts[2].key, token: accounts[1].key, amount: 0 },
                );
                assert(new1 == old1);
            },
            TokenInstruction::Mint { amount } => {
                let destination = TokenAccountView::decoding(accounts[0].data).unwrap();
                let definition = TokenView::decoding(accounts[1].data).unwrap();
                token_account_round_trip(
                    TokenAccountView {
                        owner: destination.owner,
                        token: destination.token,
                        amount: (destination.amount + amount) as u64,
                    },
                );
                token_round_trip(
                    TokenView {
                        authority: definition.authority,
                        supply: (definition.supply + amount) as u64,
                    },
                );
            },
            TokenInstruction::Transfer { amount } => {
                let source = TokenAccountView::decoding(accounts[0].data).unwrap();
                let destination = TokenAccountView::decoding(accounts[1].data).unwrap();
                token_account_round_trip(
                    TokenAccountView {
                        owner: source.owner,
                        token: source.token,
                        amount: (source.amount - amount) as u64,
                    },
                );
                token_account_round_trip(
                    TokenAccountView {
                        owner: destination.owner,
                        token: destination.token,
                        amount: (destination.amount + amount) as u64,
                    },
                );
            },
        }
    }
    assert(end.len() == ledger.len());
    assert forall|i: int| 0 <= i < end.len() implies (#[trigger] end[i]).key == ledger[i].key by {}
}

/// A transfer from an account to itself is among the instructions that
/// keep the books of every token, and leaves the whole ledger as it was.
pub proof fn transfer_to_self_keeps_ledger(
    ledger: Seq<StoredAccount>,
    invocation: Invocation,
    token: Seq<u8>,
)
    requires
        ledger_valid(ledger),
        invocation.well_formed(ledger),
        TokenInstruction::decoding(invocation.instruction_data) matches Ok(
            TokenInstruction::Transfer { .. },
        ),
        process_outcome(invocation.presented(ledger), invocation.instruction_data) is Ok,
        invocation.picks[0] == invocation.picks[1],
    ensures
        invocation.keeps_books(ledger, token),
        step(ledger, invocation) == ledger,
{
    let accounts = invocation.presented(ledger);
    let picks = invocation.picks;
    let after = process_outcome(accounts, invocation.instruction_data).unwrap();
    assert(accounts.len() >= 3);
    assert(after.len() == accounts.len());
    assert(0 <= picks[0] < ledger.len());
    assert(accounts[0].data == ledger[picks[0]].data && accounts[1].data == accounts[0].data);
    assert(accounts[0].key == accounts[1].key);
    token_account_encoding_unique(accounts[0].data);
    assert forall|k: int| 2 <= k < after.len() implies (#[trigger] after[k]).data
        == ledger[picks[k]].data by {
        assert(after[k] == accounts[k]);
    }
    written_back_two(ledger, invocation, after);
    assert(ledger.update(picks[0], ledger[picks[0]]) =~= ledger);
}

/// One invocation keeps the books: if they balance for `token` in a valid
/// ledger, and the invocation is well formed and, where it succeeds, one
/// that keeps them, they balance afterwards, and the ledger is still valid.
pub proof fn step_conserves(ledger: Seq<StoredAccount>, invocation: Invocation, token: Seq<u8>)
    requires
        ledger_valid(ledger),
        conserved(ledger, token),
        invocation.well_formed(ledger),
        process_outcome(invocation.presented(ledger), invocation.instruction_data) is Ok
            ==> invocation.keeps_books(ledger, token),
    ensures
        ledger_valid(step(ledger, invocation)),
        conserved(step(ledger, invocation), token),
{
    if process_outcome(invocation.presented(ledger), invocation.instruction_data) is Ok {
        successful_step(ledger, invocation, token);
    }
}

/// No other instruction keeps the books: a successful invocation that is
/// not one of those that keep them leaves books that balanced out of
/// balance.
pub proof fn step_upsets(ledger: Seq<StoredAccount>, invocation: Invocation, token: Seq<u8>)
    requires
        ledger_valid(ledger),
        conserved(ledger, token),
        invocation.well_formed(ledger),
        process_outcome(invocation.presented(ledger), invocation.instruction_data) is Ok,
        !invocation.keeps_books(ledger, token),
    ensures
        !conserved(step(ledger, invocation), token),
{
    successful_step(ledger, invocation, token);
}

/// Conservation: the books of a token that balance in a valid ledger
/// balance after any orderly series of invocations, so what the token's
/// definition records as its supply is at every point the sum of the
/// amounts of the balance accounts of that token.
pub proof fn run_conserves(
    ledger: Seq<StoredAccount>,
    invocations: Seq<Invocation>,
    token: Seq<u8>,
)
    requires
        ledger_valid(ledger),
        conserved(ledger, token),
        orderly(ledger, invocations, token),
    ensures
        ledger_valid(run(ledger, invocations)),
        conserved(run(ledger, invocations), token),
    decreases invocations.len(),
{
    if invocations.len() > 0 {
        run_conserves(ledger, invocations.drop_last(), token);
        step_conserves(run(ledger, invocations.drop_last()), invocations.last(), token);
    }
}

/// A sum over accounts that all weigh nothing is nothing.
proof fn sum_over_nothing(ledger: Seq<StoredAccount>, weight: spec_fn(StoredAccount) -> int)
    requires
        forall|i: int| 0 <= i < ledger.len() ==> weight(#[trigger] ledger[i]) == 0,
    ensures
        sum_over(ledger, weight) == 0,
    decreases ledger.len(),
{
    if ledger.len() > 0 {
        let rest = ledger.drop_last();
        assert forall|i: int| 0 <= i < rest.len() implies weight(#[trigger] rest[i]) == 0 by {
            assert(rest[i] == ledger[i]);
        }
        sum_over_nothing(rest, weight);
        assert(ledger.last() == ledger[ledger.len() - 1]);
    }
}

/// A sum over accounts of which all but one weigh nothing is what that one
/// weighs.
proof fn sum_over_single(
    ledger: Seq<StoredAccount>,
    weight: spec_fn(StoredAccount) -> int,
    at: int,
)
    requires
        0 <= at < ledger.len(),
        forall|i: int| 0 <= i < ledger.len() && i != at ==> weight(#[trigger] ledger[i]) == 0,
    ensures
        sum_over(ledger, weight) == weight(ledger[at]),
    decreases ledger.len(),
{
    let rest = ledger.drop_last();
    assert(ledger.last() == ledger[ledger.len() - 1]);
    if at == ledger.len() - 1 {
        assert forall|i: int| 0 <= i < rest.len() implies weight(#[trigger] rest[i]) == 0 by {
            assert(rest[i] == ledger[i]);
        }
        sum_over_nothing(rest, weight);
    } else {
        assert forall|i: int| 0 <= i < rest.len() && i != at implies weight(#[trigger] rest[i])
            == 0 by {
            assert(rest[i] == ledger[i]);
        }
        sum_over_single(rest, weight, at);
        assert(rest[at] == ledger[at]);
    }
}

/// Where the books start: in a ledger whose accounts are all blank, the
/// books of every token balance.
pub proof fn blank_ledger_conserved(ledger: Seq<StoredAccount>, token: Seq<u8>)
    requires
        forall|i: int| 0 <= i < ledger.len() ==> blank(#[trigger] ledger[i]),
    ensures
        conserved(ledger, token),
{
    sum_over_nothing(ledger, |account: StoredAccount| balance_held(account, token));
    sum_over_nothing(ledger, |account: StoredAccount| supply_recorded(account, token));
}

/// What balanced books say of a definition: in a valid ledger where the
/// books of the token at `at` balance,
/// the supply that its definition records is the sum of the amounts of all
/// balance accounts of that token.
pub proof fn supply_is_sum_of_balances(ledger: Seq<StoredAccount>, at: int)
    requires
        ledger_valid(ledger),
        0 <= at < ledger.len(),
        TokenView::decoding(ledger[at].data) is Some,
        conserved(ledger, ledger[at].key),
    ensures
        TokenView::decoding(ledger[at].data).unwrap().supply == total_balance(
            ledger,
            ledger[at].key,
        ),
{
    let token = ledger[at].key;
    sum_over_single(ledger, |account: StoredAccount| supply_recorded(account, token), at);
}

/// Storing handles adds, removes and renames no account.
proof fn stored_through_keeps_keys(
    ledger: Seq<StoredAccount>,
    picks: Seq<int>,
    after: Seq<AccountView>,
    count: nat,
)
    requires
        count <= picks.len(),
        forall|k: int| 0 <= k < picks.len() ==> 0 <= #[trigger] picks[k] < ledger.len(),
    ensures
        stored_through(ledger, picks, after, count).len() == ledger.len(),
        forall|i: int|
            0 <= i < ledger.len() ==> (#[trigger] stored_through(ledger, picks, after, count)[i]).key
                == ledger[i].key,
    decreases count,
{
    if count > 0 {
        stored_through_keeps_keys(ledger, picks, after, (count - 1) as nat);
        assert(0 <= picks[count - 1] < ledger.len());
    }
}

/// No invocation adds, removes or renames an account: after any orderly
/// series the ledger has the accounts it had, under the addresses they had.
pub proof fn run_keeps_keys(
    ledger: Seq<StoredAccount>,
    invocations: Seq<Invocation>,
    token: Seq<u8>,
)
    requires
        orderly(ledger, invocations, token),
    ensures
        run(ledger, invocations).len() == ledger.len(),
        forall|i: int|
            0 <= i < ledger.len() ==> (#[trigger] run(ledger, invocations)[i]).key
                == ledger[i].key,
    decreases invocations.len(),
{
    if invocations.len() > 0 {
        run_keeps_keys(ledger, invocations.drop_last(), token);
        let met = run(ledger, invocations.drop_last());
        let last = invocations.last();
        match process_outcome(last.presented(met), last.instruction_data) {
            Ok(after) => {
                stored_through_keeps_keys(met, last.picks, after, last.picks.len());
                let end = run(ledger, invocations);
                assert(end == stored_through(met, last.picks, after, last.picks.len()));
                assert forall|i: int| 0 <= i < ledger.len() implies (#[trigger] end[i]).key
                    == ledger[i].key by {
                    assert(end[i].key == met[i].key);
                }
            },
            Err(_) => {},
        }
    }
}

} // verus!
