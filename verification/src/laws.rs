//! What holds of the ledger whatever its state: conservation of supply, minting
//! and burning, authorization, and that a refusal has one reason.
//!
//! Each law is stated over the model of `crate::model`, by which the operations
//! of the ledger are specified.

use crate::erc1155::{batch_update, refuses, single_update, Erc1155Error, Erc1155Event};
use crate::model::{
    balance_at, debited, holders, lemma_moved_balances, lemma_moved_finite, lemma_moved_supply,
    lemma_prefix_moves, lemma_sum_remove, moved, moved_all, moved_prefix, stops_at, total_supply,
    valid_balances, Balances, LedgerState,
};
use crate::primitives::{lemma_u256_view, u256_modulus, Address, U256};
use vstd::prelude::*;

verus! {

/// One transfer of a sequence: `value` of token `id` from `from` to `to`.
pub struct Transfer {
    pub from: Address,
    pub to: Address,
    pub id: U256,
    pub value: nat,
}

/// The balances after a sequence of transfers, each tried on what the ones
/// before it left. One that cannot move changes nothing.
pub open spec fn settled(b: Balances, transfers: Seq<Transfer>) -> Balances
    decreases transfers.len(),
{
    if transfers.len() == 0 {
        b
    } else {
        let before = settled(b, transfers.drop_last());
        let last = transfers.last();
        match moved(before, last.from, last.to, last.id, last.value) {
            Some(after) => after,
            None => before,
        }
    }
}

/// Conservation, for one transfer: between two accounts, neither of them null,
/// it leaves the total supply of every token as it was.
pub proof fn law_transfer_conserves_supply(
    b: Balances,
    from: Address,
    to: Address,
    id: U256,
    value: nat,
    token: U256,
)
    requires
        b.dom().finite(),
        !from.is_null(),
        !to.is_null(),
        moved(b, from, to, id, value) is Some,
    ensures
        total_supply(moved(b, from, to, id, value).unwrap(), token) == total_supply(b, token),
{
    lemma_moved_supply(b, from, to, id, value, token);
}

/// Conservation, for a batch: between two accounts, neither of them null, its
/// first `n` pairs leave the total supply of every token as it was.
pub proof fn law_prefix_conserves_supply(
    b: Balances,
    from: Address,
    to: Address,
    ids: Seq<U256>,
    values: Seq<U256>,
    n: nat,
    token: U256,
)
    requires
        b.dom().finite(),
        !from.is_null(),
        !to.is_null(),
        moved_prefix(b, from, to, ids, values, n) is Some,
    ensures
        moved_prefix(b, from, to, ids, values, n).unwrap().dom().finite(),
        total_supply(moved_prefix(b, from, to, ids, values, n).unwrap(), token) == total_supply(
            b,
            token,
        ),
    decreases n,
{
    if n > 0 {
        law_prefix_conserves_supply(b, from, to, ids, values, (n - 1) as nat, token);
        let before = moved_prefix(b, from, to, ids, values, (n - 1) as nat).unwrap();
        lemma_moved_finite(before, from, to, ids[n - 1], values[n - 1]@);
        lemma_moved_supply(before, from, to, ids[n - 1], values[n - 1]@, token);
    }
}

/// Conservation, for a whole batch between two accounts, neither of them null.
pub proof fn law_batch_conserves_supply(
    b: Balances,
    from: Address,
    to: Address,
    ids: Seq<U256>,
    values: Seq<U256>,
    token: U256,
)
    requires
        b.dom().finite(),
        !from.is_null(),
        !to.is_null(),
        moved_all(b, from, to, ids, values) is Some,
    ensures
        total_supply(moved_all(b, from, to, ids, values).unwrap(), token) == total_supply(
            b,
            token,
        ),
{
    law_prefix_conserves_supply(b, from, to, ids, values, ids.len(), token);
}

/// Conservation, for any sequence of transfers: where none of them has the null
/// account at either end, the total supply of every token is the same after
/// the sequence as before it.
pub proof fn law_sequence_conserves_supply(b: Balances, transfers: Seq<Transfer>, token: U256)
    requires
        b.dom().finite(),
        forall|i: int|
            0 <= i < transfers.len() ==> !(#[trigger] transfers[i]).from.is_null()
                && !transfers[i].to.is_null(),
    ensures
        settled(b, transfers).dom().finite(),
        total_supply(settled(b, transfers), token) == total_supply(b, token),
    decreases transfers.len(),
{
    if transfers.len() > 0 {
        let front = transfers.drop_last();
        let last = transfers.last();
        assert forall|i: int| 0 <= i < front.len() implies !(#[trigger] front[i]).from.is_null()
            && !front[i].to.is_null() by {
            assert(front[i] == transfers[i]);
        }
        law_sequence_conserves_supply(b, front, token);
        let before = settled(b, front);
        assert(last == transfers[transfers.len() - 1]);
        if moved(before, last.from, last.to, last.id, last.value) is Some {
            lemma_moved_finite(before, last.from, last.to, last.id, last.value);
            lemma_moved_supply(before, last.from, last.to, last.id, last.value, token);
        }
    }
}

/// Conservation, for the balance update of one pair between two accounts,
/// neither of them null: whether it moves or is refused, the total supply of
/// every token is the same after it as before.
pub proof fn law_single_update_conserves_supply(
    pre: LedgerState,
    post: LedgerState,
    r: Result<Erc1155Event, Erc1155Error>,
    operator: Address,
    from: Address,
    to: Address,
    id: U256,
    value: U256,
    token: U256,
)
    requires
        pre.balances.dom().finite(),
        !from.is_null(),
        !to.is_null(),
        single_update(pre, post, r, operator, from, to, id, value),
    ensures
        total_supply(post.balances, token) == total_supply(pre.balances, token),
{
    if moved(pre.balances, from, to, id, value@) is Some {
        lemma_moved_supply(pre.balances, from, to, id, value@, token);
    }
}

/// Conservation, for the balance update of a batch between two accounts,
/// neither of them null: whether it moves or is refused, the total supply of
/// every token is the same after it as before.
pub proof fn law_batch_update_conserves_supply(
    pre: LedgerState,
    post: LedgerState,
    r: Result<Erc1155Event, Erc1155Error>,
    operator: Address,
    from: Address,
    to: Address,
    ids: Seq<U256>,
    values: Seq<U256>,
    token: U256,
)
    requires
        pre.balances.dom().finite(),
        !from.is_null(),
        !to.is_null(),
        batch_update(pre, post, r, operator, from, to, ids, values),
    ensures
        total_supply(post.balances, token) == total_supply(pre.balances, token),
{
    if ids.len() == values.len() && moved_all(pre.balances, from, to, ids, values) is Some {
        law_batch_conserves_supply(pre.balances, from, to, ids, values, token);
    }
}

/// Atomicity: a balance update of a batch is refused exactly when the two
/// sequences differ in length or one of the pairs cannot move, and a batch that
/// is refused leaves the ledger as it was.
pub proof fn law_refused_batch_changes_nothing(
    pre: LedgerState,
    post: LedgerState,
    r: Result<Erc1155Event, Erc1155Error>,
    operator: Address,
    from: Address,
    to: Address,
    ids: Seq<U256>,
    values: Seq<U256>,
)
    requires
        batch_update(pre, post, r, operator, from, to, ids, values),
    ensures
        r is Err ==> post == pre,
        r is Err <==> ids.len() != values.len() || moved_all(pre.balances, from, to, ids, values)
            is None,
{
}

/// Minting: a transfer from the null account to an account moves exactly when
/// the account's holding stays within 256 bits. It then adds `value` to that
/// holding and to the total supply of the token, and changes no other balance.
/// Nothing in it depends on an approval.
pub proof fn law_mint(
    b: Balances,
    null: Address,
    to: Address,
    id: U256,
    value: nat,
    account: Address,
    token: U256,
)
    requires
        b.dom().finite(),
        null.is_null(),
        !to.is_null(),
    ensures
        moved(b, null, to, id, value) is Some <==> balance_at(b, to, id) + value < u256_modulus(),
        moved(b, null, to, id, value) matches Some(after) ==> {
            &&& balance_at(after, to, id) == balance_at(b, to, id) + value
            &&& total_supply(after, id) == total_supply(b, id) + value
            &&& (account != to || token != id) ==> balance_at(after, account, token) == balance_at(
                b,
                account,
                token,
            )
        },
{
    if moved(b, null, to, id, value) is Some {
        lemma_moved_supply(b, null, to, id, value, id);
        lemma_moved_balances(b, null, to, id, value, to, id);
        lemma_moved_balances(b, null, to, id, value, account, token);
    }
}

/// Burning: a transfer from an account to the null account moves exactly when
/// the account holds at least `value`. It then takes `value` from that holding
/// and from the total supply of the token, and changes no other balance.
pub proof fn law_burn(
    b: Balances,
    from: Address,
    null: Address,
    id: U256,
    value: nat,
    account: Address,
    token: U256,
)
    requires
        b.dom().finite(),
        !from.is_null(),
        null.is_null(),
    ensures
        moved(b, from, null, id, value) is Some <==> value <= balance_at(b, from, id),
        moved(b, from, null, id, value) matches Some(after) ==> {
            &&& balance_at(after, from, id) == balance_at(b, from, id) - value
            &&& total_supply(after, id) == total_supply(b, id) - value
            &&& (account != from || token != id) ==> balance_at(after, account, token)
                == balance_at(b, account, token)
        },
{
    if moved(b, from, null, id, value) is Some {
        lemma_moved_supply(b, from, null, id, value, id);
        lemma_moved_balances(b, from, null, id, value, from, id);
        lemma_moved_balances(b, from, null, id, value, account, token);
    }
}

/// Authorization: an account other than the owner, with no approval recorded,
/// may not move the owner's tokens. Once the owner has approved it, it may,
/// and the approval has changed no balance.
pub proof fn law_approval_authorizes(state: LedgerState, owner: Address, operator: Address)
    requires
        operator != owner,
    ensures
        !state.is_approved_for_all(owner, operator) ==> !state.authorizes(operator, owner),
        state.with_approval(owner, operator, true).authorizes(operator, owner),
        !state.with_approval(owner, operator, false).authorizes(operator, owner),
        state.with_approval(owner, operator, true).balances == state.balances,
{
}

/// An approval is between one owner and one operator: setting it changes what
/// no other pair may do.
pub proof fn law_approval_is_local(
    state: LedgerState,
    owner: Address,
    operator: Address,
    approved: bool,
    other_owner: Address,
    other_operator: Address,
)
    requires
        other_owner != owner || other_operator != operator,
    ensures
        state.with_approval(owner, operator, approved).is_approved_for_all(
            other_owner,
            other_operator,
        ) == state.is_approved_for_all(other_owner, other_operator),
{
}

/// A pair that cannot move has one reason: two errors that both say why it is
/// refused are the same error.
pub proof fn law_refusal_unique(
    first: Erc1155Error,
    second: Erc1155Error,
    b: Balances,
    from: Address,
    to: Address,
    id: U256,
    value: U256,
)
    requires
        refuses(first, b, from, to, id, value),
        refuses(second, b, from, to, id, value),
    ensures
        first == second,
{
    match (first, second) {
        (
            Erc1155Error::InsufficientBalance { balance: one, .. },
            Erc1155Error::InsufficientBalance { balance: two, .. },
        ) => {
            lemma_u256_view(one, two);
        },
        (
            Erc1155Error::BalanceOverflow { balance: one, .. },
            Erc1155Error::BalanceOverflow { balance: two, .. },
        ) => {
            lemma_u256_view(one, two);
        },
        _ => {},
    }
}

/// An account's holding is part of the total supply.
pub proof fn law_balance_within_supply(b: Balances, account: Address, id: U256)
    requires
        b.dom().finite(),
        !account.is_null(),
    ensures
        balance_at(b, account, id) <= total_supply(b, id),
{
    if b.dom().contains((id, account)) {
        lemma_sum_remove(b, holders(b, id), (id, account));
    }
}

/// One pair keeps the map finite and each amount within 256 bits.
pub proof fn law_moved_keeps_valid(b: Balances, from: Address, to: Address, id: U256, value: nat)
    requires
        valid_balances(b),
        moved(b, from, to, id, value) is Some,
    ensures
        valid_balances(moved(b, from, to, id, value).unwrap()),
{
    let after_debit = debited(b, from, id, value);
    assert(valid_balances(after_debit));
}

/// A batch stops at one pair at most.
pub proof fn law_batch_stops_once(
    b: Balances,
    from: Address,
    to: Address,
    ids: Seq<U256>,
    values: Seq<U256>,
    i: int,
    j: int,
)
    requires
        stops_at(b, from, to, ids, values, i),
        stops_at(b, from, to, ids, values, j),
    ensures
        i == j,
{
    if i < j {
        lemma_prefix_moves(b, from, to, ids, values, (i + 1) as nat, j as nat);
    } else if j < i {
        lemma_prefix_moves(b, from, to, ids, values, (j + 1) as nat, i as nat);
    }
}

/// There is one null account.
pub proof fn law_null_account_unique(a: Address, b: Address)
    requires
        a.is_null(),
        b.is_null(),
    ensures
        a == b,
{
    assert(a.bytes =~= b.bytes);
}

} // verus!
