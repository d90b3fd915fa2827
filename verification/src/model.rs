//! The mathematical model of the ledger.
//!
//! Balances are a finite map from `(token id, account)` to an amount, approvals
//! a finite map from `(owner, operator)` to a flag. A key that is absent stands
//! for zero, or for `false`. The functions here say what a transfer does to such
//! a map; the executable ledger is specified by them.

use crate::primitives::{u256_modulus, Address, U256};
use vstd::prelude::*;

verus! {

/// Amounts by `(token id, account)`. An absent key holds nothing.
pub type Balances = Map<(U256, Address), nat>;

/// Approval flags by `(owner, operator)`. An absent key is no approval.
pub type Approvals = Map<(Address, Address), bool>;

/// What a ledger holds.
pub struct LedgerState {
    pub balances: Balances,
    pub approvals: Approvals,
}

/// The amount of token `id` that `account` holds.
pub open spec fn balance_at(b: Balances, account: Address, id: U256) -> nat {
    if b.dom().contains((id, account)) {
        b[(id, account)]
    } else {
        0
    }
}

/// Finitely many entries, each of which fits in 256 bits.
pub open spec fn valid_balances(b: Balances) -> bool {
    &&& b.dom().finite()
    &&& forall|k: (U256, Address)| b.dom().contains(k) ==> #[trigger] b[k] < u256_modulus()
}

impl LedgerState {
    /// The amount of token `id` that `account` holds.
    pub open spec fn balance_of(self, account: Address, id: U256) -> nat {
        balance_at(self.balances, account, id)
    }

    /// Whether `owner` has approved `operator` for all of its tokens.
    pub open spec fn is_approved_for_all(self, owner: Address, operator: Address) -> bool {
        self.approvals.dom().contains((owner, operator)) && self.approvals[(owner, operator)]
    }

    /// Whether `caller` may move tokens out of `from`: it is `from` itself, or
    /// `from` has approved it.
    pub open spec fn authorizes(self, caller: Address, from: Address) -> bool {
        caller == from || self.is_approved_for_all(from, caller)
    }

    /// The state after `owner` has set its approval of `operator`.
    pub open spec fn with_approval(
        self,
        owner: Address,
        operator: Address,
        approved: bool,
    ) -> LedgerState {
        LedgerState {
            balances: self.balances,
            approvals: self.approvals.insert((owner, operator), approved),
        }
    }

    /// The state with other balances.
    pub open spec fn with_balances(self, balances: Balances) -> LedgerState {
        LedgerState { balances, approvals: self.approvals }
    }

    /// Both maps are finite and every amount fits in 256 bits.
    pub open spec fn valid(self) -> bool {
        valid_balances(self.balances) && self.approvals.dom().finite()
    }
}

/// Whether `from` is an account that holds less than `value` of token `id`.
pub open spec fn lacks_balance(b: Balances, from: Address, id: U256, value: nat) -> bool {
    !from.is_null() && balance_at(b, from, id) < value
}

/// The balances after `value` of token `id` has left `from`. Nothing leaves the
/// null account.
pub open spec fn debited(b: Balances, from: Address, id: U256, value: nat) -> Balances {
    if from.is_null() {
        b
    } else {
        b.insert((id, from), (balance_at(b, from, id) - value) as nat)
    }
}

/// Whether `to` is an account whose holding of token `id`, with `value` more,
/// would no longer fit in 256 bits.
pub open spec fn overflows(b: Balances, to: Address, id: U256, value: nat) -> bool {
    !to.is_null() && balance_at(b, to, id) + value >= u256_modulus()
}

/// The balances after `value` of token `id` has reached `to`. Nothing reaches
/// the null account.
pub open spec fn credited(b: Balances, to: Address, id: U256, value: nat) -> Balances {
    if to.is_null() {
        b
    } else {
        b.insert((id, to), balance_at(b, to, id) + value)
    }
}

/// The balances after one pair `(id, value)` has moved from `from` to `to`:
/// first the debit, then the credit, which reads the balance that the debit
/// left. `None` where `from` holds too little or `to` would hold too much.
pub open spec fn moved(b: Balances, from: Address, to: Address, id: U256, value: nat) -> Option<
    Balances,
> {
    if lacks_balance(b, from, id, value) {
        None
    } else if overflows(debited(b, from, id, value), to, id, value) {
        None
    } else {
        Some(credited(debited(b, from, id, value), to, id, value))
    }
}

/// The balances after the first `n` pairs `(ids[i], values[i])` have moved, one
/// after the other in index order, each on what the ones before it left. `None`
/// where one of them cannot move.
pub open spec fn moved_prefix(
    b: Balances,
    from: Address,
    to: Address,
    ids: Seq<U256>,
    values: Seq<U256>,
    n: nat,
) -> Option<Balances>
    decreases n,
{
    if n == 0 {
        Some(b)
    } else {
        match moved_prefix(b, from, to, ids, values, (n - 1) as nat) {
            Some(before) => moved(before, from, to, ids[n - 1], values[n - 1]@),
            None => None,
        }
    }
}

/// The balances after a whole batch has moved. The batch is the pairs of `ids`
/// and `values` by index; `ids` gives their number.
pub open spec fn moved_all(
    b: Balances,
    from: Address,
    to: Address,
    ids: Seq<U256>,
    values: Seq<U256>,
) -> Option<Balances> {
    moved_prefix(b, from, to, ids, values, ids.len())
}

/// Whether pair `i` is the first of a batch that cannot move.
pub open spec fn stops_at(
    b: Balances,
    from: Address,
    to: Address,
    ids: Seq<U256>,
    values: Seq<U256>,
    i: int,
) -> bool {
    &&& 0 <= i < ids.len()
    &&& moved_prefix(b, from, to, ids, values, i as nat) matches Some(before)
    &&& moved(before, from, to, ids[i], values[i]@) is None
}

/// The holders of token `id`: the keys for `id` of accounts other than null.
pub open spec fn holders(b: Balances, id: U256) -> Set<(U256, Address)> {
    b.dom().filter(|k: (U256, Address)| k.0 == id && !k.1.is_null())
}

/// The sum of the amounts under a finite set of keys.
pub open spec fn sum_over(b: Balances, keys: Set<(U256, Address)>) -> nat
    decreases keys.len(),
    when keys.finite()
{
    if keys.is_empty() {
        0
    } else {
        let k = keys.choose();
        b[k] + sum_over(b, keys.remove(k))
    }
}

/// The total supply of token `id`: what all accounts but null hold of it.
pub open spec fn total_supply(b: Balances, id: U256) -> nat {
    sum_over(b, holders(b, id))
}

/// A sum over a set is the amount under any one of its keys plus the sum over
/// the others.
pub proof fn lemma_sum_remove(b: Balances, keys: Set<(U256, Address)>, k: (U256, Address))
    requires
        keys.finite(),
        keys.contains(k),
    ensures
        sum_over(b, keys) == b[k] + sum_over(b, keys.remove(k)),
    decreases keys.len(),
{
    let c = keys.choose();
    if c != k {
        lemma_sum_remove(b, keys.remove(c), k);
        lemma_sum_remove(b, keys.remove(k), c);
        assert(keys.remove(c).remove(k) =~= keys.remove(k).remove(c));
    }
}

/// Two maps that agree on a set of keys have the same sum over it.
pub proof fn lemma_sum_agree(b1: Balances, b2: Balances, keys: Set<(U256, Address)>)
    requires
        keys.finite(),
        forall|k: (U256, Address)| keys.contains(k) ==> b1[k] == b2[k],
    ensures
        sum_over(b1, keys) == sum_over(b2, keys),
    decreases keys.len(),
{
    if !keys.is_empty() {
        let c = keys.choose();
        lemma_sum_agree(b1, b2, keys.remove(c));
    }
}

/// Writing `amount` under `(id, account)` changes the total supply of `id` by
/// the difference to what the account held, unless the account is null; the
/// supply of every other token stays.
pub proof fn lemma_supply_after_write(
    b: Balances,
    account: Address,
    id: U256,
    amount: nat,
    token: U256,
)
    requires
        b.dom().finite(),
    ensures
        total_supply(b.insert((id, account), amount), token) == if token == id
            && !account.is_null() {
            total_supply(b, token) - balance_at(b, account, id) + amount
        } else {
            total_supply(b, token) as int
        },
{
    let k = (id, account);
    let after = b.insert(k, amount);
    let h = holders(b, token);
    let h_after = holders(after, token);
    if token == id && !account.is_null() {
        if b.dom().contains(k) {
            assert(h_after =~= h);
            lemma_sum_remove(b, h, k);
            lemma_sum_remove(after, h, k);
            lemma_sum_agree(b, after, h.remove(k));
        } else {
            assert(h_after.remove(k) =~= h);
            lemma_sum_remove(after, h_after, k);
            lemma_sum_agree(b, after, h);
        }
    } else {
        assert(h_after =~= h);
        lemma_sum_agree(b, after, h);
    }
}

/// What one pair does to the balances of every account: `value` leaves `from`
/// and reaches `to`, unless that one is null, and nothing else changes.
pub proof fn lemma_moved_balances(
    b: Balances,
    from: Address,
    to: Address,
    id: U256,
    value: nat,
    account: Address,
    token: U256,
)
    requires
        moved(b, from, to, id, value) is Some,
    ensures
        balance_at(moved(b, from, to, id, value).unwrap(), account, token) == balance_at(
            b,
            account,
            token,
        ) - (if token == id && account == from && !from.is_null() {
            value
        } else {
            0
        }) + (if token == id && account == to && !to.is_null() {
            value
        } else {
            0
        }),
{
}

/// One pair keeps the map finite.
pub proof fn lemma_moved_finite(b: Balances, from: Address, to: Address, id: U256, value: nat)
    requires
        b.dom().finite(),
        moved(b, from, to, id, value) is Some,
    ensures
        moved(b, from, to, id, value).unwrap().dom().finite(),
{
    assert(debited(b, from, id, value).dom().finite());
}

/// A pair of value zero always moves.
pub proof fn lemma_zero_value_moves(b: Balances, from: Address, to: Address, id: U256)
    requires
        valid_balances(b),
    ensures
        moved(b, from, to, id, 0) is Some,
{
    assert(valid_balances(debited(b, from, id, 0)));
}

/// What one pair does to the total supply of each token: a pair from the null
/// account mints `value`, one to the null account burns it, and any other
/// leaves every supply as it was.
pub proof fn lemma_moved_supply(
    b: Balances,
    from: Address,
    to: Address,
    id: U256,
    value: nat,
    token: U256,
)
    requires
        b.dom().finite(),
        moved(b, from, to, id, value) is Some,
    ensures
        total_supply(moved(b, from, to, id, value).unwrap(), token) == total_supply(b, token) + (
        if token == id && from.is_null() && !to.is_null() {
            value
        } else {
            0
        }) - (if token == id && !from.is_null() && to.is_null() {
            value
        } else {
            0
        }),
{
    let after_debit = debited(b, from, id, value);
    if !from.is_null() {
        lemma_supply_after_write(b, from, id, (balance_at(b, from, id) - value) as nat, token);
    }
    if !to.is_null() {
        lemma_supply_after_write(
            after_debit,
            to,
            id,
            balance_at(after_debit, to, id) + value,
            token,
        );
    }
}

/// A batch that moves as a whole moves up to each of its pairs.
pub proof fn lemma_prefix_moves(
    b: Balances,
    from: Address,
    to: Address,
    ids: Seq<U256>,
    values: Seq<U256>,
    n: nat,
    m: nat,
)
    requires
        n <= m,
        moved_prefix(b, from, to, ids, values, m) is Some,
    ensures
        moved_prefix(b, from, to, ids, values, n) is Some,
    decreases m,
{
    if n < m {
        lemma_prefix_moves(b, from, to, ids, values, n, (m - 1) as nat);
    }
}

/// A batch moves as a whole exactly when it stops at no pair.
pub proof fn lemma_moves_or_stops(
    b: Balances,
    from: Address,
    to: Address,
    ids: Seq<U256>,
    values: Seq<U256>,
)
    ensures
        moved_all(b, from, to, ids, values) is None <==> exists|i: int|
            stops_at(b, from, to, ids, values, i),
{
    if moved_all(b, from, to, ids, values) is None {
        let i = lemma_first_stop(b, from, to, ids, values, ids.len());
        assert(stops_at(b, from, to, ids, values, i));
    } else {
        assert forall|i: int| !stops_at(b, from, to, ids, values, i) by {
            if 0 <= i < ids.len() {
                lemma_prefix_moves(b, from, to, ids, values, (i + 1) as nat, ids.len());
            }
        }
    }
}

/// Where the first `n` pairs cannot move, one of them is the first that cannot.
proof fn lemma_first_stop(
    b: Balances,
    from: Address,
    to: Address,
    ids: Seq<U256>,
    values: Seq<U256>,
    n: nat,
) -> (i: int)
    requires
        n <= ids.len(),
        moved_prefix(b, from, to, ids, values, n) is None,
    ensures
        i < n,
        stops_at(b, from, to, ids, values, i),
    decreases n,
{
    if moved_prefix(b, from, to, ids, values, (n - 1) as nat) is None {
        lemma_first_stop(b, from, to, ids, values, (n - 1) as nat)
    } else {
        n - 1
    }
}

} // verus!
