//! The ledger: balances, operator approvals, and the checked operations on them.
//!
//! Every operation that changes the ledger either succeeds, and then returns the
//! event to emit, or fails with an error and leaves the ledger as it was. The
//! caller's identity is an argument of each of them.

use crate::model::{
    balance_at, debited, lacks_balance, moved, moved_all, moved_prefix, overflows, stops_at,
    valid_balances, Balances, LedgerState,
};
use crate::primitives::{lemma_u256_view, Address, U256};
use crate::table::Table;
use vstd::prelude::*;

verus! {

/// Why an operation was refused.
#[derive(Clone, Debug, PartialEq, Eq)]
pub enum Erc1155Error {
    /// `sender` holds `balance` of token `id`, less than the `needed` amount.
    InsufficientBalance { sender: Address, balance: U256, needed: U256, id: U256 },
    /// The receiver of a transfer is the null account.
    InvalidReceiver { receiver: Address },
    /// Reserved: no operation of the ledger gives it.
    InvalidApprover { approver: Address },
    /// An account tried to approve itself as its own operator.
    InvalidOperator { operator: Address },
    /// Two sequences that are paired by index differ in length.
    InvalidArrayLength { ids_length: U256, values_length: U256 },
    /// `operator` is neither `owner` nor approved by it.
    MissingApprovalForAll { operator: Address, owner: Address },
    /// `receiver` holds `balance` of token `id`, and `added` more would not fit
    /// in 256 bits.
    BalanceOverflow { receiver: Address, balance: U256, added: U256, id: U256 },
}

/// What an operation that succeeded asks its caller to emit.
#[derive(Clone, Debug, PartialEq, Eq)]
pub enum Erc1155Event {
    /// One pair `(id, value)` went from `from` to `to`, on `operator`'s call.
    TransferSingle { operator: Address, from: Address, to: Address, id: U256, value: U256 },
    /// A batch of pairs went from `from` to `to`, on `operator`'s call.
    TransferBatch {
        operator: Address,
        from: Address,
        to: Address,
        ids: Vec<U256>,
        values: Vec<U256>,
    },
    /// `account` set its approval of `operator`.
    ApprovalForAll { account: Address, operator: Address, approved: bool },
}

/// The amounts of a table of balances, as numbers.
pub open spec fn amounts(table: Map<(U256, Address), U256>) -> Balances {
    table.map_values(|amount: U256| amount@)
}

/// Whether `e` is the error that the pair `(id, value)` from `from` to `to`
/// gives on the balances `b`: the sender's shortfall where it holds too little,
/// else the receiver's overflow, each with the balance that was read.
pub open spec fn refuses(
    e: Erc1155Error,
    b: Balances,
    from: Address,
    to: Address,
    id: U256,
    value: U256,
) -> bool {
    match e {
        Erc1155Error::InsufficientBalance { sender, balance, needed, id: token } => {
            &&& lacks_balance(b, from, id, value@)
            &&& sender == from
            &&& balance@ == balance_at(b, from, id)
            &&& needed == value
            &&& token == id
        },
        Erc1155Error::BalanceOverflow { receiver, balance, added, id: token } => {
            &&& !lacks_balance(b, from, id, value@)
            &&& overflows(debited(b, from, id, value@), to, id, value@)
            &&& receiver == to
            &&& balance@ == balance_at(debited(b, from, id, value@), to, id)
            &&& added == value
            &&& token == id
        },
        _ => false,
    }
}

/// Whether `e` reports the two lengths of a mismatched pair of sequences.
pub open spec fn reports_lengths(e: Erc1155Error, ids_length: nat, values_length: nat) -> bool {
    e matches Erc1155Error::InvalidArrayLength { ids_length: first, values_length: second }
        && first@ == ids_length && second@ == values_length
}

/// Whether a balance update of one pair, on the state `pre`, may end in the
/// state `post` with the result `r`: the pair moves and the transfer event comes
/// back, or it cannot move, the state stays and the error says why.
pub open spec fn single_update(
    pre: LedgerState,
    post: LedgerState,
    r: Result<Erc1155Event, Erc1155Error>,
    operator: Address,
    from: Address,
    to: Address,
    id: U256,
    value: U256,
) -> bool {
    match moved(pre.balances, from, to, id, value@) {
        Some(b) => {
            &&& post == pre.with_balances(b)
            &&& r == Ok::<Erc1155Event, Erc1155Error>(
                Erc1155Event::TransferSingle { operator, from, to, id, value },
            )
        },
        None => {
            &&& post == pre
            &&& r matches Err(e)
            &&& refuses(e, pre.balances, from, to, id, value)
        },
    }
}

/// Whether `r` is the one event of a whole batch.
pub open spec fn is_batch_event(
    r: Result<Erc1155Event, Erc1155Error>,
    operator: Address,
    from: Address,
    to: Address,
    ids: Seq<U256>,
    values: Seq<U256>,
) -> bool {
    r matches Ok(
        Erc1155Event::TransferBatch {
            operator: by,
            from: source,
            to: target,
            ids: event_ids,
            values: event_values,
        },
    ) && by == operator && source == from && target == to && event_ids@ == ids && event_values@
        == values
}

/// Whether a balance update of a batch, on the state `pre`, may end in the state
/// `post` with the result `r`. Sequences of different lengths are refused. Else
/// the pairs move in index order, each on what the ones before it left, and the
/// batch event comes back; or one of them cannot move, the state stays as it was
/// before the first pair, and the error is that of the first pair that cannot
/// move, on the balances that the pairs before it left.
pub open spec fn batch_update(
    pre: LedgerState,
    post: LedgerState,
    r: Result<Erc1155Event, Erc1155Error>,
    operator: Address,
    from: Address,
    to: Address,
    ids: Seq<U256>,
    values: Seq<U256>,
) -> bool {
    if ids.len() != values.len() {
        &&& post == pre
        &&& r matches Err(e)
        &&& reports_lengths(e, ids.len(), values.len())
    } else {
        match moved_all(pre.balances, from, to, ids, values) {
            Some(b) => {
                &&& post == pre.with_balances(b)
                &&& is_batch_event(r, operator, from, to, ids, values)
            },
            None => {
                &&& post == pre
                &&& r matches Err(e)
                &&& exists|i: int|
                    {
                        &&& #[trigger] stops_at(pre.balances, from, to, ids, values, i)
                        &&& refuses(
                            e,
                            moved_prefix(pre.balances, from, to, ids, values, i as nat).unwrap(),
                            from,
                            to,
                            ids[i],
                            values[i],
                        )
                    }
            },
        }
    }
}

/// Writing an amount into a table of balances writes its number into the
/// amounts.
proof fn lemma_amounts_insert(table: Map<(U256, Address), U256>, key: (U256, Address), amount: U256)
    ensures
        amounts(table.insert(key, amount)) == amounts(table).insert(key, amount@),
{
    assert(amounts(table.insert(key, amount)) =~= amounts(table).insert(key, amount@));
}

/// The amounts of a finite table are finite, and each fits in 256 bits.
proof fn lemma_amounts_valid(table: Map<(U256, Address), U256>)
    requires
        table.dom().finite(),
    ensures
        valid_balances(amounts(table)),
{
    assert(amounts(table).dom() =~= table.dom());
    assert forall|k: (U256, Address)| amounts(table).dom().contains(k) implies #[trigger] amounts(
        table,
    )[k] < crate::primitives::u256_modulus() by {
        lemma_u256_view(table[k], table[k]);
    }
}

/// The amount under `(id, account)`, or zero where the table has no such key.
fn read_balance(balances: &Table<(U256, Address), U256>, account: Address, id: U256) -> (r: U256)
    ensures
        r@ == balance_at(amounts(balances@), account, id),
{
    match balances.get(&(id, account)) {
        Some(amount) => amount,
        None => U256::zero(),
    }
}

/// Moves one pair on a table of balances: checks the debit, then the credit on
/// what the debit leaves, and writes only when both can be done.
fn move_pair(
    balances: &mut Table<(U256, Address), U256>,
    from: Address,
    to: Address,
    id: U256,
    value: U256,
) -> (r: Result<(), Erc1155Error>)
    ensures
        match moved(amounts(old(balances)@), from, to, id, value@) {
            Some(b) => r is Ok && amounts(final(balances)@) == b,
            None => {
                &&& final(balances)@ == old(balances)@
                &&& r matches Err(e)
                &&& refuses(e, amounts(old(balances)@), from, to, id, value)
            },
        },
{
    let debit: Option<U256> = if from.is_zero() {
        None
    } else {
        let current = read_balance(balances, from, id);
        match current.checked_sub(value) {
            Some(rest) => Some(rest),
            None => {
                return Err(
                    Erc1155Error::InsufficientBalance {
                        sender: from,
                        balance: current,
                        needed: value,
                        id,
                    },
                );
            },
        }
    };
    let credit: Option<U256> = if to.is_zero() {
        None
    } else {
        let current = match debit {
            Some(rest) if to.same_as(&from) => rest,
            _ => read_balance(balances, to, id),
        };
        match current.checked_add(value) {
            Some(total) => Some(total),
            None => {
                return Err(
                    Erc1155Error::BalanceOverflow {
                        receiver: to,
                        balance: current,
                        added: value,
                        id,
                    },
                );
            },
        }
    };
    if let Some(rest) = debit {
        proof {
            lemma_amounts_insert(balances@, (id, from), rest);
        }
        balances.insert((id, from), rest);
    }
    if let Some(total) = credit {
        proof {
            lemma_amounts_insert(balances@, (id, to), total);
        }
        balances.insert((id, to), total);
    }
    Ok(())
}

/// The ledger.
pub struct Erc1155 {
    balances: Table<(U256, Address), U256>,
    operator_approvals: Table<(Address, Address), bool>,
}

impl View for Erc1155 {
    type V = LedgerState;

    closed spec fn view(&self) -> LedgerState {
        LedgerState {
            balances: amounts(self.balances@),
            approvals: self.operator_approvals@,
        }
    }
}

impl Erc1155 {
    /// What a ledger holds is finite, and every amount fits in 256 bits.
    pub proof fn lemma_valid(self)
        ensures
            self@.valid(),
    {
        self.balances.lemma_finite();
        self.operator_approvals.lemma_finite();
        lemma_amounts_valid(self.balances@);
    }

    /// A ledger in which nobody holds anything and nothing is approved.
    pub fn new() -> (r: Erc1155)
        ensures
            r@.balances == Map::<(U256, Address), nat>::empty(),
            r@.approvals == Map::<(Address, Address), bool>::empty(),
    {
        let r = Erc1155 { balances: Table::new(), operator_approvals: Table::new() };
        proof {
            assert(amounts(r.balances@) =~= Map::<(U256, Address), nat>::empty());
        }
        r
    }

    /// The amount of token `id` that `account` holds; zero where nothing was
    /// ever written for the two.
    pub fn balance_of(&self, account: Address, id: U256) -> (r: U256)
        ensures
            r@ == self@.balance_of(account, id),
    {
        read_balance(&self.balances, account, id)
    }

    /// The balances of `accounts[i]` in token `ids[i]`, in index order. Refused
    /// where the two sequences differ in length; the error then holds the
    /// length of `ids` first and that of `accounts` second.
    pub fn balance_of_batch(&self, accounts: Vec<Address>, ids: Vec<U256>) -> (r: Result<
        Vec<U256>,
        Erc1155Error,
    >)
        ensures
            match r {
                Ok(balances) => {
                    &&& accounts@.len() == ids@.len()
                    &&& balances@.len() == accounts@.len()
                    &&& forall|i: int|
                        0 <= i < balances@.len() ==> (#[trigger] balances@[i])@
                            == self@.balance_of(accounts@[i], ids@[i])
                },
                Err(e) => {
                    &&& accounts@.len() != ids@.len()
                    &&& reports_lengths(e, ids@.len(), accounts@.len())
                },
            },
    {
        if accounts.len() != ids.len() {
            return Err(
                Erc1155Error::InvalidArrayLength {
                    ids_length: U256::from_usize(ids.len()),
                    values_length: U256::from_usize(accounts.len()),
                },
            );
        }
        let mut balances: Vec<U256> = Vec::new();
        let mut i: usize = 0;
        while i < accounts.len()
            invariant
                i <= accounts@.len(),
                accounts@.len() == ids@.len(),
                balances@.len() == i,
                forall|j: int|
                    0 <= j < i ==> (#[trigger] balances@[j])@ == self@.balance_of(
                        accounts@[j],
                        ids@[j],
                    ),
            decreases accounts@.len() - i,
        {
            balances.push(self.balance_of(accounts[i], ids[i]));
            i += 1;
        }
        Ok(balances)
    }

    /// `caller` grants or revokes `operator`'s right to move all of its tokens.
    /// Refused, before anything is written, where `operator` is `caller`
    /// itself. Otherwise the flag is stored and the approval event comes back,
    /// also where the flag was already so.
    pub fn set_approval_for_all(&mut self, caller: Address, operator: Address, approved: bool) -> (r:
        Result<Erc1155Event, Erc1155Error>)
        ensures
            caller == operator ==> {
                &&& *final(self) == *old(self)
                &&& r == Err::<Erc1155Event, Erc1155Error>(
                    Erc1155Error::InvalidOperator { operator },
                )
            },
            caller != operator ==> {
                &&& final(self)@ == old(self)@.with_approval(caller, operator, approved)
                &&& r == Ok::<Erc1155Event, Erc1155Error>(
                    Erc1155Event::ApprovalForAll { account: caller, operator, approved },
                )
            },
    {
        if caller.same_as(&operator) {
            return Err(Erc1155Error::InvalidOperator { operator });
        }
        self.operator_approvals.insert((caller, operator), approved);
        Ok(Erc1155Event::ApprovalForAll { account: caller, operator, approved })
    }

    /// Whether `account` has approved `operator`; `false` where nothing was
    /// ever written for the two.
    pub fn is_approved_for_all(&self, account: Address, operator: Address) -> (r: bool)
        ensures
            r == self@.is_approved_for_all(account, operator),
    {
        match self.operator_approvals.get(&(account, operator)) {
            Some(approved) => approved,
            None => false,
        }
    }

    /// Whether `caller` may move tokens out of `from`.
    fn is_authorized(&self, caller: Address, from: Address) -> (r: bool)
        ensures
            r == self@.authorizes(caller, from),
    {
        from.same_as(&caller) || self.is_approved_for_all(from, caller)
    }

    /// `caller` moves `value` of token `id` from `from` to `to`.
    ///
    /// Refused, in this order: where `caller` is neither `from` nor approved by
    /// it; where `to` is the null account; where the balance update is refused.
    /// A refusal leaves the ledger as it was.
    pub fn safe_transfer_from(
        &mut self,
        caller: Address,
        from: Address,
        to: Address,
        id: U256,
        value: U256,
        _data: Vec<u8>,
    ) -> (r: Result<Erc1155Event, Erc1155Error>)
        ensures
            !old(self)@.authorizes(caller, from) ==> {
                &&& *final(self) == *old(self)
                &&& r == Err::<Erc1155Event, Erc1155Error>(
                    Erc1155Error::MissingApprovalForAll { operator: caller, owner: from },
                )
            },
            old(self)@.authorizes(caller, from) && to.is_null() ==> {
                &&& *final(self) == *old(self)
                &&& r == Err::<Erc1155Event, Erc1155Error>(
                    Erc1155Error::InvalidReceiver { receiver: to },
                )
            },
            old(self)@.authorizes(caller, from) && !to.is_null() ==> single_update(
                old(self)@,
                final(self)@,
                r,
                caller,
                from,
                to,
                id,
                value,
            ),
            old(self)@.authorizes(caller, from) && !to.is_null() && value@ == 0 ==> r is Ok,
    {
        if !self.is_authorized(caller, from) {
            return Err(Erc1155Error::MissingApprovalForAll { operator: caller, owner: from });
        }
        if to.is_zero() {
            return Err(Erc1155Error::InvalidReceiver { receiver: to });
        }
        self._update_single(caller, from, to, id, value)
    }

    /// `caller` moves the pairs `(ids[i], values[i])` from `from` to `to`, as
    /// one batch.
    ///
    /// Refused, in this order: where `caller` is neither `from` nor approved by
    /// it; where `to` is the null account; where the balance update of the
    /// batch is refused, first of all for sequences of different lengths. A
    /// refusal leaves the ledger as it was.
    pub fn safe_batch_transfer_from(
        &mut self,
        caller: Address,
        from: Address,
        to: Address,
        ids: Vec<U256>,
        values: Vec<U256>,
        _data: Vec<u8>,
    ) -> (r: Result<Erc1155Event, Erc1155Error>)
        ensures
            !old(self)@.authorizes(caller, from) ==> {
                &&& *final(self) == *old(self)
                &&& r == Err::<Erc1155Event, Erc1155Error>(
                    Erc1155Error::MissingApprovalForAll { operator: caller, owner: from },
                )
            },
            old(self)@.authorizes(caller, from) && to.is_null() ==> {
                &&& *final(self) == *old(self)
                &&& r == Err::<Erc1155Event, Erc1155Error>(
                    Erc1155Error::InvalidReceiver { receiver: to },
                )
            },
            old(self)@.authorizes(caller, from) && !to.is_null() ==> batch_update(
                old(self)@,
                final(self)@,
                r,
                caller,
                from,
                to,
                ids@,
                values@,
            ),
    {
        if !self.is_authorized(caller, from) {
            return Err(Erc1155Error::MissingApprovalForAll { operator: caller, owner: from });
        }
        if to.is_zero() {
            return Err(Erc1155Error::InvalidReceiver { receiver: to });
        }
        self._update_batch(caller, from, to, ids, values)
    }

    /// The balance update of one pair, with no check of who calls: `value` of
    /// token `id` leaves `from`, unless that is the null account, and reaches
    /// `to`, unless that is the null account. `operator` is only named in the
    /// event.
    ///
    /// Refused where `from` holds less than `value`, or where `to` would then
    /// hold more than fits in 256 bits; both are checked before anything is
    /// written. A pair of value zero always moves.
    pub fn _update_single(
        &mut self,
        operator: Address,
        from: Address,
        to: Address,
        id: U256,
        value: U256,
    ) -> (r: Result<Erc1155Event, Erc1155Error>)
        ensures
            single_update(old(self)@, final(self)@, r, operator, from, to, id, value),
            value@ == 0 ==> r is Ok,
    {
        proof {
            self.lemma_valid();
            crate::model::lemma_zero_value_moves(self@.balances, from, to, id);
        }
        match move_pair(&mut self.balances, from, to, id, value) {
            Ok(()) => Ok(Erc1155Event::TransferSingle { operator, from, to, id, value }),
            Err(e) => Err(e),
        }
    }

    /// The balance update of a batch, with no check of who calls: the pairs
    /// `(ids[i], values[i])` move as in [`Erc1155::_update_single`], in index
    /// order, each on the balances that the ones before it left; a token id
    /// that occurs twice is moved twice. `operator` is only named in the event.
    ///
    /// Refused where the two sequences differ in length, or where one pair is
    /// refused; then no pair of the batch has moved.
    pub fn _update_batch(
        &mut self,
        operator: Address,
        from: Address,
        to: Address,
        ids: Vec<U256>,
        values: Vec<U256>,
    ) -> (r: Result<Erc1155Event, Erc1155Error>)
        ensures
            batch_update(old(self)@, final(self)@, r, operator, from, to, ids@, values@),
    {
        if ids.len() != values.len() {
            return Err(
                Erc1155Error::InvalidArrayLength {
                    ids_length: U256::from_usize(ids.len()),
                    values_length: U256::from_usize(values.len()),
                },
            );
        }
        let ghost pre = self@.balances;
        let mut work = self.balances.duplicate();
        let mut i: usize = 0;
        while i < ids.len()
            invariant
                i <= ids@.len(),
                ids@.len() == values@.len(),
                *self == *old(self),
                pre == self@.balances,
                moved_prefix(pre, from, to, ids@, values@, i as nat) == Some(amounts(work@)),
            decreases ids@.len() - i,
        {
            match move_pair(&mut work, from, to, ids[i], values[i]) {
                Ok(()) => {},
                Err(e) => {
                    proof {
                        assert(stops_at(pre, from, to, ids@, values@, i as int));
                        crate::model::lemma_moves_or_stops(pre, from, to, ids@, values@);
                    }
                    return Err(e);
                },
            }
            i += 1;
        }
        self.balances = work;
        Ok(Erc1155Event::TransferBatch { operator, from, to, ids, values })
    }
}

} // verus!
