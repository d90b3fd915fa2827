use erc1155::{Address, Erc1155, Erc1155Error, Erc1155Event, U256};

fn account(n: u8) -> Address {
    let mut bytes = [0u8; 20];
    bytes[19] = n;
    Address::new(bytes)
}

fn amount(n: u64) -> U256 {
    U256::from_u64(n)
}

fn minted(entries: &[(u8, u64, u64)]) -> Erc1155 {
    let mut ledger = Erc1155::new();
    for (holder, id, value) in entries {
        ledger
            ._update_single(account(200), Address::zero(), account(*holder), amount(*id), amount(*value))
            .unwrap();
    }
    ledger
}

fn supply(ledger: &Erc1155, holders: &[u8], id: u64) -> u64 {
    let mut total = 0u64;
    for holder in holders {
        total += ledger.balance_of(account(*holder), amount(id)).into_limbs()[0];
    }
    total
}

#[test]
fn new_ledger_holds_nothing() {
    let ledger = Erc1155::new();
    assert_eq!(ledger.balance_of(account(1), amount(7)), U256::zero());
    assert_eq!(ledger.balance_of(Address::zero(), amount(0)), U256::zero());
    assert!(!ledger.is_approved_for_all(account(1), account(2)));
}

#[test]
fn mint_adds_to_balance_without_any_approval() {
    let mut ledger = Erc1155::new();
    let event = ledger._update_single(account(9), Address::zero(), account(1), amount(7), amount(5));
    assert_eq!(
        event,
        Ok(Erc1155Event::TransferSingle {
            operator: account(9),
            from: Address::zero(),
            to: account(1),
            id: amount(7),
            value: amount(5),
        })
    );
    assert_eq!(ledger.balance_of(account(1), amount(7)), amount(5));
    ledger._update_single(account(9), Address::zero(), account(1), amount(7), amount(4)).unwrap();
    assert_eq!(ledger.balance_of(account(1), amount(7)), amount(9));
    assert_eq!(ledger.balance_of(account(1), amount(8)), U256::zero());
    assert_eq!(ledger.balance_of(account(2), amount(7)), U256::zero());
    assert_eq!(ledger.balance_of(Address::zero(), amount(7)), U256::zero());
}

#[test]
fn burn_takes_from_balance() {
    let mut ledger = minted(&[(1, 7, 5)]);
    let event = ledger._update_single(account(1), account(1), Address::zero(), amount(7), amount(2));
    assert_eq!(
        event,
        Ok(Erc1155Event::TransferSingle {
            operator: account(1),
            from: account(1),
            to: Address::zero(),
            id: amount(7),
            value: amount(2),
        })
    );
    assert_eq!(ledger.balance_of(account(1), amount(7)), amount(3));
    assert_eq!(ledger.balance_of(Address::zero(), amount(7)), U256::zero());
}

#[test]
fn burn_of_more_than_held_is_refused() {
    let mut ledger = minted(&[(1, 7, 5)]);
    let result = ledger._update_single(account(1), account(1), Address::zero(), amount(7), amount(6));
    assert_eq!(
        result,
        Err(Erc1155Error::InsufficientBalance {
            sender: account(1),
            balance: amount(5),
            needed: amount(6),
            id: amount(7),
        })
    );
    assert_eq!(ledger.balance_of(account(1), amount(7)), amount(5));
}

#[test]
fn update_between_null_accounts_changes_nothing() {
    let mut ledger = minted(&[(1, 7, 5)]);
    let event =
        ledger._update_single(account(1), Address::zero(), Address::zero(), amount(7), amount(3));
    assert_eq!(
        event,
        Ok(Erc1155Event::TransferSingle {
            operator: account(1),
            from: Address::zero(),
            to: Address::zero(),
            id: amount(7),
            value: amount(3),
        })
    );
    assert_eq!(ledger.balance_of(account(1), amount(7)), amount(5));
    assert_eq!(ledger.balance_of(Address::zero(), amount(7)), U256::zero());
}

#[test]
fn transfer_moves_value_between_accounts() {
    let mut ledger = minted(&[(1, 7, 5)]);
    let event = ledger.safe_transfer_from(account(1), account(1), account(2), amount(7), amount(3), vec![]);
    assert_eq!(
        event,
        Ok(Erc1155Event::TransferSingle {
            operator: account(1),
            from: account(1),
            to: account(2),
            id: amount(7),
            value: amount(3),
        })
    );
    assert_eq!(ledger.balance_of(account(1), amount(7)), amount(2));
    assert_eq!(ledger.balance_of(account(2), amount(7)), amount(3));
}

#[test]
fn transfer_to_oneself_keeps_the_balance() {
    let mut ledger = minted(&[(1, 7, 5)]);
    let event = ledger.safe_transfer_from(account(1), account(1), account(1), amount(7), amount(5), vec![]);
    assert!(event.is_ok());
    assert_eq!(ledger.balance_of(account(1), amount(7)), amount(5));
    let refused =
        ledger.safe_transfer_from(account(1), account(1), account(1), amount(7), amount(6), vec![]);
    assert_eq!(
        refused,
        Err(Erc1155Error::InsufficientBalance {
            sender: account(1),
            balance: amount(5),
            needed: amount(6),
            id: amount(7),
        })
    );
}

#[test]
fn transfer_of_maximum_to_oneself_does_not_overflow() {
    let mut ledger = Erc1155::new();
    ledger._update_single(account(1), Address::zero(), account(1), amount(7), U256::max()).unwrap();
    let event =
        ledger.safe_transfer_from(account(1), account(1), account(1), amount(7), U256::max(), vec![]);
    assert!(event.is_ok());
    assert_eq!(ledger.balance_of(account(1), amount(7)), U256::max());
}

#[test]
fn conservation_over_a_sequence_of_transfers() {
    let mut ledger = minted(&[(1, 7, 50), (2, 7, 30), (3, 7, 20), (1, 8, 11)]);
    let holders = [1u8, 2, 3, 4];
    assert_eq!(supply(&ledger, &holders, 7), 100);
    assert_eq!(supply(&ledger, &holders, 8), 11);
    let steps: [(u8, u8, u64, u64); 6] =
        [(1, 2, 7, 10), (2, 3, 7, 40), (3, 4, 7, 60), (4, 1, 7, 5), (1, 4, 8, 11), (2, 1, 7, 1000)];
    for (from, to, id, value) in steps {
        let _ = ledger.safe_transfer_from(
            account(from),
            account(from),
            account(to),
            amount(id),
            amount(value),
            vec![],
        );
        assert_eq!(supply(&ledger, &holders, 7), 100);
        assert_eq!(supply(&ledger, &holders, 8), 11);
    }
    assert_eq!(ledger.balance_of(account(1), amount(7)), amount(45));
    assert_eq!(ledger.balance_of(account(2), amount(7)), amount(0));
    assert_eq!(ledger.balance_of(account(3), amount(7)), amount(0));
    assert_eq!(ledger.balance_of(account(4), amount(7)), amount(55));
    assert_eq!(ledger.balance_of(account(4), amount(8)), amount(11));
}

#[test]
fn atomic_batch_failure() {
    let mut ledger = minted(&[(1, 1, 10), (1, 2, 10), (1, 3, 2), (1, 4, 10), (1, 5, 10), (2, 1, 1)]);
    let ids = vec![amount(1), amount(2), amount(3), amount(4), amount(5)];
    let values = vec![amount(4), amount(4), amount(4), amount(4), amount(4)];
    let result =
        ledger.safe_batch_transfer_from(account(1), account(1), account(2), ids, values, vec![]);
    assert_eq!(
        result,
        Err(Erc1155Error::InsufficientBalance {
            sender: account(1),
            balance: amount(2),
            needed: amount(4),
            id: amount(3),
        })
    );
    let before: [(u64, u64, u64); 5] = [(1, 10, 1), (2, 10, 0), (3, 2, 0), (4, 10, 0), (5, 10, 0)];
    for (id, sender, receiver) in before {
        assert_eq!(ledger.balance_of(account(1), amount(id)), amount(sender));
        assert_eq!(ledger.balance_of(account(2), amount(id)), amount(receiver));
    }
}

#[test]
fn self_approval_rejection() {
    let mut ledger = Erc1155::new();
    assert_eq!(
        ledger.set_approval_for_all(account(1), account(1), true),
        Err(Erc1155Error::InvalidOperator { operator: account(1) })
    );
    assert_eq!(
        ledger.set_approval_for_all(account(1), account(1), false),
        Err(Erc1155Error::InvalidOperator { operator: account(1) })
    );
    assert!(!ledger.is_approved_for_all(account(1), account(1)));
    ledger.set_approval_for_all(account(1), account(2), true).unwrap();
    ledger.set_approval_for_all(account(2), account(1), true).unwrap();
    assert_eq!(
        ledger.set_approval_for_all(account(1), account(1), true),
        Err(Erc1155Error::InvalidOperator { operator: account(1) })
    );
    assert!(!ledger.is_approved_for_all(account(1), account(1)));
    assert!(ledger.is_approved_for_all(account(1), account(2)));
}

#[test]
fn approval_is_stored_and_revoked() {
    let mut ledger = Erc1155::new();
    let granted = Erc1155Event::ApprovalForAll { account: account(1), operator: account(2), approved: true };
    assert_eq!(ledger.set_approval_for_all(account(1), account(2), true), Ok(granted.clone()));
    assert!(ledger.is_approved_for_all(account(1), account(2)));
    assert!(!ledger.is_approved_for_all(account(2), account(1)));
    assert!(!ledger.is_approved_for_all(account(1), account(3)));
    assert_eq!(ledger.set_approval_for_all(account(1), account(2), true), Ok(granted));
    assert!(ledger.is_approved_for_all(account(1), account(2)));
    assert_eq!(
        ledger.set_approval_for_all(account(1), account(2), false),
        Ok(Erc1155Event::ApprovalForAll { account: account(1), operator: account(2), approved: false })
    );
    assert!(!ledger.is_approved_for_all(account(1), account(2)));
}

#[test]
fn authorization() {
    let mut ledger = minted(&[(1, 7, 5)]);
    let refused = ledger.safe_transfer_from(account(3), account(1), account(2), amount(7), amount(3), vec![]);
    assert_eq!(
        refused,
        Err(Erc1155Error::MissingApprovalForAll { operator: account(3), owner: account(1) })
    );
    assert_eq!(ledger.balance_of(account(1), amount(7)), amount(5));
    assert_eq!(ledger.balance_of(account(2), amount(7)), U256::zero());
    ledger.set_approval_for_all(account(1), account(3), true).unwrap();
    let event = ledger.safe_transfer_from(account(3), account(1), account(2), amount(7), amount(3), vec![]);
    assert_eq!(
        event,
        Ok(Erc1155Event::TransferSingle {
            operator: account(3),
            from: account(1),
            to: account(2),
            id: amount(7),
            value: amount(3),
        })
    );
    assert_eq!(ledger.balance_of(account(1), amount(7)), amount(2));
    assert_eq!(ledger.balance_of(account(2), amount(7)), amount(3));
    ledger.set_approval_for_all(account(1), account(3), false).unwrap();
    let again = ledger.safe_transfer_from(account(3), account(1), account(2), amount(7), amount(1), vec![]);
    assert_eq!(
        again,
        Err(Erc1155Error::MissingApprovalForAll { operator: account(3), owner: account(1) })
    );
}

#[test]
fn approval_does_not_run_the_other_way() {
    let mut ledger = minted(&[(1, 7, 5), (3, 7, 5)]);
    ledger.set_approval_for_all(account(1), account(3), true).unwrap();
    let refused = ledger.safe_transfer_from(account(1), account(3), account(2), amount(7), amount(1), vec![]);
    assert_eq!(
        refused,
        Err(Erc1155Error::MissingApprovalForAll { operator: account(1), owner: account(3) })
    );
}

#[test]
fn array_length_mismatch() {
    let ledger = Erc1155::new();
    let result = ledger.balance_of_batch(vec![account(1), account(2)], vec![amount(1)]);
    assert_eq!(
        result,
        Err(Erc1155Error::InvalidArrayLength { ids_length: amount(1), values_length: amount(2) })
    );
    let other = ledger.balance_of_batch(vec![], vec![amount(1), amount(2), amount(3)]);
    assert_eq!(
        other,
        Err(Erc1155Error::InvalidArrayLength { ids_length: amount(3), values_length: amount(0) })
    );
}

#[test]
fn balance_of_batch_pairs_by_index() {
    let ledger = minted(&[(1, 7, 5), (2, 7, 6), (1, 8, 9)]);
    let result = ledger.balance_of_batch(
        vec![account(2), account(1), account(1), account(3), account(1)],
        vec![amount(7), amount(8), amount(7), amount(7), amount(7)],
    );
    assert_eq!(result, Ok(vec![amount(6), amount(9), amount(5), amount(0), amount(5)]));
    assert_eq!(ledger.balance_of_batch(vec![], vec![]), Ok(vec![]));
}

#[test]
fn duplicate_id_in_batch() {
    let mut ledger = minted(&[(1, 7, 5)]);
    let result = ledger.safe_batch_transfer_from(
        account(1),
        account(1),
        account(2),
        vec![amount(7), amount(7)],
        vec![amount(3), amount(4)],
        vec![],
    );
    assert_eq!(
        result,
        Err(Erc1155Error::InsufficientBalance {
            sender: account(1),
            balance: amount(2),
            needed: amount(4),
            id: amount(7),
        })
    );
    assert_eq!(ledger.balance_of(account(1), amount(7)), amount(5));
    assert_eq!(ledger.balance_of(account(2), amount(7)), U256::zero());
}

#[test]
fn duplicate_id_in_batch_is_applied_twice() {
    let mut ledger = minted(&[(1, 7, 5)]);
    let result = ledger.safe_batch_transfer_from(
        account(1),
        account(1),
        account(2),
        vec![amount(7), amount(7)],
        vec![amount(3), amount(2)],
        vec![],
    );
    assert_eq!(
        result,
        Ok(Erc1155Event::TransferBatch {
            operator: account(1),
            from: account(1),
            to: account(2),
            ids: vec![amount(7), amount(7)],
            values: vec![amount(3), amount(2)],
        })
    );
    assert_eq!(ledger.balance_of(account(1), amount(7)), U256::zero());
    assert_eq!(ledger.balance_of(account(2), amount(7)), amount(5));
}

#[test]
fn batch_transfer_moves_every_pair() {
    let mut ledger = minted(&[(1, 1, 10), (1, 2, 20), (1, 3, 30), (2, 2, 1)]);
    ledger.set_approval_for_all(account(1), account(3), true).unwrap();
    let result = ledger.safe_batch_transfer_from(
        account(3),
        account(1),
        account(2),
        vec![amount(3), amount(1), amount(2)],
        vec![amount(30), amount(1), amount(5)],
        vec![1, 2, 3],
    );
    assert_eq!(
        result,
        Ok(Erc1155Event::TransferBatch {
            operator: account(3),
            from: account(1),
            to: account(2),
            ids: vec![amount(3), amount(1), amount(2)],
            values: vec![amount(30), amount(1), amount(5)],
        })
    );
    assert_eq!(ledger.balance_of(account(1), amount(1)), amount(9));
    assert_eq!(ledger.balance_of(account(1), amount(2)), amount(15));
    assert_eq!(ledger.balance_of(account(1), amount(3)), amount(0));
    assert_eq!(ledger.balance_of(account(2), amount(1)), amount(1));
    assert_eq!(ledger.balance_of(account(2), amount(2)), amount(6));
    assert_eq!(ledger.balance_of(account(2), amount(3)), amount(30));
}

#[test]
fn empty_batch_succeeds() {
    let mut ledger = minted(&[(1, 7, 5)]);
    let result =
        ledger.safe_batch_transfer_from(account(1), account(1), account(2), vec![], vec![], vec![]);
    assert_eq!(
        result,
        Ok(Erc1155Event::TransferBatch {
            operator: account(1),
            from: account(1),
            to: account(2),
            ids: vec![],
            values: vec![],
        })
    );
    assert_eq!(ledger.balance_of(account(1), amount(7)), amount(5));
}

#[test]
fn batch_with_different_lengths_is_refused() {
    let mut ledger = minted(&[(1, 7, 5)]);
    let result = ledger.safe_batch_transfer_from(
        account(1),
        account(1),
        account(2),
        vec![amount(7), amount(7), amount(7)],
        vec![amount(1)],
        vec![],
    );
    assert_eq!(
        result,
        Err(Erc1155Error::InvalidArrayLength { ids_length: amount(3), values_length: amount(1) })
    );
    assert_eq!(ledger.balance_of(account(1), amount(7)), amount(5));
    let update = ledger._update_batch(
        account(1),
        account(1),
        account(2),
        vec![amount(7)],
        vec![amount(1), amount(1)],
    );
    assert_eq!(
        update,
        Err(Erc1155Error::InvalidArrayLength { ids_length: amount(1), values_length: amount(2) })
    );
    assert_eq!(ledger.balance_of(account(1), amount(7)), amount(5));
}

#[test]
fn transfer_checks_come_in_order() {
    let mut ledger = minted(&[(1, 7, 5)]);
    let unauthorized =
        ledger.safe_transfer_from(account(3), account(1), Address::zero(), amount(7), amount(9), vec![]);
    assert_eq!(
        unauthorized,
        Err(Erc1155Error::MissingApprovalForAll { operator: account(3), owner: account(1) })
    );
    let no_receiver =
        ledger.safe_transfer_from(account(1), account(1), Address::zero(), amount(7), amount(9), vec![]);
    assert_eq!(no_receiver, Err(Erc1155Error::InvalidReceiver { receiver: Address::zero() }));
    let unauthorized_batch = ledger.safe_batch_transfer_from(
        account(3),
        account(1),
        Address::zero(),
        vec![amount(7)],
        vec![],
        vec![],
    );
    assert_eq!(
        unauthorized_batch,
        Err(Erc1155Error::MissingApprovalForAll { operator: account(3), owner: account(1) })
    );
    let no_receiver_batch = ledger.safe_batch_transfer_from(
        account(1),
        account(1),
        Address::zero(),
        vec![amount(7)],
        vec![],
        vec![],
    );
    assert_eq!(no_receiver_batch, Err(Erc1155Error::InvalidReceiver { receiver: Address::zero() }));
    assert_eq!(ledger.balance_of(account(1), amount(7)), amount(5));
}

#[test]
fn zero_value_transfer() {
    let mut ledger = Erc1155::new();
    let event = ledger.safe_transfer_from(account(1), account(1), account(2), amount(7), amount(0), vec![]);
    assert_eq!(
        event,
        Ok(Erc1155Event::TransferSingle {
            operator: account(1),
            from: account(1),
            to: account(2),
            id: amount(7),
            value: amount(0),
        })
    );
    assert_eq!(ledger.balance_of(account(1), amount(7)), U256::zero());
    assert_eq!(ledger.balance_of(account(2), amount(7)), U256::zero());
    ledger._update_single(account(1), Address::zero(), account(2), amount(7), U256::max()).unwrap();
    let full = ledger.safe_transfer_from(account(1), account(1), account(2), amount(7), amount(0), vec![]);
    assert!(full.is_ok());
    assert_eq!(ledger.balance_of(account(2), amount(7)), U256::max());
}

#[test]
fn mint_beyond_the_maximum_is_refused() {
    let mut ledger = Erc1155::new();
    ledger._update_single(account(1), Address::zero(), account(2), amount(7), U256::max()).unwrap();
    let result = ledger._update_single(account(1), Address::zero(), account(2), amount(7), amount(1));
    assert_eq!(
        result,
        Err(Erc1155Error::BalanceOverflow {
            receiver: account(2),
            balance: U256::max(),
            added: amount(1),
            id: amount(7),
        })
    );
    assert_eq!(ledger.balance_of(account(2), amount(7)), U256::max());
}

#[test]
fn transfer_that_overflows_the_receiver_changes_nothing() {
    let mut ledger = minted(&[(1, 7, 5)]);
    ledger._update_single(account(1), Address::zero(), account(2), amount(7), U256::max()).unwrap();
    let result = ledger.safe_transfer_from(account(1), account(1), account(2), amount(7), amount(3), vec![]);
    assert_eq!(
        result,
        Err(Erc1155Error::BalanceOverflow {
            receiver: account(2),
            balance: U256::max(),
            added: amount(3),
            id: amount(7),
        })
    );
    assert_eq!(ledger.balance_of(account(1), amount(7)), amount(5));
    assert_eq!(ledger.balance_of(account(2), amount(7)), U256::max());
    let batch = ledger.safe_batch_transfer_from(
        account(1),
        account(1),
        account(2),
        vec![amount(8), amount(7)],
        vec![amount(0), amount(1)],
        vec![],
    );
    assert_eq!(
        batch,
        Err(Erc1155Error::BalanceOverflow {
            receiver: account(2),
            balance: U256::max(),
            added: amount(1),
            id: amount(7),
        })
    );
    assert_eq!(ledger.balance_of(account(1), amount(7)), amount(5));
}

#[test]
fn batch_mint_and_burn() {
    let mut ledger = Erc1155::new();
    let minted = ledger._update_batch(
        account(9),
        Address::zero(),
        account(1),
        vec![amount(1), amount(2), amount(1)],
        vec![amount(10), amount(20), amount(5)],
    );
    assert!(minted.is_ok());
    assert_eq!(ledger.balance_of(account(1), amount(1)), amount(15));
    assert_eq!(ledger.balance_of(account(1), amount(2)), amount(20));
    let burned = ledger._update_batch(
        account(9),
        account(1),
        Address::zero(),
        vec![amount(1), amount(2)],
        vec![amount(15), amount(1)],
    );
    assert!(burned.is_ok());
    assert_eq!(ledger.balance_of(account(1), amount(1)), amount(0));
    assert_eq!(ledger.balance_of(account(1), amount(2)), amount(19));
    assert_eq!(ledger.balance_of(Address::zero(), amount(1)), U256::zero());
}

#[test]
fn token_ids_and_accounts_are_told_apart_by_every_part() {
    let mut ledger = Erc1155::new();
    let high_id = U256::from_limbs([7, 0, 0, 1]);
    let mut bytes = [0u8; 20];
    bytes[0] = 1;
    let high_account = Address::new(bytes);
    ledger._update_single(account(9), Address::zero(), high_account, high_id, amount(5)).unwrap();
    assert_eq!(ledger.balance_of(high_account, high_id), amount(5));
    assert_eq!(ledger.balance_of(high_account, amount(7)), U256::zero());
    assert_eq!(ledger.balance_of(account(0), high_id), U256::zero());
    assert_eq!(ledger.balance_of(account(1), high_id), U256::zero());
}
