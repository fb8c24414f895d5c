use anchor_vault::address::Address;
use anchor_vault::bank::Bank;
use anchor_vault::derivation;
use anchor_vault::error::VaultError;
use anchor_vault::instructions::id;
use anchor_vault::state::VaultState;

const ALICE_VAULT_AT_253: [u8; 32] = [
    152, 0, 182, 226, 36, 181, 185, 153, 95, 11, 0, 53, 235, 177, 81, 16, 100, 1, 102, 200, 210,
    171, 235, 156, 134, 136, 186, 239, 80, 224, 21, 102,
];

fn alice() -> Address {
    Address::new([1u8; 32])
}

fn bob() -> Address {
    Address::new([2u8; 32])
}

fn record_of(user: &Address) -> Address {
    derivation::derive(b"state", &user.bytes, &id()).unwrap().0
}

fn vault_of(user: &Address) -> Address {
    derivation::derive(b"vault", &record_of(user).bytes, &id()).unwrap().0
}

fn funded() -> Bank {
    let mut bank = Bank::new(id());
    assert!(bank.ledger.mint(&alice(), 5000));
    assert!(bank.ledger.mint(&bob(), 100));
    bank
}

fn opened() -> Bank {
    let mut bank = funded();
    assert_eq!(bank.initialize(&alice(), &record_of(&alice()), &vault_of(&alice())), Ok(()));
    bank
}

#[test]
fn new_bank_is_empty() {
    let bank = Bank::new(id());
    assert_eq!(bank.program_id, id());
    assert_eq!(bank.ledger.total_supply(), 0);
    assert_eq!(bank.ledger.balance(&alice()), 0);
    assert_eq!(bank.records.get(&record_of(&alice())), None);
}

#[test]
fn open_creates_the_record_and_moves_nothing() {
    let bank = opened();
    assert_eq!(
        bank.records.get(&record_of(&alice())),
        Some(VaultState { state_bump: 252, vault_bump: 254 })
    );
    assert_eq!(bank.ledger.balance(&alice()), 5000);
    assert_eq!(bank.ledger.balance(&vault_of(&alice())), 0);
    assert_eq!(bank.ledger.total_supply(), 5100);
}

#[test]
fn open_then_recompute_reproduces_the_stored_bumps() {
    let bank = opened();
    let stored = bank.records.get(&record_of(&alice())).unwrap();
    let (record, state_bump) = derivation::derive(b"state", &alice().bytes, &id()).unwrap();
    let (vault, vault_bump) = derivation::derive(b"vault", &record.bytes, &id()).unwrap();
    assert_eq!(stored, VaultState { state_bump, vault_bump });
    assert_eq!(
        derivation::derive_with_bump(b"state", &alice().bytes, stored.state_bump, &id()),
        Ok(record)
    );
    assert_eq!(
        derivation::derive_with_bump(b"vault", &record.bytes, stored.vault_bump, &id()),
        Ok(vault)
    );
}

#[test]
fn open_twice_fails_with_already_exists() {
    let mut bank = opened();
    assert_eq!(
        bank.initialize(&alice(), &record_of(&alice()), &vault_of(&alice())),
        Err(VaultError::AlreadyExists)
    );
    assert_eq!(
        bank.records.get(&record_of(&alice())),
        Some(VaultState { state_bump: 252, vault_bump: 254 })
    );
}

#[test]
fn open_rejects_addresses_of_another_user() {
    let mut bank = funded();
    assert_eq!(
        bank.initialize(&alice(), &record_of(&bob()), &vault_of(&alice())),
        Err(VaultError::InvalidDerivation)
    );
    assert_eq!(
        bank.initialize(&alice(), &record_of(&alice()), &vault_of(&bob())),
        Err(VaultError::InvalidDerivation)
    );
    assert_eq!(bank.records.get(&record_of(&alice())), None);
    assert_eq!(bank.records.get(&record_of(&bob())), None);
}

#[test]
fn each_user_has_a_vault_of_their_own() {
    let mut bank = opened();
    assert_eq!(bank.initialize(&bob(), &record_of(&bob()), &vault_of(&bob())), Ok(()));
    assert_ne!(record_of(&alice()), record_of(&bob()));
    assert_ne!(vault_of(&alice()), vault_of(&bob()));
    assert_eq!(bank.deposit(&alice(), &record_of(&alice()), &vault_of(&alice()), 1000), Ok(()));
    assert_eq!(bank.deposit(&bob(), &record_of(&bob()), &vault_of(&bob()), 30), Ok(()));
    assert_eq!(bank.ledger.balance(&vault_of(&alice())), 1000);
    assert_eq!(bank.ledger.balance(&vault_of(&bob())), 30);
    assert_eq!(
        bank.withdraw(&bob(), &record_of(&alice()), &vault_of(&alice()), 1),
        Err(VaultError::InvalidDerivation)
    );
    assert_eq!(
        bank.withdraw(&bob(), &record_of(&bob()), &vault_of(&alice()), 1),
        Err(VaultError::InvalidDerivation)
    );
    assert_eq!(bank.ledger.balance(&vault_of(&alice())), 1000);
}

#[test]
fn deposit_without_a_record_fails_with_not_found() {
    let mut bank = funded();
    assert_eq!(
        bank.deposit(&alice(), &record_of(&alice()), &vault_of(&alice()), 1000),
        Err(VaultError::NotFound)
    );
    assert_eq!(
        bank.withdraw(&alice(), &record_of(&alice()), &vault_of(&alice()), 1),
        Err(VaultError::NotFound)
    );
    assert_eq!(
        bank.close(&alice(), &record_of(&alice()), &vault_of(&alice()), &bob()),
        Err(VaultError::NotFound)
    );
    assert_eq!(bank.ledger.balance(&alice()), 5000);
}

#[test]
fn deposit_beyond_the_balance_fails_with_insufficient_funds() {
    let mut bank = opened();
    assert_eq!(
        bank.deposit(&alice(), &record_of(&alice()), &vault_of(&alice()), 5001),
        Err(VaultError::InsufficientFunds)
    );
    assert_eq!(bank.ledger.balance(&alice()), 5000);
    assert_eq!(bank.ledger.balance(&vault_of(&alice())), 0);
}

#[test]
fn deposit_of_nothing_succeeds_and_moves_nothing() {
    let mut bank = opened();
    assert_eq!(bank.deposit(&alice(), &record_of(&alice()), &vault_of(&alice()), 0), Ok(()));
    assert_eq!(bank.withdraw(&alice(), &record_of(&alice()), &vault_of(&alice()), 0), Ok(()));
    assert_eq!(bank.ledger.balance(&alice()), 5000);
    assert_eq!(bank.ledger.balance(&vault_of(&alice())), 0);
}

#[test]
fn vault_scenario_from_open_to_close() {
    let mut bank = funded();
    let record = record_of(&alice());
    let vault = vault_of(&alice());
    assert_eq!(bank.initialize(&alice(), &record, &vault), Ok(()));

    assert_eq!(bank.deposit(&alice(), &record, &vault, 1000), Ok(()));
    assert_eq!(bank.ledger.balance(&vault), 1000);
    assert_eq!(bank.ledger.balance(&alice()), 4000);

    assert_eq!(bank.withdraw(&alice(), &record, &vault, 400), Ok(()));
    assert_eq!(bank.ledger.balance(&vault), 600);
    assert_eq!(bank.ledger.balance(&alice()), 4400);

    assert_eq!(bank.withdraw(&alice(), &record, &vault, 10000), Err(VaultError::InsufficientFunds));
    assert_eq!(bank.ledger.balance(&vault), 600);
    assert_eq!(bank.ledger.balance(&alice()), 4400);

    assert_eq!(bank.close(&alice(), &record, &vault, &bob()), Ok(()));
    assert_eq!(bank.ledger.balance(&vault), 0);
    assert_eq!(bank.ledger.balance(&bob()), 700);
    assert_eq!(bank.ledger.balance(&alice()), 4400);
    assert_eq!(bank.records.get(&record), None);
    assert_eq!(bank.ledger.total_supply(), 5100);
}

#[test]
fn tampered_vault_address_fails_with_invalid_derivation() {
    let mut bank = opened();
    let record = record_of(&alice());
    let vault = vault_of(&alice());
    let forged = Address::new(ALICE_VAULT_AT_253);
    assert_eq!(
        derivation::derive_with_bump(b"vault", &record.bytes, 253, &id()),
        Ok(forged)
    );
    assert_eq!(bank.deposit(&alice(), &record, &vault, 1000), Ok(()));
    assert!(bank.ledger.mint(&forged, 50));

    assert_eq!(bank.deposit(&alice(), &record, &forged, 10), Err(VaultError::InvalidDerivation));
    assert_eq!(bank.withdraw(&alice(), &record, &forged, 10), Err(VaultError::InvalidDerivation));
    assert_eq!(bank.close(&alice(), &record, &forged, &bob()), Err(VaultError::InvalidDerivation));

    assert_eq!(bank.ledger.balance(&forged), 50);
    assert_eq!(bank.ledger.balance(&vault), 1000);
    assert_eq!(bank.ledger.balance(&alice()), 4000);
    assert_eq!(bank.records.get(&record), Some(VaultState { state_bump: 252, vault_bump: 254 }));
}

#[test]
fn close_of_a_drained_vault_succeeds_and_moves_nothing() {
    let mut bank = opened();
    let record = record_of(&alice());
    let vault = vault_of(&alice());
    assert_eq!(bank.deposit(&alice(), &record, &vault, 1000), Ok(()));
    assert_eq!(bank.withdraw(&alice(), &record, &vault, 1000), Ok(()));
    assert_eq!(bank.ledger.balance(&vault), 0);

    assert_eq!(bank.close(&alice(), &record, &vault, &bob()), Ok(()));
    assert_eq!(bank.ledger.balance(&vault), 0);
    assert_eq!(bank.ledger.balance(&bob()), 100);
    assert_eq!(bank.ledger.balance(&alice()), 5000);
    assert_eq!(bank.records.get(&record), None);
}

#[test]
fn close_after_close_finds_no_record_and_moves_nothing() {
    let mut bank = opened();
    let record = record_of(&alice());
    let vault = vault_of(&alice());
    assert_eq!(bank.deposit(&alice(), &record, &vault, 1000), Ok(()));
    assert_eq!(bank.close(&alice(), &record, &vault, &bob()), Ok(()));
    assert_eq!(bank.close(&alice(), &record, &vault, &bob()), Err(VaultError::NotFound));
    assert_eq!(bank.ledger.balance(&vault), 0);
    assert_eq!(bank.ledger.balance(&bob()), 1100);
}

#[test]
fn close_then_open_again_starts_from_an_empty_vault() {
    let mut bank = opened();
    let record = record_of(&alice());
    let vault = vault_of(&alice());
    assert_eq!(bank.deposit(&alice(), &record, &vault, 1000), Ok(()));
    assert_eq!(bank.close(&alice(), &record, &vault, &alice()), Ok(()));
    assert_eq!(bank.ledger.balance(&alice()), 5000);
    assert_eq!(bank.initialize(&alice(), &record, &vault), Ok(()));
    assert_eq!(bank.ledger.balance(&vault), 0);
}

#[test]
fn close_into_the_vault_itself_leaves_the_balance() {
    let mut bank = opened();
    let record = record_of(&alice());
    let vault = vault_of(&alice());
    assert_eq!(bank.deposit(&alice(), &record, &vault, 1000), Ok(()));
    assert_eq!(bank.close(&alice(), &record, &vault, &vault), Ok(()));
    assert_eq!(bank.ledger.balance(&vault), 1000);
    assert_eq!(bank.records.get(&record), None);
}

#[test]
fn balances_are_conserved_over_a_run_of_operations() {
    let mut bank = opened();
    let record = record_of(&alice());
    let vault = vault_of(&alice());
    let initial = bank.ledger.balance(&vault);
    let ops: [(bool, u64); 8] = [
        (true, 1000),
        (false, 400),
        (false, 10000),
        (true, 4000),
        (true, 1),
        (false, 4600),
        (false, 1),
        (true, 0),
    ];
    let mut deposits: u64 = 0;
    let mut withdrawals: u64 = 0;
    for (is_deposit, amount) in ops {
        if is_deposit {
            if bank.deposit(&alice(), &record, &vault, amount).is_ok() {
                deposits += amount;
            }
        } else if bank.withdraw(&alice(), &record, &vault, amount).is_ok() {
            withdrawals += amount;
        }
        assert_eq!(bank.ledger.balance(&vault) + bank.ledger.balance(&alice()), 5000);
    }
    assert_eq!(deposits, 5001);
    assert_eq!(withdrawals, 5001);
    assert_eq!(bank.ledger.balance(&vault), initial + deposits - withdrawals);
    assert_eq!(bank.ledger.total_supply(), 5100);
}
