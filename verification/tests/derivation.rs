use anchor_lang::solana_program::pubkey::Pubkey;
use anchor_vault::address::Address;
use anchor_vault::derivation;
use anchor_vault::derivation::derive_with_bump;
use anchor_vault::error::VaultError;
use anchor_vault::instructions::id;
use anchor_vault::seeds::{base_seeds, bumped_seeds, vault_signer_seeds, STATE_TAG, VAULT_TAG};

const ALICE: [u8; 32] = [1u8; 32];
const BOB: [u8; 32] = [2u8; 32];

const ALICE_RECORD: [u8; 32] = [
    121, 15, 135, 149, 221, 237, 0, 228, 251, 40, 96, 127, 104, 102, 96, 239, 138, 189, 111, 120,
    12, 193, 40, 6, 178, 174, 255, 66, 81, 245, 28, 130,
];
const ALICE_VAULT: [u8; 32] = [
    52, 82, 120, 63, 99, 146, 83, 5, 218, 197, 129, 91, 117, 99, 31, 92, 212, 28, 90, 97, 128,
    185, 252, 96, 130, 93, 103, 206, 141, 244, 224, 104,
];
const ALICE_VAULT_AT_253: [u8; 32] = [
    152, 0, 182, 226, 36, 181, 185, 153, 95, 11, 0, 53, 235, 177, 81, 16, 100, 1, 102, 200, 210,
    171, 235, 156, 134, 136, 186, 239, 80, 224, 21, 102,
];
const BOB_RECORD: [u8; 32] = [
    252, 249, 145, 102, 241, 88, 47, 24, 206, 76, 200, 21, 32, 132, 163, 52, 87, 239, 178, 41, 59,
    160, 148, 91, 161, 15, 103, 36, 12, 13, 196, 155,
];

#[test]
fn program_id_is_the_declared_address() {
    let declared: Pubkey = "6ptzmLTi6NvwU6LfP3XCKST3uRxxRvDZvMeywLaYdrJ6".parse().unwrap();
    assert_eq!(id().bytes, declared.to_bytes());
}

#[test]
fn tags_spell_state_and_vault() {
    assert_eq!(&STATE_TAG, b"state");
    assert_eq!(&VAULT_TAG, b"vault");
}

#[test]
fn derive_finds_the_record_of_a_known_identity() {
    let found = derivation::derive(b"state", &ALICE, &id());
    assert_eq!(found, Ok((Address::new(ALICE_RECORD), 252)));
}

#[test]
fn derive_finds_the_vault_of_a_known_record() {
    let found = derivation::derive(b"vault", &ALICE_RECORD, &id());
    assert_eq!(found, Ok((Address::new(ALICE_VAULT), 254)));
}

#[test]
fn derive_agrees_with_the_outside_derivation() {
    let program = Pubkey::new_from_array(id().bytes);
    let mut identity = [0u8; 32];
    for round in 0..20u8 {
        identity[0] = round;
        identity[31] = round.wrapping_mul(7);
        let (address, bump) = derivation::derive(b"state", &identity, &id()).unwrap();
        let (key, expected_bump) = Pubkey::find_program_address(&[b"state", &identity], &program);
        assert_eq!(address.bytes, key.to_bytes());
        assert_eq!(bump, expected_bump);
    }
}

#[test]
fn derive_is_deterministic() {
    let first = derivation::derive(b"state", &BOB, &id());
    let second = derivation::derive(b"state", &BOB, &id());
    assert_eq!(first, second);
    assert_eq!(first, Ok((Address::new(BOB_RECORD), 254)));
}

#[test]
fn distinct_identities_have_distinct_records() {
    let (alice, _) = derivation::derive(b"state", &ALICE, &id()).unwrap();
    let (bob, _) = derivation::derive(b"state", &BOB, &id()).unwrap();
    assert_ne!(alice, bob);
}

#[test]
fn derive_depends_on_the_program() {
    let other = Address::new([9u8; 32]);
    let here = derivation::derive(b"state", &ALICE, &id()).unwrap();
    let there = derivation::derive(b"state", &ALICE, &other).unwrap();
    assert_ne!(here.0, there.0);
}

#[test]
fn derive_depends_on_the_tag() {
    let as_state = derivation::derive(b"state", &ALICE, &id()).unwrap();
    let as_vault = derivation::derive(b"vault", &ALICE, &id()).unwrap();
    assert_ne!(as_state.0, as_vault.0);
}

#[test]
fn derive_with_bump_reproduces_the_derived_address() {
    let (address, bump) = derivation::derive(b"state", &ALICE, &id()).unwrap();
    assert_eq!(derive_with_bump(b"state", &ALICE, bump, &id()), Ok(address));
}

#[test]
fn derive_with_bump_rejects_a_bump_that_lands_on_the_curve() {
    // The search for this identity passes over 255, 254 and 253.
    for bump in [255u8, 254, 253] {
        assert_eq!(
            derive_with_bump(b"state", &ALICE, bump, &id()),
            Err(VaultError::InvalidDerivation)
        );
    }
}

#[test]
fn derive_with_bump_accepts_a_lower_bump_with_another_address() {
    let lower = derive_with_bump(b"vault", &ALICE_RECORD, 253, &id());
    assert_eq!(lower, Ok(Address::new(ALICE_VAULT_AT_253)));
    assert_ne!(lower, Ok(Address::new(ALICE_VAULT)));
}

#[test]
fn derive_with_bump_agrees_with_the_outside_derivation() {
    let program = Pubkey::new_from_array(id().bytes);
    for bump in 0..=255u8 {
        let ours = derive_with_bump(b"vault", &BOB, bump, &id());
        let theirs = Pubkey::create_program_address(&[b"vault", &BOB, &[bump]], &program);
        match theirs {
            Ok(key) => assert_eq!(ours, Ok(Address::new(key.to_bytes()))),
            Err(_) => assert_eq!(ours, Err(VaultError::InvalidDerivation)),
        }
    }
}

#[test]
fn derive_fails_on_a_seed_that_is_too_long() {
    let long = [1u8; 33];
    assert_eq!(derivation::derive(b"state", &long, &id()), Err(VaultError::DerivationExhausted));
    assert_eq!(derive_with_bump(b"state", &long, 255, &id()), Err(VaultError::InvalidDerivation));
}

#[test]
fn derive_accepts_empty_seeds() {
    let program = Pubkey::new_from_array(id().bytes);
    let (address, bump) = derivation::derive(b"", b"", &id()).unwrap();
    let (key, expected_bump) = Pubkey::find_program_address(&[b"", b""], &program);
    assert_eq!(address.bytes, key.to_bytes());
    assert_eq!(bump, expected_bump);
}

#[test]
fn base_seeds_hold_tag_and_discriminant() {
    assert_eq!(base_seeds(b"state", &[4, 5, 6]), vec![b"state".to_vec(), vec![4, 5, 6]]);
}

#[test]
fn bumped_seeds_end_with_the_bump() {
    assert_eq!(
        bumped_seeds(b"vault", &[4, 5, 6], 250),
        vec![b"vault".to_vec(), vec![4, 5, 6], vec![250]]
    );
}

#[test]
fn vault_signer_seeds_are_tag_record_and_bump() {
    let record = Address::new(ALICE_RECORD);
    assert_eq!(
        vault_signer_seeds(&record, 254),
        vec![b"vault".to_vec(), ALICE_RECORD.to_vec(), vec![254]]
    );
}

#[test]
fn address_same_compares_bytes() {
    let a = Address::new(ALICE);
    let mut almost = ALICE;
    almost[31] = 0;
    assert!(a.same(&Address::new(ALICE)));
    assert!(!a.same(&Address::new(almost)));
    assert!(!a.same(&Address::new(BOB)));
    assert_eq!(a.to_vec(), ALICE.to_vec());
}
