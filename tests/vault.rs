use anchor_lang::prelude::Pubkey;
use anchor_vault::address::{derive_address, verify_address};
use anchor_vault::ledger::{state_label_bytes, vault_label_bytes};
use anchor_vault::{
    deposit, initialize, withdraw, Address, Deposits, Initialize, Ledger, VaultError, Withdraw,
    STATE_RECORD_SPACE,
};

const RESERVE: u64 = 946_560;

fn program() -> Address {
    Address::new([7u8; 32])
}

fn owner(b: u8) -> Address {
    Address::new([b; 32])
}

/// The canonical state and value record addresses of an owner.
fn records(ledger: &Ledger, user: &Address) -> (Address, Address) {
    let (state, _) = ledger.state_address(user).unwrap();
    let (vault, _) = ledger.vault_address(&state).unwrap();
    (state, vault)
}

fn init_ctx(ledger: &Ledger, user: &Address) -> Initialize {
    let (vault_state, vault) = records(ledger, user);
    Initialize { user: *user, vault_state, vault }
}

fn deposit_ctx(ledger: &Ledger, user: &Address) -> Deposits {
    let (vault_state, vault) = records(ledger, user);
    Deposits { user: *user, vault_state, vault }
}

fn withdraw_ctx(ledger: &Ledger, user: &Address) -> Withdraw {
    let (vault_state, vault) = records(ledger, user);
    Withdraw { user: *user, vault_state, vault }
}

fn initialized(user: &Address) -> Ledger {
    let mut ledger = Ledger::new(program(), RESERVE);
    let ctx = init_ctx(&ledger, user);
    assert_eq!(initialize(&ctx, &mut ledger), Ok(()));
    ledger
}

#[test]
fn derivation_matches_host_derivation() {
    let user = owner(1);
    let (addr, bump) = derive_address(&program(), &state_label_bytes(), &user).unwrap();
    let (key, host_bump) =
        Pubkey::find_program_address(&[b"state", &user.bytes], &Pubkey::new_from_array([7u8; 32]));
    assert_eq!(addr.bytes, key.to_bytes());
    assert_eq!(bump, host_bump);
    assert_ne!(addr.bytes, user.bytes);
}

#[test]
fn derive_then_verify_round_trip() {
    for b in 0..20u8 {
        let seed = owner(b);
        let (addr, bump) = derive_address(&program(), &vault_label_bytes(), &seed).unwrap();
        assert!(verify_address(&program(), &vault_label_bytes(), &seed, bump, &addr));
    }
}

#[test]
fn wrong_bump_never_verifies() {
    for s in 0..4u8 {
        let seed = owner(s);
        let (addr, bump) = derive_address(&program(), &state_label_bytes(), &seed).unwrap();
        for other in 0..=255u8 {
            if other != bump {
                assert!(!verify_address(&program(), &state_label_bytes(), &seed, other, &addr));
            }
        }
    }
}

#[test]
fn overlong_label_has_no_derivation() {
    let label = vec![1u8; 33];
    assert_eq!(derive_address(&program(), &label, &owner(1)).map(|(a, b)| (a.bytes, b)), None);
}

#[test]
fn same_compares_all_bytes() {
    let mut bytes = [3u8; 32];
    assert!(Address::new(bytes).same(&Address::new(bytes)));
    bytes[31] = 4;
    assert!(!Address::new(bytes).same(&Address::new([3u8; 32])));
}

#[test]
fn initialize_funds_reserve_and_stores_bumps() {
    let user = owner(1);
    let ledger = initialized(&user);
    let (state, state_bump) = ledger.state_address(&user).unwrap();
    let (vault, vault_bump) = ledger.vault_address(&state).unwrap();
    let st = ledger.state(&state).unwrap();
    assert_eq!(st.state_bump, state_bump);
    assert_eq!(st.vault_bump, vault_bump);
    assert_eq!(ledger.balance(&vault), RESERVE);
    assert_eq!(STATE_RECORD_SPACE, 10);
}

#[test]
fn initialize_twice_fails() {
    for b in 1..4u8 {
        let user = owner(b);
        let mut ledger = initialized(&user);
        let ctx = init_ctx(&ledger, &user);
        assert_eq!(initialize(&ctx, &mut ledger), Err(VaultError::AlreadyInitialized));
        assert_eq!(ledger.balance(&ctx.vault), RESERVE);
    }
}

#[test]
fn initialize_with_wrong_address_fails() {
    let user = owner(1);
    let mut ledger = Ledger::new(program(), RESERVE);
    let mut ctx = init_ctx(&ledger, &user);
    ctx.vault = owner(9);
    assert_eq!(initialize(&ctx, &mut ledger), Err(VaultError::AddressMismatch));
    let mut ctx = init_ctx(&ledger, &user);
    ctx.vault_state = owner(9);
    assert_eq!(initialize(&ctx, &mut ledger), Err(VaultError::AddressMismatch));
    assert!(ledger.state(&init_ctx(&ledger, &user).vault_state).is_none());
}

#[test]
fn deposit_twice_adds_both() {
    let user = owner(1);
    let mut ledger = initialized(&user);
    let ctx = deposit_ctx(&ledger, &user);
    assert_eq!(deposit(&ctx, &mut ledger, 500), Ok(()));
    assert_eq!(deposit(&ctx, &mut ledger, 500), Ok(()));
    assert_eq!(ledger.balance(&ctx.vault), 2 * 500 + RESERVE);
}

#[test]
fn deposits_commute() {
    let user = owner(1);
    let mut a = initialized(&user);
    let mut b = initialized(&user);
    let ctx = deposit_ctx(&a, &user);
    assert_eq!(deposit(&ctx, &mut a, 300), Ok(()));
    assert_eq!(deposit(&ctx, &mut a, 700), Ok(()));
    assert_eq!(deposit(&ctx, &mut b, 700), Ok(()));
    assert_eq!(deposit(&ctx, &mut b, 300), Ok(()));
    assert_eq!(a.balance(&ctx.vault), b.balance(&ctx.vault));
    assert_eq!(a.balance(&ctx.vault), 1000 + RESERVE);
}

#[test]
fn deposit_before_initialize_fails() {
    let user = owner(1);
    let mut ledger = Ledger::new(program(), RESERVE);
    let ctx = deposit_ctx(&ledger, &user);
    assert_eq!(deposit(&ctx, &mut ledger, 10), Err(VaultError::NotInitialized));
    assert_eq!(ledger.balance(&ctx.vault), 0);
}

#[test]
fn deposit_overflow_is_invalid() {
    let user = owner(1);
    let mut ledger = initialized(&user);
    let ctx = deposit_ctx(&ledger, &user);
    assert_eq!(deposit(&ctx, &mut ledger, u64::MAX), Err(VaultError::InvalidAmount));
    assert_eq!(ledger.balance(&ctx.vault), RESERVE);
}

#[test]
fn withdraw_boundary() {
    let user = owner(1);
    let mut ledger = initialized(&user);
    let d = deposit_ctx(&ledger, &user);
    let w = withdraw_ctx(&ledger, &user);
    assert_eq!(deposit(&d, &mut ledger, 2500), Ok(()));
    let balance = ledger.balance(&w.vault);
    assert_eq!(withdraw(&w, &mut ledger, balance - RESERVE + 1), Err(VaultError::ReserveViolation));
    assert_eq!(ledger.balance(&w.vault), balance);
    assert_eq!(withdraw(&w, &mut ledger, balance - RESERVE), Ok(()));
    assert_eq!(ledger.balance(&w.vault), RESERVE);
}

#[test]
fn withdraw_more_than_balance_fails() {
    let user = owner(1);
    let mut ledger = initialized(&user);
    let w = withdraw_ctx(&ledger, &user);
    assert_eq!(withdraw(&w, &mut ledger, RESERVE + 1), Err(VaultError::InsufficientFunds));
    assert_eq!(withdraw(&w, &mut ledger, RESERVE), Err(VaultError::ReserveViolation));
    assert_eq!(ledger.balance(&w.vault), RESERVE);
}

#[test]
fn withdraw_without_reserve_boundary() {
    let user = owner(1);
    let mut ledger = Ledger::new(program(), 0);
    let ctx = init_ctx(&ledger, &user);
    assert_eq!(initialize(&ctx, &mut ledger), Ok(()));
    let d = deposit_ctx(&ledger, &user);
    let w = withdraw_ctx(&ledger, &user);
    assert_eq!(deposit(&d, &mut ledger, 40), Ok(()));
    assert_eq!(withdraw(&w, &mut ledger, 41), Err(VaultError::InsufficientFunds));
    assert_eq!(withdraw(&w, &mut ledger, 40), Ok(()));
    assert_eq!(ledger.balance(&w.vault), 0);
}

#[test]
fn owner_scenario() {
    let a = owner(1);
    let b = owner(2);
    let mut ledger = initialized(&a);
    let da = deposit_ctx(&ledger, &a);
    let wa = withdraw_ctx(&ledger, &a);
    assert_eq!(deposit(&da, &mut ledger, 1000), Ok(()));
    assert_eq!(withdraw(&wa, &mut ledger, 1000), Ok(()));
    assert_eq!(ledger.balance(&wa.vault), RESERVE);
    assert_eq!(withdraw(&wa, &mut ledger, RESERVE + 1), Err(VaultError::InsufficientFunds));
    assert_eq!(ledger.balance(&wa.vault), RESERVE);

    // Owner B presenting A's records is refused.
    let stolen = Withdraw { user: b, vault_state: wa.vault_state, vault: wa.vault };
    assert_eq!(withdraw(&stolen, &mut ledger, 1), Err(VaultError::AddressMismatch));
    let pushed = Deposits { user: b, vault_state: da.vault_state, vault: da.vault };
    assert_eq!(deposit(&pushed, &mut ledger, 1), Err(VaultError::AddressMismatch));
    assert_eq!(ledger.balance(&wa.vault), RESERVE);

    // Owner B's own vault is separate from A's.
    let ib = init_ctx(&ledger, &b);
    assert!(!ib.vault.same(&wa.vault));
    assert!(!ib.vault_state.same(&wa.vault_state));
    assert_eq!(initialize(&ib, &mut ledger), Ok(()));
    let db = deposit_ctx(&ledger, &b);
    assert_eq!(deposit(&db, &mut ledger, 77), Ok(()));
    assert_eq!(ledger.balance(&db.vault), RESERVE + 77);
    assert_eq!(ledger.balance(&wa.vault), RESERVE);
    assert_eq!(ledger.state(&wa.vault_state).unwrap().vault_bump, {
        let (_, bump) = ledger.vault_address(&wa.vault_state).unwrap();
        bump
    });
}

#[test]
fn zero_amount_is_invalid() {
    let user = owner(1);
    let mut ledger = initialized(&user);
    let d = deposit_ctx(&ledger, &user);
    let w = withdraw_ctx(&ledger, &user);
    assert_eq!(deposit(&d, &mut ledger, 0), Err(VaultError::InvalidAmount));
    assert_eq!(withdraw(&w, &mut ledger, 0), Err(VaultError::InvalidAmount));
    assert_eq!(ledger.balance(&d.vault), RESERVE);
}

#[test]
fn ledger_getters() {
    let ledger = Ledger::new(program(), 5);
    assert_eq!(ledger.reserve(), 5);
    assert_eq!(ledger.program_id().bytes, [7u8; 32]);
    assert_eq!(ledger.balance(&owner(1)), 0);
    assert!(ledger.state(&owner(1)).is_none());
}
