use anchor_lang::solana_program::pubkey::Pubkey;
use anchor_lang::solana_program::rent::Rent;
use anchor_vault::{
    close, deposit, initialize, withdraw, Close, FundsDeposited, FundsWithdrawn, HostError,
    Initialize, Ledger, LedgerError, Payment, VaultClosed, VaultError, VaultState,
    MAX_WITHDRAWAL_AMOUNT, MIN_DEPOSIT_AMOUNT,
};

const PROGRAM: [u8; 32] = [7u8; 32];
const ALICE: [u8; 32] = [1u8; 32];
const BOB: [u8; 32] = [2u8; 32];
const FUND_FLOOR: u64 = 890_880;
const STATE_FLOOR: u64 = 960_480;

fn derived(tag: &[u8], user: &[u8; 32]) -> ([u8; 32], u8) {
    let (k, b) = Pubkey::find_program_address(&[tag, &user[..]], &Pubkey::from(PROGRAM));
    (k.to_bytes(), b)
}

fn opened(user: [u8; 32], lamports: u64) -> (Ledger, u64) {
    let mut ledger = Ledger::new(PROGRAM);
    let mut ctx = Initialize { user, user_lamports: lamports };
    initialize(&mut ledger, &mut ctx).unwrap();
    (ledger, ctx.user_lamports)
}

#[test]
fn default_floors_match_rent() {
    let ledger = Ledger::new(PROGRAM);
    assert_eq!(ledger.vault_reserve, Rent::default().minimum_balance(0));
    assert_eq!(ledger.state_reserve, Rent::default().minimum_balance(VaultState::SPACE));
    assert_eq!(ledger.vault_reserve, FUND_FLOOR);
    assert_eq!(ledger.state_reserve, STATE_FLOOR);
}

#[test]
fn open_funds_vault_with_floor() {
    let mut ledger = Ledger::new(PROGRAM);
    let mut ctx = Initialize { user: ALICE, user_lamports: 10_000_000 };
    let ev = initialize(&mut ledger, &mut ctx).unwrap();
    let (vault, vault_bump) = derived(b"vault", &ALICE);
    let (state, state_bump) = derived(b"state", &ALICE);
    assert_eq!(ev.user, ALICE);
    assert_eq!(ev.vault, vault);
    assert_eq!(ev.vault_state, state);
    assert_ne!(ev.vault, ALICE);
    assert_ne!(ev.vault, ev.vault_state);
    assert_eq!(ledger.vault_balance(&ALICE), Some(FUND_FLOOR));
    assert_eq!(ledger.vault_state(&ALICE), Some(VaultState { state_bump, vault_bump }));
    assert_eq!(ctx.user_lamports, 10_000_000 - FUND_FLOOR - STATE_FLOOR);
}

#[test]
fn open_twice_is_refused() {
    let (mut ledger, left) = opened(ALICE, 10_000_000);
    let mut ctx = Initialize { user: ALICE, user_lamports: left };
    let r = initialize(&mut ledger, &mut ctx);
    assert_eq!(r, Err(LedgerError::Host(HostError::AccountAlreadyInUse)));
    assert_eq!(ctx.user_lamports, left);
    assert_eq!(ledger.vault_balance(&ALICE), Some(FUND_FLOOR));
}

#[test]
fn open_without_enough_lamports_is_refused() {
    let mut ledger = Ledger::new(PROGRAM);
    let mut ctx = Initialize { user: ALICE, user_lamports: FUND_FLOOR + STATE_FLOOR - 1 };
    let r = initialize(&mut ledger, &mut ctx);
    assert_eq!(r, Err(LedgerError::Host(HostError::InsufficientFunds)));
    assert!(!ledger.has_vault(&ALICE));
    assert_eq!(ctx.user_lamports, FUND_FLOOR + STATE_FLOOR - 1);
}

#[test]
fn deposit_adds_amount() {
    let (mut ledger, left) = opened(ALICE, 10_000_000);
    let mut ctx = Payment { user: ALICE, user_lamports: left };
    let ev = deposit(&mut ledger, &mut ctx, 5000).unwrap();
    assert_eq!(ev, FundsDeposited { user: ALICE, vault: derived(b"vault", &ALICE).0, amount: 5000 });
    assert_eq!(ledger.vault_balance(&ALICE), Some(FUND_FLOOR + 5000));
    assert_eq!(ctx.user_lamports, left - 5000);
}

#[test]
fn deposit_of_minimum_is_accepted() {
    let (mut ledger, left) = opened(ALICE, 10_000_000);
    let mut ctx = Payment { user: ALICE, user_lamports: left };
    assert!(deposit(&mut ledger, &mut ctx, MIN_DEPOSIT_AMOUNT).is_ok());
    assert_eq!(ledger.vault_balance(&ALICE), Some(FUND_FLOOR + 1000));
}

#[test]
fn deposit_below_minimum_is_refused() {
    let (mut ledger, left) = opened(ALICE, 10_000_000);
    let mut ctx = Payment { user: ALICE, user_lamports: left };
    let r = deposit(&mut ledger, &mut ctx, 999);
    assert_eq!(r, Err(LedgerError::Vault(VaultError::InsufficientDepositAmount)));
    let r = deposit(&mut ledger, &mut ctx, 0);
    assert_eq!(r, Err(LedgerError::Vault(VaultError::InsufficientDepositAmount)));
    assert_eq!(ledger.vault_balance(&ALICE), Some(FUND_FLOOR));
    assert_eq!(ctx.user_lamports, left);
}

#[test]
fn deposit_beyond_wallet_is_refused() {
    let (mut ledger, _) = opened(ALICE, 10_000_000);
    let mut ctx = Payment { user: ALICE, user_lamports: 1500 };
    let r = deposit(&mut ledger, &mut ctx, 2000);
    assert_eq!(r, Err(LedgerError::Host(HostError::InsufficientFunds)));
    assert_eq!(ledger.vault_balance(&ALICE), Some(FUND_FLOOR));
}

#[test]
fn deposit_overflowing_vault_is_refused() {
    let mut ledger = Ledger::with_reserves(PROGRAM, 0, 0);
    let mut init = Initialize { user: ALICE, user_lamports: 0 };
    initialize(&mut ledger, &mut init).unwrap();
    let mut ctx = Payment { user: ALICE, user_lamports: u64::MAX };
    deposit(&mut ledger, &mut ctx, u64::MAX - 10).unwrap();
    ctx.user_lamports = u64::MAX;
    let r = deposit(&mut ledger, &mut ctx, 1000);
    assert_eq!(r, Err(LedgerError::Host(HostError::ArithmeticOverflow)));
    assert_eq!(ledger.vault_balance(&ALICE), Some(u64::MAX - 10));
}

#[test]
fn withdraw_subtracts_amount() {
    let (mut ledger, left) = opened(ALICE, 10_000_000);
    let mut ctx = Payment { user: ALICE, user_lamports: left };
    deposit(&mut ledger, &mut ctx, 5000).unwrap();
    let ev = withdraw(&mut ledger, &mut ctx, 5000).unwrap();
    assert_eq!(ev, FundsWithdrawn { user: ALICE, vault: derived(b"vault", &ALICE).0, amount: 5000 });
    assert_eq!(ledger.vault_balance(&ALICE), Some(FUND_FLOOR));
    assert_eq!(ctx.user_lamports, left);
}

#[test]
fn withdraw_zero_is_refused() {
    let (mut ledger, left) = opened(ALICE, 10_000_000);
    let mut ctx = Payment { user: ALICE, user_lamports: left };
    let r = withdraw(&mut ledger, &mut ctx, 0);
    assert_eq!(r, Err(LedgerError::Vault(VaultError::InvalidWithdrawAmount)));
}

#[test]
fn withdraw_above_maximum_is_refused() {
    let mut ledger = Ledger::with_reserves(PROGRAM, 0, 0);
    let mut init = Initialize { user: ALICE, user_lamports: 0 };
    initialize(&mut ledger, &mut init).unwrap();
    let mut ctx = Payment { user: ALICE, user_lamports: 3_000_000_000_000 };
    deposit(&mut ledger, &mut ctx, 3_000_000_000_000).unwrap();
    let r = withdraw(&mut ledger, &mut ctx, MAX_WITHDRAWAL_AMOUNT + 1);
    assert_eq!(r, Err(LedgerError::Vault(VaultError::ExceedsMaxWithdrawal)));
    assert!(withdraw(&mut ledger, &mut ctx, MAX_WITHDRAWAL_AMOUNT).is_ok());
    assert_eq!(ledger.vault_balance(&ALICE), Some(2_000_000_000_000));
    assert_eq!(ctx.user_lamports, 1_000_000_000_000);
}

#[test]
fn withdraw_below_floor_is_refused() {
    let (mut ledger, left) = opened(ALICE, 10_000_000);
    let mut ctx = Payment { user: ALICE, user_lamports: left };
    deposit(&mut ledger, &mut ctx, 5000).unwrap();
    let r = withdraw(&mut ledger, &mut ctx, 5001);
    assert_eq!(r, Err(LedgerError::Vault(VaultError::InsufficientFundsAfterWithdrawal)));
    assert_eq!(ledger.vault_balance(&ALICE), Some(FUND_FLOOR + 5000));
}

#[test]
fn withdraw_beyond_balance_is_refused_without_floor() {
    let mut ledger = Ledger::with_reserves(PROGRAM, 0, 0);
    let mut init = Initialize { user: ALICE, user_lamports: 0 };
    initialize(&mut ledger, &mut init).unwrap();
    let mut ctx = Payment { user: ALICE, user_lamports: 0 };
    let r = withdraw(&mut ledger, &mut ctx, 1);
    assert_eq!(r, Err(LedgerError::Vault(VaultError::InsufficientFundsAfterWithdrawal)));
}

#[test]
fn close_returns_everything() {
    let (mut ledger, left) = opened(ALICE, 10_000_000);
    let mut pay = Payment { user: ALICE, user_lamports: left };
    deposit(&mut ledger, &mut pay, 7000).unwrap();
    let mut ctx = Close { user: ALICE, user_lamports: pay.user_lamports };
    let ev = close(&mut ledger, &mut ctx).unwrap();
    assert_eq!(
        ev,
        VaultClosed { user: ALICE, vault: derived(b"vault", &ALICE).0, final_balance: FUND_FLOOR + 7000 }
    );
    assert!(!ledger.has_vault(&ALICE));
    assert_eq!(ledger.vault_balance(&ALICE), None);
    assert_eq!(ctx.user_lamports, 10_000_000);
}

#[test]
fn close_then_reopen() {
    let (mut ledger, left) = opened(ALICE, 10_000_000);
    let mut ctx = Close { user: ALICE, user_lamports: left };
    close(&mut ledger, &mut ctx).unwrap();
    let mut init = Initialize { user: ALICE, user_lamports: ctx.user_lamports };
    assert!(initialize(&mut ledger, &mut init).is_ok());
    assert_eq!(ledger.vault_balance(&ALICE), Some(FUND_FLOOR));
}

#[test]
fn operations_without_vault_are_refused() {
    let mut ledger = Ledger::new(PROGRAM);
    let mut pay = Payment { user: ALICE, user_lamports: 10_000_000 };
    let not_found = LedgerError::Host(HostError::AccountNotInitialized);
    assert_eq!(deposit(&mut ledger, &mut pay, 5000), Err(not_found));
    assert_eq!(withdraw(&mut ledger, &mut pay, 5000), Err(not_found));
    let mut ctx = Close { user: ALICE, user_lamports: 10_000_000 };
    assert_eq!(close(&mut ledger, &mut ctx), Err(not_found));
    assert_eq!(pay.user_lamports, 10_000_000);
    assert_eq!(ctx.user_lamports, 10_000_000);
}

#[test]
fn vaults_of_two_users_are_independent() {
    let mut ledger = Ledger::new(PROGRAM);
    let mut a = Initialize { user: ALICE, user_lamports: 10_000_000 };
    let mut b = Initialize { user: BOB, user_lamports: 10_000_000 };
    let ea = initialize(&mut ledger, &mut a).unwrap();
    let eb = initialize(&mut ledger, &mut b).unwrap();
    assert_ne!(ea.vault, eb.vault);
    let mut pay = Payment { user: BOB, user_lamports: b.user_lamports };
    deposit(&mut ledger, &mut pay, 4000).unwrap();
    assert_eq!(ledger.vault_balance(&ALICE), Some(FUND_FLOOR));
    assert_eq!(ledger.vault_balance(&BOB), Some(FUND_FLOOR + 4000));
    let mut c = Close { user: ALICE, user_lamports: a.user_lamports };
    close(&mut ledger, &mut c).unwrap();
    assert_eq!(ledger.vault_balance(&BOB), Some(FUND_FLOOR + 4000));
}

#[test]
fn full_lifecycle() {
    let mut ledger = Ledger::new(PROGRAM);
    let mut init = Initialize { user: ALICE, user_lamports: 10_000_000 };
    initialize(&mut ledger, &mut init).unwrap();
    let r = ledger.vault_reserve;
    assert_eq!(ledger.vault_balance(&ALICE), Some(r));
    let mut pay = Payment { user: ALICE, user_lamports: init.user_lamports };
    deposit(&mut ledger, &mut pay, 5000).unwrap();
    assert_eq!(ledger.vault_balance(&ALICE), Some(r + 5000));
    withdraw(&mut ledger, &mut pay, 2000).unwrap();
    assert_eq!(ledger.vault_balance(&ALICE), Some(r + 3000));
    let mut ctx = Close { user: ALICE, user_lamports: pay.user_lamports };
    let ev = close(&mut ledger, &mut ctx).unwrap();
    assert_eq!(ev.final_balance, r + 3000);
    assert_eq!(ledger.vault_balance(&ALICE), None);
}

#[test]
fn withdrawing_whole_floor_is_refused() {
    let (mut ledger, left) = opened(ALICE, 10_000_000);
    let r = ledger.vault_reserve;
    let mut pay = Payment { user: ALICE, user_lamports: left };
    let res = withdraw(&mut ledger, &mut pay, r);
    assert_eq!(res, Err(LedgerError::Vault(VaultError::InsufficientFundsAfterWithdrawal)));
    assert_eq!(ledger.vault_balance(&ALICE), Some(r));
}

#[test]
fn seeds_spell_tags() {
    assert_eq!(&VaultState::state_seed(), b"state");
    assert_eq!(&VaultState::vault_seed(), b"vault");
}
