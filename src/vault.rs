//! The four operations on a user's vault. Each either succeeds whole and
//! hands back its notification, or fails and changes nothing.

use vstd::prelude::*;

use crate::host::{find_program_address, program_address_of};
use crate::ledger::{Ledger, VaultRecord};
use crate::state::{
    state_tag, vault_tag, FundsDeposited, FundsWithdrawn, HostError, LedgerError, VaultClosed,
    VaultError, VaultInitialized, VaultState, MAX_WITHDRAWAL_AMOUNT, MIN_DEPOSIT_AMOUNT,
};

verus! {

/// The caller of `initialize`: its address and the lamports its wallet holds.
#[derive(Clone, Copy, Debug, PartialEq, Eq)]
pub struct Initialize {
    pub user: [u8; 32],
    pub user_lamports: u64,
}

/// The caller of `deposit` and `withdraw`.
#[derive(Clone, Copy, Debug, PartialEq, Eq)]
pub struct Payment {
    pub user: [u8; 32],
    pub user_lamports: u64,
}

/// The caller of `close`.
#[derive(Clone, Copy, Debug, PartialEq, Eq)]
pub struct Close {
    pub user: [u8; 32],
    pub user_lamports: u64,
}

/// Why opening a vault for `user`, whose wallet holds `lamports`, fails, if it does.
pub open spec fn initialize_error(l: Ledger, user: Seq<u8>, lamports: u64) -> Option<LedgerError> {
    if l@.contains_key(user) {
        Some(LedgerError::Host(HostError::AccountAlreadyInUse))
    } else if program_address_of(state_tag(), user, l.program_id@) is None
        || program_address_of(vault_tag(), user, l.program_id@) is None {
        Some(LedgerError::Host(HostError::NoViableBump))
    } else if lamports < l.state_reserve + l.vault_reserve {
        Some(LedgerError::Host(HostError::InsufficientFunds))
    } else {
        None
    }
}

/// Why depositing `amount` fails, if it does.
pub open spec fn deposit_error(l: Ledger, user: Seq<u8>, lamports: u64, amount: u64) -> Option<LedgerError> {
    if !l@.contains_key(user) {
        Some(LedgerError::Host(HostError::AccountNotInitialized))
    } else if amount < MIN_DEPOSIT_AMOUNT {
        Some(LedgerError::Vault(VaultError::InsufficientDepositAmount))
    } else if lamports < amount {
        Some(LedgerError::Host(HostError::InsufficientFunds))
    } else if l@[user].vault_lamports + amount > u64::MAX {
        Some(LedgerError::Host(HostError::ArithmeticOverflow))
    } else {
        None
    }
}

/// Why withdrawing `amount` fails, if it does.
pub open spec fn withdraw_error(l: Ledger, user: Seq<u8>, lamports: u64, amount: u64) -> Option<LedgerError> {
    if !l@.contains_key(user) {
        Some(LedgerError::Host(HostError::AccountNotInitialized))
    } else if amount == 0 {
        Some(LedgerError::Vault(VaultError::InvalidWithdrawAmount))
    } else if amount > MAX_WITHDRAWAL_AMOUNT {
        Some(LedgerError::Vault(VaultError::ExceedsMaxWithdrawal))
    } else if l@[user].vault_lamports - amount < l.vault_reserve {
        Some(LedgerError::Vault(VaultError::InsufficientFundsAfterWithdrawal))
    } else if lamports + amount > u64::MAX {
        Some(LedgerError::Host(HostError::ArithmeticOverflow))
    } else {
        None
    }
}

/// Why closing fails, if it does.
pub open spec fn close_error(l: Ledger, user: Seq<u8>, lamports: u64) -> Option<LedgerError> {
    if !l@.contains_key(user) {
        Some(LedgerError::Host(HostError::AccountNotInitialized))
    } else if lamports + l@[user].vault_lamports + l@[user].state_lamports > u64::MAX {
        Some(LedgerError::Host(HostError::ArithmeticOverflow))
    } else {
        None
    }
}

impl Initialize {
    /// Creates the state record with its bumps and seeds the fund account
    /// with its floor, both paid from the caller's wallet.
    pub(crate) fn initialize(
        &mut self,
        ledger: &mut Ledger,
        state: VaultState,
        state_address: [u8; 32],
        vault_address: [u8; 32],
    ) -> (r: Result<(), LedgerError>)
        requires
            old(ledger).wf(),
            !old(ledger)@.contains_key(old(self).user@),
            program_address_of(state_tag(), old(self).user@, old(ledger).program_id@) == Some(
                (state_address@, state.state_bump),
            ),
            program_address_of(vault_tag(), old(self).user@, old(ledger).program_id@) == Some(
                (vault_address@, state.vault_bump),
            ),
        ensures
            final(ledger).wf(),
            final(ledger).same_setting(*old(ledger)),
            final(self).user == old(self).user,
            old(self).user_lamports < old(ledger).state_reserve + old(ledger).vault_reserve ==> {
                &&& r == Err::<(), LedgerError>(LedgerError::Host(HostError::InsufficientFunds))
                &&& final(ledger)@ == old(ledger)@
                &&& final(self).user_lamports == old(self).user_lamports
            },
            old(self).user_lamports >= old(ledger).state_reserve + old(ledger).vault_reserve ==> {
                &&& r is Ok
                &&& final(ledger)@ == old(ledger)@.insert(
                    old(self).user@,
                    (VaultRecord {
                        owner: old(self).user,
                        state,
                        state_address,
                        vault_address,
                        state_lamports: old(ledger).state_reserve,
                        vault_lamports: old(ledger).vault_reserve,
                    }),
                )
                &&& final(self).user_lamports == old(self).user_lamports - old(ledger).state_reserve
                    - old(ledger).vault_reserve
            },
    {
        if self.user_lamports < ledger.state_reserve {
            return Err(LedgerError::Host(HostError::InsufficientFunds));
        }
        let rest = self.user_lamports - ledger.state_reserve;
        if rest < ledger.vault_reserve {
            return Err(LedgerError::Host(HostError::InsufficientFunds));
        }
        let rec = VaultRecord {
            owner: self.user,
            state,
            state_address,
            vault_address,
            state_lamports: ledger.state_reserve,
            vault_lamports: ledger.vault_reserve,
        };
        ledger.insert_record(rec);
        self.user_lamports = rest - ledger.vault_reserve;
        Ok(())
    }
}

/// Opens a vault for the caller: derives its two addresses, records their
/// bumps, and funds both accounts with their floors from the caller's wallet.
pub fn initialize(ledger: &mut Ledger, ctx: &mut Initialize) -> (r: Result<VaultInitialized, LedgerError>)
    requires
        old(ledger).wf(),
    ensures
        final(ledger).wf(),
        final(ledger).same_setting(*old(ledger)),
        final(ctx).user == old(ctx).user,
        match initialize_error(*old(ledger), old(ctx).user@, old(ctx).user_lamports) {
            Some(e) => {
                &&& r == Err::<VaultInitialized, LedgerError>(e)
                &&& final(ledger)@ == old(ledger)@
                &&& final(ctx).user_lamports == old(ctx).user_lamports
            },
            None => {
                let rec = final(ledger)@[old(ctx).user@];
                &&& final(ledger)@ == old(ledger)@.insert(old(ctx).user@, rec)
                &&& rec.owner == old(ctx).user
                &&& final(ledger).record_ok(rec)
                &&& rec.vault_lamports == old(ledger).vault_reserve
                &&& final(ctx).user_lamports == old(ctx).user_lamports - old(ledger).state_reserve
                    - old(ledger).vault_reserve
                &&& r == Ok::<VaultInitialized, LedgerError>(
                    VaultInitialized {
                        user: old(ctx).user,
                        vault: rec.vault_address,
                        vault_state: rec.state_address,
                    },
                )
            },
        },
{
    if ledger.has_vault(&ctx.user) {
        return Err(LedgerError::Host(HostError::AccountAlreadyInUse));
    }
    let state_seed = VaultState::state_seed();
    let vault_seed = VaultState::vault_seed();
    let found_state = find_program_address(&state_seed, &ctx.user, &ledger.program_id);
    let found_vault = find_program_address(&vault_seed, &ctx.user, &ledger.program_id);
    match (found_state, found_vault) {
        (Some((state_address, state_bump)), Some((vault_address, vault_bump))) => {
            let state = VaultState { state_bump, vault_bump };
            match ctx.initialize(ledger, state, state_address, vault_address) {
                Ok(()) => Ok(VaultInitialized { user: ctx.user, vault: vault_address, vault_state: state_address }),
                Err(e) => Err(e),
            }
        },
        _ => Err(LedgerError::Host(HostError::NoViableBump)),
    }
}

impl Payment {
    /// Moves `amount` from the caller's wallet into the fund account of the
    /// record at `i`.
    pub(crate) fn deposit(&mut self, ledger: &mut Ledger, i: usize, amount: u64) -> (r: Result<(), LedgerError>)
        requires
            old(ledger).wf(),
            i < old(ledger).records@.len(),
            old(ledger).records@[i as int].owner@ == old(self).user@,
        ensures
            final(ledger).wf(),
            final(ledger).same_setting(*old(ledger)),
            final(self).user == old(self).user,
            ({
                let rec = old(ledger).records@[i as int];
                if old(self).user_lamports < amount {
                    &&& r == Err::<(), LedgerError>(LedgerError::Host(HostError::InsufficientFunds))
                    &&& final(ledger)@ == old(ledger)@
                    &&& final(self).user_lamports == old(self).user_lamports
                } else if rec.vault_lamports + amount > u64::MAX {
                    &&& r == Err::<(), LedgerError>(LedgerError::Host(HostError::ArithmeticOverflow))
                    &&& final(ledger)@ == old(ledger)@
                    &&& final(self).user_lamports == old(self).user_lamports
                } else {
                    &&& r is Ok
                    &&& final(ledger)@ == old(ledger)@.insert(
                        old(self).user@,
                        rec.with_balance(rec.vault_lamports + amount),
                    )
                    &&& final(self).user_lamports == old(self).user_lamports - amount
                }
            }),
    {
        if self.user_lamports < amount {
            return Err(LedgerError::Host(HostError::InsufficientFunds));
        }
        let balance = ledger.records[i].vault_lamports;
        match balance.checked_add(amount) {
            Some(n) => {
                proof {
                    assert(ledger.record_ok(ledger.records@[i as int]));
                }
                ledger.set_vault_lamports(i, n);
                self.user_lamports = self.user_lamports - amount;
                Ok(())
            },
            None => Err(LedgerError::Host(HostError::ArithmeticOverflow)),
        }
    }

    /// Moves `amount` from the fund account of the record at `i` back to the
    /// caller's wallet, then checks that the fund account kept its floor.
    pub(crate) fn withdraw(&mut self, ledger: &mut Ledger, i: usize, amount: u64) -> (r: Result<(), LedgerError>)
        requires
            old(ledger).wf(),
            i < old(ledger).records@.len(),
            old(ledger).records@[i as int].owner@ == old(self).user@,
        ensures
            final(ledger).wf(),
            final(ledger).same_setting(*old(ledger)),
            final(self).user == old(self).user,
            ({
                let rec = old(ledger).records@[i as int];
                if rec.vault_lamports < amount {
                    &&& r == Err::<(), LedgerError>(LedgerError::Host(HostError::InsufficientFunds))
                    &&& final(ledger)@ == old(ledger)@
                    &&& final(self).user_lamports == old(self).user_lamports
                } else if old(self).user_lamports + amount > u64::MAX {
                    &&& r == Err::<(), LedgerError>(LedgerError::Host(HostError::ArithmeticOverflow))
                    &&& final(ledger)@ == old(ledger)@
                    &&& final(self).user_lamports == old(self).user_lamports
                } else if rec.vault_lamports - amount < old(ledger).vault_reserve {
                    &&& r == Err::<(), LedgerError>(LedgerError::Host(HostError::RequireGteViolated))
                    &&& final(ledger)@ == old(ledger)@
                    &&& final(self).user_lamports == old(self).user_lamports
                } else {
                    &&& r is Ok
                    &&& final(ledger)@ == old(ledger)@.insert(
                        old(self).user@,
                        rec.with_balance(rec.vault_lamports - amount),
                    )
                    &&& final(self).user_lamports == old(self).user_lamports + amount
                }
            }),
    {
        let balance = ledger.records[i].vault_lamports;
        if balance < amount {
            return Err(LedgerError::Host(HostError::InsufficientFunds));
        }
        let received = match self.user_lamports.checked_add(amount) {
            Some(n) => n,
            None => {
                return Err(LedgerError::Host(HostError::ArithmeticOverflow));
            },
        };
        let remaining = balance - amount;
        if remaining < ledger.vault_reserve {
            return Err(LedgerError::Host(HostError::RequireGteViolated));
        }
        ledger.set_vault_lamports(i, remaining);
        self.user_lamports = received;
        Ok(())
    }
}

/// Deposits `amount` into the caller's vault.
pub fn deposit(ledger: &mut Ledger, ctx: &mut Payment, amount: u64) -> (r: Result<FundsDeposited, LedgerError>)
    requires
        old(ledger).wf(),
    ensures
        final(ledger).wf(),
        final(ledger).same_setting(*old(ledger)),
        final(ctx).user == old(ctx).user,
        match deposit_error(*old(ledger), old(ctx).user@, old(ctx).user_lamports, amount) {
            Some(e) => {
                &&& r == Err::<FundsDeposited, LedgerError>(e)
                &&& final(ledger)@ == old(ledger)@
                &&& final(ctx).user_lamports == old(ctx).user_lamports
            },
            None => {
                let rec = old(ledger)@[old(ctx).user@];
                &&& final(ledger)@ == old(ledger)@.insert(
                    old(ctx).user@,
                    rec.with_balance(rec.vault_lamports + amount),
                )
                &&& final(ctx).user_lamports == old(ctx).user_lamports - amount
                &&& r == Ok::<FundsDeposited, LedgerError>(
                    FundsDeposited { user: old(ctx).user, vault: rec.vault_address, amount },
                )
            },
        },
{
    let i = match ledger.find(&ctx.user) {
        Some(i) => i,
        None => {
            return Err(LedgerError::Host(HostError::AccountNotInitialized));
        },
    };
    if amount < MIN_DEPOSIT_AMOUNT {
        return Err(LedgerError::Vault(VaultError::InsufficientDepositAmount));
    }
    let vault = ledger.records[i].vault_address;
    match ctx.deposit(ledger, i, amount) {
        Ok(()) => Ok(FundsDeposited { user: ctx.user, vault, amount }),
        Err(e) => Err(e),
    }
}

/// Withdraws `amount` from the caller's vault, as long as the vault keeps
/// its floor.
pub fn withdraw(ledger: &mut Ledger, ctx: &mut Payment, amount: u64) -> (r: Result<FundsWithdrawn, LedgerError>)
    requires
        old(ledger).wf(),
    ensures
        final(ledger).wf(),
        final(ledger).same_setting(*old(ledger)),
        final(ctx).user == old(ctx).user,
        match withdraw_error(*old(ledger), old(ctx).user@, old(ctx).user_lamports, amount) {
            Some(e) => {
                &&& r == Err::<FundsWithdrawn, LedgerError>(e)
                &&& final(ledger)@ == old(ledger)@
                &&& final(ctx).user_lamports == old(ctx).user_lamports
            },
            None => {
                let rec = old(ledger)@[old(ctx).user@];
                &&& final(ledger)@ == old(ledger)@.insert(
                    old(ctx).user@,
                    rec.with_balance(rec.vault_lamports - amount),
                )
                &&& final(ctx).user_lamports == old(ctx).user_lamports + amount
                &&& r == Ok::<FundsWithdrawn, LedgerError>(
                    FundsWithdrawn { user: old(ctx).user, vault: rec.vault_address, amount },
                )
            },
        },
{
    let i = match ledger.find(&ctx.user) {
        Some(i) => i,
        None => {
            return Err(LedgerError::Host(HostError::AccountNotInitialized));
        },
    };
    if amount == 0 {
        return Err(LedgerError::Vault(VaultError::InvalidWithdrawAmount));
    }
    if amount > MAX_WITHDRAWAL_AMOUNT {
        return Err(LedgerError::Vault(VaultError::ExceedsMaxWithdrawal));
    }
    let balance = ledger.records[i].vault_lamports;
    if balance < amount || balance - amount < ledger.vault_reserve {
        return Err(LedgerError::Vault(VaultError::InsufficientFundsAfterWithdrawal));
    }
    let vault = ledger.records[i].vault_address;
    match ctx.withdraw(ledger, i, amount) {
        Ok(()) => Ok(FundsWithdrawn { user: ctx.user, vault, amount }),
        Err(e) => Err(e),
    }
}

impl Close {
    /// Drains the fund account of the record at `i` and deletes the state
    /// record, both into the caller's wallet.
    pub(crate) fn close(&mut self, ledger: &mut Ledger, i: usize) -> (r: Result<(), LedgerError>)
        requires
            old(ledger).wf(),
            i < old(ledger).records@.len(),
            old(ledger).records@[i as int].owner@ == old(self).user@,
        ensures
            final(ledger).wf(),
            final(ledger).same_setting(*old(ledger)),
            final(self).user == old(self).user,
            ({
                let rec = old(ledger).records@[i as int];
                if old(self).user_lamports + rec.vault_lamports + rec.state_lamports > u64::MAX {
                    &&& r == Err::<(), LedgerError>(LedgerError::Host(HostError::ArithmeticOverflow))
                    &&& final(ledger)@ == old(ledger)@
                    &&& final(self).user_lamports == old(self).user_lamports
                } else {
                    &&& r is Ok
                    &&& final(ledger)@ == old(ledger)@.remove(old(self).user@)
                    &&& final(self).user_lamports == old(self).user_lamports + rec.vault_lamports
                        + rec.state_lamports
                }
            }),
    {
        let drained = match self.user_lamports.checked_add(ledger.records[i].vault_lamports) {
            Some(n) => n,
            None => {
                return Err(LedgerError::Host(HostError::ArithmeticOverflow));
            },
        };
        let refunded = match drained.checked_add(ledger.records[i].state_lamports) {
            Some(n) => n,
            None => {
                return Err(LedgerError::Host(HostError::ArithmeticOverflow));
            },
        };
        ledger.remove_record(i);
        self.user_lamports = refunded;
        Ok(())
    }
}

/// Closes the caller's vault, returning everything it held to the caller.
pub fn close(ledger: &mut Ledger, ctx: &mut Close) -> (r: Result<VaultClosed, LedgerError>)
    requires
        old(ledger).wf(),
    ensures
        final(ledger).wf(),
        final(ledger).same_setting(*old(ledger)),
        final(ctx).user == old(ctx).user,
        match close_error(*old(ledger), old(ctx).user@, old(ctx).user_lamports) {
            Some(e) => {
                &&& r == Err::<VaultClosed, LedgerError>(e)
                &&& final(ledger)@ == old(ledger)@
                &&& final(ctx).user_lamports == old(ctx).user_lamports
            },
            None => {
                let rec = old(ledger)@[old(ctx).user@];
                &&& final(ledger)@ == old(ledger)@.remove(old(ctx).user@)
                &&& final(ctx).user_lamports == old(ctx).user_lamports + rec.vault_lamports
                    + rec.state_lamports
                &&& r == Ok::<VaultClosed, LedgerError>(
                    VaultClosed {
                        user: old(ctx).user,
                        vault: rec.vault_address,
                        final_balance: rec.vault_lamports,
                    },
                )
            },
        },
{
    let i = match ledger.find(&ctx.user) {
        Some(i) => i,
        None => {
            return Err(LedgerError::Host(HostError::AccountNotInitialized));
        },
    };
    let vault = ledger.records[i].vault_address;
    let final_balance = ledger.records[i].vault_lamports;
    match ctx.close(ledger, i) {
        Ok(()) => Ok(VaultClosed { user: ctx.user, vault, final_balance }),
        Err(e) => Err(e),
    }
}

} // verus!
