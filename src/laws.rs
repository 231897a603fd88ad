//! Properties of the vault that relate several operations or hold of every
//! reachable ledger.

use vstd::prelude::*;

use crate::ledger::{Ledger, VaultRecord};
use crate::state::{
    HostError, LedgerError, VaultError, MAX_WITHDRAWAL_AMOUNT, MIN_DEPOSIT_AMOUNT,
};
use crate::vault::{close_error, deposit_error, initialize_error, withdraw_error};

verus! {

/// Every open vault holds at least the fund account's floor.
pub proof fn lemma_open_vaults_keep_floor(l: Ledger, u: Seq<u8>)
    requires
        l.wf(),
        l@.contains_key(u),
    ensures
        l@[u].vault_lamports >= l.vault_reserve,
        l.fund_balance(u) >= l.vault_reserve,
{
    l.lemma_wf_view();
}

/// Once `initialize` has opened a vault for `u`, a second `initialize` for
/// `u` is refused as an account already in use, whatever the caller holds.
pub proof fn lemma_open_twice_refused(
    before: Ledger,
    after: Ledger,
    u: Seq<u8>,
    rec: VaultRecord,
    lamports: u64,
)
    requires
        after@ == before@.insert(u, rec),
    ensures
        initialize_error(after, u, lamports) == Some(LedgerError::Host(HostError::AccountAlreadyInUse)),
{
    assert(after@.contains_key(u));
}

/// Without an open vault, `deposit`, `withdraw` and `close` are all refused
/// as an account not initialized.
pub proof fn lemma_absent_vault_refused(l: Ledger, u: Seq<u8>, lamports: u64, amount: u64)
    requires
        !l@.contains_key(u),
    ensures
        deposit_error(l, u, lamports, amount) == Some(LedgerError::Host(HostError::AccountNotInitialized)),
        withdraw_error(l, u, lamports, amount) == Some(LedgerError::Host(HostError::AccountNotInitialized)),
        close_error(l, u, lamports) == Some(LedgerError::Host(HostError::AccountNotInitialized)),
{
}

/// On an open vault, a deposit below the minimum is refused for its amount.
pub proof fn lemma_small_deposit_refused(l: Ledger, u: Seq<u8>, lamports: u64, amount: u64)
    requires
        l@.contains_key(u),
        amount < MIN_DEPOSIT_AMOUNT,
    ensures
        deposit_error(l, u, lamports, amount) == Some(LedgerError::Vault(VaultError::InsufficientDepositAmount)),
{
}

/// On an open vault, a withdrawal is refused for its amount exactly when it
/// is zero, above the maximum, or would leave less than the floor, in that
/// order of precedence.
pub proof fn lemma_withdraw_guards(l: Ledger, u: Seq<u8>, lamports: u64, amount: u64)
    requires
        l@.contains_key(u),
    ensures
        amount == 0 ==> withdraw_error(l, u, lamports, amount) == Some(
            LedgerError::Vault(VaultError::InvalidWithdrawAmount),
        ),
        amount > MAX_WITHDRAWAL_AMOUNT ==> withdraw_error(l, u, lamports, amount) == Some(
            LedgerError::Vault(VaultError::ExceedsMaxWithdrawal),
        ),
        0 < amount <= MAX_WITHDRAWAL_AMOUNT && l@[u].vault_lamports - amount < l.vault_reserve
            ==> withdraw_error(l, u, lamports, amount) == Some(
            LedgerError::Vault(VaultError::InsufficientFundsAfterWithdrawal),
        ),
        0 < amount <= MAX_WITHDRAWAL_AMOUNT && l@[u].vault_lamports - amount >= l.vault_reserve
            && lamports + amount <= u64::MAX ==> withdraw_error(l, u, lamports, amount) is None,
{
}

/// Withdrawing a freshly opened vault's whole floor is refused: it would
/// leave nothing where the floor is owed.
pub proof fn lemma_withdraw_floor_of_fresh_vault_refused(l: Ledger, u: Seq<u8>, lamports: u64)
    requires
        l@.contains_key(u),
        l@[u].vault_lamports == l.vault_reserve,
        0 < l.vault_reserve <= MAX_WITHDRAWAL_AMOUNT,
    ensures
        withdraw_error(l, u, lamports, l.vault_reserve) == Some(
            LedgerError::Vault(VaultError::InsufficientFundsAfterWithdrawal),
        ),
{
}

/// After `close`, the fund balance of `u` is nothing and every other
/// owner's vault is as it was.
pub proof fn lemma_close_drains(before: Ledger, after: Ledger, u: Seq<u8>)
    requires
        after@ == before@.remove(u),
    ensures
        after.fund_balance(u) == 0,
        !after@.contains_key(u),
        forall|v: Seq<u8>| v != u ==> #[trigger] after.fund_balance(v) == before.fund_balance(v),
{
}

} // verus!
