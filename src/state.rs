//! The records a vault is made of, the errors and the notifications.

use vstd::prelude::*;

verus! {

/// Bytes of the derivation tag of a vault's state record: `"state"`.
pub open spec fn state_tag() -> Seq<u8> {
    seq![115u8, 116u8, 97u8, 116u8, 101u8]
}

/// Bytes of the derivation tag of a vault's fund account: `"vault"`.
pub open spec fn vault_tag() -> Seq<u8> {
    seq![118u8, 97u8, 117u8, 108u8, 116u8]
}

/// Smallest amount a deposit may carry.
pub const MIN_DEPOSIT_AMOUNT: u64 = 1000;

/// Largest amount a single withdrawal may carry.
pub const MAX_WITHDRAWAL_AMOUNT: u64 = 1000000000000;

/// The per-user state record: the bumps of its two derived addresses.
#[derive(Clone, Copy, Debug, PartialEq, Eq, Structural)]
pub struct VaultState {
    pub state_bump: u8,
    pub vault_bump: u8,
}

impl VaultState {
    /// Payload bytes of a state record: an eight-byte type tag and two bumps.
    pub const SPACE: usize = 10;

    /// The derivation tag of the state record.
    pub fn state_seed() -> (r: [u8; 5])
        ensures
            r@ == state_tag(),
    {
        let r: [u8; 5] = [115u8, 116u8, 97u8, 116u8, 101u8];
        assert(r@ =~= state_tag());
        r
    }

    /// The derivation tag of the fund account.
    pub fn vault_seed() -> (r: [u8; 5])
        ensures
            r@ == vault_tag(),
    {
        let r: [u8; 5] = [118u8, 97u8, 117u8, 108u8, 116u8];
        assert(r@ =~= vault_tag());
        r
    }
}

/// Errors of the vault's own rules.
#[derive(Clone, Copy, Debug, PartialEq, Eq, Structural)]
pub enum VaultError {
    InsufficientDepositAmount,
    InvalidWithdrawAmount,
    ExceedsMaxWithdrawal,
    InsufficientFundsAfterWithdrawal,
}

/// Errors the host raises while checking accounts or moving lamports.
#[derive(Clone, Copy, Debug, PartialEq, Eq, Structural)]
pub enum HostError {
    /// The caller already has a state record.
    AccountAlreadyInUse,
    /// The caller has no state record.
    AccountNotInitialized,
    /// No bump yields a derived address for the caller.
    NoViableBump,
    /// The paying account holds less than the transfer.
    InsufficientFunds,
    /// The receiving account would exceed the largest balance.
    ArithmeticOverflow,
    /// A balance fell below a floor that was required to hold.
    RequireGteViolated,
}

/// Why an operation was refused; a refused operation changes nothing.
#[derive(Clone, Copy, Debug, PartialEq, Eq, Structural)]
pub enum LedgerError {
    Vault(VaultError),
    Host(HostError),
}

/// Emitted when a vault is opened.
#[derive(Clone, Copy, Debug, PartialEq, Eq)]
pub struct VaultInitialized {
    pub user: [u8; 32],
    pub vault: [u8; 32],
    pub vault_state: [u8; 32],
}

/// Emitted when lamports go into a vault.
#[derive(Clone, Copy, Debug, PartialEq, Eq)]
pub struct FundsDeposited {
    pub user: [u8; 32],
    pub vault: [u8; 32],
    pub amount: u64,
}

/// Emitted when lamports leave a vault.
#[derive(Clone, Copy, Debug, PartialEq, Eq)]
pub struct FundsWithdrawn {
    pub user: [u8; 32],
    pub vault: [u8; 32],
    pub amount: u64,
}

/// Emitted when a vault is closed, with the balance it held before.
#[derive(Clone, Copy, Debug, PartialEq, Eq)]
pub struct VaultClosed {
    pub user: [u8; 32],
    pub vault: [u8; 32],
    pub final_balance: u64,
}

} // verus!
