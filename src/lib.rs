//! A per-user custodial vault over a ledger of lamport balances: open a
//! vault, deposit into it, withdraw from it above its rent-exempt floor, and
//! close it to reclaim everything.

pub mod host;
pub mod laws;
pub mod ledger;
pub mod state;
pub mod vault;

pub use host::same_address;
pub use state::{
    FundsDeposited, FundsWithdrawn, HostError, LedgerError, VaultClosed, VaultError,
    VaultInitialized, VaultState, MAX_WITHDRAWAL_AMOUNT, MIN_DEPOSIT_AMOUNT,
};
pub use ledger::{Ledger, VaultRecord};
pub use vault::{close, deposit, initialize, withdraw, Close, Initialize, Payment};
