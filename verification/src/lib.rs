//! A savings-pocket ledger on top of a yield-bearing vault.
//!
//! A pocket is a savings position owned by one account: it tracks a goal
//! amount, the running total of the underlying asset deposited minus
//! withdrawn, and the vault shares (`df_tokens`) held on the owner's behalf.
//! The ledger assigns pocket identifiers sequentially starting at 1 and
//! never deletes a record.
//!
//! Moving value is delegated to an external vault contract: the ledger
//! decides whether an operation is allowed and what to ask the vault
//! ([`ledger::PocketContract::check_deposit`],
//! [`ledger::PocketContract::check_withdraw`]), the surrounding runtime
//! performs the cross-contract call, and the ledger applies the vault's
//! reply to its bookkeeping ([`ledger::PocketContract::deposit`],
//! [`ledger::PocketContract::withdraw`]).

pub mod laws;
pub mod ledger;
pub mod types;

pub use ledger::PocketContract;
pub use types::{DataKey, Error, Identity, PocketData, VaultDepositCall, VaultWithdrawCall};
