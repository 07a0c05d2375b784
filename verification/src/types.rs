//! The ledger's data model: identities, pocket records, storage keys, and
//! the error taxonomy, together with the spec-level record transitions that
//! the operation contracts are stated over.

use vstd::prelude::*;

verus! {

/// An account or contract identity on the host ledger.
///
/// The host represents identities as opaque addresses; the ledger's logic
/// only ever compares them for equality, so it models an identity as a
/// plain number. The runtime shell around the library assigns each host
/// address a distinct number.
#[derive(Clone, Copy, Debug, PartialEq, Eq, Structural)]
pub struct Identity(pub u64);

/// One savings pocket.
///
/// `owner` and `asset` never change after creation. `goal_amount` is pure
/// metadata: it is stored and reported but never enforced. `current_amount`
/// is the running total of underlying asset deposited minus withdrawn;
/// `df_tokens` is the running total of vault shares held for the owner.
/// `first_deposit` is stamped exactly once, on the first successful
/// deposit; `last_deposit` is stamped on every successful deposit and left
/// alone by withdrawals.
#[derive(Clone, Copy, Debug, PartialEq, Eq)]
pub struct PocketData {
    pub owner: Identity,
    pub asset: Identity,
    pub goal_amount: i128,
    pub current_amount: i128,
    pub df_tokens: i128,
    pub first_deposit: Option<u64>,
    pub last_deposit: Option<u64>,
}

/// A key of the ledger's persisted storage layout: one entry per pocket,
/// keyed by its identifier, plus the counter holding the next identifier to
/// issue. The library keeps the records in memory; a persistence shell uses
/// these keys when it lays the same state out in the host's storage.
#[derive(Clone, Copy, Debug, PartialEq, Eq, Structural)]
pub enum DataKey {
    Pocket(i128),
    NextPocketId,
}

/// Why an operation was refused. Every failure leaves the ledger unchanged.
#[derive(Clone, Copy, Debug, PartialEq, Eq, Structural)]
pub enum Error {
    /// The required signer did not authorize the call.
    AuthorizationError,
    /// A supplied amount or share quantity was not positive.
    InvalidAmount,
    /// The referenced pocket identifier has no record.
    NotFound,
    /// The caller is not the pocket's owner.
    Unauthorized,
    /// A withdrawal asked for more shares than the pocket holds.
    InsufficientBalance,
}

/// The vault call a permitted deposit asks for: deposit `amounts` of the
/// (single) underlying asset, insisting on at least `min_amounts_out` in
/// return, crediting the minted shares to `depositor`, and if `invest` is
/// set putting the funds to work in the vault's strategy at once rather
/// than holding them idle.
#[derive(Clone, Debug)]
pub struct VaultDepositCall {
    pub amounts: Vec<i128>,
    pub min_amounts_out: Vec<i128>,
    pub depositor: Identity,
    pub invest: bool,
}

/// The vault call a permitted withdrawal asks for: redeem
/// `df_tokens_amount` shares, insisting on at least `min_amounts_out` of
/// the underlying asset, paid out to `recipient`.
#[derive(Clone, Debug)]
pub struct VaultWithdrawCall {
    pub df_tokens_amount: i128,
    pub min_amounts_out: Vec<i128>,
    pub recipient: Identity,
}

/// The record a freshly created pocket holds: both running totals start at
/// zero and neither deposit timestamp is set.
pub open spec fn new_pocket(owner: Identity, asset: Identity, goal_amount: i128) -> PocketData {
    PocketData {
        owner,
        asset,
        goal_amount,
        current_amount: 0,
        df_tokens: 0,
        first_deposit: None,
        last_deposit: None,
    }
}

/// How a successful deposit of `amount` changes a record when the vault
/// minted `shares_minted` shares at ledger time `now`.
pub open spec fn deposit_updated(
    p: PocketData,
    amount: i128,
    shares_minted: i128,
    now: u64,
) -> PocketData {
    PocketData {
        current_amount: (p.current_amount + amount) as i128,
        df_tokens: (p.df_tokens + shares_minted) as i128,
        first_deposit: if p.first_deposit is None {
            Some(now)
        } else {
            p.first_deposit
        },
        last_deposit: Some(now),
        ..p
    }
}

/// How a successful withdrawal of `df_tokens_amount` shares changes a
/// record when the vault paid out `amount_withdrawn` of the underlying
/// asset. The payout is subtracted as it came: if yield accrual makes it
/// exceed `current_amount`, the total goes negative rather than being
/// floored.
pub open spec fn withdraw_updated(
    p: PocketData,
    df_tokens_amount: i128,
    amount_withdrawn: i128,
) -> PocketData {
    PocketData {
        current_amount: (p.current_amount - amount_withdrawn) as i128,
        df_tokens: (p.df_tokens - df_tokens_amount) as i128,
        ..p
    }
}

} // verus!
