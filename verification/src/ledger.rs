//! The pocket ledger itself: records keyed by sequential identifiers, a
//! creation counter, and the create / deposit / withdraw / read operations.

use vstd::prelude::*;

use crate::types::{
    Error, Identity, PocketData, VaultDepositCall, VaultWithdrawCall, deposit_updated, new_pocket,
    withdraw_updated,
};

verus! {

/// Whether `id` names a stored pocket in a ledger whose records are `s`.
///
/// Identifiers are issued sequentially from 1, and records are never
/// deleted, so exactly the identifiers `1 ..= s.len()` are in use; record
/// `id` sits at index `id - 1`.
pub open spec fn has_pocket(s: Seq<PocketData>, id: int) -> bool {
    1 <= id <= s.len()
}

/// The record stored under `id`; meaningful only when `has_pocket` holds.
pub open spec fn pocket_at(s: Seq<PocketData>, id: int) -> PocketData {
    s[id - 1]
}

/// What a read of `id` yields: the record if the identifier is in use.
pub open spec fn spec_get(s: Seq<PocketData>, id: int) -> Option<PocketData> {
    if has_pocket(s, id) {
        Some(pocket_at(s, id))
    } else {
        None
    }
}

/// Whether a deposit is allowed, and the exact error when it is not.
///
/// The checks run in the order the operation applies them: the host's
/// authorization outcome first, then the amount's sign, then the record's
/// existence, then ownership. `Ok` on exactly the inputs where all four
/// hold.
pub open spec fn deposit_check(
    s: Seq<PocketData>,
    id: int,
    from: Identity,
    amount: i128,
    from_authorized: bool,
) -> Result<(), Error> {
    if !from_authorized {
        Err(Error::AuthorizationError)
    } else if amount <= 0 {
        Err(Error::InvalidAmount)
    } else if !has_pocket(s, id) {
        Err(Error::NotFound)
    } else if pocket_at(s, id).owner != from {
        Err(Error::Unauthorized)
    } else {
        Ok(())
    }
}

/// Whether a withdrawal is allowed, and the exact error when it is not.
///
/// Ordered as the operation applies the checks: authorization, the share
/// quantity's sign, the record's existence, ownership, and last whether
/// the pocket holds at least the requested shares.
pub open spec fn withdraw_check(
    s: Seq<PocketData>,
    id: int,
    to: Identity,
    df_tokens_amount: i128,
    to_authorized: bool,
) -> Result<(), Error> {
    if !to_authorized {
        Err(Error::AuthorizationError)
    } else if df_tokens_amount <= 0 {
        Err(Error::InvalidAmount)
    } else if !has_pocket(s, id) {
        Err(Error::NotFound)
    } else if pocket_at(s, id).owner != to {
        Err(Error::Unauthorized)
    } else if pocket_at(s, id).df_tokens < df_tokens_amount {
        Err(Error::InsufficientBalance)
    } else {
        Ok(())
    }
}

/// The pocket ledger. It owns every pocket record and the counter for the
/// next identifier to issue.
///
/// Its view is the sequence of records in creation order: the pocket with
/// identifier `id` is the record at index `id - 1`.
pub struct PocketContract {
    pockets: Vec<PocketData>,
    next_pocket_id: i128,
}

impl View for PocketContract {
    type V = Seq<PocketData>;

    closed spec fn view(&self) -> Seq<PocketData> {
        self.pockets@
    }
}

impl PocketContract {
    /// The counter stays one ahead of the number of records, so the next
    /// creation stores under a fresh identifier.
    pub closed spec fn wf(self) -> bool {
        self.next_pocket_id == self@.len() + 1
    }

    /// An empty ledger: no pockets, and identifier 1 is issued next.
    pub fn new() -> (r: PocketContract)
        ensures
            r.wf(),
            r@ == Seq::<PocketData>::empty(),
    {
        PocketContract { pockets: Vec::new(), next_pocket_id: 1 }
    }

    /// Create a new pocket for `owner`, saving `asset` towards
    /// `goal_amount`, and return its identifier.
    ///
    /// The host checks the caller's signature before the ledger runs;
    /// `owner_authorized` is that check's outcome, and without it nothing
    /// is stored. `goal_amount` is accepted unvalidated, zero or negative
    /// included. Identifiers are issued sequentially: the new pocket gets
    /// the counter's value, one more than the number of existing records.
    pub fn create_pocket(
        &mut self,
        owner: Identity,
        asset: Identity,
        goal_amount: i128,
        owner_authorized: bool,
    ) -> (r: Result<i128, Error>)
        requires
            old(self).wf(),
        ensures
            final(self).wf(),
            !owner_authorized ==> r == Err::<i128, Error>(Error::AuthorizationError)
                && final(self)@ == old(self)@,
            owner_authorized ==> r == Ok::<i128, Error>((old(self)@.len() + 1) as i128)
                && final(self)@ == old(self)@.push(new_pocket(owner, asset, goal_amount)),
    {
        if !owner_authorized {
            return Err(Error::AuthorizationError);
        }
        let id = self.next_pocket_id;
        // The counter is one past the record count, which `len` bounds by
        // usize::MAX, so the increment stays far below the i128 limit.
        let record_count = self.pockets.len();
        assert(id == record_count + 1);
        self.pockets.push(new_pocket_record(owner, asset, goal_amount));
        self.next_pocket_id = id + 1;
        Ok(id)
    }

    /// A ledger holding exactly `pockets`, in creation order: record `k`
    /// is the pocket with identifier `k + 1`, and the counter continues
    /// from there. A persistence shell that lays the records out in the
    /// host's storage rebuilds the ledger with this when an invocation
    /// starts.
    pub fn from_records(pockets: Vec<PocketData>) -> (r: PocketContract)
        ensures
            r.wf(),
            r@ == pockets@,
    {
        let n = pockets.len();
        let next_pocket_id: i128 = n as i128 + 1;
        PocketContract { pockets, next_pocket_id }
    }

    /// Decide whether a deposit may proceed, and if so what to ask the
    /// vault: deposit the single-element amount vector `[amount]` with
    /// minimum amounts out `[0]` (no slippage protection), crediting the
    /// shares to `from`, investing immediately. Fails with the same error,
    /// and on exactly the same inputs, as [`Self::deposit`]; the ledger is
    /// not changed either way. Once the vault call is made, its reply is
    /// applied with [`Self::deposit`].
    pub fn check_deposit(
        &self,
        pocket_id: i128,
        from: Identity,
        amount: i128,
        from_authorized: bool,
    ) -> (r: Result<VaultDepositCall, Error>)
        ensures
            match deposit_check(self@, pocket_id as int, from, amount, from_authorized) {
                Ok(()) => r matches Ok(c) && c.amounts@ == seq![amount]
                    && c.min_amounts_out@ == seq![0i128] && c.depositor == from && c.invest,
                Err(e) => r == Err::<VaultDepositCall, Error>(e),
            },
    {
        if !from_authorized {
            return Err(Error::AuthorizationError);
        }
        if amount <= 0 {
            return Err(Error::InvalidAmount);
        }
        if pocket_id < 1 || pocket_id > self.pockets.len() as i128 {
            return Err(Error::NotFound);
        }
        let idx: usize = (pocket_id - 1) as usize;
        if self.pockets[idx].owner != from {
            return Err(Error::Unauthorized);
        }
        let mut amounts: Vec<i128> = Vec::new();
        amounts.push(amount);
        let mut min_amounts_out: Vec<i128> = Vec::new();
        min_amounts_out.push(0);
        Ok(VaultDepositCall { amounts, min_amounts_out, depositor: from, invest: true })
    }

    /// Apply a deposit: add `amount` to the pocket's running total, add
    /// the `shares_minted` the vault reported to its share balance, stamp
    /// `first_deposit` if it was never set, and stamp `last_deposit`; all
    /// at ledger time `now`. Succeeds exactly when the host authorized
    /// `from`, `amount` is positive, the pocket exists and `from` owns it
    /// — the checks of [`Self::check_deposit`], re-applied here — and on
    /// any failure the ledger is unchanged. Every other record is left as
    /// it was.
    pub fn deposit(
        &mut self,
        pocket_id: i128,
        from: Identity,
        amount: i128,
        shares_minted: i128,
        now: u64,
        from_authorized: bool,
    ) -> (r: Result<(), Error>)
        requires
            old(self).wf(),
            deposit_check(old(self)@, pocket_id as int, from, amount, from_authorized) is Ok
                ==> ({
                let p = pocket_at(old(self)@, pocket_id as int);
                &&& p.current_amount + amount <= i128::MAX
                &&& i128::MIN <= p.df_tokens + shares_minted <= i128::MAX
            }),
        ensures
            final(self).wf(),
            match deposit_check(old(self)@, pocket_id as int, from, amount, from_authorized) {
                Ok(()) => r == Ok::<(), Error>(()) && final(self)@ == old(self)@.update(
                    pocket_id - 1,
                    deposit_updated(
                        pocket_at(old(self)@, pocket_id as int),
                        amount,
                        shares_minted,
                        now,
                    ),
                ),
                Err(e) => r == Err::<(), Error>(e) && final(self)@ == old(self)@,
            },
    {
        if !from_authorized {
            return Err(Error::AuthorizationError);
        }
        if amount <= 0 {
            return Err(Error::InvalidAmount);
        }
        if pocket_id < 1 || pocket_id > self.pockets.len() as i128 {
            return Err(Error::NotFound);
        }
        let idx: usize = (pocket_id - 1) as usize;
        let p = self.pockets[idx];
        if p.owner != from {
            return Err(Error::Unauthorized);
        }
        let first_deposit = if p.first_deposit.is_none() {
            Some(now)
        } else {
            p.first_deposit
        };
        self.pockets[idx] = PocketData {
            current_amount: p.current_amount + amount,
            df_tokens: p.df_tokens + shares_minted,
            first_deposit,
            last_deposit: Some(now),
            ..p
        };
        Ok(())
    }

    /// Decide whether a withdrawal may proceed, and if so what to ask the
    /// vault: redeem `df_tokens_amount` shares with minimum amounts out
    /// `[0]` (no slippage protection), paying the underlying asset out to
    /// `to`. Fails with the same error, and on exactly the same inputs, as
    /// [`Self::withdraw`]; the ledger is not changed either way. Once the
    /// vault call is made, its reply is applied with [`Self::withdraw`].
    pub fn check_withdraw(
        &self,
        pocket_id: i128,
        to: Identity,
        df_tokens_amount: i128,
        to_authorized: bool,
    ) -> (r: Result<VaultWithdrawCall, Error>)
        ensures
            match withdraw_check(self@, pocket_id as int, to, df_tokens_amount, to_authorized) {
                Ok(()) => r matches Ok(c) && c.df_tokens_amount == df_tokens_amount
                    && c.min_amounts_out@ == seq![0i128] && c.recipient == to,
                Err(e) => r == Err::<VaultWithdrawCall, Error>(e),
            },
    {
        if !to_authorized {
            return Err(Error::AuthorizationError);
        }
        if df_tokens_amount <= 0 {
            return Err(Error::InvalidAmount);
        }
        if pocket_id < 1 || pocket_id > self.pockets.len() as i128 {
            return Err(Error::NotFound);
        }
        let idx: usize = (pocket_id - 1) as usize;
        let p = self.pockets[idx];
        if p.owner != to {
            return Err(Error::Unauthorized);
        }
        if p.df_tokens < df_tokens_amount {
            return Err(Error::InsufficientBalance);
        }
        let mut min_amounts_out: Vec<i128> = Vec::new();
        min_amounts_out.push(0);
        Ok(VaultWithdrawCall { df_tokens_amount, min_amounts_out, recipient: to })
    }

    /// Apply a withdrawal after the vault redeemed `df_tokens_amount`
    /// shares and paid out `amounts_withdrawn` of the underlying asset:
    /// subtract the first paid-out amount from the pocket's running total
    /// — as it came, with no floor at zero — and the redeemed shares from
    /// its share balance. Deposit timestamps are untouched. Succeeds
    /// exactly when the host authorized `to`, `df_tokens_amount` is
    /// positive, the pocket exists, `to` owns it, and it holds at least
    /// `df_tokens_amount` shares — the checks of [`Self::check_withdraw`],
    /// re-applied here — and on any failure the ledger is unchanged. Every
    /// other record is left as it was.
    pub fn withdraw(
        &mut self,
        pocket_id: i128,
        to: Identity,
        df_tokens_amount: i128,
        amounts_withdrawn: &Vec<i128>,
        to_authorized: bool,
    ) -> (r: Result<(), Error>)
        requires
            old(self).wf(),
            withdraw_check(old(self)@, pocket_id as int, to, df_tokens_amount, to_authorized)
                is Ok ==> ({
                let p = pocket_at(old(self)@, pocket_id as int);
                &&& amounts_withdrawn@.len() >= 1
                &&& i128::MIN <= p.current_amount - amounts_withdrawn@[0] <= i128::MAX
            }),
        ensures
            final(self).wf(),
            match withdraw_check(old(self)@, pocket_id as int, to, df_tokens_amount, to_authorized) {
                Ok(()) => r == Ok::<(), Error>(()) && final(self)@ == old(self)@.update(
                    pocket_id - 1,
                    withdraw_updated(
                        pocket_at(old(self)@, pocket_id as int),
                        df_tokens_amount,
                        amounts_withdrawn@[0],
                    ),
                ),
                Err(e) => r == Err::<(), Error>(e) && final(self)@ == old(self)@,
            },
    {
        if !to_authorized {
            return Err(Error::AuthorizationError);
        }
        if df_tokens_amount <= 0 {
            return Err(Error::InvalidAmount);
        }
        if pocket_id < 1 || pocket_id > self.pockets.len() as i128 {
            return Err(Error::NotFound);
        }
        let idx: usize = (pocket_id - 1) as usize;
        let p = self.pockets[idx];
        if p.owner != to {
            return Err(Error::Unauthorized);
        }
        if p.df_tokens < df_tokens_amount {
            return Err(Error::InsufficientBalance);
        }
        let amount_withdrawn = amounts_withdrawn[0];
        self.pockets[idx] = PocketData {
            current_amount: p.current_amount - amount_withdrawn,
            df_tokens: p.df_tokens - df_tokens_amount,
            ..p
        };
        Ok(())
    }

    /// Read the record stored under `pocket_id`; fails with `NotFound` on
    /// an identifier no creation has issued. No side effects.
    pub fn get_pocket(&self, pocket_id: i128) -> (r: Result<PocketData, Error>)
        ensures
            match spec_get(self@, pocket_id as int) {
                Some(p) => r == Ok::<PocketData, Error>(p),
                None => r == Err::<PocketData, Error>(Error::NotFound),
            },
    {
        if 1 <= pocket_id && pocket_id <= self.pockets.len() as i128 {
            let idx: usize = (pocket_id - 1) as usize;
            Ok(self.pockets[idx])
        } else {
            Err(Error::NotFound)
        }
    }
}

/// Builds the same record `new_pocket` describes.
fn new_pocket_record(owner: Identity, asset: Identity, goal_amount: i128) -> (r: PocketData)
    ensures
        r == new_pocket(owner, asset, goal_amount),
{
    PocketData {
        owner,
        asset,
        goal_amount,
        current_amount: 0,
        df_tokens: 0,
        first_deposit: None,
        last_deposit: None,
    }
}

} // verus!
