//! Laws the ledger obeys across several operations, stated over the same
//! spec functions the operation contracts use and proved once for all
//! inputs.

use vstd::prelude::*;

use crate::ledger::{deposit_check, has_pocket, pocket_at, spec_get, withdraw_check};
use crate::types::{Identity, PocketData, deposit_updated, new_pocket, withdraw_updated};

verus! {

/// The records after a run of authorized creations, in call order,
/// starting from the records `s`: each call appends its fresh record, as
/// `PocketContract::create_pocket` ensures.
pub open spec fn records_after_creates(
    s: Seq<PocketData>,
    reqs: Seq<(Identity, Identity, i128)>,
) -> Seq<PocketData>
    decreases reqs.len(),
{
    if reqs.len() == 0 {
        s
    } else {
        records_after_creates(s, reqs.drop_last()).push(
            new_pocket(reqs.last().0, reqs.last().1, reqs.last().2),
        )
    }
}

/// A run of creations grows the records by one per call.
pub proof fn lemma_records_after_creates_len(
    s: Seq<PocketData>,
    reqs: Seq<(Identity, Identity, i128)>,
)
    ensures
        records_after_creates(s, reqs).len() == s.len() + reqs.len(),
    decreases reqs.len(),
{
    if reqs.len() > 0 {
        lemma_records_after_creates_len(s, reqs.drop_last());
    }
}

/// Identifiers are issued sequentially: over any run of authorized
/// creations from an empty ledger, the call at position `k` (counted from
/// 0) returns the identifier `k + 1` — so the calls return `1, 2, 3, …` in
/// call order — whatever owners, assets and goal amounts the run carries.
///
/// `PocketContract::create_pocket` ensures each call returns one more than
/// the number of records it starts from, which `records_after_creates`
/// counts here.
pub proof fn lemma_create_ids_sequential(reqs: Seq<(Identity, Identity, i128)>, k: int)
    requires
        0 <= k < reqs.len(),
    ensures
        records_after_creates(Seq::<PocketData>::empty(), reqs.take(k)).len() + 1 == k + 1,
{
    lemma_records_after_creates_len(Seq::<PocketData>::empty(), reqs.take(k));
}

/// Round trip: creating a pocket and at once depositing into it — the
/// vault minting `shares_minted` shares at ledger time `now` — then
/// reading it yields a record whose running total is exactly the deposited
/// amount, whose share balance is exactly what the vault minted, and whose
/// two deposit timestamps are both that same time.
///
/// The states walked through are the ones `PocketContract::create_pocket`,
/// `PocketContract::deposit` and `PocketContract::get_pocket` ensure: the
/// fresh record is appended, the deposit updates it in place under the
/// identifier the creation returned, and the read finds it there.
pub proof fn lemma_create_deposit_round_trip(
    s: Seq<PocketData>,
    owner: Identity,
    asset: Identity,
    goal_amount: i128,
    amount: i128,
    shares_minted: i128,
    now: u64,
)
    requires
        amount > 0,
    ensures
        ({
            let created = s.push(new_pocket(owner, asset, goal_amount));
            let id: int = s.len() as int + 1;
            let deposited = created.update(
                id - 1,
                deposit_updated(pocket_at(created, id), amount, shares_minted, now),
            );
            &&& deposit_check(created, id, owner, amount, true) is Ok
            &&& spec_get(deposited, id) == Some(
                PocketData {
                    owner,
                    asset,
                    goal_amount,
                    current_amount: amount,
                    df_tokens: shares_minted,
                    first_deposit: Some(now),
                    last_deposit: Some(now),
                },
            )
        }),
{
}

/// Pockets do not interfere: applying a deposit or withdrawal to one
/// pocket — both update exactly the record stored under their identifier —
/// leaves what is read under every other identifier unchanged.
pub proof fn lemma_update_preserves_other_pockets(
    s: Seq<PocketData>,
    id: int,
    p: PocketData,
    other: int,
)
    requires
        has_pocket(s, id),
        other != id,
    ensures
        spec_get(s.update(id - 1, p), other) == spec_get(s, other),
{
}

/// A deposit never drives the share balance negative as long as the vault
/// reported a non-negative minted amount: the balance only grows.
pub proof fn lemma_deposit_keeps_df_tokens_nonnegative(
    p: PocketData,
    amount: i128,
    shares_minted: i128,
    now: u64,
)
    requires
        0 <= p.df_tokens,
        0 <= shares_minted,
        p.df_tokens + shares_minted <= i128::MAX,
    ensures
        deposit_updated(p, amount, shares_minted, now).df_tokens >= 0,
{
}

/// A permitted withdrawal never drives the share balance negative: it is
/// allowed only up to the shares the pocket holds. The running amount has
/// no such floor — the vault's payout is subtracted as it came.
pub proof fn lemma_withdraw_keeps_df_tokens_nonnegative(
    s: Seq<PocketData>,
    id: int,
    to: Identity,
    df_tokens_amount: i128,
    amount_withdrawn: i128,
)
    requires
        withdraw_check(s, id, to, df_tokens_amount, true) is Ok,
    ensures
        withdraw_updated(pocket_at(s, id), df_tokens_amount, amount_withdrawn).df_tokens >= 0,
{
}

/// Creating a new pocket leaves what is read under every already-issued
/// identifier unchanged: existing pockets are independently trackable
/// however many pockets are created after them.
pub proof fn lemma_create_preserves_existing_pockets(
    s: Seq<PocketData>,
    p: PocketData,
    other: int,
)
    requires
        has_pocket(s, other),
    ensures
        spec_get(s.push(p), other) == spec_get(s, other),
{
}

} // verus!
