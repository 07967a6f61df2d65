//! Laws of the backfill: one owner at a time, growing tokens, and an end that is final.

use super::claimed_row;
use super::claiming_backfill;
use super::finishing_backfill;
use super::holds_lease;
use super::is_leased;
use super::is_slot_free;
use super::renewing_backfill;
use super::BackfillClaimOutcomeView;
use super::BackfillError;
use super::BackfillLeaseUpdate;
use super::BackfillLeaseView;
use super::BackfillOperation;
use super::BackfillRowView;
use super::BackfillStatus;
use vstd::prelude::*;

verus! {

/// While a lease has not expired nobody else can claim the backfill.
pub proof fn law_leased_backfill_is_busy(row: BackfillRowView, owner_id: Seq<char>, duration_millis: u128, now_ms: i64)
    requires
        is_leased(row, now_ms),
        owner_id.len() > 0,
        duration_millis <= i64::MAX,
    ensures
        claiming_backfill(row, false, owner_id, duration_millis, now_ms) == (
            row,
            Ok::<BackfillClaimOutcomeView, BackfillError>(BackfillClaimOutcomeView::Busy(row.state)),
        ),
{
}

/// A claim hands out a lease that holds until it expires, with a token greater than any before.
pub proof fn law_claimed_lease_holds(
    row: BackfillRowView,
    owner_id: Seq<char>,
    duration_millis: u128,
    now_ms: i64,
    when: i64,
    lease: BackfillLeaseView,
)
    requires
        claiming_backfill(row, false, owner_id, duration_millis, now_ms).1 == Ok::<BackfillClaimOutcomeView, BackfillError>(
            BackfillClaimOutcomeView::Claimed { lease, state: claimed_row(row, owner_id, duration_millis as i64, now_ms).state },
        ),
    ensures
        ({
            let after = claiming_backfill(row, false, owner_id, duration_millis, now_ms).0;
            &&& lease.fencing_token > row.fencing_token
            &&& holds_lease(after, lease, when) <==> when < now_ms + duration_millis
        }),
{
}

/// Whoever lost the lease, or never had it, changes nothing.
pub proof fn law_lost_lease_changes_nothing(
    row: BackfillRowView,
    lease: BackfillLeaseView,
    operation: BackfillOperation,
    status: BackfillStatus,
    duration_millis: u128,
    watermark: Option<Seq<char>>,
    now_ms: i64,
)
    requires
        !holds_lease(row, lease, now_ms),
        duration_millis <= i64::MAX,
    ensures
        renewing_backfill(row, false, operation, lease, duration_millis, watermark, now_ms) == (
            row,
            Ok::<BackfillLeaseUpdate, BackfillError>(BackfillLeaseUpdate::Rejected),
        ),
        finishing_backfill(row, false, operation, lease, status, watermark, now_ms) == (
            row,
            Ok::<BackfillLeaseUpdate, BackfillError>(BackfillLeaseUpdate::Rejected),
        ),
{
}

/// The token never shrinks, so that a lease from before a claim is lost for good.
pub proof fn law_token_never_shrinks(
    row: BackfillRowView,
    closed: bool,
    owner_id: Seq<char>,
    lease: BackfillLeaseView,
    operation: BackfillOperation,
    status: BackfillStatus,
    duration_millis: u128,
    watermark: Option<Seq<char>>,
    now_ms: i64,
)
    ensures
        claiming_backfill(row, closed, owner_id, duration_millis, now_ms).0.fencing_token >= row.fencing_token,
        renewing_backfill(row, closed, operation, lease, duration_millis, watermark, now_ms).0.fencing_token == row.fencing_token,
        finishing_backfill(row, closed, operation, lease, status, watermark, now_ms).0.fencing_token == row.fencing_token,
{
}

/// Giving a lease back ends it: the same lease is rejected from then on, and the backfill can be
/// claimed again unless it is complete.
pub proof fn law_finished_lease_is_over(
    row: BackfillRowView,
    lease: BackfillLeaseView,
    operation: BackfillOperation,
    watermark: Option<Seq<char>>,
    now_ms: i64,
    when: i64,
    status: BackfillStatus,
)
    requires
        holds_lease(row, lease, now_ms),
        status != BackfillStatus::Running,
    ensures
        ({
            let after = finishing_backfill(row, false, operation, lease, status, watermark, now_ms).0;
            &&& !holds_lease(after, lease, when)
            &&& !is_leased(after, when)
            &&& after.state.status == status
        }),
{
}

/// A complete backfill stays as it is: nobody can claim it, renew it or finish it.
pub proof fn law_complete_is_final(
    row: BackfillRowView,
    owner_id: Seq<char>,
    lease: BackfillLeaseView,
    operation: BackfillOperation,
    status: BackfillStatus,
    duration_millis: u128,
    lease_seconds: i64,
    watermark: Option<Seq<char>>,
    now_ms: i64,
)
    requires
        row.state.status == BackfillStatus::Complete,
    ensures
        claiming_backfill(row, false, owner_id, duration_millis, now_ms).0 == row,
        renewing_backfill(row, false, operation, lease, duration_millis, watermark, now_ms).0 == row,
        finishing_backfill(row, false, operation, lease, status, watermark, now_ms).0 == row,
        !is_slot_free(row, lease_seconds, now_ms),
{
}

} // verus!
