//! Laws of the backfill, told in the fields of its row before and after.

use super::BackfillClaimOutcome;
use super::BackfillCoordinator;
use super::BackfillError;
use super::BackfillLease;
use super::BackfillLeaseUpdate;
use super::BackfillLeaseView;
use super::BackfillOperation;
use super::BackfillRow;
use super::BackfillRowView;
use super::BackfillState;
use super::BackfillStatus;
use vstd::prelude::*;

verus! {

/// At `now_ms` the backfill runs under the lease.
pub open spec fn runs_under(row: BackfillRowView, lease: BackfillLeaseView, now_ms: i64) -> bool {
    &&& row.state.status == BackfillStatus::Running
    &&& row.owner_id == Some(lease.owner_id)
    &&& row.fencing_token == lease.fencing_token
    &&& row.lease_expires_at_ms is Some
    &&& row.lease_expires_at_ms->0 > now_ms
}

/// A claim needs a name and a length that can be counted. A complete backfill is never claimed again, and
/// one that runs under a lease is busy. Any other is claimed: it runs for the claimant, under the next token,
/// until the lease ends, and its progress is kept.
pub proof fn law_claim_of_the_backfill(
    coordinator: &mut BackfillCoordinator,
    owner_id: &str,
    duration_millis: u128,
    now_ms: i64,
    result: Result<BackfillClaimOutcome, BackfillError>,
)
    requires
        call_ensures(BackfillCoordinator::try_claim_at, (coordinator, owner_id, duration_millis, now_ms), result),
    ensures
        ({
            let before = old(coordinator)@.row;
            let after = final(coordinator)@.row;
            let leased = before.state.status == BackfillStatus::Running && before.lease_expires_at_ms is Some && before.lease_expires_at_ms->0 > now_ms;
            let asked = owner_id@.len() > 0 && duration_millis <= i64::MAX && !old(coordinator)@.closed;
            &&& owner_id@.len() == 0 ==> result == Err::<BackfillClaimOutcome, BackfillError>(BackfillError::EmptyOwner)
            &&& owner_id@.len() > 0 && duration_millis > i64::MAX ==> result == Err::<BackfillClaimOutcome, BackfillError>(BackfillError::LeaseTooLong)
            &&& old(coordinator)@.closed ==> result is Err
            &&& asked && before.state.status == BackfillStatus::Complete ==> result is Ok && result->Ok_0 is Complete && result->Ok_0->Complete_0@ == before.state
            &&& asked && before.state.status != BackfillStatus::Complete && leased ==> result is Ok && result->Ok_0 is Busy && result->Ok_0->Busy_0@ == before.state
            &&& asked && before.state.status != BackfillStatus::Complete && !leased && before.fencing_token < i64::MAX && now_ms + duration_millis <= i64::MAX ==> result is Ok
                && result->Ok_0 is Claimed
            &&& !(result is Ok && result->Ok_0 is Claimed) ==> after == before
            &&& result is Ok && result->Ok_0 is Claimed ==> {
                &&& asked
                &&& before.state.status != BackfillStatus::Complete
                &&& !leased
                &&& result->Ok_0->Claimed_lease@.owner_id == owner_id@
                &&& result->Ok_0->Claimed_lease@.fencing_token == before.fencing_token + 1
                &&& result->Ok_0->Claimed_state@ == after.state
                &&& after.state.status == BackfillStatus::Running
                &&& after.state.last_watermark == before.state.last_watermark
                &&& after.state.last_success_at == before.state.last_success_at
                &&& after.owner_id == Some(owner_id@)
                &&& after.fencing_token == before.fencing_token + 1
                &&& after.lease_expires_at_ms is Some
                &&& after.lease_expires_at_ms->0 == now_ms + duration_millis
                &&& after.updated_at == now_ms as int / 1000
            }
        }),
{
}

/// At the time of the clock the backfill is claimed as at a given time.
pub proof fn law_claim_of_the_backfill_now(
    coordinator: &mut BackfillCoordinator,
    owner_id: &str,
    duration_millis: u128,
    result: Result<BackfillClaimOutcome, BackfillError>,
)
    requires
        call_ensures(BackfillCoordinator::try_claim, (coordinator, owner_id, duration_millis), result),
    ensures
        !(result is Ok && result->Ok_0 is Claimed) ==> final(coordinator)@.row == old(coordinator)@.row,
        result is Ok && result->Ok_0 is Claimed ==> {
            let before = old(coordinator)@.row;
            let after = final(coordinator)@.row;
            &&& before.state.status != BackfillStatus::Complete
            &&& after.state.status == BackfillStatus::Running
            &&& after.owner_id == Some(owner_id@)
            &&& after.fencing_token == before.fencing_token + 1
            &&& result->Ok_0->Claimed_lease@.owner_id == owner_id@
            &&& result->Ok_0->Claimed_lease@.fencing_token == after.fencing_token
        },
{
}

/// Only the holder of the lease renews it. It then ends the given time from now; progress is recorded where
/// there is some, and kept where there is none.
pub proof fn law_renewal_of_the_lease(
    coordinator: &mut BackfillCoordinator,
    operation: BackfillOperation,
    lease: &BackfillLease,
    duration_millis: u128,
    watermark: Option<&str>,
    now_ms: i64,
    result: Result<BackfillLeaseUpdate, BackfillError>,
)
    requires
        call_ensures(BackfillCoordinator::update_lease_at, (coordinator, operation, lease, duration_millis, watermark, now_ms), result),
        !old(coordinator)@.closed,
        0 <= duration_millis,
        now_ms + duration_millis <= i64::MAX,
        duration_millis <= i64::MAX,
    ensures
        ({
            let before = old(coordinator)@.row;
            let after = final(coordinator)@.row;
            let held = runs_under(before, lease@, now_ms);
            &&& held ==> result == Ok::<BackfillLeaseUpdate, BackfillError>(BackfillLeaseUpdate::Applied)
            &&& !held ==> result == Ok::<BackfillLeaseUpdate, BackfillError>(BackfillLeaseUpdate::Rejected) && after == before
            &&& held ==> {
                &&& after.lease_expires_at_ms is Some
                &&& after.lease_expires_at_ms->0 == now_ms + duration_millis
                &&& after.state.status == BackfillStatus::Running
                &&& after.owner_id == before.owner_id
                &&& after.fencing_token == before.fencing_token
                &&& watermark is Some ==> after.state.last_watermark == Some(watermark->0@)
                &&& watermark is None ==> after.state.last_watermark == before.state.last_watermark
                &&& after.state.last_success_at == before.state.last_success_at
                &&& after.updated_at == now_ms as int / 1000
            }
        }),
{
}

/// A heartbeat keeps the progress, a checkpoint records it; both leave the backfill as it was to whoever does
/// not hold the lease.
pub proof fn law_heartbeat_and_checkpoint(
    coordinator: &mut BackfillCoordinator,
    lease: &BackfillLease,
    watermark: Option<&str>,
    duration_millis: u128,
    result: Result<BackfillLeaseUpdate, BackfillError>,
)
    requires
        watermark is None ==> call_ensures(BackfillCoordinator::heartbeat, (coordinator, lease, duration_millis), result),
        watermark is Some ==> call_ensures(BackfillCoordinator::checkpoint, (coordinator, lease, watermark->0, duration_millis), result),
    ensures
        result != Ok::<BackfillLeaseUpdate, BackfillError>(BackfillLeaseUpdate::Applied) ==> final(coordinator)@.row == old(coordinator)@.row,
        result == Ok::<BackfillLeaseUpdate, BackfillError>(BackfillLeaseUpdate::Applied) ==> {
            let before = old(coordinator)@.row;
            let after = final(coordinator)@.row;
            &&& before.state.status == BackfillStatus::Running
            &&& before.owner_id == Some(lease@.owner_id)
            &&& before.fencing_token == lease@.fencing_token
            &&& after.state.status == BackfillStatus::Running
            &&& after.owner_id == before.owner_id
            &&& after.fencing_token == before.fencing_token
            &&& watermark is Some ==> after.state.last_watermark == Some(watermark->0@)
            &&& watermark is None ==> after.state.last_watermark == before.state.last_watermark
        },
{
}

/// Only the holder of the lease gives it back, with the status it says. Nobody owns the backfill then. A
/// success is dated where it is complete, and only there; tokens are not given out again.
pub proof fn law_lease_is_given_back(
    coordinator: &mut BackfillCoordinator,
    operation: BackfillOperation,
    lease: &BackfillLease,
    status: BackfillStatus,
    watermark: Option<&str>,
    now_ms: i64,
    result: Result<BackfillLeaseUpdate, BackfillError>,
)
    requires
        call_ensures(BackfillCoordinator::finish_at, (coordinator, operation, lease, status, watermark, now_ms), result),
    ensures
        ({
            let before = old(coordinator)@.row;
            let after = final(coordinator)@.row;
            let held = runs_under(before, lease@, now_ms);
            &&& old(coordinator)@.closed ==> result == Err::<BackfillLeaseUpdate, BackfillError>(BackfillError::Persistence(operation)) && after == before
            &&& !old(coordinator)@.closed && held ==> result == Ok::<BackfillLeaseUpdate, BackfillError>(BackfillLeaseUpdate::Applied)
            &&& !old(coordinator)@.closed && !held ==> result == Ok::<BackfillLeaseUpdate, BackfillError>(BackfillLeaseUpdate::Rejected) && after == before
            &&& !old(coordinator)@.closed && held ==> {
                &&& after.state.status == status
                &&& after.owner_id is None
                &&& after.lease_expires_at_ms is None
                &&& after.fencing_token == before.fencing_token
                &&& watermark is Some ==> after.state.last_watermark == Some(watermark->0@)
                &&& watermark is None ==> after.state.last_watermark == before.state.last_watermark
                &&& status == BackfillStatus::Complete ==> after.state.last_success_at is Some && after.state.last_success_at->0 == now_ms as int / 1000
                &&& status != BackfillStatus::Complete ==> after.state.last_success_at == before.state.last_success_at
                &&& after.updated_at == now_ms as int / 1000
            }
        }),
{
}

/// A release leaves the backfill pending with its progress, a completion leaves it complete and dated.
pub proof fn law_release_and_completion(
    coordinator: &mut BackfillCoordinator,
    lease: &BackfillLease,
    complete: bool,
    watermark: Option<&str>,
    result: Result<BackfillLeaseUpdate, BackfillError>,
)
    requires
        complete ==> call_ensures(BackfillCoordinator::complete, (coordinator, lease, watermark), result),
        !complete ==> call_ensures(BackfillCoordinator::release, (coordinator, lease), result),
    ensures
        result != Ok::<BackfillLeaseUpdate, BackfillError>(BackfillLeaseUpdate::Applied) ==> final(coordinator)@.row == old(coordinator)@.row,
        result == Ok::<BackfillLeaseUpdate, BackfillError>(BackfillLeaseUpdate::Applied) ==> {
            let before = old(coordinator)@.row;
            let after = final(coordinator)@.row;
            &&& before.state.status == BackfillStatus::Running
            &&& before.owner_id == Some(lease@.owner_id)
            &&& before.fencing_token == lease@.fencing_token
            &&& after.owner_id is None
            &&& after.lease_expires_at_ms is None
            &&& after.fencing_token == before.fencing_token
            &&& !complete ==> after.state.status == BackfillStatus::Pending && after.state.last_watermark == before.state.last_watermark && after.state.last_success_at
                == before.state.last_success_at
            &&& complete ==> after.state.status == BackfillStatus::Complete && after.state.last_success_at is Some
            &&& complete && watermark is Some ==> after.state.last_watermark == Some(watermark->0@)
            &&& complete && watermark is None ==> after.state.last_watermark == before.state.last_watermark
        },
{
}

/// The slot is claimed by time alone: a pending backfill always, a complete one never, a running one once
/// nothing was recorded for the given seconds. A claimed backfill runs, keeps its progress, and is dated now.
pub proof fn law_claim_of_the_slot(coordinator: &mut BackfillCoordinator, lease_seconds: i64, now: i64, result: Result<bool, BackfillError>)
    requires
        call_ensures(BackfillCoordinator::try_claim_slot_at, (coordinator, lease_seconds, now), result),
        now >= 0,
    ensures
        result is Err <==> old(coordinator)@.closed,
        result is Ok ==> {
            let before = old(coordinator)@.row;
            &&& before.state.status == BackfillStatus::Pending ==> result->Ok_0
            &&& before.state.status == BackfillStatus::Complete ==> !result->Ok_0
            &&& before.state.status == BackfillStatus::Running ==> (result->Ok_0 <==> now - before.updated_at >= (if lease_seconds > 0 {
                lease_seconds as int
            } else {
                0
            }))
        },
        !(result is Ok && result->Ok_0) ==> final(coordinator)@ == old(coordinator)@,
        result is Ok && result->Ok_0 ==> {
            let before = old(coordinator)@.row;
            let after = final(coordinator)@.row;
            &&& after.state.status == BackfillStatus::Running
            &&& after.state.last_watermark == before.state.last_watermark
            &&& after.state.last_success_at == before.state.last_success_at
            &&& after.updated_at == now
            &&& after.owner_id == before.owner_id
            &&& after.lease_expires_at_ms == before.lease_expires_at_ms
            &&& after.fencing_token == before.fencing_token
        },
{
}

/// Recorded without a lease, a running backfill has the progress that was given, or else what it had.
pub proof fn law_backfill_is_marked_running(coordinator: &mut BackfillCoordinator, watermark: Option<&str>, now: i64, result: Result<(), BackfillError>)
    requires
        call_ensures(BackfillCoordinator::mark_running_at, (coordinator, watermark, now), result),
    ensures
        result is Err <==> old(coordinator)@.closed,
        result is Err ==> final(coordinator)@ == old(coordinator)@,
        result is Ok ==> {
            let before = old(coordinator)@.row;
            let after = final(coordinator)@.row;
            &&& after.state.status == BackfillStatus::Running
            &&& watermark is Some ==> after.state.last_watermark == Some(watermark->0@)
            &&& watermark is None ==> after.state.last_watermark == before.state.last_watermark
            &&& after.state.last_success_at == before.state.last_success_at
            &&& after.updated_at == now
            &&& after.owner_id == before.owner_id
            &&& after.lease_expires_at_ms == before.lease_expires_at_ms
            &&& after.fencing_token == before.fencing_token
        },
{
}

/// Recorded without a lease, a complete backfill is dated, and has the progress that was given, or else what
/// it had.
pub proof fn law_backfill_is_marked_complete(coordinator: &mut BackfillCoordinator, watermark: Option<&str>, now: i64, result: Result<(), BackfillError>)
    requires
        call_ensures(BackfillCoordinator::mark_complete_at, (coordinator, watermark, now), result),
    ensures
        result is Err <==> old(coordinator)@.closed,
        result is Err ==> final(coordinator)@ == old(coordinator)@,
        result is Ok ==> {
            let before = old(coordinator)@.row;
            let after = final(coordinator)@.row;
            &&& after.state.status == BackfillStatus::Complete
            &&& watermark is Some ==> after.state.last_watermark == Some(watermark->0@)
            &&& watermark is None ==> after.state.last_watermark == before.state.last_watermark
            &&& after.state.last_success_at == Some(now)
            &&& after.updated_at == now
            &&& after.owner_id == before.owner_id
            &&& after.lease_expires_at_ms == before.lease_expires_at_ms
            &&& after.fencing_token == before.fencing_token
        },
{
}

/// What is read of the backfill is what is stored of it. Without a stored row it is pending, without progress.
pub proof fn law_backfill_is_read_as_stored(row: Option<BackfillRow>, coordinator: BackfillCoordinator, read: Result<BackfillState, BackfillError>)
    requires
        call_ensures(BackfillCoordinator::new, (row,), coordinator),
        call_ensures(BackfillCoordinator::state, (&coordinator,), read),
    ensures
        read is Ok,
        row is Some ==> read->Ok_0@.status == row->0.state.status && read->Ok_0@.last_success_at == row->0.state.last_success_at,
        row is None ==> read->Ok_0@.status == BackfillStatus::Pending && read->Ok_0@.last_watermark is None && read->Ok_0@.last_success_at is None
            && coordinator@.row.fencing_token == 0 && coordinator@.row.owner_id is None,
{
}

/// The stored names of the states of the backfill, each read back from its own.
pub proof fn law_backfill_status_names(status: BackfillStatus, name: &'static str, text: &str, read: Option<BackfillStatus>)
    requires
        call_ensures(BackfillStatus::as_str, (status,), name),
        call_ensures(BackfillStatus::parse, (text,), read),
    ensures
        status == BackfillStatus::Pending <==> name@ == "pending"@,
        status == BackfillStatus::Running <==> name@ == "running"@,
        status == BackfillStatus::Complete <==> name@ == "complete"@,
        read == Some(status) <==> text@ == name@,
{
    reveal_strlit("pending");
    reveal_strlit("running");
    reveal_strlit("complete");
    assert("pending"@.len() == 7 && "running"@.len() == 7 && "complete"@.len() == 8);
    assert("pending"@[0] == 'p' && "running"@[0] == 'r');
    assert(name@ == super::backfill_status_text(status));
}

} // verus!
