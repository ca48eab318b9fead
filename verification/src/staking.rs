//! Stakes.
use crate::amount::Amount;
use crate::clock::utc_seconds;
use crate::status::Status;
use vstd::prelude::*;

verus! {

/// A request about a stake.
#[derive(Debug)]
pub struct StakeRequest {
    pub address: String,
    pub amount: Amount,
}

/// A stake as it is added to the store.
#[derive(Debug)]
pub struct StakeRow {
    pub address: String,
    pub balance: Amount,
    pub last_stake_time: i64,
}

/// Whether `row` is what `req` adds at `now`.
pub open spec fn stake_row(req: StakeRequest, now: i64, row: StakeRow) -> bool {
    row.address == req.address && row.balance == req.amount && row.last_stake_time == now
}

/// The row that a stake adds at `now`.
pub fn stake_at(req: StakeRequest, now: i64) -> (row: StakeRow)
    ensures
        stake_row(req, now, row),
{
    StakeRow { address: req.address, balance: req.amount, last_stake_time: now }
}

/// The row that a stake adds at the time of the call.
pub fn stake(req: StakeRequest) -> (row: StakeRow)
    ensures
        exists|now: i64| now >= 0 && #[trigger] stake_row(req, now, row),
{
    stake_at(req, utc_seconds())
}

/// A claim as it is noted in the store.
#[derive(Debug)]
pub struct ClaimRow {
    pub address: String,
    pub last_stake_time: i64,
}

/// Whether `row` is what a claim of `address` notes at `now`.
pub open spec fn claim_row(address: String, now: i64, row: ClaimRow) -> bool {
    row.address == address && row.last_stake_time == now
}

/// What a claim notes at `now`.
pub fn claim_at(address: String, now: i64) -> (row: ClaimRow)
    ensures
        claim_row(address, now, row),
{
    ClaimRow { address, last_stake_time: now }
}

/// What a claim notes at the time of the call.
pub fn claim(address: String) -> (row: ClaimRow)
    ensures
        exists|now: i64| now >= 0 && #[trigger] claim_row(address, now, row),
{
    claim_at(address, utc_seconds())
}

/// The status after a stake was stored, or could not be.
pub fn stake_status(stored: bool) -> (s: Status)
    ensures
        s == if stored {
            Status::Done
        } else {
            Status::InternalServerError
        },
{
    if stored {
        Status::Done
    } else {
        Status::InternalServerError
    }
}

/// A stake is stored with the address and the amount as they were handed in, at its time.
pub proof fn law_stake_is_stored_as_it_came(
    req: StakeRequest,
    now: i64,
    row: StakeRow,
    at_once: StakeRow,
)
    requires
        call_ensures(stake_at, (req, now), row),
        call_ensures(stake, (req,), at_once),
    ensures
        row.address@ == req.address@,
        row.balance == req.amount,
        row.last_stake_time == now,
        at_once.address@ == req.address@,
        at_once.balance == req.amount,
        at_once.last_stake_time >= 0,
{
}

/// A claim notes its address as it was handed in, and its time.
pub proof fn law_claim_is_noted_as_it_came(
    address: String,
    now: i64,
    row: ClaimRow,
    at_once: ClaimRow,
)
    requires
        call_ensures(claim_at, (address, now), row),
        call_ensures(claim, (address,), at_once),
    ensures
        row.address@ == address@,
        row.last_stake_time == now,
        at_once.address@ == address@,
        at_once.last_stake_time >= 0,
{
}

/// A stake that was stored is answered with `Done`, and one that could not be with
/// `InternalServerError`.
pub proof fn law_stake_status(stored: bool, s: Status)
    requires
        call_ensures(stake_status, (stored,), s),
    ensures
        stored <==> s == Status::Done,
        !stored <==> s == Status::InternalServerError,
{
}

} // verus!
