//! Transactions that clients hand in.
use crate::address::{is_nvd_address, validate_nvd_address};
use crate::status::Status;
use crate::throttle::RequestThrottle;
use vstd::prelude::*;

verus! {

/// Seconds that a host has to leave between transactions.
pub const TRANSACTION_LIMIT_SECONDS: u64 = 1;

/// A transfer.
#[derive(Debug)]
pub struct Transaction {
    pub id: String,
    pub sender: String,
    pub receiver: String,
    pub amount: u64,
    pub nonce: u64,
    pub timestamp: i64,
    pub signature: String,
}

/// Whether a transfer can be taken: from an address to an address, and of something.
pub open spec fn transaction_accepted(tx: Transaction) -> bool {
    is_nvd_address(tx.sender@) && is_nvd_address(tx.receiver@) && tx.amount > 0
}

/// Whether a transfer can be taken.
pub fn check_transaction(tx: &Transaction) -> (b: bool)
    ensures
        b == transaction_accepted(*tx),
{
    validate_nvd_address(tx.sender.as_str()) && validate_nvd_address(tx.receiver.as_str())
        && tx.amount != 0
}

/// A transfer as it is stored.
#[derive(Debug)]
pub struct TransactionRow {
    pub id: String,
    pub sender: String,
    pub receiver: String,
    pub amount: u64,
    pub nonce: u64,
    pub timestamp: i64,
    pub status: String,
    pub signature: String,
}

/// Whether `row` is what `tx` is stored as: its fields as they came, and confirmed.
pub open spec fn transaction_row(tx: Transaction, row: TransactionRow) -> bool {
    &&& row.id == tx.id
    &&& row.sender == tx.sender
    &&& row.receiver == tx.receiver
    &&& row.amount == tx.amount
    &&& row.nonce == tx.nonce
    &&& row.timestamp == tx.timestamp
    &&& row.status@ == "confirmed"@
    &&& row.signature == tx.signature
}

/// Takes or refuses a transfer.
pub fn accept_transaction(tx: Transaction) -> (r: Result<TransactionRow, Status>)
    ensures
        match r {
            Ok(row) => transaction_accepted(tx) && transaction_row(tx, row),
            Err(status) => !transaction_accepted(tx) && status == Status::BadRequest,
        },
{
    if !check_transaction(&tx) {
        return Err(Status::BadRequest);
    }
    Ok(
        TransactionRow {
            id: tx.id,
            sender: tx.sender,
            receiver: tx.receiver,
            amount: tx.amount,
            nonce: tx.nonce,
            timestamp: tx.timestamp,
            status: "confirmed".to_owned(),
            signature: tx.signature,
        },
    )
}

/// Notes a transfer that `ip` hands in at `now`, and takes or refuses it.
pub fn begin_transaction(throttle: &mut RequestThrottle, ip: &str, now: u128, tx: Transaction) -> (r:
    Result<TransactionRow, Status>)
    requires
        old(throttle).wf(),
        old(throttle)@.counter_fits(ip@, TRANSACTION_LIMIT_SECONDS, now),
    ensures
        final(throttle).wf(),
        final(throttle)@ == old(throttle)@.after(ip@, TRANSACTION_LIMIT_SECONDS, now),
        ({
            let admitted = old(throttle)@.admits(ip@, TRANSACTION_LIMIT_SECONDS, now);
            match r {
                Ok(row) => admitted && transaction_accepted(tx) && transaction_row(tx, row),
                Err(status) => if admitted {
                    !transaction_accepted(tx) && status == Status::BadRequest
                } else {
                    status == Status::TooManyRequests
                },
            }
        }),
{
    if !throttle.let_in(ip, TRANSACTION_LIMIT_SECONDS, now) {
        return Err(Status::TooManyRequests);
    }
    accept_transaction(tx)
}

/// The status after a taken transfer was stored, or could not be.
pub fn transaction_status(stored: bool) -> (s: Status)
    ensures
        s == if stored {
            Status::Created
        } else {
            Status::Conflict
        },
{
    if stored {
        Status::Created
    } else {
        Status::Conflict
    }
}

/// A transfer is taken exactly where both its parties have addresses and its amount is not
/// zero, however large it is, and is answered with `BadRequest` otherwise. What is stored of
/// it is what was handed in, field by field, with the status `confirmed`.
pub proof fn law_transfer_is_stored_as_it_came(tx: Transaction, r: Result<TransactionRow, Status>)
    requires
        call_ensures(accept_transaction, (tx,), r),
    ensures
        r is Ok <==> is_nvd_address(tx.sender@) && is_nvd_address(tx.receiver@) && tx.amount != 0,
        r is Err ==> r->Err_0 == Status::BadRequest,
        r matches Ok(row) ==> {
            &&& row.amount == tx.amount
            &&& row.nonce == tx.nonce
            &&& row.timestamp == tx.timestamp
            &&& row.id@ == tx.id@
            &&& row.sender@ == tx.sender@
            &&& row.receiver@ == tx.receiver@
            &&& row.signature@ == tx.signature@
            &&& row.status@ == "confirmed"@
        },
{
}

/// The row of a transfer holds its amount and every other field of it, whatever they are, so
/// the rows of two transfers agree only where the transfers do.
pub proof fn law_transfer_rows(
    tx: Transaction,
    row: TransactionRow,
    other: Transaction,
    other_row: TransactionRow,
)
    requires
        transaction_row(tx, row),
        transaction_row(other, other_row),
    ensures
        row.amount == tx.amount,
        row.nonce == tx.nonce,
        row.timestamp == tx.timestamp,
        row.id@ == tx.id@,
        row.sender@ == tx.sender@,
        row.receiver@ == tx.receiver@,
        row.signature@ == tx.signature@,
        row == other_row ==> tx == other,
{
}

/// Whether a transfer can be taken goes by its two parties and its amount alone.
pub proof fn law_transfer_check(tx: &Transaction, b: bool)
    requires
        call_ensures(check_transaction, (tx,), b),
    ensures
        b <==> is_nvd_address(tx.sender@) && is_nvd_address(tx.receiver@) && tx.amount != 0,
        b == transaction_accepted(*tx),
{
}

/// A transfer passes the throttle with a limit of one second before it is looked at: one that
/// is stopped there is answered with `TooManyRequests`, and any other one as
/// `accept_transaction` answers it. Either way it is noted.
pub proof fn law_transfers_are_throttled(ip: &str, now: u128, tx: Transaction)
    ensures
        forall|throttle: &mut RequestThrottle, r: Result<TransactionRow, Status>| #[trigger]
            call_ensures(begin_transaction, (throttle, ip, now, tx), r) ==> {
                let admitted = throttle@.admits(ip@, 1, now);
                let accepted = is_nvd_address(tx.sender@) && is_nvd_address(tx.receiver@)
                    && tx.amount != 0;
                &&& r is Ok <==> admitted && accepted
                &&& r == Err::<TransactionRow, Status>(Status::TooManyRequests) <==> !admitted
                &&& r == Err::<TransactionRow, Status>(Status::BadRequest) <==> admitted
                    && !accepted
                &&& r matches Ok(row) ==> transaction_row(tx, row)
                &&& final(throttle)@ == throttle@.after(ip@, 1, now)
            },
{
}

/// A transfer that was stored is answered with `Created`, and one that could not be with
/// `Conflict`.
pub proof fn law_transfer_status(stored: bool, s: Status)
    requires
        call_ensures(transaction_status, (stored,), s),
    ensures
        stored <==> s == Status::Created,
        !stored <==> s == Status::Conflict,
{
}

} // verus!
