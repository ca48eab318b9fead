use novamind::status::Status;
use novamind::throttle::RequestThrottle;
use novamind::transactions::{
    accept_transaction, begin_transaction, check_transaction, transaction_status, Transaction,
};

const SECOND: u128 = 1_000_000_000;

fn transfer() -> Transaction {
    Transaction {
        id: "t1".to_string(),
        sender: "nvd_00112233".to_string(),
        receiver: "nvd_44556677".to_string(),
        amount: 1,
        nonce: 0,
        timestamp: 0,
        signature: String::new(),
    }
}

#[test]
fn transfers_need_addresses_and_an_amount() {
    assert!(check_transaction(&transfer()));
    let mut t = transfer();
    t.sender.clear();
    assert!(!check_transaction(&t));
    let mut t = transfer();
    t.receiver = "someone".to_string();
    assert!(!check_transaction(&t));
    let mut t = transfer();
    t.amount = 0;
    assert!(!check_transaction(&t));
}

#[test]
fn transfers_pass_the_throttle_first() {
    let mut throttle = RequestThrottle::new();
    let bad = || {
        let mut t = transfer();
        t.amount = 0;
        t
    };
    let ip = "10.0.0.1";
    let r = begin_transaction(&mut throttle, ip, 0, bad());
    assert_eq!(r.err(), Some(Status::TooManyRequests));
    let r = begin_transaction(&mut throttle, ip, SECOND, bad());
    assert_eq!(r.err(), Some(Status::BadRequest));
    let r = begin_transaction(&mut throttle, ip, 2 * SECOND, transfer());
    assert_eq!(r.unwrap().id, "t1");
    let r = begin_transaction(&mut throttle, ip, 3 * SECOND - 1, transfer());
    assert_eq!(r.err(), Some(Status::TooManyRequests));
}

#[test]
fn transfer_is_stored_as_confirmed() {
    let mut t = transfer();
    t.nonce = 7;
    t.timestamp = -3;
    t.signature = "sig".to_string();
    let row = accept_transaction(t).unwrap();
    assert_eq!(row.id, "t1");
    assert_eq!(row.sender, "nvd_00112233");
    assert_eq!(row.receiver, "nvd_44556677");
    assert_eq!((row.amount, row.nonce, row.timestamp), (1, 7, -3));
    assert_eq!(row.status, "confirmed");
    assert_eq!(row.signature, "sig");
    let mut t = transfer();
    t.amount = 0;
    assert_eq!(accept_transaction(t).err(), Some(Status::BadRequest));
}

#[test]
fn transfer_that_cannot_be_stored_conflicts() {
    assert_eq!(transaction_status(true), Status::Created);
    assert_eq!(transaction_status(false), Status::Conflict);
}
