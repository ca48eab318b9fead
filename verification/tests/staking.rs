use novamind::amount::Amount;
use novamind::staking::{claim, claim_at, stake, stake_at, stake_status, StakeRequest};
use novamind::status::Status;

fn request() -> StakeRequest {
    StakeRequest { address: "nvd_00112233".to_string(), amount: Amount { bits: 2.5f64.to_bits() } }
}

#[test]
fn stake_is_stored_as_asked() {
    let row = stake_at(request(), 99);
    assert_eq!(row.address, "nvd_00112233");
    assert_eq!(f64::from_bits(row.balance.bits), 2.5);
    assert_eq!(row.last_stake_time, 99);
}

#[test]
fn stake_is_dated_by_the_clock() {
    assert!(stake(request()).last_stake_time > 1_600_000_000);
}

#[test]
fn stake_statuses() {
    assert_eq!(stake_status(true), Status::Done);
    assert_eq!(stake_status(false), Status::InternalServerError);
}

#[test]
fn claim_notes_its_time() {
    let row = claim_at("nvd_00112233".to_string(), 99);
    assert_eq!(row.address, "nvd_00112233");
    assert_eq!(row.last_stake_time, 99);
    let row = claim("nvd_44556677".to_string());
    assert_eq!(row.address, "nvd_44556677");
    assert!(row.last_stake_time > 1_600_000_000);
}
