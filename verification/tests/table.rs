use novamind::table::elapsed_seconds;
use novamind::throttle::{Ban, Blacklist};

const SECOND: u128 = 1_000_000_000;

#[test]
fn seconds_are_whole_and_not_negative() {
    assert_eq!(elapsed_seconds(0, SECOND - 1), 0);
    assert_eq!(elapsed_seconds(0, SECOND), 1);
    assert_eq!(elapsed_seconds(5, 3 * SECOND + 4), 2);
    assert_eq!(elapsed_seconds(SECOND, 0), 0);
}

#[test]
fn a_later_note_takes_the_place_of_an_earlier_one() {
    let mut t = Blacklist::new();
    assert_eq!(t.len(), 0);
    assert!(t.get("x").is_none());
    t.insert("x", Ban { since: 1 });
    t.insert("y", Ban { since: 2 });
    t.insert("x", Ban { since: 3 });
    assert_eq!(t.len(), 2);
    assert_eq!(t.get("x").unwrap().since, 3);
    assert_eq!(t.get("y").unwrap().since, 2);
}

#[test]
fn old_notes_are_dropped() {
    let mut t = Blacklist::new();
    t.insert("old", Ban { since: 0 });
    t.insert("edge", Ban { since: SECOND });
    t.insert("new", Ban { since: SECOND + 1 });
    t.keep_recent(11 * SECOND, 10);
    assert_eq!(t.len(), 1);
    assert!(t.get("new").is_some());
}
