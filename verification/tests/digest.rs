use novamind::digest::{id_from_nanos, md5_hex, uuid_v4_simple};

#[test]
fn md5_of_known_texts() {
    assert_eq!(md5_hex(""), "d41d8cd98f00b204e9800998ecf8427e");
    assert_eq!(md5_hex("abc"), "900150983cd24fb0d6963f7d28e17f72");
}

#[test]
fn identifiers_come_from_the_decimal_reading() {
    assert_eq!(id_from_nanos(Some(1_700_000_000_000_000_001)), "1faa93d4b3a5adc4e202a50382f96f58");
    assert_eq!(id_from_nanos(Some(-5)), "47c1b025fa18ea96c33fbb6718688c0f");
}

#[test]
fn a_reading_that_does_not_fit_counts_as_zero() {
    assert_eq!(id_from_nanos(None), "cfcd208495d565ef66e7dff9f98764da");
    assert_eq!(id_from_nanos(None), id_from_nanos(Some(0)));
}

#[test]
fn new_identifiers_are_hexadecimal() {
    let id = uuid_v4_simple();
    assert_eq!(id.len(), 32);
    assert!(id.chars().all(|c| c.is_ascii_hexdigit() && !c.is_ascii_uppercase()));
    assert_ne!(id, id_from_nanos(None));
}
