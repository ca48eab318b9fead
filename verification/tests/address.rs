use novamind::address::validate_nvd_address;

#[test]
fn shortest_and_longest_addresses_are_valid() {
    assert!(validate_nvd_address("nvd_0123abCD"));
    let longest = format!("nvd_{}", "f".repeat(64));
    assert_eq!(longest.len(), 68);
    assert!(validate_nvd_address(&longest));
}

#[test]
fn lengths_out_of_bounds_are_refused() {
    assert!(!validate_nvd_address("nvd_0123abc"));
    assert!(!validate_nvd_address(&format!("nvd_{}", "f".repeat(65))));
    assert!(!validate_nvd_address(""));
    assert!(!validate_nvd_address("nvd_"));
}

#[test]
fn other_prefixes_are_refused() {
    assert!(!validate_nvd_address("NVD_0123abcd"));
    assert!(!validate_nvd_address("nvd-0123abcd"));
    assert!(!validate_nvd_address(" nvd_0123abcd"));
}

#[test]
fn other_characters_are_refused() {
    assert!(!validate_nvd_address("nvd_0123abcg"));
    assert!(!validate_nvd_address("nvd_0123 bcd"));
    assert!(!validate_nvd_address("nvd_0123abcd\n"));
    assert!(!validate_nvd_address("nvd_\u{e9}\u{e9}\u{e9}\u{e9}"));
    assert!(!validate_nvd_address("nvd_\u{661}1234567"));
}

#[test]
fn bounds_of_an_address_hold_of_bytes_too() {
    let digits = "\u{e9}".repeat(32);
    assert_eq!(digits.len(), 64);
    assert!(!validate_nvd_address(&format!("nvd_{}", digits)));
}
