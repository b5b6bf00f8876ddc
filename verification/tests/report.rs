use ramesh::events::MatchEvent;
use ramesh::report::{decimal, match_report, no_match_report};

fn event(ms: u128) -> MatchEvent {
    MatchEvent {
        matched_hash: [
            0x25, 0x82, 0xa8, 0x28, 0x1b, 0xf9, 0xd4, 0x30, 0x8d, 0x6f, 0x57, 0x31, 0xd0, 0xe6,
            0x1c, 0x61,
        ],
        passphrase: "hashcat!".to_string(),
        elapsed_ms: ms,
    }
}

#[test]
fn match_report_has_three_lines() {
    assert_eq!(
        match_report(&event(1234)),
        "PMKID Hash: 2582a8281bf9d4308d6f5731d0e61c61\nPassphrase: hashcat!\nTime Taken: 1234 ms"
    );
}

#[test]
fn match_report_writes_hash_in_lower_case_hex() {
    let e = MatchEvent {
        matched_hash: [0x00, 0x01, 0x0a, 0x0f, 0x10, 0x9a, 0xa9, 0xab, 0xcd, 0xef, 0xf0, 0xff, 0x7f, 0x80, 0x5c, 0xc5],
        passphrase: String::new(),
        elapsed_ms: 0,
    };
    assert_eq!(
        match_report(&e),
        "PMKID Hash: 00010a0f109aa9abcdeff0ff7f805cc5\nPassphrase: \nTime Taken: 0 ms"
    );
}

#[test]
fn match_report_keeps_passphrase_verbatim() {
    let mut e = event(7);
    e.passphrase = " p\u{e4}ss word\t".to_string();
    assert_eq!(
        match_report(&e),
        "PMKID Hash: 2582a8281bf9d4308d6f5731d0e61c61\nPassphrase:  p\u{e4}ss word\t\nTime Taken: 7 ms"
    );
}

#[test]
fn decimal_of_small_and_large_numbers() {
    assert_eq!(decimal(0), "0");
    assert_eq!(decimal(9), "9");
    assert_eq!(decimal(10), "10");
    assert_eq!(decimal(1234567890), "1234567890");
    assert_eq!(decimal(100200300), "100200300");
    assert_eq!(decimal(u128::MAX), "340282366920938463463374607431768211455");
}

#[test]
fn decimal_agrees_with_std() {
    for n in [0u128, 1, 19, 99, 100, 101, 4096, 65535, 1 << 64, (1 << 100) + 12345] {
        assert_eq!(decimal(n), n.to_string());
    }
}

#[test]
fn no_match_report_is_fixed() {
    assert_eq!(no_match_report(), "No match found");
}
