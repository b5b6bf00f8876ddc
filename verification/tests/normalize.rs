use ramesh::error::{Field, FormatError};
use ramesh::network::{normalize_mac, parse_target_hash, rejected_field, NetworkParams};

const MAC: [u8; 6] = [0xaa, 0xbb, 0xcc, 0xdd, 0xee, 0xff];
const PMKID: [u8; 16] = [
    0x25, 0x82, 0xa8, 0x28, 0x1b, 0xf9, 0xd4, 0x30, 0x8d, 0x6f, 0x57, 0x31, 0xd0, 0xe6, 0x1c, 0x61,
];

#[test]
fn mac_with_colons_upper_case() {
    assert_eq!(normalize_mac("AA:BB:CC:DD:EE:FF"), Ok(MAC));
}

#[test]
fn mac_with_dashes_lower_case() {
    assert_eq!(normalize_mac("aa-bb-cc-dd-ee-ff"), Ok(MAC));
}

#[test]
fn mac_without_separators() {
    assert_eq!(normalize_mac("aabbccddeeff"), Ok(MAC));
}

#[test]
fn mac_with_dots_and_mixed_case() {
    assert_eq!(normalize_mac("aaBB.ccDD.eeFF"), Ok(MAC));
    assert_eq!(normalize_mac("a.a:b-b:c.c-dd::ee..ff--"), Ok(MAC));
}

#[test]
fn mac_digits_decode_high_nibble_first() {
    assert_eq!(normalize_mac("01:23:45:67:89:ab"), Ok([0x01, 0x23, 0x45, 0x67, 0x89, 0xab]));
    assert_eq!(normalize_mac("11:22:33:44:55:66"), Ok([0x11, 0x22, 0x33, 0x44, 0x55, 0x66]));
    assert_eq!(normalize_mac("0F-F0-9a-A9-00-10"), Ok([0x0f, 0xf0, 0x9a, 0xa9, 0x00, 0x10]));
}

#[test]
fn separator_forms_agree() {
    let a = normalize_mac("AA:BB:CC:DD:EE:FF");
    let b = normalize_mac("aa-bb-cc-dd-ee-ff");
    let c = normalize_mac("aabbccddeeff");
    assert_eq!(a, b);
    assert_eq!(b, c);
}

#[test]
fn mac_of_wrong_length_is_bad_length() {
    assert_eq!(normalize_mac(""), Err(FormatError::BadLength));
    assert_eq!(normalize_mac(":::"), Err(FormatError::BadLength));
    assert_eq!(normalize_mac("aabbccddeef"), Err(FormatError::BadLength));
    assert_eq!(normalize_mac("aa:bb:cc:dd:ee"), Err(FormatError::BadLength));
    assert_eq!(normalize_mac("aa:bb:cc:dd:ee:ff:00"), Err(FormatError::BadLength));
    assert_eq!(normalize_mac("aa bb cc dd ee ff"), Err(FormatError::BadLength));
}

#[test]
fn length_is_checked_before_digits() {
    assert_eq!(normalize_mac("zz:zz"), Err(FormatError::BadLength));
    assert_eq!(normalize_mac("gggggggggggggg"), Err(FormatError::BadLength));
}

#[test]
fn mac_with_non_hex_character_is_bad_hex() {
    assert_eq!(normalize_mac("aabbccddeefg"), Err(FormatError::BadHex));
    assert_eq!(normalize_mac("AA:BB:CC:DD:EE:FG"), Err(FormatError::BadHex));
    assert_eq!(normalize_mac("aa:bb:cc:dd:ee:f "), Err(FormatError::BadHex));
    assert_eq!(normalize_mac("aa_bb_cc_dd_"), Err(FormatError::BadHex));
}

#[test]
fn length_counts_bytes_of_the_text() {
    // ten digits and one two-byte letter are twelve bytes
    assert_eq!(normalize_mac("aabbccddee\u{e9}"), Err(FormatError::BadHex));
    // eleven digits and one two-byte letter are thirteen
    assert_eq!(normalize_mac("aabbccddeef\u{e9}"), Err(FormatError::BadLength));
}

#[test]
fn target_hash_is_first_field() {
    let raw = "2582a8281bf9d4308d6f5731d0e61c61*4604ba734d4e*89acf0e761f4*ed487162465a774bfba60eb603a39f3a";
    assert_eq!(parse_target_hash(raw), Ok(PMKID));
}

#[test]
fn target_hash_without_further_fields() {
    assert_eq!(parse_target_hash("2582a8281bf9d4308d6f5731d0e61c61"), Ok(PMKID));
    assert_eq!(parse_target_hash("2582a8281bf9d4308d6f5731d0e61c61*"), Ok(PMKID));
}

#[test]
fn target_hash_accepts_either_case() {
    assert_eq!(parse_target_hash("2582A8281BF9D4308D6F5731D0E61C61*x"), Ok(PMKID));
    assert_eq!(parse_target_hash("2582a8281BF9d4308d6F5731d0e61C61"), Ok(PMKID));
}

#[test]
fn target_hash_of_wrong_length_is_bad_length() {
    assert_eq!(parse_target_hash(""), Err(FormatError::BadLength));
    assert_eq!(parse_target_hash("*2582a8281bf9d4308d6f5731d0e61c61"), Err(FormatError::BadLength));
    assert_eq!(parse_target_hash("2582a8281bf9d4308d6f5731d0e61c6"), Err(FormatError::BadLength));
    assert_eq!(parse_target_hash("2582a8281bf9d4308d6f5731d0e61c6100"), Err(FormatError::BadLength));
    assert_eq!(parse_target_hash("2582a8281bf9d430*8d6f5731d0e61c61"), Err(FormatError::BadLength));
}

#[test]
fn target_hash_keeps_separators() {
    // separators are not dropped from a hash: 32 bytes, two of them no digits
    assert_eq!(
        parse_target_hash("2582a8281bf9d4:08d6f5731d0e61c:1"),
        Err(FormatError::BadHex)
    );
}

#[test]
fn target_hash_with_non_hex_character_is_bad_hex() {
    assert_eq!(parse_target_hash("2582a8281bf9d4308d6f5731d0e61c6g"), Err(FormatError::BadHex));
    assert_eq!(parse_target_hash("2582a8281bf9d4308d6f5731d0e61c6 *aa"), Err(FormatError::BadHex));
}

#[test]
fn parse_keeps_essid_and_decodes_the_rest() {
    let params = NetworkParams::parse(
        " Test Net ",
        "AA:BB:CC:DD:EE:FF",
        "11-22-33-44-55-66",
        "2582a8281bf9d4308d6f5731d0e61c61*aabbccddeeff*112233445566*00",
    )
    .unwrap();
    assert_eq!(params.essid(), b" Test Net ");
    assert_eq!(params.bssid(), &MAC);
    assert_eq!(params.sta_mac(), &[0x11, 0x22, 0x33, 0x44, 0x55, 0x66]);
    assert_eq!(params.target_hash(), &PMKID);
}

#[test]
fn parse_refuses_empty_essid() {
    let r = NetworkParams::parse("", "AA:BB:CC:DD:EE:FF", "11-22-33-44-55-66", "2582a8281bf9d4308d6f5731d0e61c61");
    assert_eq!(r.err(), Some(FormatError::BadLength));
    let r = NetworkParams::new(b"", MAC, MAC, PMKID);
    assert_eq!(r.err(), Some(FormatError::BadLength));
}

#[test]
fn parse_reports_first_failing_field() {
    let good_mac = "AA:BB:CC:DD:EE:FF";
    let good_hash = "2582a8281bf9d4308d6f5731d0e61c61";
    let r = NetworkParams::parse("net", "AA:BB:CC:DD:EE:FG", "11", good_hash);
    assert_eq!(r.err(), Some(FormatError::BadHex));
    let r = NetworkParams::parse("net", "AA", "11:22:33:44:55:6x", good_hash);
    assert_eq!(r.err(), Some(FormatError::BadLength));
    let r = NetworkParams::parse("net", good_mac, "11:22:33:44:55:6x", "");
    assert_eq!(r.err(), Some(FormatError::BadHex));
    let r = NetworkParams::parse("net", good_mac, good_mac, "12");
    assert_eq!(r.err(), Some(FormatError::BadLength));
    let r = NetworkParams::parse("net", good_mac, good_mac, "2582a8281bf9d4308d6f5731d0e61c6z");
    assert_eq!(r.err(), Some(FormatError::BadHex));
}

#[test]
fn new_keeps_raw_essid_bytes() {
    let essid = [0xed, 0x48, 0x71, 0x62, 0xff, 0x00];
    let params = NetworkParams::new(&essid, MAC, MAC, PMKID).unwrap();
    assert_eq!(params.essid(), &essid);
}

#[test]
fn format_error_messages() {
    assert_eq!(FormatError::BadLength.message(), "unexpected number of hex digits");
    assert_eq!(FormatError::BadHex.message(), "non-hex character in input");
}

#[test]
fn rejected_field_is_the_first_that_fails() {
    let mac = "AA:BB:CC:DD:EE:FF";
    let hash = "2582a8281bf9d4308d6f5731d0e61c61*x";
    assert_eq!(rejected_field("net", mac, mac, hash), None);
    assert_eq!(rejected_field("", "", "", ""), Some(Field::Essid));
    assert_eq!(rejected_field("net", "", "", ""), Some(Field::Bssid));
    assert_eq!(rejected_field("net", mac, "11:22:33:44:55:6g", ""), Some(Field::StaMac));
    assert_eq!(rejected_field("net", mac, mac, "2582"), Some(Field::Pmkid));
    assert_eq!(rejected_field("net", mac, mac, "2582a8281bf9d4308d6f5731d0e61c6z"), Some(Field::Pmkid));
}
