use rogue_tremolo::pull::torrent_file_name;
use rogue_tremolo::InfoHash;

const HEX: &str = "0123456789abcdef0123456789abcdef01234567";

fn bytes() -> [u8; 20] {
    [
        0x01, 0x23, 0x45, 0x67, 0x89, 0xab, 0xcd, 0xef, 0x01, 0x23, 0x45, 0x67, 0x89, 0xab, 0xcd, 0xef, 0x01,
        0x23, 0x45, 0x67,
    ]
}

#[test]
fn from_hex_reads_lower_case() {
    let hash = InfoHash::from_hex(HEX).expect("hash should parse");
    assert_eq!(hash.bytes, bytes());
}

#[test]
fn from_hex_reads_upper_case() {
    let hash = InfoHash::from_hex(&HEX.to_uppercase()).expect("hash should parse");
    assert_eq!(hash.bytes, bytes());
}

#[test]
fn from_hex_reads_plus_sign_pairs() {
    let text = format!("+f{}", &HEX[2..]);
    let hash = InfoHash::from_hex(&text).expect("hash should parse");
    assert_eq!(hash.bytes[0], 0x0f);
    assert_eq!(hash.bytes[1..], bytes()[1..]);
}

#[test]
fn from_hex_rejects_wrong_length() {
    assert!(InfoHash::from_hex(&HEX[..38]).is_none());
    assert!(InfoHash::from_hex(&format!("{HEX}00")).is_none());
    assert!(InfoHash::from_hex("").is_none());
}

#[test]
fn from_hex_rejects_non_digits() {
    let text = format!("zz{}", &HEX[2..]);
    assert!(InfoHash::from_hex(&text).is_none());
    let text = format!("-1{}", &HEX[2..]);
    assert!(InfoHash::from_hex(&text).is_none());
}

#[test]
fn from_hex_rejects_non_ascii() {
    let text = format!("é{}", &HEX[2..]);
    assert_eq!(text.len(), 40);
    assert!(InfoHash::from_hex(&text).is_none());
}

#[test]
fn to_hex_writes_lower_case() {
    assert_eq!(InfoHash { bytes: bytes() }.to_hex(), HEX);
    assert_eq!(InfoHash { bytes: [0xff; 20] }.to_hex(), "f".repeat(40));
    assert_eq!(InfoHash { bytes: [0; 20] }.to_hex(), "0".repeat(40));
}

#[test]
fn hex_round_trip() {
    let hash = InfoHash { bytes: [7, 200, 13, 255, 0, 1, 2, 3, 4, 5, 6, 7, 8, 9, 10, 11, 12, 13, 14, 99] };
    let back = InfoHash::from_hex(&hash.to_hex()).expect("hash should parse");
    assert_eq!(back, hash);
}

#[test]
fn file_name_is_hex_with_torrent_extension() {
    let hash = InfoHash { bytes: bytes() };
    assert_eq!(torrent_file_name(&hash), format!("{HEX}.torrent"));
}
