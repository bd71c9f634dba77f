use pockethle::save_data::{crc32, decode, encode, SaveError, MAX_PAYLOAD};

#[test]
fn save_round_trip_and_corruption_are_detected() {
    let bytes = encode(b"level=4;score=9001").unwrap();
    assert_eq!(decode(&bytes).unwrap(), b"level=4;score=9001");
    let mut bytes = bytes;
    let last = bytes.len() - 1;
    bytes[last] ^= 1;
    assert_eq!(decode(&bytes), Err(SaveError::ChecksumMismatch));
}

#[test]
fn crc32_matches_the_standard_check_value() {
    assert_eq!(crc32(b"123456789"), 0xCBF4_3926);
    assert_eq!(crc32(b""), 0);
}

#[test]
fn the_frame_layout_is_magic_version_length_payload_checksum() {
    let bytes = encode(b"abc").unwrap();
    assert_eq!(&bytes[0..8], b"PHSAVE01");
    assert_eq!(&bytes[8..12], &1u32.to_le_bytes());
    assert_eq!(&bytes[12..20], &3u64.to_le_bytes());
    assert_eq!(&bytes[20..23], b"abc");
    assert_eq!(&bytes[23..27], &crc32(b"abc").to_le_bytes());
    assert_eq!(bytes.len(), 27);
    assert_eq!(decode(&encode(b"").unwrap()).unwrap(), Vec::<u8>::new());
}

#[test]
fn each_defect_is_reported_as_its_own_error() {
    let good = encode(b"payload").unwrap();
    assert_eq!(decode(&good[..10]), Err(SaveError::InvalidHeader));
    let mut magic = good.clone();
    magic[0] = b'X';
    assert_eq!(decode(&magic), Err(SaveError::InvalidHeader));
    let mut version = good.clone();
    version[8] = 2;
    assert_eq!(decode(&version), Err(SaveError::UnsupportedVersion));
    let mut length = good.clone();
    length[12] = 99;
    assert_eq!(decode(&length), Err(SaveError::InvalidLength));
    let mut huge = good.clone();
    huge[12..20].copy_from_slice(&((MAX_PAYLOAD as u64) + 1).to_le_bytes());
    assert_eq!(decode(&huge), Err(SaveError::InvalidLength));
    let mut flipped = good.clone();
    flipped[21] ^= 0x40;
    assert_eq!(decode(&flipped), Err(SaveError::ChecksumMismatch));
    let mut longer = good.clone();
    longer.push(0);
    assert_eq!(decode(&longer), Err(SaveError::InvalidLength));
    assert!(SaveError::PayloadTooLarge.message().contains("too large"));
}

#[test]
fn flipping_any_bit_of_a_save_is_refused() {
    let good = encode(b"level=4;score=9001").unwrap();
    for i in 0..good.len() {
        for bit in 0..8 {
            let mut bad = good.clone();
            bad[i] ^= 1 << bit;
            assert!(decode(&bad).is_err(), "byte {i} bit {bit}");
        }
    }
}
