use bitcoin_handshake::hashes::{checksum_slice, Checksum};

#[test]
fn checkusum_test() {
    let data: Vec<u8> = vec![0x01, 0x02, 0x03, 0x04];
    assert_eq!(data.sha256(), 3799180429);
}

#[test]
fn checksum_of_empty_payload() {
    // The well-known checksum of the empty payload, as carried by
    // every verack frame.
    let data: Vec<u8> = Vec::new();
    assert_eq!(data.sha256(), 0xE2E0F65D);
}

#[test]
fn checksum_slice_agrees_with_trait() {
    let data: Vec<u8> = vec![0x01, 0x02, 0x03, 0x04];
    assert_eq!(checksum_slice(&data), data.sha256());
}
