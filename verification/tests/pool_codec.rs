//! Storage codec round trips, including the compressed path.

use brontes::{Address, Redefined_PoolsToAddresses};

fn addrs() -> Vec<Address> {
    vec![
        Address { hi: 0, lo: 1 },
        Address {
            hi: 0xdead_beef,
            lo: 0x1234_5678_9abc_def0_1122_3344_5566_7788,
        },
        Address {
            hi: u32::MAX,
            lo: u128::MAX,
        },
    ]
}

#[test]
fn frame_roundtrip() {
    let pools = Redefined_PoolsToAddresses(addrs());
    let bytes = pools.encode();
    assert_eq!(bytes.len(), 8 + 20 * 3);
    let back = Redefined_PoolsToAddresses::decode(&bytes).unwrap();
    assert_eq!(back, pools);
}

#[test]
fn empty_frame_roundtrip() {
    let pools = Redefined_PoolsToAddresses(Vec::new());
    let bytes = pools.encode();
    assert_eq!(bytes.len(), 8);
    assert_eq!(Redefined_PoolsToAddresses::decode(&bytes).unwrap(), pools);
}

#[test]
fn garbage_is_rejected() {
    assert!(Redefined_PoolsToAddresses::decode(&vec![1, 2, 3]).is_err());
    // a frame whose declared count disagrees with its length
    let mut bytes = Redefined_PoolsToAddresses(addrs()).encode();
    bytes[7] = 9;
    assert!(Redefined_PoolsToAddresses::decode(&bytes).is_err());
}

#[test]
fn compressed_roundtrip() {
    let pools = Redefined_PoolsToAddresses(addrs());
    let mut buf: Vec<u8> = Vec::new();
    pools.compress_to_buf(&mut buf).unwrap();
    // the compressed frame is a real zstd payload, not the raw frame
    assert_ne!(buf, pools.encode());
    let back = Redefined_PoolsToAddresses::decompress(&buf).unwrap();
    assert_eq!(back, pools);
}

#[test]
fn decompress_rejects_uncompressed_bytes() {
    let raw = Redefined_PoolsToAddresses(addrs()).encode();
    assert!(Redefined_PoolsToAddresses::decompress(&raw).is_err());
}
