use pbh_builder::signal::{bind_signal, signal_preimage_bytes, Address, Call};

fn addr(b: u8) -> Address {
    Address::from_bytes(vec![b; 20]).unwrap()
}

fn hex(b: &[u8]) -> String {
    b.iter().map(|x| format!("{:02x}", x)).collect()
}

#[test]
fn preimage_layout() {
    let calls = vec![Call::new(addr(0xde), vec![0x12, 0x34], false)];
    let pre = signal_preimage_bytes(&addr(0xbe), &calls);
    assert_eq!(
        hex(&pre),
        "bebebebebebebebebebebebebebebebebebebebedededededededededededededededededededede0000000000000000000000000000000000000000000000000000000000000002123400"
    );
}

#[test]
fn signal_hash_value() {
    let calls = vec![Call::new(addr(0xde), vec![0x12, 0x34], false)];
    let h = bind_signal(&addr(0xbe), &calls).to_bytes();
    assert_eq!(hex(&h), "00db839f7e3982cc2ccd00225b4e60abd3c3f1aaf7d62f78a6ef8ca33a19e6c5");
    let pre = signal_preimage_bytes(&addr(0xbe), &calls);
    let direct = semaphore_rs::hash_to_field(&pre).to_be_bytes::<32>().to_vec();
    assert_eq!(h, direct);
}

#[test]
fn signal_is_deterministic() {
    let calls = vec![Call::new(addr(1), vec![1, 2, 3], true), Call::new(addr(2), vec![], false)];
    let a = bind_signal(&addr(9), &calls);
    let b = bind_signal(&addr(9), &calls);
    assert_eq!(a, b);
}

#[test]
fn signal_changes_with_sender_order_and_content() {
    let c1 = Call::new(addr(1), vec![1, 2, 3], true);
    let c2 = Call::new(addr(2), vec![4], false);
    let base = bind_signal(&addr(9), &vec![c1.clone(), c2.clone()]);
    let swapped = bind_signal(&addr(9), &vec![c2.clone(), c1.clone()]);
    let other_sender = bind_signal(&addr(8), &vec![c1.clone(), c2.clone()]);
    let flag = bind_signal(&addr(9), &vec![Call::new(addr(1), vec![1, 2, 3], false), c2.clone()]);
    let data = bind_signal(&addr(9), &vec![Call::new(addr(1), vec![1, 2], true), c2.clone()]);
    let fewer = bind_signal(&addr(9), &vec![c1.clone()]);
    for other in [&swapped, &other_sender, &flag, &data, &fewer] {
        assert_ne!(&base, other);
    }
}

#[test]
fn data_boundaries_are_kept_apart() {
    // The length prefix keeps [1,2] + [3] apart from [1] + [2,3].
    let a = signal_preimage_bytes(
        &addr(9),
        &vec![Call::new(addr(1), vec![1, 2], false), Call::new(addr(1), vec![3], false)],
    );
    let b = signal_preimage_bytes(
        &addr(9),
        &vec![Call::new(addr(1), vec![1], false), Call::new(addr(1), vec![2, 3], false)],
    );
    assert_ne!(a, b);
}

#[test]
fn address_needs_twenty_bytes() {
    assert!(Address::from_bytes(vec![0; 19]).is_none());
    assert!(Address::from_bytes(vec![0; 21]).is_none());
    assert_eq!(Address::from_bytes(vec![7; 20]).unwrap().to_bytes(), vec![7u8; 20]);
    assert_eq!(Address::zero().to_bytes(), vec![0u8; 20]);
}
