use usbbench::payload::{make_payload, PAYLOAD_SEED};

#[test]
fn payload_has_the_length_asked_for() {
    assert_eq!(make_payload(0).unwrap().len(), 0);
    assert_eq!(make_payload(1).unwrap().len(), 1);
    assert_eq!(make_payload(100_000).unwrap().len(), 100_000);
    assert_eq!(make_payload(4_194_304).unwrap().len(), 4_194_304);
}

#[test]
fn payload_is_filled() {
    let block = make_payload(4096).unwrap();
    assert!(block.iter().any(|b| *b != 0));
    let distinct = (0..=255u8).filter(|v| block.contains(v)).count();
    assert!(distinct > 128);
}

#[test]
fn payload_is_the_same_each_time() {
    assert_eq!(PAYLOAD_SEED, 0x5EED_CAFE);
    assert_eq!(make_payload(1000), make_payload(1000));
    let long = make_payload(64).unwrap();
    let short = make_payload(32).unwrap();
    assert_eq!(&long[..32], &short[..]);
}
