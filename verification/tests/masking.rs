use ws_core::mask::apply_mask;

#[test]
fn masking_xors_with_the_key_in_turn() {
    let key = [0x01u8, 0x02, 0x04, 0x08];
    assert_eq!(
        apply_mask(&[0x00, 0x00, 0x00, 0x00, 0xFF, 0xFF, 0xFF, 0xFF, 0x10], &key),
        vec![0x01, 0x02, 0x04, 0x08, 0xFE, 0xFD, 0xFB, 0xF7, 0x11]
    );
}

#[test]
fn masking_nothing_gives_nothing() {
    assert_eq!(apply_mask(&[], &[1, 2, 3, 4]), Vec::<u8>::new());
}

#[test]
fn masking_with_a_zero_key_changes_nothing() {
    assert_eq!(apply_mask(b"abcdef", &[0, 0, 0, 0]), b"abcdef".to_vec());
}

#[test]
fn masking_twice_gives_back_the_payload() {
    let keys = [[0u8, 0, 0, 0], [0xFF, 0xFF, 0xFF, 0xFF], [0x37, 0xfa, 0x21, 0x3d], [1, 0, 255, 128]];
    for key in keys {
        for len in [0usize, 1, 3, 4, 5, 125, 126, 1000] {
            let mut payload = Vec::new();
            let mut i: usize = 0;
            while i < len {
                payload.push((i * 31 + 17) as u8);
                i += 1;
            }
            let once = apply_mask(&payload, &key);
            assert_eq!(once.len(), payload.len());
            assert_eq!(apply_mask(&once, &key), payload);
        }
    }
}

#[test]
fn masking_changes_the_payload() {
    assert_ne!(apply_mask(b"Hello", &[0x37, 0xfa, 0x21, 0x3d]), b"Hello".to_vec());
}
