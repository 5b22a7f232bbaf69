use modrepo::hasher::{digest_of, push_hex, to_hex, Hasher};

#[test]
fn empty_stream_has_the_reference_digest() {
    let hasher = Hasher::new();
    assert_eq!(hasher.len(), 0);
    assert_eq!(hasher.finalize(), 0x2d06_8005_38d3_94c2);
}

#[test]
fn digest_is_independent_of_chunking() {
    let mut whole = Hasher::new();
    whole.update(b"AB");
    let mut parts = Hasher::new();
    parts.update(b"A");
    parts.update(b"B");
    assert_eq!(whole.finalize(), parts.finalize());
    assert_ne!(whole.finalize(), Hasher::new().finalize());
}

#[test]
fn digest_is_that_of_the_whole_content() {
    let content: Vec<u8> = (0..1000u32).map(|i| (i % 251) as u8).collect();
    let expected = twox_hash::XxHash3_64::oneshot(&content);
    for cut in [0usize, 1, 63, 64, 240, 241, 500, 999, 1000] {
        let mut hasher = Hasher::new();
        hasher.update(&content[..cut]);
        hasher.update(&[]);
        hasher.update(&content[cut..]);
        assert_eq!(hasher.len(), 1000);
        assert_eq!(hasher.finalize(), expected);
    }
    let mut bytewise = Hasher::new();
    for byte in content.chunks(1) {
        bytewise.update(byte);
    }
    assert_eq!(bytewise.finalize(), expected);
}

#[test]
fn finalize_leaves_the_hasher_as_it_is() {
    let mut hasher = Hasher::new();
    hasher.update(b"some");
    let early = hasher.finalize();
    assert_eq!(early, twox_hash::XxHash3_64::oneshot(b"some"));
    hasher.update(b" bytes");
    assert_eq!(hasher.finalize(), twox_hash::XxHash3_64::oneshot(b"some bytes"));
    assert_ne!(hasher.finalize(), early);
}

#[test]
fn try_update_feeds_what_fits() {
    let mut hasher = Hasher::new();
    assert!(hasher.try_update(b"0123456789"));
    assert_eq!(hasher.len(), 10);
    assert_eq!(hasher.finalize(), twox_hash::XxHash3_64::oneshot(b"0123456789"));
}

#[test]
fn hex_is_lower_case_without_leading_zeros() {
    assert_eq!(to_hex(0), "0");
    assert_eq!(to_hex(9), "9");
    assert_eq!(to_hex(10), "a");
    assert_eq!(to_hex(15), "f");
    assert_eq!(to_hex(16), "10");
    assert_eq!(to_hex(0xabc), "abc");
    assert_eq!(to_hex(u64::MAX), "ffffffffffffffff");
    assert_eq!(to_hex(0x0123_4567_89ab_cdef), "123456789abcdef");
}

#[test]
fn hex_agrees_with_the_standard_formatter() {
    for n in [0u64, 1, 255, 256, 4095, 0xdead_beef, 1 << 63, u64::MAX - 1] {
        assert_eq!(to_hex(n), format!("{:x}", n));
    }
}

#[test]
fn push_hex_appends() {
    let mut text = String::from("0x");
    push_hex(&mut text, 0x2d06_8005_38d3_94c2);
    assert_eq!(text, "0x2d06800538d394c2");
}

#[test]
fn digest_of_chunks_is_the_digest_of_their_bytes() {
    let expected = twox_hash::XxHash3_64::oneshot(b"0123456789");
    assert_eq!(digest_of(&vec![b"0123456789".to_vec()]), Some(expected));
    assert_eq!(digest_of(&vec![b"01234".to_vec(), b"56789".to_vec()]), Some(expected));
    assert_eq!(
        digest_of(&vec![vec![], b"0".to_vec(), b"12345678".to_vec(), vec![], b"9".to_vec()]),
        Some(expected)
    );
    assert_eq!(digest_of(&vec![]), Some(0x2d06_8005_38d3_94c2));
    assert_eq!(digest_of(&vec![vec![], vec![]]), Some(0x2d06_8005_38d3_94c2));
}
