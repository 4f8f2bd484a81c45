use shared::hamming::{decode_hamming, encode_hamming};

#[test]
fn hamming_no_flips() {
    /* check correct operation */
    for i in 0..16 {
        let h = encode_hamming(i);
        let v = decode_hamming(h);

        assert!(!v.is_none());
        let (v, f) = v.unwrap();

        if i != v {
            println!("mismatch: {:b} => {:b} => {:b}", i, h, v);
        }

        assert_eq!(i, v);
        assert_eq!(false, f);
    }
}

#[test]
fn hamming_one_flip() {
    /* check single bit correction */
    for j in 0..8 {
        for i in 0..16 {
            let mut h = encode_hamming(i);
            h ^= 1 << j;
            let v = decode_hamming(h);

            assert!(!v.is_none());
            let (v, f) = v.unwrap();

            /* help debugging */
            if i != v {
                println!("mismatch: {:b} => {:b} => {:b}", i, h, v);
            }

            assert_eq!(i, v);
            assert_eq!(true, f);
        }
    }
}

#[test]
fn hamming_two_flips() {
    /* check double bit error */
    let mut h = encode_hamming(0b0000);
    h ^= 1 << 1;
    h ^= 1 << 2;
    let v = decode_hamming(h);
    assert_eq!(v, None);
}

#[test]
fn hamming_code_word_layout() {
    // d1 = 1: p1 = p2 = 1, p4 = 0, p8 = 1
    assert_eq!(encode_hamming(0b0001), 0b1000_0111);
    // d4 = 1: p1 = p2 = p4 = 1, p8 = 0
    assert_eq!(encode_hamming(0b1000), 0b0100_1011);
    assert_eq!(encode_hamming(0b0000), 0);
    assert_eq!(encode_hamming(0b1111), 0b1111_1111);
}

#[test]
fn hamming_every_double_flip_is_rejected() {
    for v in 0..16u8 {
        for a in 0..8u8 {
            for b in 0..8u8 {
                if a != b {
                    let h = encode_hamming(v) ^ (1 << a) ^ (1 << b);
                    assert_eq!(decode_hamming(h), None);
                }
            }
        }
    }
}

#[test]
fn hamming_parity_bit_flip_leaves_data() {
    for v in 0..16u8 {
        let h = encode_hamming(v) ^ 0x80;
        assert_eq!(decode_hamming(h), Some((v, true)));
    }
}

#[test]
fn hamming_every_byte_is_word_or_neighbour_or_rejected() {
    for h in 0..=255u8 {
        match decode_hamming(h) {
            Some((v, false)) => assert_eq!(encode_hamming(v), h),
            Some((v, true)) => assert_eq!((encode_hamming(v) ^ h).count_ones(), 1),
            None => {
                for v in 0..16u8 {
                    assert!((encode_hamming(v) ^ h).count_ones() >= 2);
                }
            }
        }
    }
}
