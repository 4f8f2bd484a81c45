use shared::codec::{deserialize_crc_cobs, encode, serialize_crc_cobs, OUT_SIZE};
use shared::hamming::encode_hamming;
use shared::receiver::{Handoff, LinkReceiver};
use shared::{BlinkerOptions, Command, DateTime};

fn feed(rx: &mut LinkReceiver, frame: &[u8]) -> Vec<(usize, Handoff)> {
    let mut done = Vec::new();
    for (i, pair) in frame.chunks(2).enumerate() {
        if let Some(h) = rx.aggregate(pair[0], pair[1]) {
            done.push((i, h));
        }
    }
    done
}

#[test]
fn new_receiver_is_empty() {
    let rx = LinkReceiver::new(OUT_SIZE);
    assert_eq!(rx.cmd, vec![0u8; 108]);
    assert_eq!(rx.cmd_idx, 0);
    assert!(!rx.hamming_corrected);
}

#[test]
fn frame_completes_at_its_terminator() {
    let cmd = Command::SetDateTime(DateTime::Utc(1000));
    let frame = serialize_crc_cobs(&cmd);
    let mut rx = LinkReceiver::new(OUT_SIZE);
    let done = feed(&mut rx, &frame);
    assert_eq!(done, vec![(15, Handoff { hamming_corrected: false, hamming_err: false })]);
    assert_eq!(rx.cmd_idx, 0);
    assert_eq!(rx.cmd[0..16].to_vec(), encode(&cmd, false));
    assert_eq!(deserialize_crc_cobs::<Command>(&rx.cmd), Ok(cmd));
}

#[test]
fn corrections_are_remembered_until_hand_off() {
    let cmd = Command::RgbOff;
    let mut frame = serialize_crc_cobs(&cmd);
    frame[3] ^= 0x40;
    let mut rx = LinkReceiver::new(OUT_SIZE);
    assert_eq!(rx.aggregate(frame[0], frame[1]), None);
    assert!(!rx.hamming_corrected);
    assert_eq!(rx.aggregate(frame[2], frame[3]), None);
    assert!(rx.hamming_corrected);
    assert_eq!(rx.cmd_idx, 2);
    let done = feed(&mut rx, &frame[4..]);
    assert_eq!(done, vec![(4, Handoff { hamming_corrected: true, hamming_err: false })]);
    assert!(!rx.hamming_corrected);
    assert_eq!(deserialize_crc_cobs::<Command>(&rx.cmd), Ok(cmd));

    // the next frame starts clean
    let done = feed(&mut rx, &serialize_crc_cobs(&Command::RgbOn));
    assert_eq!(done, vec![(6, Handoff { hamming_corrected: false, hamming_err: false })]);
    assert_eq!(deserialize_crc_cobs::<Command>(&rx.cmd), Ok(Command::RgbOn));
}

#[test]
fn uncorrectable_word_ends_the_frame() {
    let mut rx = LinkReceiver::new(OUT_SIZE);
    assert_eq!(rx.aggregate(encode_hamming(6), encode_hamming(0)), None);
    // two wrong bits in the first word of the pair
    let r = rx.aggregate(encode_hamming(3) ^ 0b11, encode_hamming(9));
    assert_eq!(r, Some(Handoff { hamming_corrected: false, hamming_err: true }));
    assert_eq!(rx.cmd_idx, 0);
    assert_eq!(rx.cmd[0], 6);
    assert_eq!(rx.cmd[1], 0x90);
    // two wrong bits in the second word, one in the first
    let r = rx.aggregate(encode_hamming(3) ^ 0b1, encode_hamming(9) ^ 0b1100);
    assert_eq!(r, Some(Handoff { hamming_corrected: true, hamming_err: true }));
    assert_eq!(rx.cmd[0], 3);
}

#[test]
fn full_buffer_ends_the_frame() {
    let mut rx = LinkReceiver::new(4);
    let one = encode_hamming(1);
    let zero = encode_hamming(0);
    assert_eq!(rx.aggregate(one, zero), None);
    assert_eq!(rx.aggregate(one, one), None);
    assert_eq!(rx.aggregate(zero, one), None);
    assert_eq!(rx.cmd_idx, 3);
    assert_eq!(
        rx.aggregate(one, zero),
        Some(Handoff { hamming_corrected: false, hamming_err: false })
    );
    assert_eq!(rx.cmd, vec![0x01, 0x11, 0x10, 0x01]);
    assert_eq!(rx.cmd_idx, 0);
    // a buffer of one byte is full after every pair
    let mut tiny = LinkReceiver::new(1);
    assert!(tiny.aggregate(one, one).is_some());
    assert!(tiny.aggregate(one, one).is_some());
}

#[test]
fn old_bytes_stay_behind_the_terminator() {
    let long = Command::SetBlinker(BlinkerOptions::On {
        date_time: DateTime::Utc(5),
        freq: 2,
        duration: 10,
    });
    let mut rx = LinkReceiver::new(OUT_SIZE);
    feed(&mut rx, &serialize_crc_cobs(&long));
    let before = rx.cmd.clone();
    feed(&mut rx, &serialize_crc_cobs(&Command::RgbOn));
    assert_eq!(rx.cmd[0..7].to_vec(), encode(&Command::RgbOn, false));
    assert_eq!(rx.cmd[7..].to_vec(), before[7..].to_vec());
    assert_eq!(deserialize_crc_cobs::<Command>(&rx.cmd), Ok(Command::RgbOn));
}

#[test]
fn bytes_without_error_correction() {
    let cmd = Command::SetDateTime(DateTime::Utc(1000));
    let frame = encode(&cmd, false);
    let mut rx = LinkReceiver::new(OUT_SIZE);
    for (i, b) in frame.iter().enumerate() {
        let r = rx.aggregate_byte(*b);
        if i + 1 < frame.len() {
            assert_eq!(r, None);
            assert_eq!(rx.cmd_idx, i + 1);
        } else {
            assert_eq!(r, Some(Handoff { hamming_corrected: false, hamming_err: false }));
            assert_eq!(rx.cmd_idx, 0);
        }
    }
    assert_eq!(rx.cmd[0..frame.len()].to_vec(), frame);
    assert_eq!(deserialize_crc_cobs::<Command>(&rx.cmd), Ok(cmd));

    let mut small = LinkReceiver::new(2);
    assert_eq!(small.aggregate_byte(7), None);
    assert!(small.aggregate_byte(8).is_some());
    assert_eq!(small.cmd, vec![7, 8]);
    assert!(small.aggregate_byte(0).is_some());
    assert_eq!(small.cmd, vec![0, 8]);
}
