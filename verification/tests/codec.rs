use serde::ser::{Serialize, SerializeStructVariant, Serializer};
use shared::codec::{
    check_plain, decode, deserialize_crc_cobs, encode, fec_collapse, fec_expand, in_size,
    out_size, serialize_crc_cobs, verify_checksum, IN_SIZE, OUT_SIZE,
};
use shared::hamming::encode_hamming;
use shared::wire::{get_u32, get_u64, put_u32, put_u64, Payload};
use shared::{Ack, BlinkerOptions, Command, DateTime, DeserializeError};

// The same values with the serializer's traits written out, to hold the
// library's byte layout against the serializer itself.

enum WireDateTime {
    Now,
    Utc(u64),
}

enum WireBlinkerOptions {
    Off,
    On { date_time: WireDateTime, freq: u64, duration: u64 },
}

enum WireCommand {
    SetBlinker(WireBlinkerOptions),
    SetDateTime(WireDateTime),
    RgbOn,
    RgbOff,
}

enum WireAck {
    Okay,
    Recovered,
    NotOk,
}

impl Serialize for WireDateTime {
    fn serialize<S: Serializer>(&self, s: S) -> Result<S::Ok, S::Error> {
        match self {
            WireDateTime::Now => s.serialize_unit_variant("DateTime", 0, "Now"),
            WireDateTime::Utc(t) => s.serialize_newtype_variant("DateTime", 1, "Utc", t),
        }
    }
}

impl Serialize for WireBlinkerOptions {
    fn serialize<S: Serializer>(&self, s: S) -> Result<S::Ok, S::Error> {
        match self {
            WireBlinkerOptions::Off => s.serialize_unit_variant("BlinkerOptions", 0, "Off"),
            WireBlinkerOptions::On { date_time, freq, duration } => {
                let mut sv = s.serialize_struct_variant("BlinkerOptions", 1, "On", 3)?;
                sv.serialize_field("date_time", date_time)?;
                sv.serialize_field("freq", freq)?;
                sv.serialize_field("duration", duration)?;
                sv.end()
            }
        }
    }
}

impl Serialize for WireCommand {
    fn serialize<S: Serializer>(&self, s: S) -> Result<S::Ok, S::Error> {
        match self {
            WireCommand::SetBlinker(o) => s.serialize_newtype_variant("Command", 0, "SetBlinker", o),
            WireCommand::SetDateTime(d) => {
                s.serialize_newtype_variant("Command", 1, "SetDateTime", d)
            }
            WireCommand::RgbOn => s.serialize_unit_variant("Command", 2, "RgbOn"),
            WireCommand::RgbOff => s.serialize_unit_variant("Command", 3, "RgbOff"),
        }
    }
}

impl Serialize for WireAck {
    fn serialize<S: Serializer>(&self, s: S) -> Result<S::Ok, S::Error> {
        match self {
            WireAck::Okay => s.serialize_unit_variant("Ack", 0, "Ok"),
            WireAck::Recovered => s.serialize_unit_variant("Ack", 1, "Recovered"),
            WireAck::NotOk => s.serialize_unit_variant("Ack", 2, "NotOk"),
        }
    }
}

fn wire_date_time(d: DateTime) -> WireDateTime {
    match d {
        DateTime::Now => WireDateTime::Now,
        DateTime::Utc(t) => WireDateTime::Utc(t),
    }
}

fn wire_command(c: Command) -> WireCommand {
    match c {
        Command::SetBlinker(BlinkerOptions::Off) => WireCommand::SetBlinker(WireBlinkerOptions::Off),
        Command::SetBlinker(BlinkerOptions::On { date_time, freq, duration }) => {
            WireCommand::SetBlinker(WireBlinkerOptions::On {
                date_time: wire_date_time(date_time),
                freq,
                duration,
            })
        }
        Command::SetDateTime(d) => WireCommand::SetDateTime(wire_date_time(d)),
        Command::RgbOn => WireCommand::RgbOn,
        Command::RgbOff => WireCommand::RgbOff,
    }
}

fn wire_ack(a: Ack) -> WireAck {
    match a {
        Ack::Okay => WireAck::Okay,
        Ack::Recovered => WireAck::Recovered,
        Ack::NotOk => WireAck::NotOk,
    }
}

/// Payload and checksum, as the serializer and the checksum crate give
/// them.
fn reference_plain<T: Serialize>(t: &T) -> Vec<u8> {
    let mut buf = [0u8; 64];
    let n_ser = ssmarshal::serialize(&mut buf, t).unwrap();
    let crc = crc::Crc::<u32>::new(&crc::CRC_32_CKSUM).checksum(&buf[0..n_ser]);
    let n_crc = ssmarshal::serialize(&mut buf[n_ser..], &crc).unwrap();
    buf[0..n_ser + n_crc].to_vec()
}

fn reference_stuffed(plain: &[u8]) -> Vec<u8> {
    let mut out = vec![0u8; corncobs::max_encoded_len(plain.len())];
    let n = corncobs::encode_buf(plain, &mut out);
    out.truncate(n);
    out
}

fn reference_frame<T: Serialize>(t: &T) -> Vec<u8> {
    let mut out = Vec::new();
    for b in reference_stuffed(&reference_plain(t)) {
        out.push(encode_hamming(b & 0xF));
        out.push(encode_hamming(b >> 4 & 0xF));
    }
    out
}

fn sample_commands() -> Vec<Command> {
    vec![
        Command::RgbOn,
        Command::RgbOff,
        Command::SetDateTime(DateTime::Now),
        Command::SetDateTime(DateTime::Utc(0)),
        Command::SetDateTime(DateTime::Utc(1000)),
        Command::SetDateTime(DateTime::Utc(u64::MAX)),
        Command::SetDateTime(DateTime::Utc(0x0102_0304_0506_0708)),
        Command::SetBlinker(BlinkerOptions::Off),
        Command::SetBlinker(BlinkerOptions::On { date_time: DateTime::Now, freq: 1, duration: 1 }),
        Command::SetBlinker(BlinkerOptions::On {
            date_time: DateTime::Utc(5),
            freq: 2,
            duration: 10,
        }),
        Command::SetBlinker(BlinkerOptions::On {
            date_time: DateTime::Utc(u64::MAX),
            freq: u64::MAX,
            duration: u64::MAX,
        }),
        Command::SetBlinker(BlinkerOptions::On {
            date_time: DateTime::Utc(0x1122_3344_5566_7788),
            freq: 0,
            duration: 0x00ff_00ff_00ff_00ff,
        }),
    ]
}

fn sample_acks() -> Vec<Ack> {
    vec![Ack::Okay, Ack::Recovered, Ack::NotOk]
}

#[test]
fn round_trip_commands_with_fec() {
    for cmd in sample_commands() {
        let frame = encode(&cmd, true);
        assert_eq!(decode::<Command>(&frame, true), Ok((cmd, false)));
    }
}

#[test]
fn round_trip_commands_without_fec() {
    for cmd in sample_commands() {
        let frame = encode(&cmd, false);
        assert_eq!(decode::<Command>(&frame, false), Ok((cmd, false)));
        assert_eq!(deserialize_crc_cobs::<Command>(&frame), Ok(cmd));
    }
}

#[test]
fn round_trip_acks() {
    for ack in sample_acks() {
        let frame = serialize_crc_cobs(&ack);
        assert_eq!(decode::<Ack>(&frame, true), Ok((ack, false)));
        let bare = encode(&ack, false);
        assert_eq!(deserialize_crc_cobs::<Ack>(&bare), Ok(ack));
    }
}

#[test]
fn frames_match_the_serializer() {
    for cmd in sample_commands() {
        assert_eq!(serialize_crc_cobs(&cmd), reference_frame(&wire_command(cmd)));
        assert_eq!(encode(&cmd, false), reference_stuffed(&reference_plain(&wire_command(cmd))));
    }
    for ack in sample_acks() {
        assert_eq!(serialize_crc_cobs(&ack), reference_frame(&wire_ack(ack)));
    }
}

#[test]
fn payloads_match_the_serializer() {
    for cmd in sample_commands() {
        let mut out = Vec::new();
        cmd.write(&mut out);
        let mut buf = [0u8; 64];
        let n = ssmarshal::serialize(&mut buf, &wire_command(cmd)).unwrap();
        assert_eq!(out, buf[0..n].to_vec());
        assert_eq!(Command::read(&out), Some((cmd, n)));
    }
}

#[test]
fn frames_of_the_serializer_decode() {
    for cmd in sample_commands() {
        let frame = reference_frame(&wire_command(cmd));
        assert_eq!(decode::<Command>(&frame, true), Ok((cmd, false)));
    }
}

#[test]
fn exact_frame_of_ack_ok() {
    // payload 00, checksum ffffffff
    assert_eq!(encode(&Ack::Okay, false), vec![1, 5, 255, 255, 255, 255, 0]);
    assert_eq!(
        serialize_crc_cobs(&Ack::Okay),
        vec![135, 0, 45, 0, 255, 255, 255, 255, 255, 255, 255, 255, 0, 0]
    );
}

#[test]
fn exact_frame_of_ack_not_ok() {
    // payload 02, checksum f67dc491, least significant byte first
    assert_eq!(encode(&Ack::NotOk, false), vec![6, 2, 145, 196, 125, 246, 0]);
    assert_eq!(
        serialize_crc_cobs(&Ack::NotOk),
        vec![51, 0, 153, 0, 135, 204, 170, 225, 102, 180, 51, 255, 0, 0]
    );
}

#[test]
fn exact_frame_of_set_date_time() {
    let cmd = Command::SetDateTime(DateTime::Utc(1000));
    assert_eq!(
        encode(&cmd, false),
        vec![5, 1, 1, 232, 3, 1, 1, 1, 1, 1, 5, 163, 51, 138, 16, 0]
    );
    assert_eq!(
        serialize_crc_cobs(&cmd),
        vec![
            45, 0, 135, 0, 135, 0, 75, 120, 30, 0, 135, 0, 135, 0, 135, 0, 135, 0, 135, 0, 45, 0,
            30, 210, 30, 30, 210, 75, 0, 135, 0, 0
        ]
    );
}

#[test]
fn exact_payload_of_blinker_on() {
    let cmd = Command::SetBlinker(BlinkerOptions::On {
        date_time: DateTime::Utc(5),
        freq: 2,
        duration: 10,
    });
    let mut out = Vec::new();
    cmd.write(&mut out);
    assert_eq!(
        out,
        vec![0, 1, 1, 5, 0, 0, 0, 0, 0, 0, 0, 2, 0, 0, 0, 0, 0, 0, 0, 10, 0, 0, 0, 0, 0, 0, 0]
    );
    assert_eq!(serialize_crc_cobs(&cmd).len(), 66);
}

#[test]
fn frames_fit_their_buffers() {
    assert_eq!(OUT_SIZE, corncobs::max_encoded_len(48 + 4) * 2);
    assert_eq!(IN_SIZE, corncobs::max_encoded_len(4 + 4) * 2);
    assert_eq!(OUT_SIZE, 108);
    assert_eq!(IN_SIZE, 20);
    assert_eq!((out_size(true), out_size(false)), (108, 54));
    assert_eq!((in_size(true), in_size(false)), (20, 10));
    assert_eq!(out_size(false), corncobs::max_encoded_len(48 + 4));
    assert_eq!(in_size(false), corncobs::max_encoded_len(4 + 4));
    for cmd in sample_commands() {
        assert!(serialize_crc_cobs(&cmd).len() <= OUT_SIZE);
        assert!(encode(&cmd, false).len() <= out_size(false));
    }
    for ack in sample_acks() {
        assert!(serialize_crc_cobs(&ack).len() <= IN_SIZE);
        assert!(encode(&ack, false).len() <= in_size(false));
    }
}

#[test]
fn stuffed_frame_has_one_zero_at_its_end() {
    for cmd in sample_commands() {
        let frame = encode(&cmd, false);
        assert_eq!(frame.iter().filter(|b| **b == 0).count(), 1);
        assert_eq!(*frame.last().unwrap(), 0);
    }
}

#[test]
fn bytes_after_the_terminator_are_ignored() {
    for cmd in sample_commands() {
        let mut frame = encode(&cmd, false);
        frame.extend_from_slice(&[7, 0, 200, 3, 0, 0, 9]);
        assert_eq!(deserialize_crc_cobs::<Command>(&frame), Ok(cmd));
    }
}

#[test]
fn crc_tamper_is_detected() {
    // every single-bit flip in the integer of the payload
    let cmd = Command::SetDateTime(DateTime::Utc(0x0102_0304_0506_0708));
    let plain = reference_plain(&wire_command(cmd));
    assert_eq!(plain.len(), 14);
    for byte in 2..10 {
        for bit in 0..8 {
            let mut bad = plain.clone();
            bad[byte] ^= 1 << bit;
            let frame = reference_stuffed(&bad);
            assert_eq!(deserialize_crc_cobs::<Command>(&frame), Err(DeserializeError::CrcError));
            assert_eq!(decode::<Command>(&frame, false), Err(DeserializeError::CrcError));
        }
    }
}

#[test]
fn crc_tamper_anywhere_in_payload_is_rejected() {
    for cmd in sample_commands() {
        let plain = reference_plain(&wire_command(cmd));
        let payload_len = plain.len() - 4;
        for byte in 0..payload_len {
            for bit in 0..8 {
                let mut bad = plain.clone();
                bad[byte] ^= 1 << bit;
                let frame = reference_stuffed(&bad);
                assert!(deserialize_crc_cobs::<Command>(&frame).is_err());
            }
        }
    }
}

#[test]
fn tampered_checksum_is_detected() {
    let plain = reference_plain(&wire_command(Command::RgbOn));
    for byte in 1..5 {
        for bit in 0..8 {
            let mut bad = plain.clone();
            bad[byte] ^= 1 << bit;
            let frame = reference_stuffed(&bad);
            assert_eq!(deserialize_crc_cobs::<Command>(&frame), Err(DeserializeError::CrcError));
        }
    }
}

#[test]
fn broken_stuffing_is_a_decode_error() {
    // the run claims four bytes, one is there
    assert_eq!(deserialize_crc_cobs::<Command>(&[5, 1]), Err(DeserializeError::DecodeError));
    assert_eq!(decode::<Ack>(&[9, 1, 2, 0], false), Err(DeserializeError::DecodeError));
}

#[test]
fn unknown_variant_is_a_deserialize_error() {
    let frame = reference_stuffed(&[4, 1, 2, 3, 4]);
    assert_eq!(deserialize_crc_cobs::<Command>(&frame), Err(DeserializeError::DeserializeError));
    let frame = reference_stuffed(&[3, 1, 2, 3, 4]);
    assert_eq!(deserialize_crc_cobs::<Ack>(&frame), Err(DeserializeError::DeserializeError));
}

#[test]
fn short_payload_is_a_deserialize_error() {
    // an absolute time with only three of its eight bytes
    let frame = reference_stuffed(&[1, 1, 9, 9, 9]);
    assert_eq!(deserialize_crc_cobs::<Command>(&frame), Err(DeserializeError::DeserializeError));
    // nothing at all
    assert_eq!(deserialize_crc_cobs::<Command>(&[0]), Err(DeserializeError::DeserializeError));
    assert_eq!(deserialize_crc_cobs::<Command>(&[]), Err(DeserializeError::DeserializeError));
}

#[test]
fn missing_checksum_is_a_deserialize_error() {
    let frame = reference_stuffed(&[2, 145, 196]);
    assert_eq!(deserialize_crc_cobs::<Command>(&frame), Err(DeserializeError::DeserializeError));
}

#[test]
fn double_bit_error_is_a_hamming_error() {
    let mut frame = serialize_crc_cobs(&Command::RgbOn);
    frame[4] ^= 0b0000_0110;
    assert_eq!(decode::<Command>(&frame, true), Err(DeserializeError::HammingError));
}

#[test]
fn single_bit_errors_are_corrected_and_reported() {
    let cmd = Command::SetBlinker(BlinkerOptions::On {
        date_time: DateTime::Utc(5),
        freq: 2,
        duration: 10,
    });
    let frame = serialize_crc_cobs(&cmd);
    for byte in 0..frame.len() {
        for bit in 0..8 {
            let mut bad = frame.clone();
            bad[byte] ^= 1 << bit;
            assert_eq!(decode::<Command>(&bad, true), Ok((cmd, true)));
        }
    }
}

#[test]
fn one_flip_in_every_code_word_is_corrected() {
    let cmd = Command::SetDateTime(DateTime::Utc(1000));
    let mut frame = serialize_crc_cobs(&cmd);
    for (i, b) in frame.iter_mut().enumerate() {
        *b ^= 1 << (i % 8);
    }
    assert_eq!(decode::<Command>(&frame, true), Ok((cmd, true)));
}

#[test]
fn expand_and_collapse() {
    assert_eq!(fec_expand(&[0x00, 0x1f, 0xa5]), vec![
        encode_hamming(0x0),
        encode_hamming(0x0),
        encode_hamming(0xf),
        encode_hamming(0x1),
        encode_hamming(0x5),
        encode_hamming(0xa),
    ]);
    let all: Vec<u8> = (0..=255).collect();
    assert_eq!(fec_collapse(&fec_expand(&all)), Some((all, false)));
    assert_eq!(fec_collapse(&[]), Some((vec![], false)));
    // a last byte without a partner is ignored
    assert_eq!(fec_collapse(&[135, 0, 45]), Some((vec![1], false)));
    // two wrong bits in the second word of the second pair
    assert_eq!(fec_collapse(&[135, 0, 45, 3]), None);
    // one wrong bit in the first word
    assert_eq!(fec_collapse(&[134, 0, 45, 0]), Some((vec![1, 5], true)));
}

#[test]
fn integers_are_little_endian() {
    let mut out = vec![9];
    put_u64(&mut out, 0x0102_0304_0506_0708);
    put_u32(&mut out, 0xa1b2_c3d4);
    assert_eq!(out, vec![9, 8, 7, 6, 5, 4, 3, 2, 1, 0xd4, 0xc3, 0xb2, 0xa1]);
    assert_eq!(get_u64(&out, 1), Some(0x0102_0304_0506_0708));
    assert_eq!(get_u32(&out, 9), Some(0xa1b2_c3d4));
    assert_eq!(get_u32(&out, 0), Some(0x0607_0809));
    assert_eq!(get_u64(&out, 5), Some(0xa1b2_c3d4_0102_0304));
    assert_eq!(get_u64(&out, 6), None);
    assert_eq!(get_u32(&out, 10), None);
    assert_eq!(get_u32(&out, usize::MAX), None);
    assert_eq!(get_u64(&[], 0), None);
}

#[test]
fn reading_stops_at_the_end_of_the_value() {
    assert_eq!(Command::read(&[2, 77, 78]), Some((Command::RgbOn, 1)));
    assert_eq!(Command::read(&[1, 0, 77]), Some((Command::SetDateTime(DateTime::Now), 2)));
    assert_eq!(
        Command::read(&[1, 1, 1, 0, 0, 0, 0, 0, 0, 0, 77]),
        Some((Command::SetDateTime(DateTime::Utc(1)), 10))
    );
    assert_eq!(Command::read(&[0, 0]), Some((Command::SetBlinker(BlinkerOptions::Off), 2)));
    assert_eq!(Command::read(&[0, 2]), None);
    assert_eq!(Command::read(&[1, 2]), None);
    assert_eq!(Command::read(&[0]), None);
    assert_eq!(Command::read(&[]), None);
    assert_eq!(Ack::read(&[1, 1]), Some((Ack::Recovered, 1)));
    assert_eq!(Ack::read(&[3]), None);
    assert_eq!(DateTime::read(&[1, 1, 2, 3, 4, 5, 6, 7]), None);
    assert_eq!(BlinkerOptions::read(&[1, 0, 1, 0, 0, 0, 0, 0, 0, 0, 2, 0, 0, 0, 0, 0, 0]), None);
    assert_eq!(
        BlinkerOptions::read(&[1, 0, 1, 0, 0, 0, 0, 0, 0, 0, 2, 0, 0, 0, 0, 0, 0, 0]),
        Some((BlinkerOptions::On { date_time: DateTime::Now, freq: 1, duration: 2 }, 18))
    );
}

#[test]
fn checksum_comparison() {
    assert_eq!(verify_checksum(Command::RgbOn, 0xf67dc491, 0xf67dc491), Ok(Command::RgbOn));
    assert_eq!(
        verify_checksum(Command::RgbOn, 0xf67dc491, 0xf67dc490),
        Err(DeserializeError::CrcError)
    );
    assert_eq!(verify_checksum(Ack::NotOk, 0, 0), Ok(Ack::NotOk));
}

#[test]
fn plain_frames() {
    // payload 02 with its checksum f67dc491, then bytes that are not looked at
    assert_eq!(check_plain::<Command>(&[2, 0x91, 0xc4, 0x7d, 0xf6]), Ok(Command::RgbOn));
    assert_eq!(check_plain::<Ack>(&[2, 0x91, 0xc4, 0x7d, 0xf6, 9, 9]), Ok(Ack::NotOk));
    assert_eq!(
        check_plain::<Command>(&[2, 0x91, 0xc4, 0x7d, 0xf7]),
        Err(DeserializeError::CrcError)
    );
    assert_eq!(
        check_plain::<Command>(&[2, 0x91, 0xc4, 0x7d]),
        Err(DeserializeError::DeserializeError)
    );
    assert_eq!(check_plain::<Command>(&[7, 0, 0, 0, 0]), Err(DeserializeError::DeserializeError));
}
