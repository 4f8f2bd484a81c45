//! The frame codec: checksum trailer, byte stuffing and optional forward
//! error correction around a serialized value.
//!
//! A frame is built as `payload ++ crc`, then COBS-encoded so that the only
//! zero byte is the terminator at the end, then, with error correction on,
//! expanded nibble by nibble into Hamming code words.

use crate::hamming::{code_word, decode_hamming, decoded, encode_hamming};
use crate::protocol::{Ack, Command, DeserializeError};
use crate::wire::{
    get_u32, law_parse_inverts_write, law_parsed_is_prefix, lemma_int_wire, parsed, put_u32,
    u32_wire, Payload,
};
use vstd::prelude::*;

verus! {

/// The CRC-32/CKSUM checksum of `bytes`, as the `crc` crate computes it.
pub uninterp spec fn crc32_cksum(bytes: Seq<u8>) -> u32;

/// The COBS encoding of `plain`, terminator included, as `corncobs`
/// produces it.
pub uninterp spec fn cobs_encoding(plain: Seq<u8>) -> Seq<u8>;

/// What `corncobs` decodes `encoded` to in place, or `None` where it
/// reports the input as truncated.
pub uninterp spec fn cobs_decoding(encoded: Seq<u8>) -> Option<Seq<u8>>;

/// `corncobs::CobsError`, the decoder's error; nothing is read from it.
#[verifier::external_type_specification]
#[verifier::external_body]
pub struct ExCobsError(corncobs::CobsError);

/// The largest encoded size of a message of `raw_len` bytes: one overhead
/// byte for every started run of 254 bytes (one for the empty message) and
/// the terminator.
pub open spec fn max_encoded_len(raw_len: nat) -> nat {
    raw_len + (if raw_len == 0 {
        1
    } else {
        (raw_len + 253) / 254
    }) + 1
}

/// What the encoder promises of the encoding `encoded` of `plain`: it fits
/// the size bound, holds a single zero, its last byte, and is decoded back
/// to `plain` whatever bytes follow the terminator.
pub open spec fn is_cobs_frame_of(encoded: Seq<u8>, plain: Seq<u8>) -> bool {
    &&& 1 <= encoded.len() <= max_encoded_len(plain.len())
    &&& encoded.last() == 0
    &&& forall|i: int| 0 <= i < encoded.len() - 1 ==> encoded[i] != 0
    &&& forall|tail: Seq<u8>| #[trigger] cobs_decoding(encoded + tail) == Some(plain)
}

/// `corncobs::max_encoded_len`: the bound above, for sizes that fit.
#[verifier::external_body]
fn cobs_capacity(raw_len: usize) -> (r: usize)
    requires
        max_encoded_len(raw_len as nat) <= usize::MAX,
    ensures
        r == max_encoded_len(raw_len as nat),
{
    corncobs::max_encoded_len(raw_len)
}

/// `corncobs::encode_buf`: given an output of at least the maximum encoded
/// size, writes the encoding of `bytes` at its start, leaves the bytes after
/// it unchanged and returns the encoding's length, terminator included.
#[verifier::external_body]
fn cobs_encode_buf(bytes: &[u8], output: &mut Vec<u8>) -> (n: usize)
    requires
        old(output).len() >= max_encoded_len(bytes@.len()),
    ensures
        n == cobs_encoding(bytes@).len(),
        final(output)@.len() == old(output)@.len(),
        final(output)@.take(n as int) == cobs_encoding(bytes@),
        final(output)@.skip(n as int) == old(output)@.skip(n as int),
        is_cobs_frame_of(final(output)@.take(n as int), bytes@),
{
    corncobs::encode_buf(bytes, output.as_mut_slice())
}

/// `corncobs::decode_in_place`: decodes up to the first terminator, leaves
/// the message at the start of `bytes` and returns its length; an error
/// where a run claims more bytes than are there.  The length of `bytes`
/// stays as it was.
#[verifier::external_body]
fn cobs_decode_in_place(bytes: &mut Vec<u8>) -> (r: Result<usize, corncobs::CobsError>)
    ensures
        final(bytes)@.len() == old(bytes)@.len(),
        r is Err <==> cobs_decoding(old(bytes)@) is None,
        r is Ok ==> r->Ok_0 <= old(bytes)@.len(),
        r is Ok ==> cobs_decoding(old(bytes)@) == Some(final(bytes)@.take(r->Ok_0 as int)),
{
    corncobs::decode_in_place(bytes.as_mut_slice())
}

/// `crc::Crc::<u32>::checksum` with the CRC-32/CKSUM parameters.
#[verifier::external_body]
fn checksum(bytes: &[u8]) -> (r: u32)
    ensures
        r == crc32_cksum(bytes@),
{
    crc::Crc::<u32>::new(&crc::CRC_32_CKSUM).checksum(bytes)
}

/// A value's payload followed by the checksum of that payload.
pub open spec fn plain_frame<T: Payload>(v: T) -> Seq<u8> {
    v.wire() + u32_wire(crc32_cksum(v.wire()))
}

/// What a stuffing-free frame holds: the value that starts it, provided
/// the four bytes after the value are the checksum of the value's bytes.
/// Bytes after the checksum are not looked at.
pub open spec fn plain_decoding<T: Payload>(plain: Seq<u8>) -> Result<T, DeserializeError> {
    match parsed::<T>(plain) {
        None => Err(DeserializeError::DeserializeError),
        Some((v, n)) => if plain.len() < n + 4 {
            Err(DeserializeError::DeserializeError)
        } else if plain.subrange(n as int, n as int + 4) != u32_wire(crc32_cksum(v.wire())) {
            Err(DeserializeError::CrcError)
        } else {
            Ok(v)
        },
    }
}

/// What a COBS frame holds.
pub open spec fn cobs_frame_decoding<T: Payload>(encoded: Seq<u8>) -> Result<
    T,
    DeserializeError,
> {
    match cobs_decoding(encoded) {
        None => Err(DeserializeError::DecodeError),
        Some(plain) => plain_decoding::<T>(plain),
    }
}

/// Accepts `value` if the checksum stored with it is the one computed
/// over its bytes, and reports a checksum error if not.
pub fn verify_checksum<T>(value: T, stored: u32, computed: u32) -> (r: Result<
    T,
    DeserializeError,
>)
    ensures
        r == (if stored == computed {
            Ok::<T, DeserializeError>(value)
        } else {
            Err::<T, DeserializeError>(DeserializeError::CrcError)
        }),
{
    if stored != computed {
        return Err(DeserializeError::CrcError);
    }
    Ok(value)
}

/// Checks a stuffing-free frame and returns its value: reads the value,
/// then the four bytes after it, and compares them with the checksum of
/// the value's bytes.
pub fn check_plain<T: Payload>(plain: &[u8]) -> (r: Result<T, DeserializeError>)
    ensures
        r == plain_decoding::<T>(plain@),
{
    let (value, used) = match T::read(plain) {
        Some(found) => found,
        None => {
            return Err(DeserializeError::DeserializeError);
        },
    };
    proof {
        law_parsed_is_prefix(value, plain@);
        lemma_int_wire();
        assert(plain@.take(used as int) =~= value.wire());
    }
    let stored = match get_u32(plain, used) {
        Some(crc) => crc,
        None => {
            return Err(DeserializeError::DeserializeError);
        },
    };
    let payload = vstd::slice::slice_subrange(plain, 0, used);
    let computed = checksum(payload);
    verify_checksum(value, stored, computed)
}

/// Recovers a value from a COBS frame: undoes the byte stuffing up to the
/// first terminator, reads the value and verifies the checksum that
/// follows it.  Bytes after the terminator are ignored.
pub fn deserialize_crc_cobs<T: Payload>(in_buf: &[u8]) -> (r: Result<T, DeserializeError>)
    ensures
        r == cobs_frame_decoding::<T>(in_buf@),
{
    let mut work = vstd::slice::slice_to_vec(in_buf);
    let n = match cobs_decode_in_place(&mut work) {
        Ok(n) => n,
        Err(_) => {
            return Err(DeserializeError::DecodeError);
        },
    };
    work.truncate(n);
    check_plain::<T>(work.as_slice())
}

/// Bytes set aside in a frame for the payload of a command.
pub const COMMAND_ROOM: usize = 48;

/// Bytes set aside in a frame for the payload of an acknowledgement.
pub const ACK_ROOM: usize = 4;

/// Bytes of the checksum.
pub const CRC_ROOM: usize = 4;

/// The size of the buffers that hold a frame of a command, with error
/// correction.
pub const OUT_SIZE: usize = 108;

/// The size of the buffers that hold a frame of an acknowledgement, with
/// error correction.
pub const IN_SIZE: usize = 20;

/// By how much the error correction lengthens a frame.
pub open spec fn fec_expansion(fec: bool) -> nat {
    if fec {
        2
    } else {
        1
    }
}

/// The size of a buffer with room for `room` bytes of payload: the largest
/// stuffed size of payload and checksum, times the expansion of the error
/// correction.
pub open spec fn buffer_size(room: nat, fec: bool) -> nat {
    max_encoded_len(room + CRC_ROOM as nat) * fec_expansion(fec)
}

/// The size of the buffers that hold a frame of a command.
pub fn out_size(fec: bool) -> (n: usize)
    ensures
        n == buffer_size(COMMAND_ROOM as nat, fec),
        n >= frame_capacity::<Command>(fec),
        n > 0,
{
    assert(max_encoded_len(52) == 54 && max_encoded_len(31) == 33);
    if fec {
        OUT_SIZE
    } else {
        OUT_SIZE / 2
    }
}

/// The size of the buffers that hold a frame of an acknowledgement.
pub fn in_size(fec: bool) -> (n: usize)
    ensures
        n == buffer_size(ACK_ROOM as nat, fec),
        n >= frame_capacity::<Ack>(fec),
        n > 0,
{
    assert(max_encoded_len(8) == 10 && max_encoded_len(5) == 7);
    if fec {
        IN_SIZE
    } else {
        IN_SIZE / 2
    }
}

/// The low four bits of a byte.
pub open spec fn low_nibble(b: u8) -> u8 {
    b & 0xf
}

/// The high four bits of a byte, moved down.
pub open spec fn high_nibble(b: u8) -> u8 {
    (b >> 4) & 0xf
}

/// The byte made of two nibbles.
pub open spec fn joined(low: u8, high: u8) -> u8 {
    low | (high << 4)
}

/// A byte string with error correction applied: two code words for every
/// byte, the one of the low nibble first.
pub open spec fn fec_expanded(bytes: Seq<u8>) -> Seq<u8> {
    Seq::new(
        2 * bytes.len(),
        |i: int|
            if i % 2 == 0 {
                code_word(low_nibble(bytes[i / 2]))
            } else {
                code_word(high_nibble(bytes[i / 2]))
            },
    )
}

/// What a pair of received bytes stands for: the byte whose low nibble
/// came first, and whether either half needed correction; `None` when
/// either half cannot be corrected.
pub open spec fn pair_decoded(first: u8, second: u8) -> Option<(u8, bool)> {
    match (decoded(first), decoded(second)) {
        (Some((low, c0)), Some((high, c1))) => Some((joined(low, high), c0 || c1)),
        _ => None,
    }
}

/// Pair number `i` of a received byte string.
pub open spec fn pair_at(bytes: Seq<u8>, i: int) -> Option<(u8, bool)> {
    pair_decoded(bytes[2 * i], bytes[2 * i + 1])
}

/// A received byte string with the error correction taken off: the data
/// bytes of its pairs and whether any pair needed correction; `None` when
/// some pair cannot be corrected.  A last byte without a partner is
/// ignored.
pub open spec fn fec_collapsed(bytes: Seq<u8>) -> Option<(Seq<u8>, bool)> {
    let pairs = bytes.len() as int / 2;
    if forall|i: int| 0 <= i < pairs ==> (#[trigger] pair_at(bytes, i)) is Some {
        Some(
            (
                Seq::new(pairs as nat, |i: int| pair_at(bytes, i).unwrap().0),
                exists|i: int| 0 <= i < pairs && (#[trigger] pair_at(bytes, i)).unwrap().1,
            ),
        )
    } else {
        None
    }
}

proof fn lemma_nibbles(b: u8)
    ensures
        low_nibble(b) < 16,
        high_nibble(b) < 16,
        joined(low_nibble(b), high_nibble(b)) == b,
{
    assert((b & 0xf) < 16 && ((b >> 4) & 0xf) < 16 && (b & 0xf) | (((b >> 4) & 0xf) << 4) == b)
        by (bit_vector);
}

/// Pair number `i` of an expanded byte string holds the two code words of
/// byte `i`, and decodes to that byte with no correction.
pub proof fn lemma_expanded_pair(bytes: Seq<u8>, i: int)
    requires
        0 <= i < bytes.len(),
    ensures
        fec_expanded(bytes).len() == 2 * bytes.len(),
        fec_expanded(bytes)[2 * i] == code_word(low_nibble(bytes[i])),
        fec_expanded(bytes)[2 * i + 1] == code_word(high_nibble(bytes[i])),
        decoded(code_word(low_nibble(bytes[i]))) == Some((low_nibble(bytes[i]), false)),
        decoded(code_word(high_nibble(bytes[i]))) == Some((high_nibble(bytes[i]), false)),
        joined(low_nibble(bytes[i]), high_nibble(bytes[i])) == bytes[i],
        pair_at(fec_expanded(bytes), i) == Some((bytes[i], false)),
        low_nibble(bytes[i]) < 16,
        high_nibble(bytes[i]) < 16,
{
    lemma_nibbles(bytes[i]);
    crate::hamming::law_clean_word_decodes(low_nibble(bytes[i]));
    crate::hamming::law_clean_word_decodes(high_nibble(bytes[i]));
    assert((2 * i) % 2 == 0 && (2 * i) / 2 == i);
    assert((2 * i + 1) % 2 == 1 && (2 * i + 1) / 2 == i);
}

/// A byte string whose pairs all decode is collapsed to the bytes of its
/// pairs; a correction is reported when some pair reports one.
pub proof fn lemma_collapsed_pairs(wide: Seq<u8>, data: Seq<u8>, fixed: bool)
    requires
        wide.len() == 2 * data.len(),
        forall|i: int|
            0 <= i < data.len() ==> (#[trigger] pair_at(wide, i)) is Some && pair_at(
                wide,
                i,
            ).unwrap().0 == data[i],
        fixed <==> exists|i: int| 0 <= i < data.len() && (#[trigger] pair_at(wide, i)).unwrap().1,
    ensures
        fec_collapsed(wide) == Some((data, fixed)),
{
    assert(wide.len() as int / 2 == data.len());
    assert(Seq::new(data.len(), |i: int| pair_at(wide, i).unwrap().0) =~= data);
}

/// Expanding and collapsing gives the bytes back, with no correction
/// reported.
pub proof fn law_collapse_inverts_expand(bytes: Seq<u8>)
    ensures
        fec_collapsed(fec_expanded(bytes)) == Some((bytes, false)),
{
    let wide = fec_expanded(bytes);
    assert forall|i: int| 0 <= i < bytes.len() implies #[trigger] pair_at(wide, i) == Some(
        (bytes[i], false),
    ) by {
        lemma_expanded_pair(bytes, i);
    }
    lemma_collapsed_pairs(wide, bytes, false);
}

/// Whether pair number `j` of `wide` holds the two code words of `b`.
pub open spec fn holds_words_of(wide: Seq<u8>, j: int, b: u8) -> bool {
    wide[2 * j] == code_word(low_nibble(b)) && wide[2 * j + 1] == code_word(high_nibble(b))
}

/// Applies the error correction: every byte becomes two code words.
pub fn fec_expand(bytes: &[u8]) -> (out: Vec<u8>)
    ensures
        out@ == fec_expanded(bytes@),
{
    let mut out: Vec<u8> = Vec::new();
    let mut i: usize = 0;
    while i < bytes.len()
        invariant
            i <= bytes.len(),
            out@.len() == 2 * i,
            forall|j: int| 0 <= j < i ==> #[trigger] holds_words_of(out@, j, bytes@[j]),
        decreases bytes.len() - i,
    {
        let b = bytes[i];
        proof {
            lemma_nibbles(b);
        }
        let first_half = b & 0xF;
        let second_half = (b >> 4) & 0xF;
        let ghost before = out@;
        out.push(encode_hamming(first_half));
        out.push(encode_hamming(second_half));
        proof {
            assert forall|j: int| 0 <= j < i + 1 implies #[trigger] holds_words_of(
                out@,
                j,
                bytes@[j],
            ) by {
                if j < i {
                    assert(holds_words_of(before, j, bytes@[j]));
                }
            }
        }
        i += 1;
    }
    proof {
        assert forall|k: int| 0 <= k < out@.len() implies out@[k] == fec_expanded(bytes@)[k] by {
            let j = k / 2;
            assert(holds_words_of(out@, j, bytes@[j]));
        }
        assert(out@ =~= fec_expanded(bytes@));
    }
    out
}

/// Takes the error correction off: every pair of bytes becomes one byte.
/// Returns the bytes and whether any of them needed correction, or `None`
/// when a byte of some pair has two wrong bits.
pub fn fec_collapse(bytes: &[u8]) -> (r: Option<(Vec<u8>, bool)>)
    ensures
        match r {
            Some((data, corrected)) => fec_collapsed(bytes@) == Some((data@, corrected)),
            None => fec_collapsed(bytes@) is None,
        },
{
    let pairs: usize = bytes.len() / 2;
    let mut data: Vec<u8> = Vec::new();
    let mut corrected: bool = false;
    let mut i: usize = 0;
    while i < pairs
        invariant
            pairs == bytes.len() / 2,
            i <= pairs,
            data@.len() == i,
            forall|j: int| 0 <= j < i ==> (#[trigger] pair_at(bytes@, j)) == Some((data@[j], pair_at(bytes@, j).unwrap().1)),
            corrected <==> exists|j: int| 0 <= j < i && (#[trigger] pair_at(bytes@, j)).unwrap().1,
        decreases pairs - i,
    {
        let (low, c0) = match decode_hamming(bytes[2 * i]) {
            Some(half) => half,
            None => {
                assert(pair_at(bytes@, i as int) is None);
                return None;
            },
        };
        let (high, c1) = match decode_hamming(bytes[2 * i + 1]) {
            Some(half) => half,
            None => {
                assert(pair_at(bytes@, i as int) is None);
                return None;
            },
        };
        proof {
            assert(pair_at(bytes@, i as int) == Some((joined(low, high), c0 || c1)));
            if c0 || c1 {
                assert(pair_at(bytes@, i as int).unwrap().1);
            }
        }
        data.push(low | (high << 4));
        if c0 || c1 {
            corrected = true;
        }
        i += 1;
    }
    proof {
        assert(data@ =~= Seq::new(pairs as nat, |j: int| pair_at(bytes@, j).unwrap().0));
    }
    Some((data, corrected))
}

/// The frame of `v`: its payload and checksum, byte-stuffed, and with
/// `fec` also expanded into code words.
pub open spec fn encoding<T: Payload>(v: T, fec: bool) -> Seq<u8> {
    let stuffed = cobs_encoding(plain_frame(v));
    if fec {
        fec_expanded(stuffed)
    } else {
        stuffed
    }
}

/// What a received frame holds, and whether the error correction had to
/// repair it.  With `fec` the bytes are first collapsed pair by pair; a
/// pair that cannot be corrected fails the whole frame.
pub open spec fn decoding<T: Payload>(bytes: Seq<u8>, fec: bool) -> Result<
    (T, bool),
    DeserializeError,
> {
    if fec {
        match fec_collapsed(bytes) {
            None => Err(DeserializeError::HammingError),
            Some((stuffed, corrected)) => match cobs_frame_decoding::<T>(stuffed) {
                Ok(v) => Ok((v, corrected)),
                Err(e) => Err(e),
            },
        }
    } else {
        match cobs_frame_decoding::<T>(bytes) {
            Ok(v) => Ok((v, false)),
            Err(e) => Err(e),
        }
    }
}

/// The most bytes a frame of a `T` can take.
pub open spec fn frame_capacity<T: Payload>(fec: bool) -> nat {
    max_encoded_len(T::wire_limit() + CRC_ROOM as nat) * fec_expansion(fec)
}

/// A payload with its checksum is read back as that payload.
pub proof fn law_plain_round_trip<T: Payload>(v: T, tail: Seq<u8>)
    ensures
        plain_decoding::<T>(plain_frame(v) + tail) == Ok::<T, DeserializeError>(v),
{
    lemma_int_wire();
    let crc = u32_wire(crc32_cksum(v.wire()));
    let plain = plain_frame(v) + tail;
    assert(plain =~= v.wire() + (crc + tail));
    law_parse_inverts_write(v, crc + tail);
    assert(plain.subrange(v.wire().len() as int, v.wire().len() as int + 4) =~= crc);
}

/// The checksum guards the payload: where the payload of `sent` is
/// exchanged for that of `forged` and the checksum is left as it was, the
/// frame is turned down with a checksum error unless both payloads have
/// the same checksum.
pub proof fn law_checksum_guards_payload<T: Payload>(sent: T, forged: T, tail: Seq<u8>)
    ensures
        plain_decoding::<T>(forged.wire() + u32_wire(crc32_cksum(sent.wire())) + tail) == (
        if crc32_cksum(forged.wire()) == crc32_cksum(sent.wire()) {
            Ok::<T, DeserializeError>(forged)
        } else {
            Err::<T, DeserializeError>(DeserializeError::CrcError)
        }),
{
    lemma_int_wire();
    let crc = u32_wire(crc32_cksum(sent.wire()));
    let plain = forged.wire() + crc + tail;
    assert(plain =~= forged.wire() + (crc + tail));
    law_parse_inverts_write(forged, crc + tail);
    assert(plain.subrange(forged.wire().len() as int, forged.wire().len() as int + 4) =~= crc);
}

/// Builds the frame of `value`.  The frame decodes back to `value` with no
/// correction reported, and fits the capacity of its type.
pub fn encode<T: Payload>(value: &T, fec: bool) -> (out: Vec<u8>)
    ensures
        out@ == encoding(*value, fec),
        decoding::<T>(out@, fec) == Ok::<(T, bool), DeserializeError>((*value, false)),
        out@.len() <= frame_capacity::<T>(fec),
        is_cobs_frame_of(cobs_encoding(plain_frame(*value)), plain_frame(*value)),
{
    let mut plain: Vec<u8> = Vec::new();
    value.write(&mut plain);
    let crc = checksum(plain.as_slice());
    put_u32(&mut plain, crc);
    proof {
        lemma_int_wire();
        value.lemma_wire_len();
        assert(plain@ =~= plain_frame(*value));
        lemma_max_encoded_len_monotonic(plain@.len(), T::wire_limit() + 4);
    }
    let room = cobs_capacity(plain.len());
    let mut stuffed: Vec<u8> = vec![0u8; room];
    let n = cobs_encode_buf(plain.as_slice(), &mut stuffed);
    stuffed.truncate(n);
    proof {
        assert(stuffed@ == cobs_encoding(plain_frame(*value)));
        assert(stuffed@ + Seq::<u8>::empty() =~= stuffed@);
        assert(cobs_decoding(stuffed@ + Seq::<u8>::empty()) == Some(plain_frame(*value)));
        assert(plain_frame(*value) + Seq::<u8>::empty() =~= plain_frame(*value));
        law_plain_round_trip(*value, Seq::empty());
        law_collapse_inverts_expand(stuffed@);
    }
    if fec {
        fec_expand(stuffed.as_slice())
    } else {
        stuffed
    }
}

/// The size bound grows with the message.
pub proof fn lemma_max_encoded_len_monotonic(a: nat, b: nat)
    requires
        a <= b,
    ensures
        max_encoded_len(a) <= max_encoded_len(b),
{
}

/// Recovers a value from a received frame and reports whether the error
/// correction repaired anything.
pub fn decode<T: Payload>(in_buf: &[u8], fec: bool) -> (r: Result<(T, bool), DeserializeError>)
    ensures
        r == decoding::<T>(in_buf@, fec),
{
    if fec {
        match fec_collapse(in_buf) {
            None => Err(DeserializeError::HammingError),
            Some((stuffed, corrected)) => match deserialize_crc_cobs::<T>(stuffed.as_slice()) {
                Ok(v) => Ok((v, corrected)),
                Err(e) => Err(e),
            },
        }
    } else {
        match deserialize_crc_cobs::<T>(in_buf) {
            Ok(v) => Ok((v, false)),
            Err(e) => Err(e),
        }
    }
}

/// Serializes `t` into a frame for the link: payload, checksum, byte
/// stuffing, and every byte expanded into two Hamming code words.
pub fn serialize_crc_cobs<T: Payload>(t: &T) -> (out: Vec<u8>)
    ensures
        out@ == encoding(*t, true),
        decoding::<T>(out@, true) == Ok::<(T, bool), DeserializeError>((*t, false)),
        out@.len() <= frame_capacity::<T>(true),
        is_cobs_frame_of(cobs_encoding(plain_frame(*t)), plain_frame(*t)),
{
    encode(t, true)
}

} // verus!
