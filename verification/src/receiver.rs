//! The link receiver: turns the stream of received bytes into frames.
//!
//! With error correction, bytes arrive in pairs, each byte one Hamming
//! code word, and every pair yields one byte of the frame; without it,
//! every received byte is a byte of the frame.  The byte is stored at the
//! running index.  A frame is complete when the stored byte is the
//! terminator, when the buffer is full, or when a code word cannot be
//! corrected; the receiver then hands the buffer over and starts the next
//! frame at index 0.  The buffer is not cleared in between: what follows
//! the terminator is left over from earlier frames.

use crate::codec::{cobs_decoding, fec_expanded, is_cobs_frame_of, joined, lemma_expanded_pair};
use crate::hamming::{decode_hamming, decoded};
use vstd::prelude::*;

verus! {

/// The byte that ends a frame.
pub const TERMINATOR: u8 = 0;

/// What the receiver passes on with a complete frame.
#[derive(Debug, Clone, Copy, PartialEq, Eq, Structural)]
pub struct Handoff {
    /// Some code word of the frame had one bit corrected.
    pub hamming_corrected: bool,
    /// The last code word could not be corrected: the frame is corrupt.
    pub hamming_err: bool,
}

/// The receiver's state: the frame buffer, the index of the next byte and
/// whether a correction occurred in the frame so far.
#[derive(Debug)]
pub struct LinkReceiver {
    pub cmd: Vec<u8>,
    pub cmd_idx: usize,
    pub hamming_corrected: bool,
}

/// The nibble that a received code word contributes: the decoded one, or
/// zero for a word that cannot be corrected.
pub open spec fn nibble_of(h: u8) -> u8 {
    match decoded(h) {
        Some((v, _)) => v,
        None => 0,
    }
}

/// The frame byte that a pair of code words contributes, low nibble
/// first.
pub open spec fn byte_of(b0: u8, b1: u8) -> u8 {
    joined(nibble_of(b0), nibble_of(b1))
}

/// Whether either word of the pair had a bit corrected.
pub open spec fn pair_corrected(b0: u8, b1: u8) -> bool {
    (decoded(b0) matches Some((_, fixed)) && fixed) || (decoded(b1) matches Some((_, fixed))
        && fixed)
}

/// Whether either word of the pair cannot be corrected.
pub open spec fn pair_failed(b0: u8, b1: u8) -> bool {
    decoded(b0) is None || decoded(b1) is None
}

/// The first byte of pair number `k` of a byte string.
pub open spec fn first_of(wide: Seq<u8>, k: nat) -> u8 {
    wide[2 * k as int]
}

/// The second byte of pair number `k` of a byte string.
pub open spec fn second_of(wide: Seq<u8>, k: nat) -> u8 {
    wide[2 * k as int + 1]
}

/// The receiver's state as plain values.
pub struct ReceiverView {
    /// The frame buffer; its length is the receiver's capacity.
    pub buffer: Seq<u8>,
    /// Where the next byte goes.
    pub index: nat,
    /// Whether a correction occurred in the frame so far.
    pub corrected: bool,
}

impl ReceiverView {
    /// The index points into the buffer.
    pub open spec fn wf(self) -> bool {
        self.index < self.buffer.len()
    }

    /// A receiver that waits for the first byte of a frame.
    pub open spec fn at_frame_start(self) -> bool {
        self.wf() && self.index == 0 && !self.corrected
    }

    /// Whether storing `byte` completes the frame in this state: it is the
    /// terminator, it fills the buffer, or it came from a code word
    /// beyond repair.
    pub open spec fn ends(self, byte: u8, failed: bool) -> bool {
        byte == TERMINATOR || self.index + 1 >= self.buffer.len() || failed
    }

    /// The state after `byte` has been stored: a complete frame resets
    /// index and correction flag.
    pub open spec fn stored(self, byte: u8, corrected: bool, failed: bool) -> ReceiverView {
        let buffer = self.buffer.update(self.index as int, byte);
        if self.ends(byte, failed) {
            ReceiverView { buffer, index: 0, corrected: false }
        } else {
            ReceiverView { buffer, index: self.index + 1, corrected: self.corrected || corrected }
        }
    }

    /// What is handed over once `byte` has been stored: nothing while the
    /// frame is incomplete.
    pub open spec fn handed(self, byte: u8, corrected: bool, failed: bool) -> Option<Handoff> {
        if self.ends(byte, failed) {
            Some(
                Handoff { hamming_corrected: self.corrected || corrected, hamming_err: failed },
            )
        } else {
            None
        }
    }

    /// The state after the pair of code words `b0`, `b1`.
    pub open spec fn after(self, b0: u8, b1: u8) -> ReceiverView {
        self.stored(byte_of(b0, b1), pair_corrected(b0, b1), pair_failed(b0, b1))
    }

    /// What is handed over after the pair of code words `b0`, `b1`.
    pub open spec fn handoff(self, b0: u8, b1: u8) -> Option<Handoff> {
        self.handed(byte_of(b0, b1), pair_corrected(b0, b1), pair_failed(b0, b1))
    }

    /// The state after the byte `c`, received without error correction.
    pub open spec fn after_byte(self, c: u8) -> ReceiverView {
        self.stored(c, false, false)
    }

    /// What is handed over after the byte `c`, received without error
    /// correction.
    pub open spec fn handoff_byte(self, c: u8) -> Option<Handoff> {
        self.handed(c, false, false)
    }

    /// The state after the first `pairs` pairs of the byte string `wide`,
    /// received with error correction.
    pub open spec fn fed(self, wide: Seq<u8>, pairs: nat) -> ReceiverView
        decreases pairs,
    {
        if pairs == 0 {
            self
        } else {
            let k = (pairs - 1) as nat;
            self.fed(wide, k).after(first_of(wide, k), second_of(wide, k))
        }
    }

    /// The state after the first `count` bytes of the byte string `bytes`,
    /// received without error correction.
    pub open spec fn fed_plain(self, bytes: Seq<u8>, count: nat) -> ReceiverView
        decreases count,
    {
        if count == 0 {
            self
        } else {
            let k = (count - 1) as nat;
            self.fed_plain(bytes, k).after_byte(bytes[k as int])
        }
    }
}

impl View for LinkReceiver {
    type V = ReceiverView;

    open spec fn view(&self) -> ReceiverView {
        ReceiverView {
            buffer: self.cmd@,
            index: self.cmd_idx as nat,
            corrected: self.hamming_corrected,
        }
    }
}

impl LinkReceiver {
    /// The index points into the buffer.
    pub open spec fn wf(&self) -> bool {
        self@.wf()
    }

    /// Whether the index points into the buffer.
    pub fn is_sound(&self) -> (r: bool)
        ensures
            r == self.wf(),
    {
        self.cmd_idx < self.cmd.len()
    }

    /// A receiver with a zeroed buffer of `capacity` bytes.
    pub fn new(capacity: usize) -> (r: Self)
        requires
            capacity > 0,
        ensures
            r.wf(),
            r@ == (ReceiverView {
                buffer: Seq::new(capacity as nat, |i: int| 0u8),
                index: 0,
                corrected: false,
            }),
    {
        let cmd: Vec<u8> = vec![0u8; capacity];
        assert(cmd@ =~= Seq::new(capacity as nat, |i: int| 0u8));
        LinkReceiver { cmd, cmd_idx: 0, hamming_corrected: false }
    }

    /// Stores one byte of the frame and, when that completes the frame,
    /// returns what to hand over with the buffer and resets index and
    /// correction flag for the next frame.
    fn store(&mut self, c: u8, corrected: bool, hamming_err: bool) -> (r: Option<Handoff>)
        requires
            old(self).wf(),
        ensures
            final(self).wf(),
            final(self)@ == old(self)@.stored(c, corrected, hamming_err),
            r == old(self)@.handed(c, corrected, hamming_err),
    {
        if corrected {
            self.hamming_corrected = true;
        }

        let capacity = self.cmd.len();
        let idx = self.cmd_idx;
        self.cmd.set(idx, c);
        self.cmd_idx = idx + 1;

        if c == TERMINATOR || self.cmd_idx >= capacity || hamming_err {
            let handoff = Handoff { hamming_corrected: self.hamming_corrected, hamming_err };
            self.cmd_idx = 0;
            self.hamming_corrected = false;
            Some(handoff)
        } else {
            None
        }
    }

    /// Takes in one pair of received code words.  Stores the byte they
    /// stand for and, when that completes a frame, returns what to hand
    /// over with the buffer.
    pub fn aggregate(&mut self, b0: u8, b1: u8) -> (r: Option<Handoff>)
        requires
            old(self).wf(),
        ensures
            final(self).wf(),
            final(self)@ == old(self)@.after(b0, b1),
            r == old(self)@.handoff(b0, b1),
    {
        let mut hamming_err = false;

        let (b0_decoded, b0_corrected) = match decode_hamming(b0) {
            Some(h) => h,
            None => {
                hamming_err = true;
                (0, false)
            },
        };
        let (b1_decoded, b1_corrected) = match decode_hamming(b1) {
            Some(h) => h,
            None => {
                hamming_err = true;
                (0, false)
            },
        };

        let c = b0_decoded | (b1_decoded << 4);

        self.store(c, b0_corrected || b1_corrected, hamming_err)
    }

    /// Takes in one received byte on a link without error correction.
    /// Stores it and, when that completes a frame, returns what to hand
    /// over with the buffer.
    pub fn aggregate_byte(&mut self, c: u8) -> (r: Option<Handoff>)
        requires
            old(self).wf(),
        ensures
            final(self).wf(),
            final(self)@ == old(self)@.after_byte(c),
            r == old(self)@.handoff_byte(c),
    {
        self.store(c, false, false)
    }
}

/// What a receiver at the start of a frame holds after the first `k`
/// bytes of a frame: those bytes, then what the buffer held before.
pub open spec fn frame_prefix_taken(start: ReceiverView, stuffed: Seq<u8>, k: nat) -> ReceiverView {
    ReceiverView {
        buffer: stuffed.take(k as int) + start.buffer.skip(k as int),
        index: k,
        corrected: false,
    }
}

proof fn lemma_frame_prefix_received(start: ReceiverView, stuffed: Seq<u8>, plain: Seq<u8>, k: nat)
    requires
        start.at_frame_start(),
        is_cobs_frame_of(stuffed, plain),
        stuffed.len() <= start.buffer.len(),
        k < stuffed.len(),
    ensures
        start.fed(fec_expanded(stuffed), k) == frame_prefix_taken(start, stuffed, k),
        start.fed_plain(stuffed, k) == frame_prefix_taken(start, stuffed, k),
        byte_of(first_of(fec_expanded(stuffed), k), second_of(fec_expanded(stuffed), k))
            == stuffed[k as int],
        !pair_corrected(first_of(fec_expanded(stuffed), k), second_of(fec_expanded(stuffed), k)),
        !pair_failed(first_of(fec_expanded(stuffed), k), second_of(fec_expanded(stuffed), k)),
    decreases k,
{
    let wide = fec_expanded(stuffed);
    lemma_expanded_pair(stuffed, k as int);
    if k == 0 {
        assert(stuffed.take(0) + start.buffer.skip(0) =~= start.buffer);
    } else {
        let j = (k - 1) as nat;
        lemma_frame_prefix_received(start, stuffed, plain, j);
        let before = frame_prefix_taken(start, stuffed, j);
        assert(stuffed[j as int] != 0);
        assert(!before.ends(stuffed[j as int], false));
        assert(before.buffer.update(j as int, stuffed[j as int]) =~= stuffed.take(k as int)
            + start.buffer.skip(k as int));
    }
}

/// A frame that arrives undamaged at a receiver waiting for a frame is
/// handed over with its last pair and not before, with no correction and
/// no error reported.  The buffer then starts with the frame, and decodes
/// to the message of the frame whatever it held before.
pub proof fn law_frame_received(start: ReceiverView, stuffed: Seq<u8>, plain: Seq<u8>)
    requires
        start.at_frame_start(),
        is_cobs_frame_of(stuffed, plain),
        stuffed.len() <= start.buffer.len(),
    ensures
        ({
            let wide = fec_expanded(stuffed);
            let n = stuffed.len();
            let end = start.fed(wide, n);
            let last = start.fed(wide, (n - 1) as nat);
            &&& forall|k: nat|
                k < n - 1 ==> (#[trigger] start.fed(wide, k)).handoff(
                    first_of(wide, k),
                    second_of(wide, k),
                ) is None
            &&& last.handoff(first_of(wide, (n - 1) as nat), second_of(wide, (n - 1) as nat))
                == Some(Handoff { hamming_corrected: false, hamming_err: false })
            &&& end.at_frame_start()
            &&& end.buffer == stuffed + start.buffer.skip(n as int)
            &&& cobs_decoding(end.buffer) == Some(plain)
        }),
{
    let wide = fec_expanded(stuffed);
    let n = stuffed.len();
    let j = (n - 1) as nat;
    assert forall|k: nat| k < n - 1 implies (#[trigger] start.fed(wide, k)).handoff(
        first_of(wide, k),
        second_of(wide, k),
    ) is None by {
        lemma_frame_prefix_received(start, stuffed, plain, k);
        assert(stuffed[k as int] != 0);
    }
    lemma_frame_prefix_received(start, stuffed, plain, j);
    let last = start.fed(wide, j);
    assert(stuffed[j as int] == 0);
    let end = start.fed(wide, n);
    assert(end == last.after(first_of(wide, j), second_of(wide, j)));
    assert(end.buffer =~= stuffed + start.buffer.skip(n as int));
}

/// The same on a link without error correction: the frame is handed over
/// with its last byte and not before, and the buffer then decodes to the
/// message of the frame.
pub proof fn law_plain_frame_received(start: ReceiverView, stuffed: Seq<u8>, plain: Seq<u8>)
    requires
        start.at_frame_start(),
        is_cobs_frame_of(stuffed, plain),
        stuffed.len() <= start.buffer.len(),
    ensures
        ({
            let n = stuffed.len();
            let end = start.fed_plain(stuffed, n);
            let last = start.fed_plain(stuffed, (n - 1) as nat);
            &&& forall|k: nat|
                k < n - 1 ==> (#[trigger] start.fed_plain(stuffed, k)).handoff_byte(
                    stuffed[k as int],
                ) is None
            &&& last.handoff_byte(stuffed[n - 1]) == Some(
                Handoff { hamming_corrected: false, hamming_err: false },
            )
            &&& end.at_frame_start()
            &&& end.buffer == stuffed + start.buffer.skip(n as int)
            &&& cobs_decoding(end.buffer) == Some(plain)
        }),
{
    let n = stuffed.len();
    let j = (n - 1) as nat;
    assert forall|k: nat| k < n - 1 implies (#[trigger] start.fed_plain(stuffed, k)).handoff_byte(
        stuffed[k as int],
    ) is None by {
        lemma_frame_prefix_received(start, stuffed, plain, k);
        assert(stuffed[k as int] != 0);
    }
    lemma_frame_prefix_received(start, stuffed, plain, j);
    let last = start.fed_plain(stuffed, j);
    assert(stuffed[j as int] == 0);
    let end = start.fed_plain(stuffed, n);
    assert(end == last.after_byte(stuffed[j as int]));
    assert(end.buffer =~= stuffed + start.buffer.skip(n as int));
}

} // verus!
