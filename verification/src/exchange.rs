//! The host's side of the link: one request and its acknowledgement.
//!
//! The host sends the frame of a command and collects the answer, pair by
//! pair where the link uses error correction, until its terminator
//! arrives or the buffer is full.  An answer of
//! `NotOk` makes the host send the same frame again, at most twice more.
//! Writing to the port and reading from it is the caller's part: this
//! module says what to send and what each received pair leads to.

use crate::codec::{
    buffer_size, cobs_encoding, cobs_frame_decoding, decoding, deserialize_crc_cobs, encode, encoding,
    fec_collapsed, fec_expanded, in_size, is_cobs_frame_of, law_collapse_inverts_expand,
    law_plain_round_trip, lemma_collapsed_pairs, lemma_expanded_pair, low_nibble, pair_at,
    plain_frame, ACK_ROOM,
};
use crate::hamming::{code_word, flipped, law_single_flip_corrected};
use crate::protocol::{Ack, Command, DeserializeError};
use crate::receiver::{
    law_frame_received, law_plain_frame_received, Handoff, LinkReceiver, ReceiverView,
};
use vstd::prelude::*;

verus! {

/// How often a request is sent again after the first attempt.
pub const MAX_RETRIES: u8 = 2;

/// What follows from one answer.
#[derive(Debug, Clone, Copy, PartialEq, Eq, Structural)]
pub enum Verdict {
    /// Send the request again.
    Resend,
    /// The exchange ends with this acknowledgement.
    Return(Ack),
}

/// What one received pair leads to.
#[derive(Debug, Clone, Copy, PartialEq, Eq, Structural)]
pub enum Progress {
    /// The answer is not complete: read the next pair.
    Pending,
    /// The answer was `NotOk`: send the frame again, then read on.
    Resend,
    /// The exchange is over.
    Done(Ack),
    /// The answer could not be decoded.
    Failed(DeserializeError),
}

/// One request in flight.
#[derive(Debug)]
pub struct Exchange {
    /// The frame to send, the same at every attempt.
    pub frame: Vec<u8>,
    /// How often the frame has been sent again.
    pub tries: u8,
    /// Collects the answer.
    pub receiver: LinkReceiver,
    /// Whether the link uses error correction: the answer then arrives in
    /// pairs of code words.
    pub fec: bool,
}

/// The retry policy: `NotOk` is retried until the retries are used up;
/// anything else, and the last `NotOk`, ends the exchange.
pub open spec fn verdict(tries: u8, ack: Ack) -> Verdict {
    if ack == Ack::NotOk && tries < MAX_RETRIES {
        Verdict::Resend
    } else {
        Verdict::Return(ack)
    }
}

/// A frame with the fault injected: bit 1 of its third byte inverted.  A
/// frame of fewer than three bytes is left alone.
pub open spec fn fault_injected(frame: Seq<u8>) -> Seq<u8> {
    if frame.len() > 2 {
        frame.update(2, flipped(frame[2], 1))
    } else {
        frame
    }
}

/// What a complete answer leads to after `tries` retries.
pub open spec fn settled(tries: u8, answer: Result<Ack, DeserializeError>) -> Progress {
    match answer {
        Err(e) => Progress::Failed(e),
        Ok(ack) => match verdict(tries, ack) {
            Verdict::Resend => Progress::Resend,
            Verdict::Return(a) => Progress::Done(a),
        },
    }
}

/// What the answer buffer handed over by the receiver decodes to.
pub open spec fn answer_of(buffer: Seq<u8>, handoff: Handoff) -> Result<Ack, DeserializeError> {
    if handoff.hamming_err {
        Err(DeserializeError::HammingError)
    } else {
        cobs_frame_decoding::<Ack>(buffer)
    }
}

/// What a received byte or pair leads to after `tries` retries: nothing
/// yet while the receiver hands nothing over, else what the answer in the
/// buffer settles.
pub open spec fn arrived(tries: u8, buffer: Seq<u8>, handoff: Option<Handoff>) -> Progress {
    match handoff {
        None => Progress::Pending,
        Some(handoff) => settled(tries, answer_of(buffer, handoff)),
    }
}

/// Decides what follows from the acknowledgement `ack` after `tries`
/// retries.
pub fn judge(tries: u8, ack: Ack) -> (v: Verdict)
    ensures
        v == verdict(tries, ack),
{
    match ack {
        Ack::Okay => Verdict::Return(ack),
        Ack::Recovered => Verdict::Return(ack),
        Ack::NotOk => {
            if tries >= MAX_RETRIES {
                Verdict::Return(ack)
            } else {
                Verdict::Resend
            }
        },
    }
}

/// Injects the fault used to test the link: inverts bit 1 of the third
/// byte of the frame.
pub fn inject_fault(frame: &mut Vec<u8>)
    ensures
        final(frame)@ == fault_injected(old(frame)@),
{
    if frame.len() > 2 {
        let b = frame[2];
        frame.set(2, b ^ (1u8 << 1u8));
    }
}

/// A fault injected into an error-corrected frame is repaired by the
/// receiving side: the frame still holds the same bytes, and a correction
/// is reported exactly when the frame was long enough to be hit.
pub proof fn law_fault_is_corrected(stuffed: Seq<u8>)
    ensures
        fec_collapsed(fault_injected(fec_expanded(stuffed))) == Some(
            (stuffed, fec_expanded(stuffed).len() > 2),
        ),
{
    let wide = fec_expanded(stuffed);
    let hit = fault_injected(wide);
    if stuffed.len() >= 2 {
        assert forall|i: int| 0 <= i < stuffed.len() implies (#[trigger] pair_at(hit, i))
            == Some((stuffed[i], i == 1)) by {
            lemma_expanded_pair(stuffed, i);
            lemma_expanded_pair(stuffed, 1);
            if i == 1 {
                law_single_flip_corrected(low_nibble(stuffed[1]), 1);
                assert(hit[2] == flipped(code_word(low_nibble(stuffed[1])), 1));
                assert(hit[3] == wide[3]);
            } else {
                assert(hit[2 * i] == wide[2 * i]);
                assert(hit[2 * i + 1] == wide[2 * i + 1]);
            }
        }
        assert(pair_at(hit, 1).unwrap().1);
        lemma_collapsed_pairs(hit, stuffed, true);
    } else {
        if stuffed.len() == 1 {
            lemma_expanded_pair(stuffed, 0);
        }
        assert(hit == wide);
        law_collapse_inverts_expand(stuffed);
    }
}

/// Starts a request: builds the frame of `cmd`, with error correction if
/// the link uses it and with the test fault injected if asked for.  The
/// frame is what the caller sends first.  Unless the fault hits a frame
/// without error correction, the frame decodes to `cmd` on the other side;
/// a fault that was repaired shows as a correction.
pub fn request(cmd: &Command, fec: bool, bitflip_payload: bool) -> (ex: Exchange)
    ensures
        ex.wf(),
        ex.tries == 0,
        ex.fec == fec,
        ex.frame@ == (if bitflip_payload {
            fault_injected(encoding(*cmd, fec))
        } else {
            encoding(*cmd, fec)
        }),
        fec || !bitflip_payload ==> decoding::<Command>(ex.frame@, fec) == Ok::<
            (Command, bool),
            DeserializeError,
        >((*cmd, bitflip_payload && encoding(*cmd, fec).len() > 2)),
        ex.receiver@ == (ReceiverView {
            buffer: Seq::new(buffer_size(ACK_ROOM as nat, fec), |i: int| 0u8),
            index: 0,
            corrected: false,
        }),
{
    let mut frame = encode(cmd, fec);
    if bitflip_payload {
        proof {
            law_fault_is_corrected(cobs_encoding(plain_frame(*cmd)));
            law_collapse_inverts_expand(cobs_encoding(plain_frame(*cmd)));
        }
        inject_fault(&mut frame);
    }
    Exchange { frame, tries: 0, receiver: LinkReceiver::new(in_size(fec)), fec }
}

impl Exchange {
    /// The retries are bounded and the receiver is sound.
    pub open spec fn wf(&self) -> bool {
        self.tries <= MAX_RETRIES && self.receiver.wf()
    }

    /// Whether the exchange is well formed.
    pub fn is_sound(&self) -> (r: bool)
        ensures
            r == self.wf(),
    {
        self.tries <= MAX_RETRIES && self.receiver.is_sound()
    }

    /// Decides what follows from a complete answer: a verdict on the
    /// acknowledgement, or the error that kept it from being decoded.
    pub fn settle(&mut self, answer: Result<Ack, DeserializeError>) -> (p: Progress)
        requires
            old(self).wf(),
        ensures
            final(self).wf(),
            p == settled(old(self).tries, answer),
            final(self).tries == (if p == Progress::Resend {
                (old(self).tries + 1) as u8
            } else {
                old(self).tries
            }),
            final(self).frame == old(self).frame,
            final(self).receiver == old(self).receiver,
            final(self).fec == old(self).fec,
    {
        match answer {
            Err(e) => Progress::Failed(e),
            Ok(ack) => match judge(self.tries, ack) {
                Verdict::Resend => {
                    self.tries += 1;
                    Progress::Resend
                },
                Verdict::Return(a) => Progress::Done(a),
            },
        }
    }

    /// Settles the exchange if the receiver handed an answer over.
    fn complete(&mut self, handoff: Option<Handoff>) -> (p: Progress)
        requires
            old(self).wf(),
        ensures
            final(self).wf(),
            final(self).frame == old(self).frame,
            final(self).receiver == old(self).receiver,
            final(self).fec == old(self).fec,
            p == arrived(old(self).tries, old(self).receiver@.buffer, handoff),
            final(self).tries == (if p == Progress::Resend {
                (old(self).tries + 1) as u8
            } else {
                old(self).tries
            }),
    {
        let handoff = match handoff {
            None => {
                return Progress::Pending;
            },
            Some(handoff) => handoff,
        };
        let answer = if handoff.hamming_err {
            Err(DeserializeError::HammingError)
        } else {
            deserialize_crc_cobs::<Ack>(self.receiver.cmd.as_slice())
        };
        self.settle(answer)
    }

    /// Takes in one pair of received code words of the answer, on a link
    /// with error correction.
    pub fn on_pair(&mut self, b0: u8, b1: u8) -> (p: Progress)
        requires
            old(self).wf(),
        ensures
            final(self).wf(),
            final(self).frame == old(self).frame,
            final(self).fec == old(self).fec,
            final(self).receiver@ == old(self).receiver@.after(b0, b1),
            p == arrived(
                old(self).tries,
                final(self).receiver@.buffer,
                old(self).receiver@.handoff(b0, b1),
            ),
            final(self).tries == (if p == Progress::Resend {
                (old(self).tries + 1) as u8
            } else {
                old(self).tries
            }),
    {
        let handoff = self.receiver.aggregate(b0, b1);
        self.complete(handoff)
    }

    /// Takes in one received byte of the answer, on a link without error
    /// correction.
    pub fn on_byte(&mut self, c: u8) -> (p: Progress)
        requires
            old(self).wf(),
        ensures
            final(self).wf(),
            final(self).frame == old(self).frame,
            final(self).fec == old(self).fec,
            final(self).receiver@ == old(self).receiver@.after_byte(c),
            p == arrived(
                old(self).tries,
                final(self).receiver@.buffer,
                old(self).receiver@.handoff_byte(c),
            ),
            final(self).tries == (if p == Progress::Resend {
                (old(self).tries + 1) as u8
            } else {
                old(self).tries
            }),
    {
        let handoff = self.receiver.aggregate_byte(c);
        self.complete(handoff)
    }
}

/// An acknowledgement whose frame arrives undamaged at an exchange waiting
/// for an answer is taken in at the end of the frame, with or without
/// error correction on the link, and settles the exchange as the retry
/// policy says for that acknowledgement.
pub proof fn law_answer_settles(
    start: ReceiverView,
    ack: Ack,
    stuffed: Seq<u8>,
    fec: bool,
    tries: u8,
)
    requires
        start.at_frame_start(),
        is_cobs_frame_of(stuffed, plain_frame(ack)),
        stuffed.len() <= start.buffer.len(),
    ensures
        ({
            let end = if fec {
                start.fed(fec_expanded(stuffed), stuffed.len())
            } else {
                start.fed_plain(stuffed, stuffed.len())
            };
            let clean = Handoff { hamming_corrected: false, hamming_err: false };
            &&& answer_of(end.buffer, clean) == Ok::<Ack, DeserializeError>(ack)
            &&& settled(tries, answer_of(end.buffer, clean)) == (if ack == Ack::NotOk && tries
                < MAX_RETRIES {
                Progress::Resend
            } else {
                Progress::Done(ack)
            })
        }),
{
    law_frame_received(start, stuffed, plain_frame(ack));
    law_plain_frame_received(start, stuffed, plain_frame(ack));
    law_plain_round_trip(ack, Seq::empty());
    assert(plain_frame(ack) + Seq::<u8>::empty() =~= plain_frame(ack));
}

/// How an exchange ends for the answers `answers`, taken in order from
/// `tries` retries on: the acknowledgement returned and the number of
/// answers it took.  `None` while the answers given do not end it.
pub open spec fn outcome(tries: u8, answers: Seq<Ack>) -> Option<(Ack, nat)>
    decreases answers.len(),
{
    if answers.len() == 0 {
        None
    } else {
        match verdict(tries, answers[0]) {
            Verdict::Return(a) => Some((a, 1)),
            Verdict::Resend => match outcome((tries + 1) as u8, answers.skip(1)) {
                Some((a, n)) => Some((a, n + 1)),
                None => None,
            },
        }
    }
}

/// An exchange ends with the first answer that is not `NotOk`, and with
/// the third answer at the latest: a request is sent three times at most,
/// and `NotOk` is returned only after three of them.
pub proof fn law_retry_bounded(answers: Seq<Ack>)
    requires
        answers.len() >= 3,
    ensures
        outcome(0, answers) == Some(
            if answers[0] != Ack::NotOk {
                (answers[0], 1nat)
            } else if answers[1] != Ack::NotOk {
                (answers[1], 2nat)
            } else {
                (answers[2], 3nat)
            },
        ),
{
    reveal_with_fuel(outcome, 4);
    assert(answers.skip(1)[0] == answers[1]);
    assert(answers.skip(1).skip(1)[0] == answers[2]);
}

} // verus!
