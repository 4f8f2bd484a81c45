//! The command dispatcher: decides what a received frame leads to.
//!
//! The dispatcher decodes the frame, validates the command, names the task
//! that will change the node's state and produces the acknowledgement.  It
//! changes nothing itself: the task runs later, on its own reading of the
//! hardware counter.

use crate::clock::ReferenceTimes;
use crate::codec::{
    cobs_encoding, cobs_frame_decoding, decoding, deserialize_crc_cobs, encode, encoding,
    fec_expanded, frame_capacity, is_cobs_frame_of, law_plain_round_trip, plain_frame,
};
use crate::mailbox::{posted, Mailbox};
use crate::protocol::{Ack, BlinkerOptions, Command, DateTime, DeserializeError};
use crate::receiver::{law_frame_received, law_plain_frame_received, Handoff, ReceiverView};
use crate::state::{boot, resolved, Kick, RgbState, SharedState};
use vstd::prelude::*;

verus! {

/// A change of the node's state that an accepted command asks for.
#[derive(Debug, Clone, Copy, PartialEq, Eq, Structural)]
pub enum Task {
    SetBlinkData(BlinkerOptions),
    UpdateRgbData(RgbState),
    SetDateTime(u64),
}

/// The outcome of dispatching one frame: the acknowledgement to send and
/// the task to run, if the command was accepted.
#[derive(Debug, Clone, Copy, PartialEq, Eq, Structural)]
pub struct Dispatch {
    pub ack: Ack,
    pub task: Option<Task>,
}

/// The outcome for a command that is turned down.
pub open spec fn rejected() -> Dispatch {
    Dispatch { ack: Ack::NotOk, task: None }
}

/// The outcome for a command that is accepted and leads to `task`.
pub open spec fn accepted(task: Task) -> Dispatch {
    Dispatch { ack: Ack::Okay, task: Some(task) }
}

/// Switching the colour indicator needs the time to be set.
pub open spec fn rgb_dispatch(state: RgbState, datetime_set: bool) -> Dispatch {
    if datetime_set {
        accepted(Task::UpdateRgbData(state))
    } else {
        rejected()
    }
}

/// Blink options need the time to be set and, to blink, a frequency.
pub open spec fn blink_dispatch(options: BlinkerOptions, datetime_set: bool) -> Dispatch {
    if datetime_set && options.valid() {
        accepted(Task::SetBlinkData(options))
    } else {
        rejected()
    }
}

/// The time can only be set to an absolute value.
pub open spec fn datetime_dispatch(time: DateTime) -> Dispatch {
    match time {
        DateTime::Utc(t) => accepted(Task::SetDateTime(t)),
        DateTime::Now => rejected(),
    }
}

/// The outcome for a well-formed command.
pub open spec fn command_dispatch(cmd: Command, datetime_set: bool) -> Dispatch {
    match cmd {
        Command::SetDateTime(t) => datetime_dispatch(t),
        Command::SetBlinker(options) => blink_dispatch(options, datetime_set),
        Command::RgbOn => rgb_dispatch(RgbState::On, datetime_set),
        Command::RgbOff => rgb_dispatch(RgbState::Off, datetime_set),
    }
}

/// An `Okay` for a frame that needed correction becomes `Recovered`; a
/// `NotOk` stays what it is.
pub open spec fn upgraded(ack: Ack, hamming_corrected: bool) -> Ack {
    if hamming_corrected && ack == Ack::Okay {
        Ack::Recovered
    } else {
        ack
    }
}

/// The outcome for a frame that decoded to `decoded_frame`: every decoding
/// error is answered with `NotOk` and leads to no task.
pub open spec fn brokered(
    decoded_frame: Result<Command, DeserializeError>,
    datetime_set: bool,
    hamming_corrected: bool,
) -> Dispatch {
    let plain = match decoded_frame {
        Ok(cmd) => command_dispatch(cmd, datetime_set),
        Err(_) => rejected(),
    };
    Dispatch { ack: upgraded(plain.ack, hamming_corrected), task: plain.task }
}

/// What the buffer handed over by the receiver decodes to: a frame that
/// ended on a code word beyond repair is a Hamming error whatever the
/// buffer holds.
pub open spec fn handed_over(cmd: Seq<u8>, handoff: Handoff) -> Result<
    Command,
    DeserializeError,
> {
    if handoff.hamming_err {
        Err(DeserializeError::HammingError)
    } else {
        cobs_frame_decoding::<Command>(cmd)
    }
}

/// Decides on a request to switch the colour indicator.
pub fn handle_new_rgb_data(state: RgbState, datetime_set: bool) -> (d: Dispatch)
    ensures
        d == rgb_dispatch(state, datetime_set),
{
    if !datetime_set {
        return Dispatch { ack: Ack::NotOk, task: None };
    }
    Dispatch { ack: Ack::Okay, task: Some(Task::UpdateRgbData(state)) }
}

/// Decides on new blink options.
pub fn handle_new_blink_data(options: BlinkerOptions, datetime_set: bool) -> (d: Dispatch)
    ensures
        d == blink_dispatch(options, datetime_set),
{
    if !datetime_set {
        return Dispatch { ack: Ack::NotOk, task: None };
    }
    if let BlinkerOptions::On { date_time: _, freq, duration: _ } = options {
        if freq == 0 {
            return Dispatch { ack: Ack::NotOk, task: None };
        }
    }
    Dispatch { ack: Ack::Okay, task: Some(Task::SetBlinkData(options)) }
}

/// Decides on a request to set the time.
pub fn handle_new_datetime(time: DateTime) -> (d: Dispatch)
    ensures
        d == datetime_dispatch(time),
{
    if let DateTime::Utc(t) = time {
        Dispatch { ack: Ack::Okay, task: Some(Task::SetDateTime(t)) }
    } else {
        Dispatch { ack: Ack::NotOk, task: None }
    }
}

/// Decides on a decoded frame.
pub fn dispatch(
    decoded_frame: Result<Command, DeserializeError>,
    datetime_set: bool,
    hamming_corrected: bool,
) -> (d: Dispatch)
    ensures
        d == brokered(decoded_frame, datetime_set, hamming_corrected),
{
    let plain = match decoded_frame {
        Ok(cmd) => match cmd {
            Command::SetDateTime(t) => handle_new_datetime(t),
            Command::SetBlinker(options) => handle_new_blink_data(options, datetime_set),
            Command::RgbOn => handle_new_rgb_data(RgbState::On, datetime_set),
            Command::RgbOff => handle_new_rgb_data(RgbState::Off, datetime_set),
        },
        Err(_) => Dispatch { ack: Ack::NotOk, task: None },
    };
    let mut ack = plain.ack;
    if hamming_corrected && ack == Ack::Okay {
        ack = Ack::Recovered;
    }
    Dispatch { ack, task: plain.task }
}

/// The acknowledgement once the task has been posted: a task that finds
/// its mailbox full is not accepted after all.
pub open spec fn activated(d: Dispatch, pending: Option<Task>) -> Ack {
    if d.task is Some && pending is Some {
        Ack::NotOk
    } else {
        d.ack
    }
}

/// The mailbox once the task, if any, has been posted.
pub open spec fn activation(d: Dispatch, pending: Option<Task>) -> Option<Task> {
    match d.task {
        Some(task) => posted(pending, task),
        None => pending,
    }
}

/// Posts the task of an accepted command and returns the acknowledgement
/// to send.  While an earlier task is still pending the new one is
/// dropped and the command answered with `NotOk`, so that the host sends
/// it again.
pub fn activate(d: Dispatch, tasks: &mut Mailbox<Task>) -> (ack: Ack)
    ensures
        ack == activated(d, old(tasks)@),
        final(tasks)@ == activation(d, old(tasks)@),
{
    match d.task {
        None => d.ack,
        Some(task) => match tasks.post(task) {
            Ok(_) => d.ack,
            Err(_) => Ack::NotOk,
        },
    }
}

/// Handles the buffer that the receiver handed over: decodes it, decides,
/// posts the task of an accepted command and builds the frame of the
/// acknowledgement, with error correction if the link uses it.
pub fn broker(
    cmd: &[u8],
    handoff: Handoff,
    reference_times: &ReferenceTimes,
    tasks: &mut Mailbox<Task>,
    fec: bool,
) -> (r: (Ack, Vec<u8>))
    ensures
        r.0 == activated(
            brokered(
                handed_over(cmd@, handoff),
                reference_times.is_set(),
                handoff.hamming_corrected,
            ),
            old(tasks)@,
        ),
        final(tasks)@ == activation(
            brokered(
                handed_over(cmd@, handoff),
                reference_times.is_set(),
                handoff.hamming_corrected,
            ),
            old(tasks)@,
        ),
        r.1@ == encoding(r.0, fec),
        decoding::<Ack>(r.1@, fec) == Ok::<(Ack, bool), DeserializeError>((r.0, false)),
        r.1@.len() <= frame_capacity::<Ack>(fec),
        is_cobs_frame_of(cobs_encoding(plain_frame(r.0)), plain_frame(r.0)),
{
    let decoded_frame = if handoff.hamming_err {
        Err(DeserializeError::HammingError)
    } else {
        deserialize_crc_cobs::<Command>(cmd)
    };
    let datetime_set = reference_times.datetime_set();
    let d = dispatch(decoded_frame, datetime_set, handoff.hamming_corrected);
    let ack = activate(d, tasks);
    let response = encode(&ack, fec);
    (ack, response)
}

impl SharedState {
    /// The state after `task` has run at `rtc_now`.
    pub open spec fn after(self, task: Task, rtc_now: u64) -> SharedState {
        match task {
            Task::SetBlinkData(options) => SharedState {
                blink_data: resolved(options, self.reference_times.time_at(rtc_now)),
                ..self
            },
            Task::UpdateRgbData(state) => SharedState { rgb_state: state, ..self },
            Task::SetDateTime(t) => SharedState {
                reference_times: ReferenceTimes { utc_reference: t, rtc_reference: rtc_now },
                ..self
            },
        }
    }

    /// Whether `task` may run in this state at `rtc_now`: blink options
    /// are valid, and where they start at `Now` the clock can tell the
    /// time.
    pub open spec fn admits(self, task: Task, rtc_now: u64) -> bool {
        task matches Task::SetBlinkData(options) ==> options.valid() && (options.starts_now()
            ==> self.reference_times.covers(rtc_now))
    }

    /// Whether `task` may run in this state at `rtc_now`.
    pub fn can_run(&self, task: Task, rtc_now: u64) -> (r: bool)
        ensures
            r == self.admits(task, rtc_now),
    {
        match task {
            Task::SetBlinkData(options) => options.is_valid() && (!options.is_relative()
                || self.reference_times.can_tell(rtc_now)),
            _ => true,
        }
    }

    /// Which schedulers a task wakes.
    pub open spec fn kick_of(task: Task) -> Kick {
        match task {
            Task::SetBlinkData(_) => Kick { blink: true, rgb: false },
            Task::UpdateRgbData(_) => Kick { blink: false, rgb: true },
            Task::SetDateTime(_) => Kick { blink: true, rgb: true },
        }
    }

    /// Runs a task that the dispatcher handed out.
    pub fn run(&mut self, task: Task, rtc_now: u64) -> (kick: Kick)
        requires
            old(self).wf(),
            old(self).admits(task, rtc_now),
        ensures
            final(self).wf(),
            *final(self) == old(self).after(task, rtc_now),
            kick == Self::kick_of(task),
    {
        match task {
            Task::SetBlinkData(options) => self.set_blink_data(options, rtc_now),
            Task::UpdateRgbData(state) => self.update_rgb_data(state),
            Task::SetDateTime(t) => self.set_date_time(t, rtc_now),
        }
    }
}

/// Blink options without a frequency are always turned down, and no task
/// is posted for them, so they are never stored and no blinking is
/// scheduled.
pub proof fn law_zero_frequency_rejected(
    date_time: DateTime,
    duration: u64,
    datetime_set: bool,
    hamming_corrected: bool,
    pending: Option<Task>,
)
    ensures
        ({
            let d = brokered(
                Ok(Command::SetBlinker(BlinkerOptions::On { date_time, freq: 0, duration })),
                datetime_set,
                hamming_corrected,
            );
            &&& d == rejected()
            &&& activated(d, pending) == Ack::NotOk
            &&& activation(d, pending) == pending
        }),
{
}

/// Before a time is set, every command but one that sets the time is
/// turned down and leads to no task.
pub proof fn law_unset_time_rejects(
    cmd: Command,
    hamming_corrected: bool,
    pending: Option<Task>,
)
    requires
        !(cmd is SetDateTime),
    ensures
        ({
            let d = brokered(Ok(cmd), false, hamming_corrected);
            &&& d == rejected()
            &&& activated(d, pending) == Ack::NotOk
            &&& activation(d, pending) == pending
        }),
{
}

/// The state once the command `cmd` has arrived undamaged and its task,
/// if it was accepted, has run at `rtc_now`.
pub open spec fn served(s: SharedState, cmd: Command, rtc_now: u64) -> SharedState {
    match command_dispatch(cmd, s.reference_times.is_set()).task {
        Some(task) => s.after(task, rtc_now),
        None => s,
    }
}

/// The state once the first `count` of the commands `cmds` have been
/// served in order, each at the reading of the hardware counter that
/// comes with it.
pub open spec fn served_all(s: SharedState, cmds: Seq<(Command, u64)>, count: nat) -> SharedState
    decreases count,
{
    if count == 0 {
        s
    } else {
        let k = (count - 1) as nat;
        served(served_all(s, cmds, k), cmds[k as int].0, cmds[k as int].1)
    }
}

/// Whatever is sent before the first command that sets the time is turned
/// down, one command after the other, and leaves the node as it was at
/// boot.
pub proof fn law_nothing_served_before_time_is_set(cmds: Seq<(Command, u64)>, count: nat)
    requires
        count < cmds.len(),
        forall|i: int| 0 <= i <= count ==> !((#[trigger] cmds[i]).0 is SetDateTime),
    ensures
        served_all(boot(), cmds, count) == boot(),
        command_dispatch(cmds[count as int].0, served_all(boot(), cmds, count).reference_times.is_set())
            == rejected(),
    decreases count,
{
    if count > 0 {
        law_nothing_served_before_time_is_set(cmds, (count - 1) as nat);
        assert(!(cmds[count - 1].0 is SetDateTime));
    }
    assert(!(cmds[count as int].0 is SetDateTime));
}

/// Only a task that sets the time changes the reference times: until one
/// is accepted, the time stays unset.
pub proof fn law_only_set_date_time_sets_time(s: SharedState, task: Task, rtc_now: u64)
    requires
        !(task is SetDateTime),
    ensures
        s.after(task, rtc_now).reference_times == s.reference_times,
{
}

/// A frame that could not be decoded, for whatever reason, is answered
/// with `NotOk` and changes nothing.
pub proof fn law_decode_errors_rejected(
    e: DeserializeError,
    datetime_set: bool,
    hamming_corrected: bool,
)
    ensures
        brokered(Err(e), datetime_set, hamming_corrected) == rejected(),
{
}

/// A correction turns `Okay` into `Recovered` and nothing else: the task
/// is the same, and a `NotOk` is never made better.
pub proof fn law_correction_only_upgrades(
    decoded_frame: Result<Command, DeserializeError>,
    datetime_set: bool,
)
    ensures
        ({
            let clean = brokered(decoded_frame, datetime_set, false);
            let fixed = brokered(decoded_frame, datetime_set, true);
            &&& fixed.task == clean.task
            &&& clean.ack != Ack::Recovered
            &&& clean.ack == Ack::Okay <==> fixed.ack == Ack::Recovered
            &&& clean.ack == Ack::NotOk <==> fixed.ack == Ack::NotOk
            &&& clean.ack == Ack::NotOk <==> clean.task is None
        }),
{
}

/// A task that the dispatcher hands out for a frame may run whenever the
/// clock can tell the time.
pub proof fn law_dispatched_task_admitted(
    s: SharedState,
    decoded_frame: Result<Command, DeserializeError>,
    hamming_corrected: bool,
    rtc_now: u64,
)
    requires
        s.reference_times.covers(rtc_now),
    ensures
        brokered(decoded_frame, s.reference_times.is_set(), hamming_corrected).task matches Some(
            task,
        ) ==> s.admits(task, rtc_now),
{
}

/// A command whose frame arrives undamaged at a receiver waiting for a
/// frame is dispatched as that command, with or without error
/// correction on the link: the buffer handed over at the end of the frame
/// decodes to it, whatever the buffer held before, and the outcome is the
/// one of the command that was sent.
pub proof fn law_sent_command_is_dispatched(
    start: ReceiverView,
    cmd: Command,
    stuffed: Seq<u8>,
    fec: bool,
    datetime_set: bool,
)
    requires
        start.at_frame_start(),
        is_cobs_frame_of(stuffed, plain_frame(cmd)),
        stuffed.len() <= start.buffer.len(),
    ensures
        ({
            let end = if fec {
                start.fed(fec_expanded(stuffed), stuffed.len())
            } else {
                start.fed_plain(stuffed, stuffed.len())
            };
            let clean = Handoff { hamming_corrected: false, hamming_err: false };
            &&& handed_over(end.buffer, clean) == Ok::<Command, DeserializeError>(cmd)
            &&& brokered(handed_over(end.buffer, clean), datetime_set, false) == command_dispatch(
                cmd,
                datetime_set,
            )
        }),
{
    law_frame_received(start, stuffed, plain_frame(cmd));
    law_plain_frame_received(start, stuffed, plain_frame(cmd));
    law_plain_round_trip(cmd, Seq::empty());
    assert(plain_frame(cmd) + Seq::<u8>::empty() =~= plain_frame(cmd));
}

/// Setting the same time twice leaves the reference time as the first
/// call set it; only the counter reading follows the moment of the call,
/// and with the same reading the whole state is the same.
pub proof fn law_set_date_time_idempotent(s: SharedState, t: u64, rtc_first: u64, rtc_second: u64)
    ensures
        ({
            let once = s.after(Task::SetDateTime(t), rtc_first);
            let twice = once.after(Task::SetDateTime(t), rtc_second);
            &&& twice.reference_times.utc_reference == once.reference_times.utc_reference
            &&& twice.reference_times.rtc_reference == rtc_second
            &&& twice.rgb_state == once.rgb_state
            &&& twice.blink_data == once.blink_data
            &&& rtc_first == rtc_second ==> twice == once
        }),
{
}

} // verus!
