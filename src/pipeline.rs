//! The decisions of the two stages that feed the decoder: the edge-capture
//! stage, which turns edge instants into gaps, and the decode stage, which
//! runs one decode attempt after another and gives up on idle lines.
//! Waiting, timers and queues belong to the caller, which hands each
//! outcome in as an event and carries out the action that comes back.

use vstd::prelude::*;

use crate::decoder::{
    detect, next_buffer, CommsDecoder, DecoderModel, COMMS_TIMEOUT_THRESHOLD, SEED,
    TIMING_CAPACITY,
};
use crate::message::CommsMessage;

verus! {

/// Microseconds of silence after which a decode attempt is given up; the
/// gap handed to the decoder at that point.
pub const COMMS_GIVE_UP: u64 = COMMS_TIMEOUT_THRESHOLD + 250;

/// Turns the instants of rising edges into the gaps between them.
pub struct EdgeCapture {
    previous: u64,
}

impl View for EdgeCapture {
    type V = u64;

    closed spec fn view(&self) -> u64 {
        self.previous
    }
}

impl EdgeCapture {
    /// Starts counting from the instant `now` (in microseconds).
    pub fn new(now: u64) -> (r: EdgeCapture)
        ensures
            r@ == now,
    {
        EdgeCapture { previous: now }
    }

    /// Records a rising edge at `now` and gives the gap since the previous
    /// one, or zero where the clock reads earlier than before.
    pub fn on_edge(&mut self, now: u64) -> (r: u64)
        ensures
            r == (if now >= old(self)@ { (now - old(self)@) as u64 } else { 0u64 }),
            final(self)@ == now,
    {
        let r = now.saturating_sub(self.previous);
        self.previous = now;
        r
    }
}

/// What the decode stage is told happened while it waited.
pub enum DecodeEvent {
    /// A gap between rising edges, in microseconds.
    Delta(u64),
    /// The give-up interval passed with no edge.
    GiveUp,
}

/// What the decode stage asks of its caller after an event.
pub enum DecodeAction {
    /// Nothing to do: wait for the next event.
    Continue,
    /// Deliver this message.
    Emit(CommsMessage),
    /// The attempt failed after `bits` gaps; its decoder is handed back so
    /// its timings can be reported.
    Abandon { bits: u64, decoder: CommsDecoder },
}

/// The gap that an event stands for.
pub open spec fn event_delta(e: DecodeEvent) -> u64 {
    match e {
        DecodeEvent::Delta(d) => d,
        DecodeEvent::GiveUp => COMMS_GIVE_UP,
    }
}

/// The decode stage: idle, or in the middle of one decode attempt.
pub struct DecodeStage {
    attempt: Option<CommsDecoder>,
    bits: u64,
}

impl View for DecodeStage {
    type V = Option<DecoderModel>;

    closed spec fn view(&self) -> Option<DecoderModel> {
        match self.attempt {
            Some(d) => Some(d@),
            None => None,
        }
    }
}

impl DecodeStage {
    #[verifier::type_invariant]
    spec fn inv(self) -> bool {
        match self.attempt {
            Some(d) => d@.timings.len() <= TIMING_CAPACITY && self.bits == d@.timings.len() + 1,
            None => true,
        }
    }

    /// An idle stage.
    pub fn new() -> (r: DecodeStage)
        ensures
            r@ is None,
    {
        DecodeStage { attempt: None, bits: 0 }
    }

    /// Whether the stage waits for activity, with no attempt under way (and
    /// so no give-up timer to run).
    pub fn is_idle(&self) -> (r: bool)
        ensures
            r == self@ is None,
    {
        self.attempt.is_none()
    }

    /// Takes one event. An idle stage starts an attempt on any gap; the gap
    /// only signals activity. During an attempt the gap (the give-up interval
    /// itself on `GiveUp`) goes to the decoder: a message ends the attempt and
    /// is emitted; otherwise the attempt is abandoned when the give-up timer
    /// was the reason for the step, and goes on in every other case, however
    /// long the gap received. An event for an attempt whose timing record is
    /// already full abandons it without reaching the decoder.
    pub fn step(&mut self, event: DecodeEvent) -> (r: DecodeAction)
        ensures
            old(self)@ is None ==> (r is Continue && (event is GiveUp ==> final(self)@ is None)
                && (event is Delta ==> final(self)@ == Some(
                DecoderModel { buffer: SEED, timings: Seq::<u64>::empty() },
            ))),
            old(self)@ matches Some(d) ==> if d.timings.len() == TIMING_CAPACITY {
                final(self)@ is None && (r matches DecodeAction::Abandon { bits, decoder }
                    && bits == d.timings.len() && decoder@ == d)
            } else {
                let t = event_delta(event);
                let nb = next_buffer(d.buffer, t);
                let ts = d.timings.push(t);
                match detect(nb) {
                    Some(m) => final(self)@ is None && (r matches DecodeAction::Emit(msg)
                        && msg@ == m),
                    None => if event is GiveUp {
                        final(self)@ is None && (r matches DecodeAction::Abandon { bits, decoder }
                            && bits == ts.len() && decoder@ == (DecoderModel {
                            buffer: nb,
                            timings: ts,
                        }))
                    } else {
                        r is Continue && final(self)@ == Some(
                            DecoderModel { buffer: nb, timings: ts },
                        )
                    },
                }
            },
    {
        let mut stage = DecodeStage::new();
        std::mem::swap(self, &mut stage);
        proof {
            use_type_invariant(&stage);
        }
        let DecodeStage { attempt, bits } = stage;
        match attempt {
            None => {
                match event {
                    DecodeEvent::Delta(_) => {
                        *self = DecodeStage { attempt: Some(CommsDecoder::new()), bits: 1 };
                    },
                    DecodeEvent::GiveUp => {},
                }
                DecodeAction::Continue
            },
            Some(mut decoder) => {
                if decoder.timings().len() == TIMING_CAPACITY {
                    return DecodeAction::Abandon { bits: decoder.timings().len() as u64, decoder };
                }
                let (t, timed_out) = match event {
                    DecodeEvent::Delta(d) => (d, false),
                    DecodeEvent::GiveUp => (COMMS_GIVE_UP, true),
                };
                match decoder.consume_delta(t) {
                    Some(message) => DecodeAction::Emit(message),
                    None => {
                        if timed_out {
                            DecodeAction::Abandon { bits, decoder }
                        } else {
                            *self = DecodeStage { attempt: Some(decoder), bits: bits + 1 };
                            DecodeAction::Continue
                        }
                    },
                }
            },
        }
    }
}

} // verus!
