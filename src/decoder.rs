//! Recovery of bits from edge timings, and recognition of framed messages
//! in the recovered bits.

use vstd::prelude::*;

use crate::message::{frame_model, CommsMessage, MessageModel};

verus! {

/// Up to this many microseconds between edges, the edge is a glitch.
pub const COMMS_ONE_BIT_TIME_THRESHOLD: u64 = 750;

/// Upper bound, in microseconds, of a gap of one bit time.
pub const COMMS_ONE_FIVE_BIT_TIME_THRESHOLD: u64 = 1250;

/// Upper bound, in microseconds, of a gap of one and a half bit times.
pub const COMMS_TWO_BIT_TIME_THRESHOLD: u64 = 1750;

/// Upper bound, in microseconds, of a gap of two bit times; longer gaps are
/// idle time.
pub const COMMS_TIMEOUT_THRESHOLD: u64 = 2250;

/// The shift register of a fresh decoder: one seed bit, which marks that no
/// bit has been recovered yet.
pub const SEED: u64 = 1;

/// How many timings one decoder can record.
pub const TIMING_CAPACITY: usize = 64;

/// The register with one more bit shifted in at the bottom; the top bit falls off.
pub open spec fn push_bit(buf: u64, b: bool) -> u64 {
    (buf << 1u64) | (if b { 1u64 } else { 0u64 })
}

/// The register with the bits of `s` shifted in, first bit first.
pub open spec fn push_bits(buf: u64, s: Seq<bool>) -> u64
    decreases s.len(),
{
    if s.len() == 0 {
        buf
    } else {
        push_bits(push_bit(buf, s[0]), s.drop_first())
    }
}

/// The most recently recovered bit (the seed counts as a one).
pub open spec fn last_bit(buf: u64) -> bool {
    buf % 2 == 1
}

/// The bits that one gap of `delta` microseconds stands for, given the bit
/// recovered last.
pub open spec fn recovered_bits(delta: u64, last: bool) -> Seq<bool> {
    if delta > COMMS_TIMEOUT_THRESHOLD {
        seq![false]
    } else if delta > COMMS_TWO_BIT_TIME_THRESHOLD {
        seq![false, true]
    } else if delta > COMMS_ONE_FIVE_BIT_TIME_THRESHOLD {
        if last {
            seq![false, false]
        } else {
            seq![true]
        }
    } else if delta > COMMS_ONE_BIT_TIME_THRESHOLD {
        seq![last]
    } else {
        seq![]
    }
}

/// The register after a gap of `delta` microseconds.
pub open spec fn next_buffer(buf: u64, delta: u64) -> u64 {
    push_bits(buf, recovered_bits(delta, last_bit(buf)))
}

/// The register as eight bytes, oldest (most significant) first.
pub open spec fn buffer_bytes(buf: u64) -> Seq<u8> {
    seq![
        ((buf >> 56u64) & 0xFF) as u8,
        ((buf >> 48u64) & 0xFF) as u8,
        ((buf >> 40u64) & 0xFF) as u8,
        ((buf >> 32u64) & 0xFF) as u8,
        ((buf >> 24u64) & 0xFF) as u8,
        ((buf >> 16u64) & 0xFF) as u8,
        ((buf >> 8u64) & 0xFF) as u8,
        (buf & 0xFF) as u8,
    ]
}

/// The marker byte that opens a frame with `len` payload bytes.
pub open spec fn marker_byte(len: int) -> u8 {
    (0xE0 + len) as u8
}

/// Where a frame starts in the eight register bytes: the first offset `i`
/// holding the marker of a frame that ends exactly at the last byte.
pub open spec fn frame_start(b: Seq<u8>) -> Option<int> {
    if b[0] == marker_byte(5) {
        Some(0)
    } else if b[1] == marker_byte(4) {
        Some(1)
    } else if b[2] == marker_byte(3) {
        Some(2)
    } else if b[3] == marker_byte(2) {
        Some(3)
    } else if b[4] == marker_byte(1) {
        Some(4)
    } else {
        None
    }
}

/// The message that the register holds, if any.
pub open spec fn detect(buf: u64) -> Option<MessageModel> {
    let b = buffer_bytes(buf);
    match frame_start(b) {
        Some(i) => Some(frame_model(b.subrange(i, 8))),
        None => None,
    }
}

/// The register after the gaps of `ds`, first gap first.
pub open spec fn feed(buf: u64, ds: Seq<u64>) -> u64
    decreases ds.len(),
{
    if ds.len() == 0 {
        buf
    } else {
        feed(next_buffer(buf, ds[0]), ds.drop_first())
    }
}

/// The bytes of a fresh register: seven zeros, then the seed.
pub proof fn lemma_seed_bytes()
    ensures
        buffer_bytes(SEED) == seq![0u8, 0, 0, 0, 0, 0, 0, 1],
{
    let v = SEED;
    assert(((v >> 56u64) & 0xFF) == 0 && ((v >> 48u64) & 0xFF) == 0 && ((v >> 40u64) & 0xFF) == 0
        && ((v >> 32u64) & 0xFF) == 0 && ((v >> 24u64) & 0xFF) == 0 && ((v >> 16u64) & 0xFF) == 0
        && ((v >> 8u64) & 0xFF) == 0 && (v & 0xFF) == 1) by (bit_vector)
        requires
            v == 1,
    ;
    assert(buffer_bytes(SEED) =~= seq![0u8, 0, 0, 0, 0, 0, 0, 1]);
}

/// A gap longer than the timeout threshold shifts in a single zero, whatever
/// the register held.
pub proof fn lemma_idle_gap(buf: u64, delta: u64)
    requires
        delta > COMMS_TIMEOUT_THRESHOLD,
    ensures
        next_buffer(buf, delta) == push_bit(buf, false),
{
    reveal_with_fuel(push_bits, 2);
}

/// A gap of two bit times shifts in a zero and then a one, whatever the
/// register held.
pub proof fn lemma_two_bit_gap(buf: u64, delta: u64)
    requires
        COMMS_TWO_BIT_TIME_THRESHOLD < delta <= COMMS_TIMEOUT_THRESHOLD,
    ensures
        next_buffer(buf, delta) == push_bit(push_bit(buf, false), true),
{
    reveal_with_fuel(push_bits, 3);
    assert(seq![false, true].drop_first().drop_first() =~= Seq::<bool>::empty());
}

/// A gap of one and a half bit times shifts in `00` after a one and `1`
/// after a zero.
pub proof fn lemma_one_and_a_half_bit_gap(buf: u64, delta: u64)
    requires
        COMMS_ONE_FIVE_BIT_TIME_THRESHOLD < delta <= COMMS_TWO_BIT_TIME_THRESHOLD,
    ensures
        last_bit(buf) ==> next_buffer(buf, delta) == push_bit(push_bit(buf, false), false),
        !last_bit(buf) ==> next_buffer(buf, delta) == push_bit(buf, true),
{
    reveal_with_fuel(push_bits, 3);
    assert(seq![false, false].drop_first().drop_first() =~= Seq::<bool>::empty());
}

/// Gaps no longer than one bit time are glitches: after any number of them
/// the register is unchanged, so a fresh decoder fed only glitches never
/// holds a message.
pub proof fn lemma_glitches(buf: u64, ds: Seq<u64>)
    requires
        forall|i: int| 0 <= i < ds.len() ==> ds[i] <= COMMS_ONE_BIT_TIME_THRESHOLD,
    ensures
        forall|k: int| 0 <= k <= ds.len() ==> #[trigger] feed(buf, ds.take(k)) == buf,
        detect(SEED) is None,
    decreases ds.len(),
{
    lemma_seed_bytes();
    if ds.len() > 0 {
        lemma_glitches(buf, ds.drop_first());
        assert forall|k: int| 0 <= k <= ds.len() implies #[trigger] feed(buf, ds.take(k)) == buf by {
            if k > 0 {
                assert(ds.take(k).drop_first() =~= ds.drop_first().take(k - 1));
                assert(ds.take(k)[0] == ds[0]);
                assert(next_buffer(buf, ds[0]) == buf);
                assert(feed(buf, ds.drop_first().take(k - 1)) == buf);
            }
        }
    }
}

/// What a decoder holds: the shift register and the timings it has consumed.
pub struct DecoderModel {
    pub buffer: u64,
    pub timings: Seq<u64>,
}

/// A decoder for Meridian Comms.
pub struct CommsDecoder {
    buffer: u64,
    timings: [u64; 64],
    tlen: usize,
}

impl View for CommsDecoder {
    type V = DecoderModel;

    closed spec fn view(&self) -> DecoderModel {
        DecoderModel { buffer: self.buffer, timings: self.timings@.subrange(0, self.tlen as int) }
    }
}

impl CommsDecoder {
    #[verifier::type_invariant]
    spec fn inv(self) -> bool {
        self.tlen <= TIMING_CAPACITY
    }

    /// A decoder with a seeded register and no timings.
    pub fn new() -> (r: CommsDecoder)
        ensures
            r@.buffer == SEED,
            r@.timings == Seq::<u64>::empty(),
    {
        let r = CommsDecoder { buffer: SEED, timings: [0;64], tlen: 0 };
        assert(r@.timings =~= Seq::<u64>::empty());
        r
    }

    /// The timings consumed so far, in order.
    pub fn timings(&self) -> (r: &[u64])
        ensures
            r@ == self@.timings,
            r@.len() <= TIMING_CAPACITY,
    {
        proof {
            use_type_invariant(self);
        }
        &self.timings[0..self.tlen]
    }

    /// Consumes one gap of `delta` microseconds between rising edges: shifts
    /// in the bits it stands for, records it, and gives the message that the
    /// register then holds, if any. The register is left as it is either way.
    pub fn consume_delta(&mut self, delta: u64) -> (r: Option<CommsMessage>)
        requires
            old(self)@.timings.len() < TIMING_CAPACITY,
        ensures
            final(self)@.buffer == next_buffer(old(self)@.buffer, delta),
            final(self)@.timings == old(self)@.timings.push(delta),
            r is None <==> detect(final(self)@.buffer) is None,
            r matches Some(m) ==> detect(final(self)@.buffer) == Some(m@),
    {
        proof {
            use_type_invariant(&*self);
        }
        let ghost old_timings = self@.timings;
        self.timings[self.tlen] = delta;
        self.tlen = self.tlen + 1;
        assert(self@.timings =~= old_timings.push(delta));
        let old_buf = self.buffer;
        let last = old_buf & 1 == 1;
        assert((old_buf & 1 == 1) == (old_buf % 2 == 1)) by (bit_vector);
        let ghost bits = recovered_bits(delta, last);
        let nb: u64 = if delta > COMMS_TIMEOUT_THRESHOLD {
            let nb = old_buf << 1;
            assert(nb == push_bit(old_buf, false)) by (bit_vector)
                requires
                    nb == old_buf << 1,
            ;
            nb
        } else if delta > COMMS_TWO_BIT_TIME_THRESHOLD {
            let nb = (old_buf << 2) | 1;
            assert(nb == push_bit(push_bit(old_buf, false), true)) by (bit_vector)
                requires
                    nb == (old_buf << 2) | 1,
            ;
            nb
        } else if delta > COMMS_ONE_FIVE_BIT_TIME_THRESHOLD {
            if last {
                let nb = old_buf << 2;
                assert(nb == push_bit(push_bit(old_buf, false), false)) by (bit_vector)
                    requires
                        nb == old_buf << 2,
                ;
                nb
            } else {
                let nb = (old_buf << 1) | 1;
                assert(nb == push_bit(old_buf, true)) by (bit_vector)
                    requires
                        nb == (old_buf << 1) | 1,
                ;
                nb
            }
        } else if delta > COMMS_ONE_BIT_TIME_THRESHOLD {
            let nb = (old_buf << 1) | (old_buf & 1);
            assert(nb == push_bit(old_buf, last)) by (bit_vector)
                requires
                    nb == (old_buf << 1) | (old_buf & 1),
                    last == (old_buf & 1 == 1),
            ;
            nb
        } else {
            old_buf
        };
        self.buffer = nb;
        proof {
            reveal_with_fuel(push_bits, 3);
            assert(bits.len() <= 2);
            if bits.len() == 2 {
                assert(bits.drop_first().drop_first() =~= Seq::<bool>::empty());
            } else if bits.len() == 1 {
                assert(bits.drop_first() =~= Seq::<bool>::empty());
            }
        }
        self.scan()
    }

    /// The message that the register holds, if any.
    fn scan(&self) -> (r: Option<CommsMessage>)
        ensures
            r is None <==> detect(self@.buffer) is None,
            r matches Some(m) ==> detect(self@.buffer) == Some(m@),
    {
        let buf = self.buffer;
        let bytes: [u8; 8] = [
            ((buf >> 56) & 0xFF) as u8,
            ((buf >> 48) & 0xFF) as u8,
            ((buf >> 40) & 0xFF) as u8,
            ((buf >> 32) & 0xFF) as u8,
            ((buf >> 24) & 0xFF) as u8,
            ((buf >> 16) & 0xFF) as u8,
            ((buf >> 8) & 0xFF) as u8,
            (buf & 0xFF) as u8,
        ];
        assert(bytes@ =~= buffer_bytes(buf));
        if bytes[0] == 0xE5 {
            Some(CommsMessage::from_buffer(&bytes[0..8]))
        } else if bytes[1] == 0xE4 {
            Some(CommsMessage::from_buffer(&bytes[1..8]))
        } else if bytes[2] == 0xE3 {
            Some(CommsMessage::from_buffer(&bytes[2..8]))
        } else if bytes[3] == 0xE2 {
            Some(CommsMessage::from_buffer(&bytes[3..8]))
        } else if bytes[4] == 0xE1 {
            Some(CommsMessage::from_buffer(&bytes[4..8]))
        } else {
            None
        }
    }

    /// The shift register: the recovered bits, newest lowest, under the seed bit.
    pub fn buffer(&self) -> (r: u64)
        ensures
            r == self@.buffer,
    {
        self.buffer
    }
}

} // verus!
