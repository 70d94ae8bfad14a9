//! A reference encoder, as spec functions: the gaps between rising edges
//! that carry a message on the line, and the law that the decoder reads the
//! message back out of them.

use vstd::prelude::*;

use crate::decoder::{
    buffer_bytes, detect, feed, last_bit, lemma_seed_bytes, marker_byte, next_buffer, push_bit,
    push_bits, recovered_bits, SEED, TIMING_CAPACITY,
};
use crate::message::{
    frame_model, identity_addr, identity_type, pack_identity, valid_payload_len, MessageModel,
};

verus! {

/// A gap, in microseconds, that stands for exactly one zero bit: idle time.
pub const ZERO_GAP: u64 = 2400;

/// A gap of one bit time: the last bit repeated.
pub const REPEAT_GAP: u64 = 1000;

/// A gap of one and a half bit times: a one after a zero.
pub const RISE_GAP: u64 = 1500;

/// The gap that makes the decoder recover exactly the bit `b` after `last`.
pub open spec fn bit_gap(b: bool, last: bool) -> u64 {
    if !b {
        ZERO_GAP
    } else if last {
        REPEAT_GAP
    } else {
        RISE_GAP
    }
}

/// The gaps that carry the bits of `s`, one gap per bit, when the bit
/// recovered last is `last`.
pub open spec fn encode_bits(s: Seq<bool>, last: bool) -> Seq<u64>
    decreases s.len(),
{
    if s.len() == 0 {
        Seq::empty()
    } else {
        seq![bit_gap(s[0], last)] + encode_bits(s.drop_first(), s[0])
    }
}

/// The bits of a byte, most significant first.
pub open spec fn byte_bits(x: u8) -> Seq<bool> {
    seq![
        (x >> 7u8) & 1 == 1,
        (x >> 6u8) & 1 == 1,
        (x >> 5u8) & 1 == 1,
        (x >> 4u8) & 1 == 1,
        (x >> 3u8) & 1 == 1,
        (x >> 2u8) & 1 == 1,
        (x >> 1u8) & 1 == 1,
        x & 1 == 1,
    ]
}

/// The bits of a byte string, first byte first.
pub open spec fn frame_bits(f: Seq<u8>) -> Seq<bool>
    decreases f.len(),
{
    if f.len() == 0 {
        Seq::empty()
    } else {
        byte_bits(f[0]) + frame_bits(f.drop_first())
    }
}

/// The wire frame of a message: marker, source, destination, payload.
pub open spec fn wire_frame(m: MessageModel) -> Seq<u8> {
    seq![marker_byte(m.payload.len() as int), m.src, m.dest] + m.payload
}

/// The gaps that carry a message to a fresh decoder.
pub open spec fn encode_message(m: MessageModel) -> Seq<u64> {
    encode_bits(frame_bits(wire_frame(m)), last_bit(SEED))
}

proof fn lemma_push_bit_last(buf: u64, b: bool)
    ensures
        last_bit(push_bit(buf, b)) == b,
{
    assert(((buf << 1u64) | (if b { 1u64 } else { 0u64 })) % 2 == (if b { 1u64 } else { 0u64 }))
        by (bit_vector);
}

proof fn lemma_push_bits_append(buf: u64, a: Seq<bool>, b: Seq<bool>)
    ensures
        push_bits(buf, a + b) == push_bits(push_bits(buf, a), b),
    decreases a.len(),
{
    if a.len() > 0 {
        assert((a + b).drop_first() =~= a.drop_first() + b);
        lemma_push_bits_append(push_bit(buf, a[0]), a.drop_first(), b);
    } else {
        assert(a + b =~= b);
    }
}

/// Each gap of the encoding makes the decoder recover exactly its bit.
proof fn lemma_feed_encode_bits(buf: u64, s: Seq<bool>, last: bool)
    requires
        last_bit(buf) == last,
    ensures
        feed(buf, encode_bits(s, last)) == push_bits(buf, s),
        encode_bits(s, last).len() == s.len(),
    decreases s.len(),
{
    if s.len() > 0 {
        let g = bit_gap(s[0], last);
        let rest = encode_bits(s.drop_first(), s[0]);
        reveal_with_fuel(push_bits, 2);
        assert(recovered_bits(g, last) =~= seq![s[0]]);
        assert(next_buffer(buf, g) == push_bit(buf, s[0]));
        lemma_push_bit_last(buf, s[0]);
        lemma_feed_encode_bits(push_bit(buf, s[0]), s.drop_first(), s[0]);
        assert((seq![g] + rest).drop_first() =~= rest);
    }
}

proof fn lemma_byte_bits(buf: u64, x: u8)
    ensures
        buffer_bytes(push_bits(buf, byte_bits(x))) == buffer_bytes(buf).drop_first().push(x),
{
    let s = byte_bits(x);
    reveal_with_fuel(push_bits, 9);
    assert(s.drop_first() =~= seq![s[1], s[2], s[3], s[4], s[5], s[6], s[7]]);
    assert(s.drop_first().drop_first() =~= seq![s[2], s[3], s[4], s[5], s[6], s[7]]);
    assert(s.drop_first().drop_first().drop_first() =~= seq![s[3], s[4], s[5], s[6], s[7]]);
    assert(s.drop_first().drop_first().drop_first().drop_first() =~= seq![s[4], s[5], s[6], s[7]]);
    assert(s.drop_first().drop_first().drop_first().drop_first().drop_first() =~= seq![
        s[5],
        s[6],
        s[7],
    ]);
    assert(s.drop_first().drop_first().drop_first().drop_first().drop_first().drop_first()
        =~= seq![s[6], s[7]]);
    assert(s.drop_first().drop_first().drop_first().drop_first().drop_first().drop_first().drop_first()
        =~= seq![s[7]]);
    assert(s.drop_first().drop_first().drop_first().drop_first().drop_first().drop_first().drop_first().drop_first()
        =~= Seq::<bool>::empty());
    let v = push_bits(buf, s);
    let v1 = push_bit(buf, s[0]);
    let v2 = push_bit(v1, s[1]);
    let v3 = push_bit(v2, s[2]);
    let v4 = push_bit(v3, s[3]);
    let v5 = push_bit(v4, s[4]);
    let v6 = push_bit(v5, s[5]);
    let v7 = push_bit(v6, s[6]);
    let v8 = push_bit(v7, s[7]);
    assert(v == v8);
    assert(v8 == (buf << 8u64) | (x as u64)) by (bit_vector)
        requires
            v1 == push_bit(buf, (x >> 7u8) & 1 == 1),
            v2 == push_bit(v1, (x >> 6u8) & 1 == 1),
            v3 == push_bit(v2, (x >> 5u8) & 1 == 1),
            v4 == push_bit(v3, (x >> 4u8) & 1 == 1),
            v5 == push_bit(v4, (x >> 3u8) & 1 == 1),
            v6 == push_bit(v5, (x >> 2u8) & 1 == 1),
            v7 == push_bit(v6, (x >> 1u8) & 1 == 1),
            v8 == push_bit(v7, x & 1 == 1),
    ;
    let w = (buf << 8u64) | (x as u64);
    assert(((w >> 56u64) & 0xFF) == ((buf >> 48u64) & 0xFF) && ((w >> 48u64) & 0xFF) == ((buf
        >> 40u64) & 0xFF) && ((w >> 40u64) & 0xFF) == ((buf >> 32u64) & 0xFF) && ((w >> 32u64)
        & 0xFF) == ((buf >> 24u64) & 0xFF) && ((w >> 24u64) & 0xFF) == ((buf >> 16u64) & 0xFF)
        && ((w >> 16u64) & 0xFF) == ((buf >> 8u64) & 0xFF) && ((w >> 8u64) & 0xFF) == (buf
        & 0xFF) && (w & 0xFF) == x as u64) by (bit_vector)
        requires
            w == (buf << 8u64) | (x as u64),
    ;
    assert(buffer_bytes(w) =~= buffer_bytes(buf).drop_first().push(x));
}

/// After the bits of a byte string, the register's bytes are the last eight
/// of its old bytes followed by the string.
proof fn lemma_frame_bytes(buf: u64, f: Seq<u8>)
    ensures
        buffer_bytes(push_bits(buf, frame_bits(f))) == (buffer_bytes(buf) + f).subrange(
            f.len() as int,
            f.len() + 8int,
        ),
    decreases f.len(),
{
    if f.len() == 0 {
        assert((buffer_bytes(buf) + f).subrange(0, 8) =~= buffer_bytes(buf));
    } else {
        let b1 = push_bits(buf, byte_bits(f[0]));
        lemma_push_bits_append(buf, byte_bits(f[0]), frame_bits(f.drop_first()));
        lemma_byte_bits(buf, f[0]);
        lemma_frame_bytes(b1, f.drop_first());
        let r = f.len() - 1;
        assert((buffer_bytes(b1) + f.drop_first()).subrange(r, r + 8) =~= (buffer_bytes(buf)
            + f).subrange(f.len() as int, f.len() + 8int));
    }
}

/// Feeding a fresh decoder the gaps that encode a message leaves it holding
/// exactly that message, with the type and address fields it was built
/// from, and takes no more gaps than a decoder records.
pub proof fn lemma_round_trip(
    src_type: u8,
    src_addr: u8,
    dest_type: u8,
    dest_addr: u8,
    payload: Seq<u8>,
)
    requires
        src_type < 32,
        src_addr < 8,
        dest_type < 32,
        dest_addr < 8,
        valid_payload_len(payload.len() as int),
    ensures
        ({
            let m = MessageModel {
                src: pack_identity(src_type, src_addr),
                dest: pack_identity(dest_type, dest_addr),
                payload,
            };
            &&& encode_message(m).len() <= TIMING_CAPACITY
            &&& detect(feed(SEED, encode_message(m))) == Some(m)
            &&& identity_type(m.src) == src_type
            &&& identity_addr(m.src) == src_addr
            &&& identity_type(m.dest) == dest_type
            &&& identity_addr(m.dest) == dest_addr
        }),
{
    let m = MessageModel {
        src: pack_identity(src_type, src_addr),
        dest: pack_identity(dest_type, dest_addr),
        payload,
    };
    let f = wire_frame(m);
    let n = payload.len() as int;
    lemma_frame_bits_len(f);
    lemma_feed_encode_bits(SEED, frame_bits(f), last_bit(SEED));
    lemma_frame_bytes(SEED, f);
    lemma_seed_bytes();
    let b = buffer_bytes(feed(SEED, encode_message(m)));
    assert(b =~= (seq![0u8, 0, 0, 0, 0, 0, 0, 1] + f).subrange(n + 3, n + 11));
    let i = 5 - n;
    assert(b.subrange(i, 8) =~= f);
    assert(f[0] == marker_byte(n));
    if n == 5 {
        assert(b[0] == marker_byte(5));
    } else if n == 4 {
        assert(b[0] == 1);
        assert(b[1] == marker_byte(4));
    } else if n == 3 {
        assert(b[1] == 1);
        assert(b[2] == marker_byte(3));
    } else if n == 2 {
        assert(b[2] == 1);
        assert(b[3] == marker_byte(2));
    } else {
        assert(b[3] == 1);
        assert(b[4] == marker_byte(1));
    }
    assert(f.subrange(3, f.len() as int) =~= payload);
    assert(frame_model(f) == m);
    assert(pack_identity(src_type, src_addr) / 8 == src_type);
    assert(pack_identity(src_type, src_addr) % 8 == src_addr);
    assert(pack_identity(dest_type, dest_addr) / 8 == dest_type);
    assert(pack_identity(dest_type, dest_addr) % 8 == dest_addr);
}

proof fn lemma_frame_bits_len(f: Seq<u8>)
    ensures
        frame_bits(f).len() == 8 * f.len(),
    decreases f.len(),
{
    if f.len() > 0 {
        lemma_frame_bits_len(f.drop_first());
    }
}

} // verus!
