use macadamia_proto1::{CommsDecoder, CommsMessage};

/// Gaps, one per bit, that make a fresh decoder recover `bytes` bit for bit.
fn encode(bytes: &[u8]) -> Vec<u64> {
    let mut last = true;
    let mut out = Vec::new();
    for b in bytes {
        for k in (0..8).rev() {
            let bit = (b >> k) & 1 == 1;
            out.push(if !bit {
                2400
            } else if last {
                1000
            } else {
                1500
            });
            last = bit;
        }
    }
    out
}

fn feed_all(d: &mut CommsDecoder, ds: &[u64]) -> Vec<Option<CommsMessage>> {
    ds.iter().map(|&t| d.consume_delta(t)).collect()
}

#[test]
fn fresh_decoder_is_seeded() {
    let d = CommsDecoder::new();
    assert_eq!(d.buffer(), 1);
    assert!(d.timings().is_empty());
}

#[test]
fn glitches_change_nothing() {
    let mut d = CommsDecoder::new();
    for t in [0u64, 100, 500, 749, 750] {
        assert!(d.consume_delta(t).is_none());
        assert_eq!(d.buffer(), 1);
    }
    assert_eq!(d.timings(), &[0, 100, 500, 749, 750]);
}

#[test]
fn idle_gap_shifts_in_zero() {
    let mut d = CommsDecoder::new();
    assert!(d.consume_delta(2300).is_none());
    assert_eq!(d.buffer(), 0b10);
    d.consume_delta(1800);
    assert_eq!(d.buffer(), 0b1001);
    d.consume_delta(2300);
    assert_eq!(d.buffer(), 0b10010);
}

#[test]
fn two_bit_gap_shifts_in_zero_one() {
    let mut d = CommsDecoder::new();
    d.consume_delta(1800);
    assert_eq!(d.buffer(), 0b101);
    d.consume_delta(2300);
    d.consume_delta(1800);
    assert_eq!(d.buffer(), 0b101001);
}

#[test]
fn one_and_a_half_gap_after_one() {
    let mut d = CommsDecoder::new();
    d.consume_delta(1300);
    assert_eq!(d.buffer(), 0b100);
}

#[test]
fn one_and_a_half_gap_after_zero() {
    let mut d = CommsDecoder::new();
    d.consume_delta(2300);
    d.consume_delta(1300);
    assert_eq!(d.buffer(), 0b101);
}

#[test]
fn one_bit_gap_repeats_last_bit() {
    let mut d = CommsDecoder::new();
    d.consume_delta(1000);
    assert_eq!(d.buffer(), 0b11);
    d.consume_delta(2300);
    d.consume_delta(1000);
    assert_eq!(d.buffer(), 0b1100);
}

#[test]
fn threshold_edges() {
    let mut d = CommsDecoder::new();
    d.consume_delta(751);
    assert_eq!(d.buffer(), 0b11);
    d.consume_delta(1250);
    assert_eq!(d.buffer(), 0b111);
    d.consume_delta(1251);
    assert_eq!(d.buffer(), 0b11100);
    d.consume_delta(1750);
    assert_eq!(d.buffer(), 0b111001);
    d.consume_delta(2250);
    assert_eq!(d.buffer(), 0b11100101);
    d.consume_delta(2251);
    assert_eq!(d.buffer(), 0b111001010);
}

#[test]
fn decodes_one_byte_message() {
    let ds = encode(&[0xE1, 0x00, 0x08, 0x2A]);
    assert_eq!(ds.len(), 32);
    let mut d = CommsDecoder::new();
    let out = feed_all(&mut d, &ds);
    assert!(out[..31].iter().all(|m| m.is_none()));
    let m = out[31].as_ref().unwrap();
    assert_eq!(m.payload().len(), 1);
    assert_eq!(m.src_type(), 0);
    assert_eq!(m.src_addr(), 0);
    assert_eq!(m.dest_type(), 1);
    assert_eq!(m.dest_addr(), 0);
    assert_eq!(m.payload(), &[0x2A]);
    assert_eq!(d.timings(), &ds[..]);
}

#[test]
fn decodes_five_byte_message() {
    let ds = encode(&[0xE5, 0x3A, 0x91, 1, 2, 3, 4, 5]);
    assert_eq!(ds.len(), 64);
    let mut d = CommsDecoder::new();
    let out = feed_all(&mut d, &ds);
    let m = out[63].as_ref().unwrap();
    assert_eq!(m.src_type(), 7);
    assert_eq!(m.src_addr(), 2);
    assert_eq!(m.dest_type(), 18);
    assert_eq!(m.dest_addr(), 1);
    assert_eq!(m.payload(), &[1, 2, 3, 4, 5]);
}

#[test]
fn round_trip_each_length() {
    let payload = [0x11u8, 0x22, 0x33, 0x44, 0x55];
    for n in 1..=5usize {
        let sent = CommsMessage::new(9, 6, 20, 3, &payload[..n]);
        let mut frame = vec![0xE0 | n as u8, (9 << 3) | 6, (20 << 3) | 3];
        frame.extend_from_slice(&payload[..n]);
        let ds = encode(&frame);
        let mut d = CommsDecoder::new();
        let out = feed_all(&mut d, &ds);
        let got = out.last().unwrap().as_ref().unwrap();
        assert_eq!(got.src_type(), sent.src_type());
        assert_eq!(got.src_addr(), sent.src_addr());
        assert_eq!(got.dest_type(), sent.dest_type());
        assert_eq!(got.dest_addr(), sent.dest_addr());
        assert_eq!(got.payload(), sent.payload());
    }
}

#[test]
fn marker_at_wrong_offset_is_not_a_frame() {
    // 0xE1 as the newest byte is not where a one-byte frame's marker stands.
    let ds = encode(&[0xE1]);
    let mut d = CommsDecoder::new();
    let out = feed_all(&mut d, &ds);
    assert!(out.iter().all(|m| m.is_none()));
}
