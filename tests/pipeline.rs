use macadamia_proto1::{DecodeAction, DecodeEvent, DecodeStage, EdgeCapture, COMMS_GIVE_UP};

fn encode(bytes: &[u8]) -> Vec<u64> {
    let mut last = true;
    let mut out = Vec::new();
    for b in bytes {
        for k in (0..8).rev() {
            let bit = (b >> k) & 1 == 1;
            out.push(if !bit {
                2400
            } else if last {
                1000
            } else {
                1500
            });
            last = bit;
        }
    }
    out
}

#[test]
fn give_up_interval() {
    assert_eq!(COMMS_GIVE_UP, 2500);
}

#[test]
fn edge_capture_gaps() {
    let mut e = EdgeCapture::new(100);
    assert_eq!(e.on_edge(1100), 1000);
    assert_eq!(e.on_edge(3600), 2500);
    assert_eq!(e.on_edge(3000), 0);
    assert_eq!(e.on_edge(3750), 750);
}

#[test]
fn idle_stage_ignores_give_up() {
    let mut s = DecodeStage::new();
    assert!(s.is_idle());
    assert!(matches!(s.step(DecodeEvent::GiveUp), DecodeAction::Continue));
    assert!(s.is_idle());
}

#[test]
fn first_gap_starts_an_attempt() {
    let mut s = DecodeStage::new();
    assert!(matches!(s.step(DecodeEvent::Delta(2400)), DecodeAction::Continue));
    assert!(!s.is_idle());
}

#[test]
fn stage_emits_message() {
    let mut s = DecodeStage::new();
    s.step(DecodeEvent::Delta(5000));
    let ds = encode(&[0xE1, 0x00, 0x08, 0x2A]);
    let mut emitted = None;
    for (i, &t) in ds.iter().enumerate() {
        match s.step(DecodeEvent::Delta(t)) {
            DecodeAction::Continue => assert!(i < ds.len() - 1),
            DecodeAction::Emit(m) => {
                assert_eq!(i, ds.len() - 1);
                emitted = Some(m);
            }
            DecodeAction::Abandon { .. } => panic!("attempt abandoned"),
        }
    }
    let m = emitted.unwrap();
    assert_eq!(m.src_type(), 0);
    assert_eq!(m.src_addr(), 0);
    assert_eq!(m.dest_type(), 1);
    assert_eq!(m.dest_addr(), 0);
    assert_eq!(m.payload(), &[0x2A]);
    assert!(s.is_idle());
}

#[test]
fn glitches_then_silence_abandon() {
    let mut s = DecodeStage::new();
    s.step(DecodeEvent::Delta(300));
    for _ in 0..3 {
        assert!(matches!(s.step(DecodeEvent::Delta(300)), DecodeAction::Continue));
    }
    match s.step(DecodeEvent::GiveUp) {
        DecodeAction::Abandon { bits, decoder } => {
            assert_eq!(bits, 4);
            assert_eq!(decoder.timings(), &[300, 300, 300, 2500]);
            assert_eq!(decoder.buffer(), 0b10);
        }
        _ => panic!("expected the attempt to be abandoned"),
    }
    assert!(s.is_idle());
}

#[test]
fn long_gap_filling_record_keeps_framing() {
    let mut s = DecodeStage::new();
    s.step(DecodeEvent::Delta(100));
    for _ in 0..63 {
        assert!(matches!(s.step(DecodeEvent::Delta(100)), DecodeAction::Continue));
    }
    assert!(matches!(s.step(DecodeEvent::Delta(3000)), DecodeAction::Continue));
    assert!(!s.is_idle());
    match s.step(DecodeEvent::GiveUp) {
        DecodeAction::Abandon { bits, decoder } => {
            assert_eq!(bits, 64);
            assert_eq!(decoder.timings().len(), 64);
            assert_eq!(decoder.timings()[63], 3000);
            assert_eq!(decoder.buffer(), 0b10);
        }
        _ => panic!("expected the attempt to be abandoned"),
    }
    assert!(s.is_idle());
}

#[test]
fn long_received_gap_keeps_framing() {
    let mut s = DecodeStage::new();
    s.step(DecodeEvent::Delta(1000));
    assert!(matches!(s.step(DecodeEvent::Delta(9000)), DecodeAction::Continue));
    assert!(!s.is_idle());
    match s.step(DecodeEvent::GiveUp) {
        DecodeAction::Abandon { bits, decoder } => {
            assert_eq!(bits, 2);
            assert_eq!(decoder.timings(), &[9000, 2500]);
            assert_eq!(decoder.buffer(), 0b100);
        }
        _ => panic!("expected the attempt to be abandoned"),
    }
}

#[test]
fn full_timing_record_abandons_on_next_event() {
    let mut s = DecodeStage::new();
    s.step(DecodeEvent::Delta(100));
    for _ in 0..64 {
        assert!(matches!(s.step(DecodeEvent::Delta(100)), DecodeAction::Continue));
    }
    assert!(!s.is_idle());
    match s.step(DecodeEvent::Delta(100)) {
        DecodeAction::Abandon { bits, decoder } => {
            assert_eq!(bits, 64);
            assert_eq!(decoder.timings().len(), 64);
        }
        _ => panic!("expected the attempt to be abandoned"),
    }
    assert!(s.is_idle());
}
