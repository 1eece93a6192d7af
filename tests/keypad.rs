use seesaw::driver::Op;
use seesaw::modules::encoder::{delta, position, set_position};
use seesaw::modules::keypad::{
    enable_interrupt, poll, poll_count, poll_fifo, watch_event, EventType, KeyEvent, KeyEventIter,
};

#[test]
fn events_decode_type_and_key() {
    let mut fifo = [0u8; 16];
    fifo[0] = (5 << 2) | 3;
    fifo[1] = (6 << 2) | 2;
    fifo[2] = 0xff;
    let mut it = KeyEventIter::from_fifo(2, &fifo);
    assert_eq!(it.next(), Some(KeyEvent { event: EventType::Pressed, key: 5 }));
    assert_eq!(it.next(), Some(KeyEvent { event: EventType::Released, key: 6 }));
    assert_eq!(it.next(), None);
    assert_eq!(it.next(), None);
}

#[test]
fn poll_count_is_clamped() {
    assert_eq!(poll_count(40), 16);
    assert_eq!(poll_count(3), 3);
    let fifo = [1u8; 16];
    let mut it = KeyEventIter::from_fifo(200, &fifo);
    assert_eq!(it.collect().len(), 16);
    assert!(KeyEventIter::empty().collect().is_empty());
}

#[test]
fn poll_reads_count_then_fifo() {
    assert!(matches!(poll(0x30), Op::Read { addr: 0x30, reg: [0x10, 0x04], len: 1 }));
    assert!(poll_fifo(0x30, 0).is_none());
    assert!(matches!(poll_fifo(0x30, 2), Some(Op::Read { addr: 0x30, reg: [0x10, 0x10], len: 16 })));
}

#[test]
fn watch_event_value() {
    match watch_event(0x30, 4, &[EventType::Pressed, EventType::Released], true) {
        Op::Write { frames, .. } => assert_eq!(frames, vec![vec![0x10, 0x01, 4, 16 + 8 + 1]]),
        Op::Read { .. } => panic!("expected a write"),
    }
    match watch_event(0x30, 1, &[EventType::IsDown], false) {
        Op::Write { frames, .. } => assert_eq!(frames, vec![vec![0x10, 0x01, 1, 2]]),
        Op::Read { .. } => panic!("expected a write"),
    }
    match enable_interrupt(0x30) {
        Op::Write { frames, .. } => assert_eq!(frames, vec![vec![0x10, 0x02, 1]]),
        Op::Read { .. } => panic!("expected a write"),
    }
}

#[test]
fn encoder_registers() {
    assert!(matches!(delta(0x36), Op::Read { addr: 0x36, reg: [0x11, 0x40], len: 4 }));
    assert!(matches!(position(0x36), Op::Read { addr: 0x36, reg: [0x11, 0x30], len: 4 }));
    match set_position(0x36, 258) {
        Op::Write { frames, .. } => assert_eq!(frames, vec![vec![0x11, 0x30, 0, 0, 1, 2]]),
        Op::Read { .. } => panic!("expected a write"),
    }
}
