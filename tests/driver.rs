use seesaw::common::{check_hardware_id, HardwareId, Modules};
use seesaw::driver::{
    register_read, register_write, write_frames, write_i32, write_u16, write_u8, Action, Driver, Event, Op,
    DELAY_TIME, ERROR_DELAY, SETTLE_DELAY,
};
use seesaw::reg::RegValue;
use seesaw::SeesawError;

fn sleep_of(a: &Action<u8>) -> Option<u64> {
    match a {
        Action::Sleep(d) => Some(*d),
        _ => None,
    }
}

fn write_of(a: &Action<u8>) -> Option<(u8, Vec<u8>)> {
    match a {
        Action::BusWrite { addr, bytes } => Some((*addr, bytes.clone())),
        _ => None,
    }
}

#[test]
fn first_operation_does_not_wait() {
    let mut d = Driver::new();
    let a: Action<u8> = d.start(write_u8(0x49, &[0x0E, 0x01], 3), 0);
    assert_eq!(write_of(&a), Some((0x49, vec![0x0E, 0x01, 3])));
    let a = d.resume(Event::<u8>::Wrote(10, Ok(())));
    assert!(matches!(a, Action::Done(Ok(ref b)) if b.is_empty()));
    assert!(d.is_idle());
    assert_eq!(d.timeout(), 10 + DELAY_TIME);
}

#[test]
fn next_operation_waits_for_backoff() {
    let mut d = Driver::new();
    let _: Action<u8> = d.start(write_u8(0x49, &[0x0E, 0x01], 3), 0);
    let _ = d.resume(Event::<u8>::Wrote(10, Ok(())));
    let a: Action<u8> = d.start(write_u16(0x49, &[0x0E, 0x03], 12), 50);
    assert_eq!(sleep_of(&a), Some(10 + DELAY_TIME - 50));
    let a = d.resume(Event::<u8>::Woke(10 + DELAY_TIME));
    assert_eq!(write_of(&a), Some((0x49, vec![0x0E, 0x03, 0, 12])));
}

#[test]
fn operation_after_backoff_instant_does_not_wait() {
    let mut d = Driver::new();
    let _: Action<u8> = d.start(write_u8(0x49, &[0, 1], 3), 0);
    let _ = d.resume(Event::<u8>::Wrote(10, Ok(())));
    let a: Action<u8> = d.start(write_u8(0x49, &[0, 1], 4), 10 + DELAY_TIME);
    assert_eq!(write_of(&a), Some((0x49, vec![0, 1, 4])));
}

#[test]
fn failed_write_rearms_backoff() {
    let mut d = Driver::new();
    let _: Action<u8> = d.start(write_u8(0x49, &[0, 1], 3), 0);
    let a = d.resume(Event::<u8>::Wrote(20, Err(7)));
    assert!(matches!(a, Action::Done(Err(SeesawError::I2c(7)))));
    assert_eq!(d.timeout(), 20 + ERROR_DELAY);
    let a: Action<u8> = d.start(write_u8(0x49, &[0, 1], 3), 21);
    assert_eq!(sleep_of(&a), Some(20 + ERROR_DELAY - 21));
}

#[test]
fn read_selects_settles_and_reads() {
    let mut d = Driver::new();
    let a: Action<u8> = d.start(register_read(0x36, &[0x11, 0x30], 4), 0);
    assert_eq!(write_of(&a), Some((0x36, vec![0x11, 0x30])));
    let a = d.resume(Event::<u8>::Wrote(5, Ok(())));
    assert_eq!(sleep_of(&a), Some(SETTLE_DELAY));
    let a = d.resume(Event::<u8>::Woke(130));
    assert!(matches!(a, Action::BusRead { addr: 0x36, len: 4 }));
    let a = d.resume(Event::<u8>::Received(140, Ok(vec![0xff, 0xff, 0xff, 0xfe])));
    assert!(matches!(a, Action::Done(Ok(ref b)) if b == &vec![0xff, 0xff, 0xff, 0xfe]));
    assert_eq!(d.timeout(), 140 + DELAY_TIME);
}

#[test]
fn failed_select_never_reads() {
    let mut d = Driver::new();
    let a: Action<u8> = d.start(register_read(0x36, &[0x11, 0x30], 4), 0);
    assert!(write_of(&a).is_some());
    let a = d.resume(Event::<u8>::Wrote(5, Err(3)));
    assert!(matches!(a, Action::Done(Err(SeesawError::I2c(3)))));
    assert!(d.is_idle());
    assert_eq!(d.timeout(), 5 + ERROR_DELAY);
    assert!(!d.accepts(&Event::<u8>::Woke(200)));
}

#[test]
fn empty_write_touches_no_bus() {
    let mut d = Driver::new();
    d.set_timeout(0, 500);
    let a: Action<u8> = d.start(write_frames(0x30, Vec::new(), DELAY_TIME), 0);
    assert!(matches!(a, Action::Done(Ok(ref b)) if b.is_empty()));
    assert!(d.is_idle());
    assert_eq!(d.timeout(), 500);
}

#[test]
fn chunked_write_stops_at_first_failure() {
    let mut d = Driver::new();
    let frames = vec![vec![1, 2], vec![3, 4], vec![5, 6]];
    let a: Action<u8> = d.start(write_frames(0x30, frames, DELAY_TIME), 0);
    assert_eq!(write_of(&a), Some((0x30, vec![1, 2])));
    let a = d.resume(Event::<u8>::Wrote(1, Ok(())));
    assert_eq!(sleep_of(&a), Some(DELAY_TIME));
    let a = d.resume(Event::<u8>::Woke(1 + DELAY_TIME));
    assert_eq!(write_of(&a), Some((0x30, vec![3, 4])));
    let a = d.resume(Event::<u8>::Wrote(200, Err(9)));
    assert!(matches!(a, Action::Done(Err(SeesawError::I2c(9)))));
    assert!(d.is_idle());
}

#[test]
fn integer_writes_are_big_endian_frames() {
    match write_i32(0x36, &[0x11, 0x30], -2) {
        Op::Write { addr, frames, hold } => {
            assert_eq!(addr, 0x36);
            assert_eq!(frames, vec![vec![0x11, 0x30, 0xff, 0xff, 0xff, 0xfe]]);
            assert_eq!(hold, DELAY_TIME);
        }
        Op::Read { .. } => panic!("expected a write"),
    }
}

#[test]
fn register_value_holds_address_then_payload() {
    let v = RegValue::<3>::new(&[0x10, 0x01]);
    assert_eq!(v.buffer(), &[0x10, 0x01, 0, 0, 0]);
    let v = v.with_bytes(&[7, 8]);
    assert_eq!(v.buffer(), &[0x10, 0x01, 7, 8, 0]);
    match register_write(0x30, &v) {
        Op::Write { frames, .. } => assert_eq!(frames, vec![vec![0x10, 0x01, 7, 8, 0]]),
        Op::Read { .. } => panic!("expected a write"),
    }
}

#[test]
fn module_ids_and_hardware_ids() {
    assert_eq!(Modules::Neopixel.into_u8(), 0x0E);
    assert_eq!(Modules::Encoder.into_u8(), 0x11);
    assert_eq!(Modules::Gpio.into_u8(), 0x01);
    assert_eq!(u8::from(HardwareId::SAMD09), 0x55);
    assert_eq!(u8::from(HardwareId::ATTINY817), 0x87);
    assert!(check_hardware_id::<u8>(HardwareId::SAMD09, 0x55).is_ok());
    assert!(matches!(
        check_hardware_id::<u8>(HardwareId::ATTINY817, 0x55),
        Err(SeesawError::InvalidHardwareId(0x55))
    ));
}
