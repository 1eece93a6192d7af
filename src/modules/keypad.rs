use vstd::prelude::*;

use crate::codec::be_bytes;
use crate::common::Modules;
use crate::driver::{register_read, register_write, write_u8, Op, DELAY_TIME};
use crate::reg::RegValue;

verus! {

/// Function id of the register that selects which events a key reports.
pub const EVENT: u8 = 0x01;

/// Function id of the register that enables the keypad interrupt.
pub const INT_SET: u8 = 0x02;

/// Function id of the register that disables the keypad interrupt.
pub const INT_CLR: u8 = 0x03;

/// Function id of the register that holds the number of queued events.
pub const COUNT: u8 = 0x04;

/// Function id of the event queue.
pub const FIFO: u8 = 0x10;

/// The number of bytes of the event queue.
pub const FIFO_LEN: usize = 16;

#[derive(Debug, Clone, Copy, PartialEq, Eq, Structural)]
pub enum EventType {
    /// steady-state key is down
    IsDown,
    /// steady-state key is up
    IsUp,
    /// one-shot as key is released
    Released,
    /// one-shot as key is pressed
    Pressed,
}

impl EventType {
    /// The code of this event type in the protocol.
    pub open spec fn code(self) -> u8 {
        match self {
            EventType::IsDown => 0,
            EventType::IsUp => 1,
            EventType::Released => 2,
            EventType::Pressed => 3,
        }
    }

    /// The event type with code `c`, for a code below four.
    pub open spec fn of_code(c: u8) -> EventType {
        if c == 0 {
            EventType::IsDown
        } else if c == 1 {
            EventType::IsUp
        } else if c == 2 {
            EventType::Released
        } else {
            EventType::Pressed
        }
    }
}

impl Default for EventType {
    fn default() -> (r: EventType)
        ensures
            r == EventType::IsDown,
    {
        EventType::IsDown
    }
}

#[derive(Debug, Clone, Copy, PartialEq, Eq, Structural)]
pub struct KeyEvent {
    pub event: EventType,
    pub key: u8,
}

impl Default for KeyEvent {
    fn default() -> (r: KeyEvent)
        ensures
            r == (KeyEvent { event: EventType::IsDown, key: 0 }),
    {
        KeyEvent { event: EventType::IsDown, key: 0 }
    }
}

/// The event that a record of the event queue stands for: its two low bits
/// give the event type, the rest the key.
pub open spec fn key_event_of(rec: u8) -> KeyEvent {
    KeyEvent { event: EventType::of_code(rec % 4), key: rec / 4 }
}

/// The events that a poll found, in the order the peripheral queued them.
pub struct KeyEventIter {
    count: u8,
    cur: u8,
    buf: Vec<u8>,
}

impl KeyEventIter {
    pub closed spec fn wf(&self) -> bool {
        &&& self.cur <= self.count
        &&& self.count as nat <= self.buf@.len()
    }

    /// The events not yet taken.
    pub closed spec fn remaining(&self) -> Seq<KeyEvent> {
        self.buf@.subrange(self.cur as int, self.count as int).map_values(|b: u8| key_event_of(b))
    }

    /// No events.
    pub fn empty() -> (r: KeyEventIter)
        ensures
            r.wf(),
            r.remaining() == Seq::<KeyEvent>::empty(),
    {
        let r = KeyEventIter { count: 0, cur: 0, buf: Vec::new() };
        assert(r.remaining() =~= Seq::<KeyEvent>::empty());
        r
    }

    /// The events of the first `count` records of the event queue `fifo`;
    /// a count beyond the queue's size stands for a full queue.
    pub fn from_fifo(count: u8, fifo: &[u8]) -> (r: KeyEventIter)
        requires
            fifo@.len() == FIFO_LEN,
        ensures
            r.wf(),
            r.remaining() == fifo@.subrange(0, clamp_count(count) as int).map_values(
                |b: u8| key_event_of(b),
            ),
    {
        let n = poll_count(count);
        let mut buf: Vec<u8> = Vec::new();
        let mut i: usize = 0;
        while i < FIFO_LEN
            invariant
                i <= FIFO_LEN,
                fifo@.len() == FIFO_LEN,
                buf@ == fifo@.subrange(0, i as int),
            decreases FIFO_LEN - i,
        {
            buf.push(fifo[i]);
            i = i + 1;
            assert(buf@ =~= fifo@.subrange(0, i as int));
        }
        let r = KeyEventIter { count: n, cur: 0, buf };
        assert(r.remaining() =~= fifo@.subrange(0, clamp_count(count) as int).map_values(
            |b: u8| key_event_of(b),
        ));
        r
    }

    /// Takes the next event, if any is left.
    pub fn next(&mut self) -> (r: Option<KeyEvent>)
        requires
            old(self).wf(),
        ensures
            final(self).wf(),
            old(self).remaining().len() == 0 ==> r is None && final(self).remaining() == old(
                self,
            ).remaining(),
            old(self).remaining().len() > 0 ==> r == Some(old(self).remaining()[0])
                && final(self).remaining() == old(self).remaining().drop_first(),
    {
        if self.cur >= self.count {
            return None;
        }
        let rec: u8 = self.buf[self.cur as usize];
        self.cur = self.cur + 1;
        let event = match rec & 3 {
            0 => EventType::IsDown,
            1 => EventType::IsUp,
            2 => EventType::Released,
            _ => EventType::Pressed,
        };
        let key = rec >> 2;
        assert(rec & 3 == rec % 4 && rec >> 2 == rec / 4) by (bit_vector);
        assert(final(self).remaining() =~= old(self).remaining().drop_first());
        Some(KeyEvent { event, key })
    }

    /// All events not yet taken, in order.
    pub fn collect(&mut self) -> (r: Vec<KeyEvent>)
        requires
            old(self).wf(),
        ensures
            final(self).wf(),
            r@ == old(self).remaining(),
            final(self).remaining().len() == 0,
    {
        let mut out: Vec<KeyEvent> = Vec::new();
        loop
            invariant
                self.wf(),
                out@ + self.remaining() == old(self).remaining(),
            decreases self.remaining().len(),
        {
            match self.next() {
                Some(e) => {
                    out.push(e);
                    assert(out@ + self.remaining() =~= old(self).remaining());
                },
                None => {
                    assert(out@ =~= old(self).remaining());
                    return out;
                },
            }
        }
    }
}

/// The number of queued events that a poll takes: the count that the
/// peripheral reported, at most the queue's size.
pub open spec fn clamp_count(count: u8) -> u8 {
    if count > FIFO_LEN {
        FIFO_LEN as u8
    } else {
        count
    }
}

pub fn poll_count(count: u8) -> (r: u8)
    ensures
        r == clamp_count(count),
{
    if count as usize > FIFO_LEN {
        FIFO_LEN as u8
    } else {
        count
    }
}

/// The read of the number of queued events: the first step of a poll.
pub fn poll(addr: u8) -> (r: Op)
    ensures
        r.is_read(addr, seq![Modules::Keypad.id(), COUNT], 1),
{
    register_read(addr, &Modules::Keypad.reg(COUNT), 1)
}

/// The second step of a poll, given the count that the first returned: no
/// read where no event is queued, else the read of the whole queue.
pub fn poll_fifo(addr: u8, count: u8) -> (r: Option<Op>)
    ensures
        count == 0 ==> r is None,
        count != 0 ==> r is Some && r->0.is_read(addr, seq![Modules::Keypad.id(), FIFO], FIFO_LEN),
{
    if count == 0 {
        None
    } else {
        Some(register_read(addr, &Modules::Keypad.reg(FIFO), FIFO_LEN))
    }
}

/// The sum of the bits that select the event types of `types`, one bit per
/// entry above the enable bit.
pub open spec fn event_mask(types: Seq<EventType>) -> nat
    decreases types.len(),
{
    if types.len() == 0 {
        0
    } else {
        event_mask(types.drop_last()) + pow2_code(types.last())
    }
}

/// The bit that selects event type `e`: two shifted left by its code.
pub open spec fn pow2_code(e: EventType) -> nat {
    match e {
        EventType::IsDown => 2,
        EventType::IsUp => 4,
        EventType::Released => 8,
        EventType::Pressed => 16,
    }
}

/// The byte that selects the event types of `types` for a key, with the
/// enable bit set if `enable`.
pub open spec fn watch_value(types: Seq<EventType>, enable: bool) -> nat {
    event_mask(types) + if enable {
        1nat
    } else {
        0nat
    }
}

proof fn lemma_event_mask_prefix(types: Seq<EventType>, i: int)
    requires
        0 <= i < types.len(),
    ensures
        event_mask(types.subrange(0, i + 1)) == event_mask(types.subrange(0, i)) + pow2_code(
            types[i],
        ),
        event_mask(types.subrange(0, i)) <= event_mask(types.subrange(0, i + 1)),
{
    assert(types.subrange(0, i + 1).drop_last() =~= types.subrange(0, i));
}

proof fn lemma_event_mask_monotonic(types: Seq<EventType>, i: int)
    requires
        0 <= i <= types.len(),
    ensures
        event_mask(types.subrange(0, i)) <= event_mask(types),
    decreases types.len() - i,
{
    if i < types.len() {
        lemma_event_mask_prefix(types, i);
        lemma_event_mask_monotonic(types, i + 1);
    } else {
        assert(types.subrange(0, i) =~= types);
    }
}

/// The write that makes `key` report the event types of `types`, or stop
/// reporting them where `enable` is false.
pub fn watch_event(addr: u8, key: u8, types: &[EventType], enable: bool) -> (r: Op)
    requires
        watch_value(types@, enable) < 256,
    ensures
        r.is_write(
            addr,
            seq![seq![Modules::Keypad.id(), EVENT, key, watch_value(types@, enable) as u8]],
            DELAY_TIME,
        ),
{
    let mut v: u8 = 0;
    let mut i: usize = 0;
    proof {
        lemma_event_mask_monotonic(types@, 0);
        assert(types@.subrange(0, 0) =~= Seq::<EventType>::empty());
    }
    while i < types.len()
        invariant
            i <= types@.len(),
            v == event_mask(types@.subrange(0, i as int)),
            watch_value(types@, enable) < 256,
        decreases types@.len() - i,
    {
        proof {
            lemma_event_mask_prefix(types@, i as int);
            lemma_event_mask_monotonic(types@, i + 1);
        }
        let bit: u8 = match types[i] {
            EventType::IsDown => 2,
            EventType::IsUp => 4,
            EventType::Released => 8,
            EventType::Pressed => 16,
        };
        v = v + bit;
        i = i + 1;
    }
    assert(types@.subrange(0, i as int) =~= types@);
    if enable {
        v = v + 1;
    }
    let payload: [u8; 2] = [key, v];
    let regval = RegValue::<2>::new(&Modules::Keypad.reg(EVENT)).with_bytes(&payload);
    assert(regval@ =~= seq![Modules::Keypad.id(), EVENT, key, watch_value(types@, enable) as u8]);
    register_write(addr, &regval)
}

/// The write that enables the keypad interrupt.
pub fn enable_interrupt(addr: u8) -> (r: Op)
    ensures
        r.is_write(addr, seq![seq![Modules::Keypad.id(), INT_SET] + be_bytes(1, 1)], DELAY_TIME),
{
    write_u8(addr, &Modules::Keypad.reg(INT_SET), 1)
}

/// The write that disables the keypad interrupt.
pub fn disable_interrupt(addr: u8) -> (r: Op)
    ensures
        r.is_write(addr, seq![seq![Modules::Keypad.id(), INT_CLR] + be_bytes(1, 1)], DELAY_TIME),
{
    write_u8(addr, &Modules::Keypad.reg(INT_CLR), 1)
}

} // verus!
