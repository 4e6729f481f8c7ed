//! The keyboard latch: a 16-bit pressed/released bitmask, one bit per logical
//! key 0-F, updated by draining a non-blocking queue of key-up/key-down
//! events before each device cycle.

use vstd::prelude::*;
use crate::util::{EmulatorError, EmulatorResult};

verus! {

#[verifier::external_type_specification]
#[verifier::external_body]
#[verifier::reject_recursive_types(T)]
pub struct ExReceiver<T>(std::sync::mpsc::Receiver<T>);

#[verifier::external_type_specification]
#[verifier::external_body]
#[verifier::reject_recursive_types(T)]
pub struct ExSender<T>(std::sync::mpsc::Sender<T>);

/// The sixteen logical keys of the CHIP-8 keypad.
#[derive(Eq, PartialEq, PartialOrd, Clone, Copy, Debug)]
pub enum Key {
    K0,
    K1,
    K2,
    K3,
    K4,
    K5,
    K6,
    K7,
    K8,
    K9,
    KA,
    KB,
    KC,
    KD,
    KE,
    KF,
}

#[derive(Clone, Copy, Debug, Eq, PartialEq)]
pub enum KeyboardEvent {
    KeyUp(Key),
    KeyDown(Key),
}

/// The bit position of a logical key in the latch bitmask.
pub open spec fn spec_key_index(k: Key) -> u16 {
    match k {
        Key::K0 => 0,
        Key::K1 => 1,
        Key::K2 => 2,
        Key::K3 => 3,
        Key::K4 => 4,
        Key::K5 => 5,
        Key::K6 => 6,
        Key::K7 => 7,
        Key::K8 => 8,
        Key::K9 => 9,
        Key::KA => 10,
        Key::KB => 11,
        Key::KC => 12,
        Key::KD => 13,
        Key::KE => 14,
        Key::KF => 15,
    }
}

pub fn key_index(k: Key) -> (r: u16)
    ensures
        r == spec_key_index(k),
        r < 16,
{
    match k {
        Key::K0 => 0,
        Key::K1 => 1,
        Key::K2 => 2,
        Key::K3 => 3,
        Key::K4 => 4,
        Key::K5 => 5,
        Key::K6 => 6,
        Key::K7 => 7,
        Key::K8 => 8,
        Key::K9 => 9,
        Key::KA => 10,
        Key::KB => 11,
        Key::KC => 12,
        Key::KD => 13,
        Key::KE => 14,
        Key::KF => 15,
    }
}

/// The logical key at a bit position, if the position names one.
pub fn key_from_index(idx: u8) -> (r: Option<Key>)
    ensures
        idx < 16 ==> (r matches Some(k) && spec_key_index(k) == idx),
        idx >= 16 ==> r is None,
{
    match idx {
        0 => Some(Key::K0),
        1 => Some(Key::K1),
        2 => Some(Key::K2),
        3 => Some(Key::K3),
        4 => Some(Key::K4),
        5 => Some(Key::K5),
        6 => Some(Key::K6),
        7 => Some(Key::K7),
        8 => Some(Key::K8),
        9 => Some(Key::K9),
        10 => Some(Key::KA),
        11 => Some(Key::KB),
        12 => Some(Key::KC),
        13 => Some(Key::KD),
        14 => Some(Key::KE),
        15 => Some(Key::KF),
        _ => None,
    }
}

/// Whether the latch `flags` holds key `key_num` as pressed. No key outside
/// `0..16` is ever down: the latch has sixteen bits.
pub open spec fn spec_key_down(flags: u16, key_num: u8) -> bool {
    key_num < 16 && flags & (1u16 << key_num) == (1u16 << key_num)
}

/// The latch after one key-up or key-down event.
pub open spec fn apply_event(flags: u16, e: KeyboardEvent) -> u16 {
    match e {
        KeyboardEvent::KeyUp(k) => flags & !(1u16 << spec_key_index(k)),
        KeyboardEvent::KeyDown(k) => flags | (1u16 << spec_key_index(k)),
    }
}

/// The latch after a sequence of events, applied oldest first.
pub open spec fn apply_events(flags: u16, evs: Seq<KeyboardEvent>) -> u16
    decreases evs.len(),
{
    if evs.len() <= 0 {
        flags
    } else {
        apply_event(apply_events(flags, evs.drop_last()), evs.last())
    }
}

/// What the queued events, oldest first, last said about the key at bit
/// `j`: `Some(true)` when the most recent event naming the key was a press,
/// `Some(false)` when a release, `None` when no event names it.
pub open spec fn spec_last_key_state(evs: Seq<KeyboardEvent>, j: u16) -> Option<bool>
    decreases evs.len(),
{
    if evs.len() == 0 {
        None
    } else {
        match evs.last() {
            KeyboardEvent::KeyDown(k) => if spec_key_index(k) == j {
                Some(true)
            } else {
                spec_last_key_state(evs.drop_last(), j)
            },
            KeyboardEvent::KeyUp(k) => if spec_key_index(k) == j {
                Some(false)
            } else {
                spec_last_key_state(evs.drop_last(), j)
            },
        }
    }
}

/// One event decides exactly its own bit: a key-down sets the key's bit and
/// leaves every other bit alone; a key-up clears it likewise.
pub proof fn lemma_key_event_bits(flags: u16, e: KeyboardEvent, j: u8)
    requires
        j < 16,
    ensures
        spec_key_down(apply_event(flags, e), j) == (match e {
            KeyboardEvent::KeyDown(k) => spec_key_index(k) == j || spec_key_down(flags, j),
            KeyboardEvent::KeyUp(k) => spec_key_index(k) != j && spec_key_down(flags, j),
        }),
{
    match e {
        KeyboardEvent::KeyDown(k) => {
            let i = spec_key_index(k);
            assert(i < 16);
            assert(((flags | (1u16 << i)) & (1u16 << j) == (1u16 << j)) == ((i == j) || (flags & (
            1u16 << j) == (1u16 << j)))) by (bit_vector)
                requires
                    i < 16,
                    j < 16,
            ;
        },
        KeyboardEvent::KeyUp(k) => {
            let i = spec_key_index(k);
            assert(i < 16);
            assert(((flags & !(1u16 << i)) & (1u16 << j) == (1u16 << j)) == ((i != j) && (flags & (
            1u16 << j) == (1u16 << j)))) by (bit_vector)
                requires
                    i < 16,
                    j < 16,
            ;
        },
    }
}

/// After a drained batch is applied, oldest first, bit `j` of the latch
/// reflects the last queued event for that key - set after a final
/// key-down, clear after a final key-up - or keeps its prior value when no
/// event names the key.
pub proof fn lemma_latch_reflects_last_event(flags: u16, evs: Seq<KeyboardEvent>, j: u8)
    requires
        j < 16,
    ensures
        spec_key_down(apply_events(flags, evs), j) == (match spec_last_key_state(evs, j as u16) {
            Some(down) => down,
            None => spec_key_down(flags, j),
        }),
    decreases evs.len(),
{
    if evs.len() > 0 {
        lemma_latch_reflects_last_event(flags, evs.drop_last(), j);
        lemma_key_event_bits(apply_events(flags, evs.drop_last()), evs.last(), j);
    }
}

/// An emulated keyboard that receives keyboard data as input.
pub struct Keyboard {
    /// Current keyboard state.
    pub bitflags: u16,
    /// Receives keyboard events from the host's input loop.
    pub keyboard_event_receiver: std::sync::mpsc::Receiver<KeyboardEvent>,
}

/// Relies on std's `mpsc::Receiver::try_recv`, called without blocking until
/// the queue reports empty or disconnected: hands back every event that was
/// pending, oldest first, and whether the queue was found disconnected. How
/// long the drain runs rests on the producer, which can queue more events
/// while it runs; no contract is stated, since the queue's contents are
/// outside state.
#[verifier::external_body]
pub(crate) fn drain_pending_events(rx: &std::sync::mpsc::Receiver<KeyboardEvent>) -> (Vec<
    KeyboardEvent,
>, bool) {
    let mut events = Vec::new();
    loop {
        match rx.try_recv() {
            Ok(e) => events.push(e),
            Err(std::sync::mpsc::TryRecvError::Empty) => return (events, false),
            Err(std::sync::mpsc::TryRecvError::Disconnected) => return (events, true),
        }
    }
}

impl Keyboard {
    pub fn new(keyboard_event_receiver: std::sync::mpsc::Receiver<KeyboardEvent>) -> (r: Keyboard)
        ensures
            r.bitflags == 0,
    {
        Keyboard { bitflags: 0, keyboard_event_receiver }
    }

    /// Update the latch from the pending keyboard events, draining the queue
    /// completely. If no events are present it returns without any action;
    /// a disconnected producer is a fatal error, reported after the events
    /// drained before the disconnect have been applied. Which events the
    /// queue held is outside state; `apply_keyboard_events` carries the
    /// exact effect of any drained batch.
    pub fn update_keyboard_registers(&mut self) -> (r: EmulatorResult<()>)
        ensures
            exists|evs: Seq<KeyboardEvent>|
                final(self).bitflags == apply_events(old(self).bitflags, evs),
            final(self).keyboard_event_receiver == old(self).keyboard_event_receiver,
            r matches Err(e) ==> e is IOError,
    {
        let (events, disconnected) = drain_pending_events(&self.keyboard_event_receiver);
        self.apply_keyboard_events(&events);
        if disconnected {
            Err(EmulatorError::IOError("Keyboard updater disconnected".to_string()))
        } else {
            Ok(())
        }
    }

    /// Apply a drained batch of events to the latch, oldest first: each
    /// key-down sets its key's bit, each key-up clears it.
    pub fn apply_keyboard_events(&mut self, events: &Vec<KeyboardEvent>)
        ensures
            final(self).bitflags == apply_events(old(self).bitflags, events@),
            final(self).keyboard_event_receiver == old(self).keyboard_event_receiver,
    {
        let mut k: usize = 0;
        while k < events.len()
            invariant
                0 <= k <= events@.len(),
                self.bitflags == apply_events(old(self).bitflags, events@.take(k as int)),
                self.keyboard_event_receiver == old(self).keyboard_event_receiver,
            decreases events@.len() - k,
        {
            let event = events[k];
            proof {
                assert(events@.take(k + 1).drop_last() =~= events@.take(k as int));
                assert(events@.take(k + 1).last() == events@[k as int]);
            }
            self.update_keyboard_state(event);
            k = k + 1;
        }
        proof {
            assert(events@.take(events@.len() as int) =~= events@);
        }
    }

    /// Query if a key is down.
    pub fn query_key_down(&self, key_num: u8) -> (r: bool)
        ensures
            r == spec_key_down(self.bitflags, key_num),
    {
        key_num < 16 && (self.bitflags & (1u16 << key_num)) == (1u16 << key_num)
    }

    fn update_keyboard_state(&mut self, keyboard_event: KeyboardEvent)
        ensures
            final(self).bitflags == apply_event(old(self).bitflags, keyboard_event),
            final(self).keyboard_event_receiver == old(self).keyboard_event_receiver,
    {
        match keyboard_event {
            KeyboardEvent::KeyUp(key) => {
                let idx = key_index(key);
                self.bitflags = self.bitflags & !(1u16 << idx);
            },
            KeyboardEvent::KeyDown(key) => {
                let idx = key_index(key);
                self.bitflags = self.bitflags | (1u16 << idx);
            },
        }
    }
}

} // verus!
