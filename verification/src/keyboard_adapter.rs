//! The producer side of the keyboard latch's event queue: the host's input
//! loop pushes key-up/key-down events for the logical keys 0-F through it.

use vstd::prelude::*;
use crate::keyboard::{key_from_index, Keyboard, KeyboardEvent};
use crate::util::{EmulatorError, EmulatorResult};

verus! {

#[derive(Debug)]
pub struct SdlKeyboardAdapter {
    keyboard_event_sender: std::sync::mpsc::Sender<KeyboardEvent>,
}

/// Relies on std's `mpsc::channel`: creates a connected sender/receiver pair.
#[verifier::external_body]
fn make_event_channel() -> (
    std::sync::mpsc::Sender<KeyboardEvent>,
    std::sync::mpsc::Receiver<KeyboardEvent>,
) {
    std::sync::mpsc::channel()
}

/// Relies on std's `mpsc::Sender::send`: queues the event, or hands it back
/// when the receiving half has been dropped.
#[verifier::external_body]
fn send_event(
    tx: &std::sync::mpsc::Sender<KeyboardEvent>,
    event: KeyboardEvent,
) -> Result<(), KeyboardEvent> {
    match tx.send(event) {
        Ok(()) => Ok(()),
        Err(std::sync::mpsc::SendError(e)) => Err(e),
    }
}

impl SdlKeyboardAdapter {
    fn new(keyboard_event_sender: std::sync::mpsc::Sender<KeyboardEvent>) -> SdlKeyboardAdapter {
        SdlKeyboardAdapter { keyboard_event_sender }
    }

    /// Creates a paired keyboard and adapter.
    pub fn new_keyboard() -> (r: (SdlKeyboardAdapter, Keyboard))
        ensures
            r.1.bitflags == 0,
    {
        let (sender, receiver) = make_event_channel();
        let sdl2_kb_adapter = Self::new(sender);
        let device_kb = Keyboard::new(receiver);
        (sdl2_kb_adapter, device_kb)
    }

    /// Queue a key-up event for the logical key `keycode`.
    pub fn send_key_up(&self, keycode: u8) -> (r: EmulatorResult<u8>)
        requires
            keycode < 16,
        ensures
            r matches Ok(k) ==> k == keycode,
            r matches Err(e) ==> e is IOError,
    {
        let key = match key_from_index(keycode) {
            Some(k) => k,
            None => {
                return Err(EmulatorError::IOError("No such key".to_string()));
            },
        };
        match send_event(&self.keyboard_event_sender, KeyboardEvent::KeyUp(key)) {
            Ok(()) => Ok(keycode),
            Err(_) => Err(
                EmulatorError::IOError(
                    "Failed to communicate keyboard event to main thread".to_string(),
                ),
            ),
        }
    }

    /// Queue a key-down event for the logical key `keycode`.
    pub fn send_key_down(&self, keycode: u8) -> (r: EmulatorResult<u8>)
        requires
            keycode < 16,
        ensures
            r matches Ok(k) ==> k == keycode,
            r matches Err(e) ==> e is IOError,
    {
        let key = match key_from_index(keycode) {
            Some(k) => k,
            None => {
                return Err(EmulatorError::IOError("No such key".to_string()));
            },
        };
        match send_event(&self.keyboard_event_sender, KeyboardEvent::KeyDown(key)) {
            Ok(()) => Ok(keycode),
            Err(_) => Err(
                EmulatorError::IOError(
                    "Failed to communicate keyboard event to main thread".to_string(),
                ),
            ),
        }
    }
}

} // verus!
