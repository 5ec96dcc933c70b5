//! Raw input events as the kernel's event devices deliver them, and a device
//! that is fed with them.

use vstd::prelude::*;
use crate::EVENT_SIZE;

verus! {

/// Why input was refused.
#[derive(Clone, Copy, Debug, PartialEq, Eq, Structural)]
pub enum InputError {
    /// The bytes read are not whole events.
    Truncated,
}

/// Represents a raw input event from the Linux evdev system.
#[derive(Clone, Copy, Debug, PartialEq, Eq, Structural)]
pub struct InputEvent {
    pub kind: u8,
    pub code: u8,
    pub value: i32,
}

/// Something that takes in a run of input events.
pub trait ReadInputStream: Sized {
    /// Whether taking in `events` may make `after` of this value and return
    /// `outcome`.
    spec fn reads(&self, events: Seq<InputEvent>, after: Self, outcome: Result<bool, InputError>) -> bool;

    /// Takes in `events` in their order. `Ok(true)` tells the caller that
    /// there is something to process.
    fn read_events(&mut self, events: &Vec<InputEvent>) -> (outcome: Result<bool, InputError>)
        ensures
            old(self).reads(events@, *final(self), outcome),
    ;
}

/// The signed 32-bit number whose little-endian bytes are `b0` to `b3`.
pub open spec fn le_i32(b0: u8, b1: u8, b2: u8, b3: u8) -> i32 {
    let v = b0 as int + b1 as int * 0x100 + b2 as int * 0x1_0000 + b3 as int * 0x100_0000;
    if v >= 0x8000_0000 {
        (v - 0x1_0000_0000) as i32
    } else {
        v as i32
    }
}

/// Event number `k` of the raw bytes `data`: each event is 16 bytes, 8 of
/// timestamp, then its type in byte 8, its code in byte 10 and its value
/// in bytes 12 to 15.
pub open spec fn decoded_event(data: Seq<u8>, k: int) -> InputEvent {
    InputEvent {
        kind: data[k * 16 + 8],
        code: data[k * 16 + 10],
        value: le_i32(data[k * 16 + 12], data[k * 16 + 13], data[k * 16 + 14], data[k * 16 + 15]),
    }
}

/// The events that the raw bytes `data` hold.
pub open spec fn decoded(data: Seq<u8>) -> Seq<InputEvent> {
    Seq::new((data.len() / 16) as nat, |k: int| decoded_event(data, k))
}

/// Puts four little-endian bytes together to a signed 32-bit number.
pub fn i32_from_le(b0: u8, b1: u8, b2: u8, b3: u8) -> (value: i32)
    ensures
        value == le_i32(b0, b1, b2, b3),
{
    let v: u32 = b0 as u32 + b1 as u32 * 0x100 + b2 as u32 * 0x1_0000 + b3 as u32 * 0x100_0000;
    if v >= 0x8000_0000 {
        ((v - 0x8000_0000) as i32) + i32::MIN
    } else {
        v as i32
    }
}

/// Turns a simple array of bytes into well-formed events, 16 bytes each.
///
/// Bytes that are not whole events are refused.
pub fn decode_events(data: &[u8]) -> (events: Result<Vec<InputEvent>, InputError>)
    ensures
        data@.len() % 16 == 0 ==> events is Ok && events->Ok_0@ == decoded(data@),
        data@.len() % 16 != 0 ==> events == Err::<Vec<InputEvent>, InputError>(
            InputError::Truncated,
        ),
{
    if data.len() % EVENT_SIZE != 0 {
        return Err(InputError::Truncated);
    }
    let n: usize = data.len() / EVENT_SIZE;
    let mut events: Vec<InputEvent> = Vec::new();
    let mut k: usize = 0;
    while k < n
        invariant
            n == data@.len() / 16,
            data@.len() % 16 == 0,
            data@.len() <= usize::MAX,
            0 <= k <= n,
            events@.len() == k,
            forall|q: int| 0 <= q < k ==> #[trigger] events@[q] == decoded_event(data@, q),
        decreases n - k,
    {
        let at: usize = k * EVENT_SIZE;
        events.push(
            InputEvent {
                kind: data[at + 8],
                code: data[at + 10],
                value: i32_from_le(data[at + 12], data[at + 13], data[at + 14], data[at + 15]),
            },
        );
        k += 1;
    }
    assert(events@ =~= decoded(data@));
    Ok(events)
}

/// Represents a generic input device: the device abstraction that is fed
/// with what was read from the device's file.
pub struct InputDevice<T: ReadInputStream> {
    pub device: T,
}

impl<T: ReadInputStream> InputDevice<T> {
    /// Creates an input device around `device`.
    pub fn new(device: T) -> (made: Self)
        ensures
            made.device == device,
    {
        Self { device }
    }

    /// Hands the device what was read from its file. Returns true, false, or
    /// an error. Bool return types indicate whether or not there's anything
    /// to process on the user's end.
    ///
    /// Nothing read gives `false`. Bytes that are not whole events are
    /// refused. Either way the device stays as it is. Whole events are
    /// decoded and passed to the device, whose answer is returned.
    pub fn poll(&mut self, data: &[u8]) -> (outcome: Result<bool, InputError>)
        ensures
            data@.len() == 0 ==> outcome == Ok::<bool, InputError>(false) && final(self).device
                == old(self).device,
            data@.len() % 16 != 0 ==> outcome == Err::<bool, InputError>(InputError::Truncated)
                && final(self).device == old(self).device,
            (data@.len() > 0 && data@.len() % 16 == 0) ==> old(self).device.reads(
                decoded(data@),
                final(self).device,
                outcome,
            ),
    {
        if data.len() == 0 {
            return Ok(false);
        }
        match decode_events(data) {
            Err(e) => Err(e),
            Ok(events) => self.device.read_events(&events),
        }
    }
}

} // verus!
