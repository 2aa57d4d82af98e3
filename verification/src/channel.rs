//! The emission channel: the one place where events leave this crate.
//!
//! Nothing in this file is proved. It declares the channel's sending half
//! and the event record of the device library, and wraps the three calls
//! that the rest of the crate makes on them.

use evdev::EventType;
use evdev::InputEvent;
use std::sync::mpsc::Sender;
use vstd::prelude::*;

verus! {

/// The sending half of a channel of the standard library. Opaque: its
/// queue belongs to the receiving side as much as to this one.
#[verifier::external_type_specification]
#[verifier::external_body]
#[verifier::reject_recursive_types(T)]
pub struct ExSender<T>(Sender<T>);

/// The event record that the device accepts. Opaque.
#[verifier::external_type_specification]
#[verifier::external_body]
pub struct ExInputEvent(InputEvent);

/// `evdev::InputEvent::new`: a record with the given type, code and value
/// and a zero timestamp. The record is opaque here, so nothing is claimed of
/// it.
#[verifier::external_body]
pub(crate) fn input_event(event_type: u16, code: u16, value: i32) -> InputEvent {
    InputEvent::new(EventType(event_type), code, value)
}

/// `Sender::send`: queues the record and tells whether the channel took it.
/// It does not block. Whether it succeeds depends on the receiving side
/// being alive, so nothing is claimed of the answer.
#[verifier::external_body]
pub(crate) fn send_event(sender: &Sender<InputEvent>, event: InputEvent) -> (delivered: bool) {
    sender.send(event).is_ok()
}

/// `Sender::clone`: one more sending half of the same channel.
#[verifier::external_body]
pub(crate) fn share(sender: &Sender<InputEvent>) -> Sender<InputEvent> {
    sender.clone()
}

} // verus!
