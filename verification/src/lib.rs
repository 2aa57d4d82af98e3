//! Control layer of a virtual joystick.
//!
//! A control is one axis or button of the device. It remembers the value it
//! last handed to the emission channel and the value its owner wants now,
//! and a flush sends one event exactly when the two differ.
//!
//! - `event`: the values of a control and the events that carry them.
//! - `control`: a control, and what its flushes send.
//! - `registrar`: what the device declares, and the controls made for it.
//! - `panel`: all controls of the device, flushed once per update.
//! - `worker`: the steps of the one writer of the device.
//! - `channel`: the calls by which events leave the crate.

pub mod channel;
pub mod control;
pub mod event;
pub mod panel;
pub mod registrar;
pub mod worker;
