//! Values of a control and the events that carry them.

use vstd::prelude::*;
use vstd::std_specs::cmp::PartialEqSpec;

verus! {

/// Identifies one axis or button of the device.
pub type EventCode = u16;

/// The signed payload of an event.
pub type EventValue = i32;

/// The category of an event: a position on an analog axis, or the state of
/// a button.
#[derive(Clone, Copy, Debug, PartialEq, Eq, Structural)]
pub enum EventKind {
    Absolute,
    Key,
}

impl EventKind {
    /// The number of the category in an input event record.
    pub open spec fn type_code(self) -> u16 {
        match self {
            EventKind::Absolute => 0x03,
            EventKind::Key => 0x01,
        }
    }

    /// Computes [`EventKind::type_code`].
    pub fn raw(self) -> (raw: u16)
        ensures
            raw == self.type_code(),
    {
        match self {
            EventKind::Absolute => 0x03,
            EventKind::Key => 0x01,
        }
    }
}

/// One event for the device: which control changed, and to what.
#[derive(Clone, Copy, Debug, PartialEq, Eq, Structural)]
pub struct Event {
    pub kind: EventKind,
    pub code: EventCode,
    pub value: EventValue,
}

/// `i32::from` on a `bool`: 1 for `true` and 0 for `false`, as std documents
/// the conversion.
pub assume_specification[ <i32 as std::convert::From<bool>>::from ](b: bool) -> (value: i32)
    ensures
        value == if b { 1i32 } else { 0i32 },
;

/// A value that a control can hold and the device can be told.
///
/// Every value of the type has a payload, so encoding cannot fail.
pub trait ControllerValue: Sized + Default + PartialEq + Clone {
    /// What `controller_type` returns.
    spec fn kind() -> EventKind;

    /// What `controller_value` returns: the value itself for an axis, and 1
    /// or 0 for a button that is pressed or released.
    spec fn payload(&self) -> EventValue;

    /// The value of a control that nobody has touched yet.
    spec fn rest() -> Self;

    /// The category under which values of this type are reported.
    fn controller_type() -> (kind: EventKind)
        ensures
            kind == Self::kind(),
    ;

    /// The payload that stands for this value.
    fn controller_value(&self) -> (value: EventValue)
        ensures
            value == self.payload(),
    ;

    /// `default` gives the value at rest, `==` is equality and `clone`
    /// copies.
    proof fn plain_value()
        ensures
            Self::obeys_eq_spec(),
            forall|a: Self, b: Self| #[trigger] a.eq_spec(&b) <==> (a == b),
            forall|d: Self| #[trigger] call_ensures(Self::default, (), d) ==> d == Self::rest(),
            forall|a: Self, c: Self| #[trigger] call_ensures(Self::clone, (&a,), c) ==> c == a,
    ;
}

impl ControllerValue for i8 {
    open spec fn kind() -> EventKind {
        EventKind::Absolute
    }

    open spec fn payload(&self) -> EventValue {
        *self as i32
    }

    open spec fn rest() -> i8 {
        0
    }

    fn controller_type() -> (kind: EventKind) {
        EventKind::Absolute
    }

    fn controller_value(&self) -> (value: EventValue) {
        i32::from(*self)
    }

    proof fn plain_value() {
    }
}

impl ControllerValue for bool {
    open spec fn kind() -> EventKind {
        EventKind::Key
    }

    open spec fn payload(&self) -> EventValue {
        if *self {
            1
        } else {
            0
        }
    }

    open spec fn rest() -> bool {
        false
    }

    fn controller_type() -> (kind: EventKind) {
        EventKind::Key
    }

    fn controller_value(&self) -> (value: EventValue) {
        i32::from(*self)
    }

    proof fn plain_value() {
    }
}

} // verus!
