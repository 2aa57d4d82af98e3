//! The device registrar: what the virtual device exposes, and the controls
//! that drive it.
//!
//! Creating the device itself is the caller's business. This module says
//! which axes and buttons to declare, and makes one control for each of
//! them, all bound to one emission channel.

use crate::channel::share;
use crate::control::AnalogAxis;
use crate::control::Button;
use crate::control::Control;
use crate::control::ControlView;
use crate::event::ControllerValue;
use crate::event::EventCode;
use evdev::InputEvent;
use std::sync::mpsc::Sender;
use vstd::prelude::*;

verus! {

/// Code of the absolute X axis.
pub const ABS_X: EventCode = 0x00;

/// Code of the absolute Y axis.
pub const ABS_Y: EventCode = 0x01;

/// Code of the absolute axis of rotation about Z.
pub const ABS_RZ: EventCode = 0x05;

/// Code of the absolute throttle axis.
pub const ABS_THROTTLE: EventCode = 0x06;

/// Code of the trigger button of a joystick.
pub const BTN_TRIGGER: EventCode = 0x120;

/// Number of absolute axis codes: every axis code is below it.
pub const ABS_COUNT: EventCode = 0x40;

/// Number of key and button codes: every button code is below it.
pub const KEY_COUNT: EventCode = 0x300;

/// Name under which the device registers.
pub const DEVICE_NAME: &'static str = "Linux Virtual Joystick";

/// The values that an analog axis declares: where it rests, its range, and
/// how its readings are filtered and scaled.
#[derive(Clone, Copy, Debug, PartialEq, Eq, Structural)]
pub struct AxisRange {
    pub value: i32,
    pub minimum: i32,
    pub maximum: i32,
    pub fuzz: i32,
    pub flat: i32,
    pub resolution: i32,
}

impl AxisRange {
    /// The resting value lies in the range.
    pub open spec fn wf(self) -> bool {
        self.minimum <= self.value <= self.maximum
    }

    /// The range of every axis of the joystick: -100 to 100 about 0, no
    /// filtering, one unit per step.
    pub open spec fn joystick() -> AxisRange {
        AxisRange { value: 0, minimum: -100i32, maximum: 100, fuzz: 0, flat: 0, resolution: 1 }
    }
}

/// One axis or button that the device declares.
#[derive(Clone, Copy, Debug)]
pub struct Declared {
    pub code: EventCode,
    pub name: &'static str,
}

/// Every code is below `count`, and no code occurs twice.
pub open spec fn distinct_below(declared: Seq<Declared>, count: EventCode) -> bool {
    &&& forall|i: int| 0 <= i < declared.len() ==> (#[trigger] declared[i]).code < count
    &&& forall|i: int, j: int|
        0 <= i < j < declared.len() ==> (#[trigger] declared[i]).code != (#[trigger] declared[j]).code
}

/// Tells whether every code is below `count` and no code occurs twice.
pub fn codes_distinct_below(declared: &Vec<Declared>, count: EventCode) -> (ok: bool)
    ensures
        ok == distinct_below(declared@, count),
{
    let mut i: usize = 0;
    while i < declared.len()
        invariant
            i <= declared.len(),
            distinct_below(declared@.take(i as int), count),
        decreases declared.len() - i,
    {
        if declared[i].code >= count {
            return false;
        }
        let mut j: usize = 0;
        while j < i
            invariant
                j <= i < declared.len(),
                forall|k: int| 0 <= k < j ==> (#[trigger] declared@[k]).code != declared@[i as int].code,
            decreases i - j,
        {
            if declared[j].code == declared[i].code {
                return false;
            }
            j = j + 1;
        }
        assert forall|a: int, b: int| 0 <= a < b < i + 1 implies (#[trigger] declared@.take(i + 1)[a]).code != (
        #[trigger] declared@.take(i + 1)[b]).code by {
            if b < i {
                assert(declared@.take(i as int)[a].code != declared@.take(i as int)[b].code);
            }
        }
        i = i + 1;
    }
    assert(declared@.take(i as int) =~= declared@);
    true
}

/// The control at each index is a fresh one for what is declared there.
pub open spec fn bound_to<T: ControllerValue>(controls: Seq<Control<T>>, declared: Seq<Declared>) -> bool {
    &&& controls.len() == declared.len()
    &&& forall|i: int|
        0 <= i < declared.len() ==> (#[trigger] controls[i])@ == ControlView::<T>::fresh(
            declared[i].code,
            declared[i].name@,
        )
}

/// What the virtual device exposes.
#[derive(Debug)]
pub struct DeviceLayout {
    pub name: &'static str,
    pub axes: Vec<Declared>,
    pub range: AxisRange,
    pub buttons: Vec<Declared>,
}

impl DeviceLayout {
    /// The device can be declared as it stands: the range is sound, and the
    /// codes of the axes, and those of the buttons, are valid and distinct.
    pub open spec fn wf(&self) -> bool {
        &&& self.range.wf()
        &&& distinct_below(self.axes@, ABS_COUNT)
        &&& distinct_below(self.buttons@, KEY_COUNT)
    }

    /// Tells whether the device can be declared as the layout stands.
    pub fn valid(&self) -> (ok: bool)
        ensures
            ok == self.wf(),
    {
        self.range.minimum <= self.range.value && self.range.value <= self.range.maximum
            && codes_distinct_below(&self.axes, ABS_COUNT) && codes_distinct_below(&self.buttons, KEY_COUNT)
    }

    /// The joystick: roll, pitch, yaw and throttle, and one button.
    pub fn joystick() -> (layout: DeviceLayout)
        ensures
            layout.wf(),
            layout.name@ == DEVICE_NAME@,
            layout.range == AxisRange::joystick(),
            layout.axes@.len() == 4,
            layout.axes@[0].code == ABS_X && layout.axes@[0].name@ == "Roll (Left X)"@,
            layout.axes@[1].code == ABS_Y && layout.axes@[1].name@ == "Pitch (Left Y)"@,
            layout.axes@[2].code == ABS_RZ && layout.axes@[2].name@ == "Yaw (Right Z)"@,
            layout.axes@[3].code == ABS_THROTTLE && layout.axes@[3].name@ == "Throttle"@,
            layout.buttons@.len() == 1,
            layout.buttons@[0].code == BTN_TRIGGER && layout.buttons@[0].name@ == "Panic"@,
    {
        let mut axes: Vec<Declared> = Vec::with_capacity(4);
        axes.push(Declared { code: ABS_X, name: "Roll (Left X)" });
        axes.push(Declared { code: ABS_Y, name: "Pitch (Left Y)" });
        axes.push(Declared { code: ABS_RZ, name: "Yaw (Right Z)" });
        axes.push(Declared { code: ABS_THROTTLE, name: "Throttle" });
        let mut buttons: Vec<Declared> = Vec::with_capacity(1);
        buttons.push(Declared { code: BTN_TRIGGER, name: "Panic" });
        let range = AxisRange { value: 0, minimum: -100, maximum: 100, fuzz: 0, flat: 0, resolution: 1 };
        DeviceLayout { name: DEVICE_NAME, axes, range, buttons }
    }
}

/// Makes one fresh control for each of `declared`, in order, each with a
/// sending half of its own on the channel of `event_sender`.
pub fn controls_for<T: ControllerValue>(declared: &Vec<Declared>, event_sender: &Sender<InputEvent>) -> (controls:
    Vec<Control<T>>)
    ensures
        bound_to(controls@, declared@),
{
    let mut controls: Vec<Control<T>> = Vec::with_capacity(declared.len());
    let mut i: usize = 0;
    while i < declared.len()
        invariant
            i <= declared.len(),
            bound_to(controls@, declared@.take(i as int)),
        decreases declared.len() - i,
    {
        let entry = declared[i];
        controls.push(Control::new(entry.code, share(event_sender), entry.name));
        i = i + 1;
    }
    assert(declared@.take(i as int) =~= declared@);
    controls
}

/// Makes the controls of the device: one analog axis for each declared
/// axis and one button for each declared button, in the order of the
/// layout, all fresh and all sending to the channel of `event_sender`.
///
/// The sender given here is dropped, so the channel closes once the last
/// control is gone.
pub fn build_uninput(layout: &DeviceLayout, event_sender: Sender<InputEvent>) -> (controls: (
    Box<[AnalogAxis]>,
    Box<[Button]>,
))
    ensures
        bound_to(controls.0@, layout.axes@),
        bound_to(controls.1@, layout.buttons@),
{
    let axes: Vec<AnalogAxis> = controls_for(&layout.axes, &event_sender);
    let buttons: Vec<Button> = controls_for(&layout.buttons, &event_sender);
    (boxed(axes), boxed(buttons))
}

/// `Vec::into_boxed_slice`: the items of the vector, in their order, as a
/// boxed slice.
#[verifier::external_body]
fn boxed<T>(items: Vec<T>) -> (slice: Box<[T]>)
    ensures
        slice@ == items@,
{
    items.into_boxed_slice()
}

} // verus!
