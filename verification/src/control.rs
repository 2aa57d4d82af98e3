//! A control: one axis or button, with change detection.

use crate::channel::input_event;
use crate::channel::send_event;
use crate::event::ControllerValue;
use crate::event::Event;
use crate::event::EventCode;
use evdev::InputEvent;
use std::sync::mpsc::Sender;
use vstd::prelude::*;
use vstd::std_specs::cmp::PartialEqSpec;

verus! {

/// A control that reports a position.
pub type AnalogAxis = Control<i8>;

/// A control that is pressed or released.
pub type Button = Control<bool>;

/// What a flush did.
#[derive(Clone, Copy, Debug, PartialEq, Eq, Structural)]
pub enum Flush {
    /// The pending value is the one last emitted: nothing was sent.
    Unchanged,
    /// The event was handed to the channel and is the new baseline.
    Sent(Event),
    /// The channel is closed: the event is lost and the baseline stays.
    Closed,
}

/// What a control is, apart from its channel.
pub struct ControlView<T> {
    pub code: EventCode,
    pub last: T,
    pub pending: T,
    pub name: Seq<char>,
}

impl<T: ControllerValue> ControlView<T> {
    /// A control that has emitted nothing and wants nothing.
    pub open spec fn fresh(code: EventCode, name: Seq<char>) -> Self {
        ControlView { code, last: T::rest(), pending: T::rest(), name }
    }

    /// A flush has something to send.
    pub open spec fn due(self) -> bool {
        self.pending != self.last
    }

    /// The event that tells the device the pending value.
    pub open spec fn event(self) -> Event {
        Event { kind: T::kind(), code: self.code, value: self.pending.payload() }
    }

    /// The control with `value` as its pending value.
    pub open spec fn set_pending(self, value: T) -> Self {
        ControlView { pending: value, ..self }
    }

    /// What a flush does, given whether the channel takes the event.
    pub open spec fn outcome(self, delivered: bool) -> Flush {
        if !self.due() {
            Flush::Unchanged
        } else if delivered {
            Flush::Sent(self.event())
        } else {
            Flush::Closed
        }
    }

    /// The outcome is one that a flush of this control can have.
    pub open spec fn admits(self, outcome: Flush) -> bool {
        outcome == self.outcome(true) || outcome == self.outcome(false)
    }

    /// The control after a flush with the given outcome: the baseline moves
    /// exactly when the event was sent.
    pub open spec fn after(self, outcome: Flush) -> Self {
        if outcome is Sent {
            ControlView { last: self.pending, ..self }
        } else {
            self
        }
    }

    /// The control after each of `values` was made the pending value, in
    /// order.
    pub open spec fn set_each(self, values: Seq<T>) -> Self
        decreases values.len(),
    {
        if values.len() == 0 {
            self
        } else {
            self.set_each(values.drop_last()).set_pending(values.last())
        }
    }

    /// The events that flushes in a row send when nobody touches the pending
    /// value between them. `delivered` holds the channel's answer to each
    /// flush.
    pub open spec fn flushes(self, delivered: Seq<bool>) -> Seq<Event>
        decreases delivered.len(),
    {
        if delivered.len() == 0 {
            Seq::empty()
        } else {
            let outcome = self.outcome(delivered.first());
            sent(outcome) + self.after(outcome).flushes(delivered.drop_first())
        }
    }
}

/// The events that an outcome stands for: one if it was sent, none otherwise.
pub open spec fn sent(outcome: Flush) -> Seq<Event> {
    match outcome {
        Flush::Sent(event) => seq![event],
        _ => Seq::empty(),
    }
}

/// A named slot for one axis or button of the device.
#[derive(Debug)]
pub struct Control<T: ControllerValue> {
    event_code: EventCode,
    old_value: T,
    pub new_value: T,
    event_sender: Sender<InputEvent>,
    name: &'static str,
}

impl<T: ControllerValue> View for Control<T> {
    type V = ControlView<T>;

    closed spec fn view(&self) -> ControlView<T> {
        ControlView {
            code: self.event_code,
            last: self.old_value,
            pending: self.new_value,
            name: self.name@,
        }
    }
}

impl<T: ControllerValue> Control<T> {
    /// The sending half through which the control hands its events to the
    /// channel.
    pub closed spec fn channel(&self) -> Sender<InputEvent> {
        self.event_sender
    }

    /// A control for the axis or button `event_code`, at rest, that sends
    /// through `event_sender`.
    pub fn new(event_code: EventCode, event_sender: Sender<InputEvent>, name: &'static str) -> (control: Self)
        ensures
            control@ == ControlView::<T>::fresh(event_code, name@),
            control.channel() == event_sender,
    {
        proof {
            T::plain_value();
        }
        Self { event_code, old_value: T::default(), new_value: T::default(), event_sender, name }
    }

    /// The label under which the control is shown.
    pub fn name(&self) -> (name: &'static str)
        ensures
            name@ == self@.name,
    {
        self.name
    }

    /// The value that the next flush will compare with the baseline.
    pub fn pending(&self) -> (value: T)
        ensures
            value == self@.pending,
    {
        proof {
            T::plain_value();
        }
        self.new_value.clone()
    }

    /// Makes `value` the pending value. Nothing is sent before the next
    /// flush.
    pub fn set_pending(&mut self, value: T)
        ensures
            final(self)@ == old(self)@.set_pending(value),
            final(self).channel() == old(self).channel(),
    {
        self.new_value = value;
    }

    /// The event that a flush would send now, if any.
    pub fn pending_event(&self) -> (event: Option<Event>)
        ensures
            event == if self@.due() { Some(self@.event()) } else { None::<Event> },
    {
        proof {
            T::plain_value();
        }
        if self.new_value == self.old_value {
            None
        } else {
            Some(Event { kind: T::controller_type(), code: self.event_code, value: self.new_value.controller_value() })
        }
    }

    /// Finishes a flush once the channel has answered: the pending value
    /// becomes the baseline exactly when an event was due and `delivered`
    /// says that the channel took it.
    ///
    /// This is the second half of `new_value`. Called with `true` for an
    /// event that was never sent, it leaves a baseline that the device has
    /// not seen.
    pub fn settle(&mut self, delivered: bool) -> (outcome: Flush)
        ensures
            outcome == old(self)@.outcome(delivered),
            final(self)@ == old(self)@.after(outcome),
            final(self).channel() == old(self).channel(),
    {
        proof {
            T::plain_value();
        }
        match self.pending_event() {
            None => Flush::Unchanged,
            Some(event) => {
                if delivered {
                    self.old_value = self.new_value.clone();
                    Flush::Sent(event)
                } else {
                    Flush::Closed
                }
            },
        }
    }

    /// Flushes the control: sends one event if the pending value differs
    /// from the one last emitted, and nothing otherwise.
    pub fn new_value(&mut self) -> (outcome: Flush)
        ensures
            old(self)@.admits(outcome),
            final(self)@ == old(self)@.after(outcome),
            final(self).channel() == old(self).channel(),
    {
        let delivered = match self.pending_event() {
            None => false,
            Some(event) => send_event(&self.event_sender, input_event(event.kind.raw(), event.code, event.value)),
        };
        self.settle(delivered)
    }
}

/// A flush that follows a flush sends nothing, unless the first one found
/// the channel closed: of two flushes in a row at most one sends an event,
/// and after a flush that sent one the next changes nothing.
pub proof fn lemma_second_flush_is_idle<T: ControllerValue>(
    control: ControlView<T>,
    first: Flush,
    second: Flush,
)
    requires
        control.admits(first),
        control.after(first).admits(second),
    ensures
        !(first is Sent && second is Sent),
        first != Flush::Closed ==> second == Flush::Unchanged,
        first != Flush::Closed ==> control.after(first).after(second) == control.after(first),
{
}

/// However many flushes follow each other with the pending value untouched,
/// and whatever the channel answers, they send at most one event, and that
/// event carries the pending value.
pub proof fn lemma_flushes_send_at_most_once<T: ControllerValue>(
    control: ControlView<T>,
    delivered: Seq<bool>,
)
    ensures
        control.flushes(delivered).len() <= 1,
        control.flushes(delivered).len() == 1 ==> control.due() && control.flushes(delivered)[0]
            == control.event(),
    decreases delivered.len(),
{
    if delivered.len() > 0 {
        let outcome = control.outcome(delivered.first());
        let rest = delivered.drop_first();
        lemma_flushes_send_at_most_once(control.after(outcome), rest);
        if outcome is Sent {
            lemma_settled_stays_silent(control.after(outcome), rest);
        }
    }
}

/// A control whose pending value is its baseline sends nothing, however
/// often it is flushed.
pub proof fn lemma_settled_stays_silent<T: ControllerValue>(
    control: ControlView<T>,
    delivered: Seq<bool>,
)
    requires
        !control.due(),
    ensures
        control.flushes(delivered) == Seq::<Event>::empty(),
    decreases delivered.len(),
{
    if delivered.len() > 0 {
        lemma_settled_stays_silent(control, delivered.drop_first());
    }
}

/// A control that was just made and never given another pending value sends
/// nothing, however often it is flushed.
pub proof fn lemma_fresh_control_is_silent<T: ControllerValue>(
    code: EventCode,
    name: Seq<char>,
    delivered: Seq<bool>,
)
    ensures
        !ControlView::<T>::fresh(code, name).due(),
        ControlView::<T>::fresh(code, name).flushes(delivered) == Seq::<Event>::empty(),
{
    lemma_settled_stays_silent(ControlView::<T>::fresh(code, name), delivered);
}

/// Of the pending values set between two flushes only the last one counts:
/// the control is the one it would be had only that value been set, so the
/// next flush does the same in both.
pub proof fn lemma_last_write_wins<T: ControllerValue>(control: ControlView<T>, values: Seq<T>)
    requires
        values.len() > 0,
    ensures
        control.set_each(values) == control.set_pending(values.last()),
        values.last() == control.last ==> !control.set_each(values).due(),
{
    lemma_set_each_keeps_baseline(control, values.drop_last());
}

/// Setting pending values touches nothing but the pending value.
pub proof fn lemma_set_each_keeps_baseline<T: ControllerValue>(control: ControlView<T>, values: Seq<T>)
    ensures
        control.set_each(values).code == control.code,
        control.set_each(values).last == control.last,
        control.set_each(values).name == control.name,
    decreases values.len(),
{
    if values.len() > 0 {
        lemma_set_each_keeps_baseline(control, values.drop_last());
    }
}

} // verus!
