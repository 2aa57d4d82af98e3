//! The control panel: every control of the device, reconciled once per
//! update.

use crate::control::sent;
use crate::control::AnalogAxis;
use crate::control::Button;
use crate::control::Control;
use crate::control::ControlView;
use crate::control::Flush;
use crate::event::ControllerValue;
use crate::event::Event;
use crate::worker::arrivals;
use crate::worker::lemma_writes_what_was_sent;
use crate::worker::run;
use vstd::prelude::*;

verus! {

/// The position that "move all axes" shows for one event.
pub const MOVE_VALUE: i8 = 20;

/// The controls as values, without their channel.
pub open spec fn views<T: ControllerValue>(controls: Seq<Control<T>>) -> Seq<ControlView<T>> {
    Seq::new(controls.len(), |i: int| controls[i]@)
}

/// The controls are the same in number and each sends through the sending
/// half that it had before.
pub open spec fn same_channels<T: ControllerValue>(before: Seq<Control<T>>, after: Seq<Control<T>>) -> bool {
    &&& after.len() == before.len()
    &&& forall|i: int| 0 <= i < before.len() ==> (#[trigger] after[i]).channel() == before[i].channel()
}

/// There is one outcome for each control, and each is one that a flush of
/// its control can have.
pub open spec fn admit_all<T: ControllerValue>(controls: Seq<ControlView<T>>, outcomes: Seq<Flush>) -> bool {
    &&& outcomes.len() == controls.len()
    &&& forall|i: int|
        #![trigger controls[i]]
        #![trigger outcomes[i]]
        0 <= i < controls.len() ==> controls[i].admits(outcomes[i])
}

/// The controls after the flush of each had the outcome at its index.
pub open spec fn after_all<T: ControllerValue>(controls: Seq<ControlView<T>>, outcomes: Seq<Flush>) -> Seq<
    ControlView<T>,
> {
    Seq::new(controls.len(), |i: int| controls[i].after(outcomes[i]))
}

/// The controls with `value` as the pending value of each.
pub open spec fn set_all<T: ControllerValue>(controls: Seq<ControlView<T>>, value: T) -> Seq<ControlView<T>> {
    Seq::new(controls.len(), |i: int| controls[i].set_pending(value))
}

/// The controls with the pending value of each taken from `from`.
pub open spec fn restore_all<T: ControllerValue>(
    controls: Seq<ControlView<T>>,
    from: Seq<ControlView<T>>,
) -> Seq<ControlView<T>> {
    Seq::new(controls.len(), |i: int| controls[i].set_pending(from[i].pending))
}

/// The controls after each was shown `value` for one flush and then given
/// its own pending value back.
pub open spec fn after_pulse<T: ControllerValue>(
    controls: Seq<ControlView<T>>,
    value: T,
    outcomes: Seq<Flush>,
) -> Seq<ControlView<T>> {
    restore_all(after_all(set_all(controls, value), outcomes), controls)
}

/// The events that a run of flushes sent, in the order of the flushes.
pub open spec fn sent_all(outcomes: Seq<Flush>) -> Seq<Event>
    decreases outcomes.len(),
{
    if outcomes.len() == 0 {
        Seq::empty()
    } else {
        sent_all(outcomes.drop_last()) + sent(outcomes.last())
    }
}

/// Flushes every control once, in order. The result holds the outcome of
/// each flush, at the index of its control.
pub fn flush_all<T: ControllerValue>(controls: &mut [Control<T>]) -> (outcomes: Vec<Flush>)
    ensures
        same_channels(old(controls)@, final(controls)@),
        admit_all(views(old(controls)@), outcomes@),
        views(final(controls)@) == after_all(views(old(controls)@), outcomes@),
{
    let ghost start = controls@;
    let ghost before = views(controls@);
    let mut outcomes: Vec<Flush> = Vec::with_capacity(controls.len());
    let mut i: usize = 0;
    while i < controls.len()
        invariant
            i <= controls.len(),
            controls@.len() == before.len(),
            outcomes@.len() == i,
            same_channels(start, controls@),
            forall|k: int| i <= k < before.len() ==> (#[trigger] controls@[k])@ == before[k],
            forall|k: int| 0 <= k < i ==> (#[trigger] before[k]).admits(outcomes@[k]),
            forall|k: int| 0 <= k < i ==> (#[trigger] controls@[k])@ == before[k].after(outcomes@[k]),
        decreases controls.len() - i,
    {
        let outcome = controls[i].new_value();
        outcomes.push(outcome);
        i = i + 1;
    }
    assert(views(controls@) =~= after_all(before, outcomes@));
    outcomes
}

/// Shows every control `value` for one flush, in order, and gives each its
/// own pending value back. The result holds the outcome of each flush, at
/// the index of its control.
pub fn pulse_all<T: ControllerValue>(controls: &mut [Control<T>], value: T) -> (outcomes: Vec<Flush>)
    ensures
        same_channels(old(controls)@, final(controls)@),
        admit_all(set_all(views(old(controls)@), value), outcomes@),
        views(final(controls)@) == after_pulse(views(old(controls)@), value, outcomes@),
{
    proof {
        T::plain_value();
    }
    let ghost start = controls@;
    let ghost before = views(controls@);
    let mut outcomes: Vec<Flush> = Vec::with_capacity(controls.len());
    let mut i: usize = 0;
    while i < controls.len()
        invariant
            i <= controls.len(),
            controls@.len() == before.len(),
            outcomes@.len() == i,
            same_channels(start, controls@),
            forall|a: T, c: T| #[trigger] call_ensures(T::clone, (&a,), c) ==> c == a,
            forall|k: int| i <= k < before.len() ==> (#[trigger] controls@[k])@ == before[k],
            forall|k: int| 0 <= k < i ==> (#[trigger] before[k]).set_pending(value).admits(outcomes@[k]),
            forall|k: int|
                0 <= k < i ==> (#[trigger] controls@[k])@ == before[k].set_pending(value).after(
                    outcomes@[k],
                ).set_pending(before[k].pending),
        decreases controls.len() - i,
    {
        let initial = controls[i].pending();
        controls[i].set_pending(value.clone());
        let outcome = controls[i].new_value();
        controls[i].set_pending(initial);
        outcomes.push(outcome);
        i = i + 1;
    }
    assert(views(controls@) =~= after_pulse(before, value, outcomes@));
    outcomes
}

/// The events among `outcomes`, in order.
pub fn events(outcomes: &Vec<Flush>) -> (events: Vec<Event>)
    ensures
        events@ == sent_all(outcomes@),
{
    let mut events: Vec<Event> = Vec::new();
    let mut i: usize = 0;
    while i < outcomes.len()
        invariant
            i <= outcomes.len(),
            events@ == sent_all(outcomes@.take(i as int)),
        decreases outcomes.len() - i,
    {
        assert(outcomes@.take(i + 1).drop_last() =~= outcomes@.take(i as int));
        match outcomes[i] {
            Flush::Sent(event) => {
                events.push(event);
            },
            _ => {},
        }
        i = i + 1;
    }
    assert(outcomes@.take(i as int) =~= outcomes@);
    events
}

/// What a panel is, apart from the channel of its controls.
pub struct PanelView {
    pub axes: Seq<ControlView<i8>>,
    pub buttons: Seq<ControlView<bool>>,
    pub move_axes: bool,
}

impl PanelView {
    /// The number of flushes that the pulse of "move all axes" makes in the
    /// next update.
    pub open spec fn pulses(self) -> int {
        if self.move_axes {
            self.axes.len() as int
        } else {
            0
        }
    }

    /// The axes as the first part of the next update leaves them: pulsed, if
    /// that was asked for.
    pub open spec fn moved(self, outcomes: Seq<Flush>) -> Seq<ControlView<i8>> {
        if self.move_axes {
            after_pulse(self.axes, MOVE_VALUE, outcomes.take(self.pulses()))
        } else {
            self.axes
        }
    }

    /// The outcomes of the axes' own flushes, among those of an update.
    pub open spec fn of_axes(self, outcomes: Seq<Flush>) -> Seq<Flush> {
        outcomes.subrange(self.pulses(), self.pulses() + self.axes.len())
    }

    /// The outcomes of the buttons' flushes, among those of an update.
    pub open spec fn of_buttons(self, outcomes: Seq<Flush>) -> Seq<Flush> {
        outcomes.skip(self.pulses() + self.axes.len())
    }

    /// `outcomes` is what the flushes of one update can give, in the order in
    /// which the update makes them: the pulse of each axis, if "move all axes"
    /// was asked for, then one flush of each axis, then one of each button.
    pub open spec fn admits(self, outcomes: Seq<Flush>) -> bool {
        &&& outcomes.len() == self.pulses() + self.axes.len() + self.buttons.len()
        &&& self.move_axes ==> admit_all(set_all(self.axes, MOVE_VALUE), outcomes.take(self.pulses()))
        &&& admit_all(self.moved(outcomes), self.of_axes(outcomes))
        &&& admit_all(self.buttons, self.of_buttons(outcomes))
    }

    /// The panel after an update whose flushes gave `outcomes`.
    pub open spec fn after(self, outcomes: Seq<Flush>) -> PanelView {
        PanelView {
            axes: after_all(self.moved(outcomes), self.of_axes(outcomes)),
            buttons: after_all(self.buttons, self.of_buttons(outcomes)),
            move_axes: false,
        }
    }
}

/// Every control of the device, and whether the next update is to move all
/// axes.
#[derive(Debug)]
pub struct UI {
    pub axes: Box<[AnalogAxis]>,
    pub button: Box<[Button]>,
    pub move_axes: bool,
}

impl View for UI {
    type V = PanelView;

    open spec fn view(&self) -> PanelView {
        PanelView { axes: views(self.axes@), buttons: views(self.button@), move_axes: self.move_axes }
    }
}

impl UI {
    /// A panel of the given controls that is not asked to move its axes.
    pub fn new(axes: Box<[AnalogAxis]>, button: Box<[Button]>) -> (ui: Self)
        ensures
            ui.axes == axes,
            ui.button == button,
            !ui.move_axes,
    {
        Self { axes, button, move_axes: false }
    }

    /// One update of the panel. If "move all axes" was asked for, every axis
    /// is first shown at `MOVE_VALUE` for one flush and gets its pending
    /// value back. Then every axis is flushed once, then every button. The
    /// result holds the outcome of every flush, in the order of the flushes.
    pub fn update(&mut self) -> (outcomes: Vec<Flush>)
        ensures
            same_channels(old(self).axes@, final(self).axes@),
            same_channels(old(self).button@, final(self).button@),
            old(self)@.admits(outcomes@),
            final(self)@ == old(self)@.after(outcomes@),
    {
        let ghost before = self@;
        let mut outcomes: Vec<Flush> = Vec::new();
        if self.move_axes {
            outcomes = pulse_all(&mut self.axes, MOVE_VALUE);
            self.move_axes = false;
        }
        let ghost pulsed = outcomes@;
        let mut of_axes = flush_all(&mut self.axes);
        let ghost flushed = of_axes@;
        outcomes.append(&mut of_axes);
        let mut of_buttons = flush_all(&mut self.button);
        let ghost pressed = of_buttons@;
        outcomes.append(&mut of_buttons);
        proof {
            assert(outcomes@ =~= pulsed + flushed + pressed);
            assert(outcomes@.take(before.pulses()) =~= pulsed);
            assert(before.of_axes(outcomes@) =~= flushed);
            assert(before.of_buttons(outcomes@) =~= pressed);
        }
        outcomes
    }
}

/// The number of events that the flushes before the one at `index` sent:
/// the place, among all events sent, of the event of that flush.
pub open spec fn sent_before(outcomes: Seq<Flush>, index: int) -> int {
    sent_all(outcomes.take(index)).len() as int
}

/// The events of two runs of flushes, one after the other, are the events of
/// the first followed by those of the second.
pub proof fn lemma_sent_all_concat(first: Seq<Flush>, second: Seq<Flush>)
    ensures
        sent_all(first + second) == sent_all(first) + sent_all(second),
    decreases second.len(),
{
    if second.len() == 0 {
        assert(first + second =~= first);
        assert(sent_all(first) + sent_all(second) =~= sent_all(first));
    } else {
        assert((first + second).drop_last() =~= first + second.drop_last());
        lemma_sent_all_concat(first, second.drop_last());
        assert(sent_all(first + second) =~= sent_all(first) + sent_all(second));
    }
}

/// A run of flushes sends at most one event for each flush, whatever was
/// done to the pending values before.
pub proof fn lemma_one_event_per_flush_at_most(outcomes: Seq<Flush>)
    ensures
        sent_all(outcomes).len() <= outcomes.len(),
    decreases outcomes.len(),
{
    if outcomes.len() > 0 {
        lemma_one_event_per_flush_at_most(outcomes.drop_last());
    }
}

/// An update that moves no axes flushes every control once, and so sends at
/// most as many events as the panel has controls.
pub proof fn lemma_update_sends_one_event_per_control_at_most(panel: PanelView, outcomes: Seq<Flush>)
    requires
        !panel.move_axes,
        panel.admits(outcomes),
    ensures
        outcomes.len() == panel.axes.len() + panel.buttons.len(),
        sent_all(outcomes).len() <= panel.axes.len() + panel.buttons.len(),
{
    lemma_one_event_per_flush_at_most(outcomes);
}

/// Events leave in the order of the flushes: of two flushes that each sent
/// an event, the event of the earlier flush stands before that of the later
/// one among the events sent.
pub proof fn lemma_events_keep_flush_order(outcomes: Seq<Flush>, earlier: int, later: int)
    requires
        0 <= earlier < later < outcomes.len(),
        outcomes[earlier] is Sent,
        outcomes[later] is Sent,
    ensures
        0 <= sent_before(outcomes, earlier) < sent_before(outcomes, later) < sent_all(outcomes).len(),
        sent_all(outcomes)[sent_before(outcomes, earlier)] == outcomes[earlier]->Sent_0,
        sent_all(outcomes)[sent_before(outcomes, later)] == outcomes[later]->Sent_0,
{
    lemma_event_place(outcomes, earlier);
    lemma_event_place(outcomes, later);
    let through = outcomes.take(earlier + 1);
    let upto = outcomes.take(later);
    assert(upto =~= through + outcomes.subrange(earlier + 1, later));
    lemma_sent_all_concat(through, outcomes.subrange(earlier + 1, later));
    assert(through.drop_last() =~= outcomes.take(earlier));
}

/// Of two controls flushed one after the other, the device is written the
/// event of the first before that of the second: the worker writes the
/// events of a run of flushes in the order of the flushes.
pub proof fn lemma_device_is_written_in_flush_order(outcomes: Seq<Flush>, earlier: int, later: int)
    requires
        0 <= earlier < later < outcomes.len(),
        outcomes[earlier] is Sent,
        outcomes[later] is Sent,
    ensures
        0 <= sent_before(outcomes, earlier) < sent_before(outcomes, later) < run(
            arrivals(sent_all(outcomes)),
        ).1.len(),
        run(arrivals(sent_all(outcomes))).1[sent_before(outcomes, earlier)] == outcomes[earlier]->Sent_0,
        run(arrivals(sent_all(outcomes))).1[sent_before(outcomes, later)] == outcomes[later]->Sent_0,
{
    lemma_events_keep_flush_order(outcomes, earlier, later);
    lemma_writes_what_was_sent(sent_all(outcomes));
}

/// The event of a flush that sent one stands, among all events sent, right
/// after those of the flushes before it.
pub proof fn lemma_event_place(outcomes: Seq<Flush>, index: int)
    requires
        0 <= index < outcomes.len(),
        outcomes[index] is Sent,
    ensures
        0 <= sent_before(outcomes, index) < sent_all(outcomes).len(),
        sent_all(outcomes)[sent_before(outcomes, index)] == outcomes[index]->Sent_0,
{
    let through = outcomes.take(index + 1);
    let rest = outcomes.skip(index + 1);
    assert(outcomes =~= through + rest);
    lemma_sent_all_concat(through, rest);
    assert(through.drop_last() =~= outcomes.take(index));
    assert(through.last() == outcomes[index]);
}

/// No flush of the run found the channel closed.
pub open spec fn none_closed(outcomes: Seq<Flush>) -> bool {
    forall|i: int| 0 <= i < outcomes.len() ==> #[trigger] outcomes[i] != Flush::Closed
}

/// A run of flushes that all changed nothing sent no event.
pub proof fn lemma_unchanged_sends_nothing(outcomes: Seq<Flush>)
    requires
        forall|i: int| 0 <= i < outcomes.len() ==> #[trigger] outcomes[i] == Flush::Unchanged,
    ensures
        sent_all(outcomes) == Seq::<Event>::empty(),
    decreases outcomes.len(),
{
    if outcomes.len() > 0 {
        lemma_unchanged_sends_nothing(outcomes.drop_last());
    }
}

/// An update settles the panel: unless a flush found the channel closed,
/// the update that follows with no pending value touched in between sends
/// nothing and changes nothing.
pub proof fn lemma_second_update_is_idle(panel: PanelView, first: Seq<Flush>, second: Seq<Flush>)
    requires
        panel.admits(first),
        none_closed(first),
        panel.after(first).admits(second),
    ensures
        forall|i: int| 0 <= i < second.len() ==> #[trigger] second[i] == Flush::Unchanged,
        sent_all(second) == Seq::<Event>::empty(),
        panel.after(first).after(second) == panel.after(first),
{
    let settled = panel.after(first);
    let axes = panel.axes.len() as int;
    let moved = panel.moved(first);
    let of_axes = panel.of_axes(first);
    let of_buttons = panel.of_buttons(first);
    assert forall|i: int| 0 <= i < settled.axes.len() implies !(#[trigger] settled.axes[i]).due() by {
        assert(moved[i].admits(of_axes[i]));
        assert(of_axes[i] == first[panel.pulses() + i]);
    }
    assert forall|i: int| 0 <= i < settled.buttons.len() implies !(#[trigger] settled.buttons[i]).due() by {
        assert(panel.buttons[i].admits(of_buttons[i]));
        assert(of_buttons[i] == first[panel.pulses() + axes + i]);
    }
    assert forall|i: int| 0 <= i < second.len() implies #[trigger] second[i] == Flush::Unchanged by {
        if i < axes {
            assert(settled.of_axes(second)[i] == second[i]);
            assert(settled.axes[i].admits(settled.of_axes(second)[i]));
        } else {
            assert(settled.of_buttons(second)[i - axes] == second[i]);
            assert(settled.buttons[i - axes].admits(settled.of_buttons(second)[i - axes]));
        }
    }
    lemma_unchanged_sends_nothing(second);
    assert(settled.after(second).axes =~= settled.axes);
    assert(settled.after(second).buttons =~= settled.buttons);
}

} // verus!
