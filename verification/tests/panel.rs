use evdev::InputEvent;
use std::sync::mpsc;
use std::sync::mpsc::Receiver;
use virtual_joystick::control::Flush;
use virtual_joystick::event::Event;
use virtual_joystick::event::EventKind;
use virtual_joystick::panel::events;
use virtual_joystick::panel::flush_all;
use virtual_joystick::panel::pulse_all;
use virtual_joystick::panel::MOVE_VALUE;
use virtual_joystick::panel::UI;
use virtual_joystick::registrar::build_uninput;
use virtual_joystick::registrar::DeviceLayout;

fn joystick() -> (UI, Receiver<InputEvent>) {
    let layout = DeviceLayout::joystick();
    let (sender, receiver) = mpsc::channel();
    let (axes, buttons) = build_uninput(&layout, sender);
    (UI::new(axes, buttons), receiver)
}

fn drain(receiver: &Receiver<InputEvent>) -> Vec<Event> {
    let mut seen = Vec::new();
    while let Ok(event) = receiver.try_recv() {
        let kind = match event.event_type().0 {
            3 => EventKind::Absolute,
            1 => EventKind::Key,
            other => panic!("unexpected event type {}", other),
        };
        seen.push(Event { kind, code: event.code(), value: event.value() });
    }
    seen
}

fn axis(code: u16, value: i32) -> Event {
    Event { kind: EventKind::Absolute, code, value }
}

fn key(code: u16, value: i32) -> Event {
    Event { kind: EventKind::Key, code, value }
}

#[test]
fn new_panel_holds_the_controls_and_moves_nothing() {
    let (ui, _receiver) = joystick();
    assert_eq!(ui.axes.len(), 4);
    assert_eq!(ui.button.len(), 1);
    assert!(!ui.move_axes);
}

#[test]
fn update_of_an_untouched_panel_sends_nothing() {
    let (mut ui, receiver) = joystick();
    for _ in 0..3 {
        let outcomes = ui.update();
        assert_eq!(outcomes, vec![Flush::Unchanged; 5]);
        assert_eq!(events(&outcomes), vec![]);
    }
    assert_eq!(drain(&receiver), vec![]);
}

#[test]
fn update_sends_one_event_for_each_changed_control_in_order() {
    let (mut ui, receiver) = joystick();
    ui.axes[3].set_pending(100);
    ui.axes[3].set_pending(70);
    ui.axes[0].set_pending(-100);
    ui.button[0].set_pending(true);
    ui.axes[0].set_pending(-30);
    let outcomes = ui.update();
    assert_eq!(
        outcomes,
        vec![
            Flush::Sent(axis(0x00, -30)),
            Flush::Unchanged,
            Flush::Unchanged,
            Flush::Sent(axis(0x06, 70)),
            Flush::Sent(key(0x120, 1)),
        ]
    );
    let sent = events(&outcomes);
    assert_eq!(sent, vec![axis(0x00, -30), axis(0x06, 70), key(0x120, 1)]);
    assert_eq!(drain(&receiver), sent);

    let again = ui.update();
    assert_eq!(again, vec![Flush::Unchanged; 5]);
    assert_eq!(drain(&receiver), vec![]);
}

#[test]
fn update_sends_at_most_one_event_per_control() {
    let (mut ui, receiver) = joystick();
    for round in 0..20i8 {
        for control in ui.axes.iter_mut() {
            control.set_pending(round);
            control.set_pending(round + 1);
        }
        ui.button[0].set_pending(round % 2 == 0);
        let outcomes = ui.update();
        assert_eq!(outcomes.len(), 5);
        let sent = drain(&receiver);
        assert!(sent.len() <= 5);
        assert_eq!(sent, events(&outcomes));
    }
}

#[test]
fn move_all_axes_shows_each_axis_at_the_move_value() {
    let (mut ui, receiver) = joystick();
    assert_eq!(MOVE_VALUE, 20);
    ui.move_axes = true;
    let outcomes = ui.update();
    assert!(!ui.move_axes);
    assert_eq!(
        outcomes,
        vec![
            Flush::Sent(axis(0x00, 20)),
            Flush::Sent(axis(0x01, 20)),
            Flush::Sent(axis(0x05, 20)),
            Flush::Sent(axis(0x06, 20)),
            Flush::Sent(axis(0x00, 0)),
            Flush::Sent(axis(0x01, 0)),
            Flush::Sent(axis(0x05, 0)),
            Flush::Sent(axis(0x06, 0)),
            Flush::Unchanged,
        ]
    );
    assert_eq!(drain(&receiver), events(&outcomes));
    for control in ui.axes.iter() {
        assert_eq!(control.pending(), 0);
    }
    assert_eq!(ui.update(), vec![Flush::Unchanged; 5]);
}

#[test]
fn move_all_axes_skips_an_axis_that_rests_at_the_move_value() {
    let (mut ui, receiver) = joystick();
    ui.axes[1].set_pending(20);
    ui.axes[2].set_pending(-5);
    ui.update();
    drain(&receiver);

    ui.move_axes = true;
    ui.axes[3].set_pending(20);
    let outcomes = ui.update();
    assert_eq!(
        outcomes,
        vec![
            Flush::Sent(axis(0x00, 20)),
            Flush::Unchanged,
            Flush::Sent(axis(0x05, 20)),
            Flush::Sent(axis(0x06, 20)),
            Flush::Sent(axis(0x00, 0)),
            Flush::Unchanged,
            Flush::Sent(axis(0x05, -5)),
            Flush::Unchanged,
            Flush::Unchanged,
        ]
    );
    assert_eq!(drain(&receiver), events(&outcomes));
    let pending: Vec<i8> = ui.axes.iter().map(|control| control.pending()).collect();
    assert_eq!(pending, vec![0, 20, -5, 20]);
}

#[test]
fn flush_all_reports_each_control_at_its_index() {
    let (mut ui, receiver) = joystick();
    ui.axes[2].set_pending(1);
    let outcomes = flush_all(&mut ui.axes);
    assert_eq!(
        outcomes,
        vec![Flush::Unchanged, Flush::Unchanged, Flush::Sent(axis(0x05, 1)), Flush::Unchanged]
    );
    assert_eq!(flush_all(&mut ui.button), vec![Flush::Unchanged]);
    assert_eq!(drain(&receiver), vec![axis(0x05, 1)]);
}

#[test]
fn pulse_all_gives_the_pending_values_back() {
    let (mut ui, receiver) = joystick();
    ui.axes[0].set_pending(7);
    let outcomes = pulse_all(&mut ui.axes, -1);
    assert_eq!(
        outcomes,
        vec![
            Flush::Sent(axis(0x00, -1)),
            Flush::Sent(axis(0x01, -1)),
            Flush::Sent(axis(0x05, -1)),
            Flush::Sent(axis(0x06, -1)),
        ]
    );
    let pending: Vec<i8> = ui.axes.iter().map(|control| control.pending()).collect();
    assert_eq!(pending, vec![7, 0, 0, 0]);
    assert_eq!(drain(&receiver), events(&outcomes));
}

#[test]
fn update_after_the_worker_is_gone_reports_closed_and_goes_on() {
    let (mut ui, receiver) = joystick();
    drop(receiver);
    ui.axes[0].set_pending(3);
    ui.button[0].set_pending(true);
    let outcomes = ui.update();
    assert_eq!(
        outcomes,
        vec![Flush::Closed, Flush::Unchanged, Flush::Unchanged, Flush::Unchanged, Flush::Closed]
    );
    assert_eq!(events(&outcomes), vec![]);
    assert_eq!(ui.update(), outcomes);
}

#[test]
fn events_keeps_the_order_of_the_outcomes() {
    let outcomes = vec![
        Flush::Closed,
        Flush::Sent(axis(1, 1)),
        Flush::Unchanged,
        Flush::Sent(key(2, 0)),
        Flush::Sent(axis(1, 2)),
    ];
    assert_eq!(events(&outcomes), vec![axis(1, 1), key(2, 0), axis(1, 2)]);
    assert_eq!(events(&Vec::new()), vec![]);
}
