use evdev::EventType;
use virtual_joystick::event::ControllerValue;
use virtual_joystick::event::EventKind;

#[test]
fn axis_payload_is_the_value_itself() {
    assert_eq!((-100i8).controller_value(), -100);
    assert_eq!(0i8.controller_value(), 0);
    assert_eq!(100i8.controller_value(), 100);
}

#[test]
fn axis_payload_covers_the_whole_type() {
    assert_eq!(i8::MIN.controller_value(), -128);
    assert_eq!(i8::MAX.controller_value(), 127);
    let mut value = i8::MIN;
    loop {
        assert_eq!(value.controller_value(), i32::from(value));
        if value == i8::MAX {
            break;
        }
        value += 1;
    }
}

#[test]
fn button_payload_is_one_or_zero() {
    assert_eq!(true.controller_value(), 1);
    assert_eq!(false.controller_value(), 0);
}

#[test]
fn axes_are_absolute_and_buttons_are_keys() {
    assert_eq!(<i8 as ControllerValue>::controller_type(), EventKind::Absolute);
    assert_eq!(<bool as ControllerValue>::controller_type(), EventKind::Key);
}

#[test]
fn kinds_carry_the_type_numbers_of_the_device_library() {
    assert_eq!(EventKind::Absolute.raw(), EventType::ABSOLUTE.0);
    assert_eq!(EventKind::Key.raw(), EventType::KEY.0);
    assert_eq!(EventKind::Absolute.raw(), 3);
    assert_eq!(EventKind::Key.raw(), 1);
}
