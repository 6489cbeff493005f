use input_manager::Button;
use input_manager::ButtonChange;
use input_manager::IButton;

#[test]
fn can_apply() {
    let mut button = Button::default();
    button.apply(ButtonChange(true));
    assert_eq!(button.pressed, true);
    button.apply(ButtonChange(false));
    assert_eq!(button.pressed, false);
}

#[test]
fn new_event_on_change() {
    let mut button = Button::default();
    button.apply(ButtonChange(true));
    assert_eq!(button.new_event, true);
    button.apply(ButtonChange(false));
    assert_eq!(button.new_event, true);
}

#[test]
fn new_event_only_on_change() {
    let mut button = Button::default();
    button.apply(ButtonChange(false));
    assert_eq!(button.new_event, false);
    button = Button { pressed: true, new_event: false };
    button.apply(ButtonChange(true));
    assert_eq!(button.new_event, false);
}

#[test]
fn new_event_cleared_by_tick() {
    let mut button = Button { pressed: true, new_event: true };
    button.tick();
    assert_eq!(button.new_event, false);
}

#[test]
fn edge_pulse_is_one_tick_wide() {
    let mut button = Button::default();
    button.apply(ButtonChange(true));
    button.apply(ButtonChange(true));
    assert_eq!(button.new_event, true);
    button.tick();
    assert_eq!(button.new_event, false);
    button.apply(ButtonChange(true));
    assert_eq!(button.new_event, false);
    button.apply(ButtonChange(false));
    assert_eq!(button.new_event, true);
}
