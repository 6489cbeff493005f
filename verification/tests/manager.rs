use input_manager::Axis;
use input_manager::AxisChange;
use input_manager::Binding;
use input_manager::Button;
use input_manager::ButtonChange;
use input_manager::Change;
use input_manager::Direction;
use input_manager::Manager;

#[derive(PartialEq, Eq, Hash, Debug, Clone, Copy)]
enum Axes {
    Vertical,
}

#[derive(PartialEq, Eq, Hash, Debug, Clone, Copy)]
enum Buttons {
    Fire,
    Block,
}

#[derive(PartialEq, Eq, Hash, Debug, Clone, Copy)]
enum Keyboard {
    A,
    B,
}

#[allow(dead_code)]
#[derive(PartialEq, Eq, Hash, Debug, Clone, Copy)]
enum GamePadInput {
    Left,
    Right,
}

#[derive(PartialEq, Eq, Hash, Debug, Clone, Copy)]
enum Input {
    Button(Keyboard),
    Gamepad(GamePadInput),
}

#[test]
fn can_add_axis() {
    let mut manager: Manager<Axes, Buttons, Input> = Manager::new();
    manager.add_axis_binding(Axes::Vertical, Input::Button(Keyboard::A));
    assert!(manager.get_binding(Input::Button(Keyboard::A)).is_some());
    assert_eq!(
        manager.get_binding(Input::Button(Keyboard::A)).unwrap(),
        Binding::Axis(Axes::Vertical)
    );
    assert_eq!(manager.get_axis(Axes::Vertical).unwrap(), &Axis::default());
}

#[test]
fn can_add_button() {
    let mut manager: Manager<Axes, Buttons, Input> = Manager::new();
    manager.add_button_binding(Buttons::Fire, Input::Button(Keyboard::A));
    assert_eq!(manager.get_states().len(), 1);
    assert_eq!(
        manager.get_binding(Input::Button(Keyboard::A)).unwrap(),
        Binding::Button(Buttons::Fire)
    );
    assert_eq!(manager.get_button(Buttons::Fire).unwrap(), &Button::default());
}

#[test]
fn can_update_axis_pos() {
    let mut manager: Manager<Axes, Buttons, Input> = Manager::new();
    manager.add_axis_binding(Axes::Vertical, Input::Button(Keyboard::A));
    let binding = manager.get_binding(Input::Button(Keyboard::A)).unwrap();
    manager.apply_change(&binding, AxisChange::Position(250).into());
    assert_eq!(manager.get_axis(Axes::Vertical).unwrap().position, 250);
}

#[test]
fn can_update_axis_vel() {
    let mut manager: Manager<Axes, Buttons, Input> = Manager::new();
    manager.add_axis_binding(Axes::Vertical, Input::Button(Keyboard::A));
    let binding = manager.get_binding(Input::Button(Keyboard::A)).unwrap();
    manager.apply_change(&binding, AxisChange::Velocity(Direction::Up).into());
    assert_eq!(manager.get_axis(Axes::Vertical).unwrap().velocity, Some(Direction::Up));
}

#[test]
fn can_toggle_button() {
    let mut manager: Manager<Axes, Buttons, Input> = Manager::new();
    manager.add_button_binding(Buttons::Fire, Input::Button(Keyboard::A));
    let binding = manager.get_binding(Input::Button(Keyboard::A)).unwrap();
    manager.apply_change(&binding, ButtonChange(true).into());
    assert_eq!(manager.get_button(Buttons::Fire).unwrap().pressed, true);
    let binding = manager.get_binding(Input::Button(Keyboard::A)).unwrap();
    manager.apply_change(&binding, ButtonChange(false).into());
    assert_eq!(manager.get_button(Buttons::Fire).unwrap().pressed, false);
}

#[test]
fn get_changed_buttons() {
    let mut manager: Manager<Axes, Buttons, Input> = Manager::new();
    manager.add_button_binding(Buttons::Fire, Input::Button(Keyboard::A));
    manager.add_button_binding(Buttons::Block, Input::Button(Keyboard::B));
    let binding = manager.get_binding(Input::Button(Keyboard::A)).unwrap();
    manager.apply_change(&binding, ButtonChange(true).into());
    assert_eq!(manager.get_changed_buttons().len(), 1);
    manager.tick(0);
    assert_eq!(manager.get_changed_buttons().len(), 0);
}

#[test]
fn changed_buttons_reports_the_right_key() {
    let mut manager: Manager<Axes, Buttons, Input> = Manager::new();
    manager.add_button_binding(Buttons::Fire, Input::Button(Keyboard::A));
    manager.add_button_binding(Buttons::Block, Input::Button(Keyboard::B));
    let binding = manager.get_binding(Input::Button(Keyboard::B)).unwrap();
    manager.apply_change(&binding, ButtonChange(true).into());
    let changed = manager.get_changed_buttons();
    assert_eq!(changed.len(), 1);
    assert_eq!(changed[0].0, Buttons::Block);
    assert_eq!(changed[0].1.pressed, true);
    assert_eq!(changed[0].1.new_event, true);
}

#[test]
fn rebinding_keeps_live_state() {
    let mut manager: Manager<Axes, Buttons, Input> = Manager::new();
    manager.add_axis_binding(Axes::Vertical, Input::Button(Keyboard::A));
    let binding = manager.get_binding(Input::Button(Keyboard::A)).unwrap();
    manager.apply_change(&binding, AxisChange::Position(250).into());
    manager.add_axis_binding(Axes::Vertical, Input::Button(Keyboard::B));
    assert_eq!(manager.get_axis(Axes::Vertical).unwrap().position, 250);
    assert_eq!(
        manager.get_binding(Input::Button(Keyboard::B)).unwrap(),
        Binding::Axis(Axes::Vertical)
    );
}

#[test]
fn button_pressed_only_on_the_press_tick() {
    let mut manager: Manager<Axes, Buttons, Input> = Manager::new();
    manager.add_button_binding(Buttons::Fire, Input::Button(Keyboard::A));
    let binding = manager.get_binding(Input::Button(Keyboard::A)).unwrap();
    manager.apply_change(&binding, ButtonChange(true).into());
    assert_eq!(manager.get_button_pressed(Buttons::Fire), true);
    manager.tick(16);
    assert_eq!(manager.get_button_pressed(Buttons::Fire), false);
    manager.tick(16);
    assert_eq!(manager.get_button_pressed(Buttons::Fire), false);
    let binding = manager.get_binding(Input::Button(Keyboard::A)).unwrap();
    manager.apply_change(&binding, ButtonChange(false).into());
    assert_eq!(manager.get_button_pressed(Buttons::Fire), false);
    let binding = manager.get_binding(Input::Button(Keyboard::A)).unwrap();
    manager.apply_change(&binding, ButtonChange(true).into());
    assert_eq!(manager.get_button_pressed(Buttons::Fire), true);
}

#[test]
fn manager_tick_advances_axes() {
    let mut manager: Manager<Axes, Buttons, Input> = Manager::new();
    manager.add_axis_binding(Axes::Vertical, Input::Button(Keyboard::A));
    let binding = manager.get_binding(Input::Button(Keyboard::A)).unwrap();
    manager.apply_change(&binding, AxisChange::Velocity(Direction::Up).into());
    manager.tick(100);
    assert_eq!(manager.get_axis(Axes::Vertical).unwrap().position, 100);
}

#[test]
fn unresolved_inputs_are_inert() {
    let mut manager: Manager<Axes, Buttons, Input> = Manager::new();
    assert_eq!(manager.get_binding(Input::Gamepad(GamePadInput::Left)), None);
    assert_eq!(manager.get_default_change(Input::Gamepad(GamePadInput::Left)), None);
    assert!(manager.get_axis(Axes::Vertical).is_none());
    assert!(manager.get_button(Buttons::Fire).is_none());
    assert_eq!(manager.get_button_pressed(Buttons::Fire), false);
    manager.apply_change(&Binding::Axis(Axes::Vertical), AxisChange::Position(250).into());
    assert!(manager.get_axis(Axes::Vertical).is_none());
}

#[test]
fn default_changes_are_stored_and_replaced() {
    let mut manager: Manager<Axes, Buttons, Input> = Manager::new();
    manager.add_default_change(ButtonChange(false).into(), Input::Button(Keyboard::A));
    assert_eq!(
        manager.get_default_change(Input::Button(Keyboard::A)),
        Some(Change::Button(ButtonChange(false)))
    );
    manager.add_default_change(AxisChange::Position(0).into(), Input::Button(Keyboard::A));
    assert_eq!(
        manager.get_default_change(Input::Button(Keyboard::A)),
        Some(Change::Axis(AxisChange::Position(0)))
    );
}
