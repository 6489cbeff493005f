use input_manager::AxisChange;
use input_manager::Binding;
use input_manager::ButtonChange;
use input_manager::Change;
use input_manager::Direction;
use input_manager::ListMap;
use input_manager::ManagerBuilder;

#[test]
fn it_works() {
    assert_eq!(2 + 2, 4);
}

#[test]
fn direction_unit_values() {
    assert_eq!(i64::from(Direction::Up), 1);
    assert_eq!(i64::from(Direction::Down), -1);
}

#[test]
fn builder_accumulates_bindings() {
    let manager = ManagerBuilder::<u32, u32, u32>::new()
        .add_axis_binding(1, 10)
        .add_button_binding(2, 11)
        .add_default_change(Change::Button(ButtonChange(false)), 11)
        .build();
    assert_eq!(manager.get_binding(10), Some(Binding::Axis(1)));
    assert_eq!(manager.get_binding(11), Some(Binding::Button(2)));
    assert_eq!(manager.get_default_change(11), Some(Change::Button(ButtonChange(false))));
    assert_eq!(manager.get_default_change(10), None);
    assert!(manager.get_axis(1).is_some());
    assert!(manager.get_button(2).is_some());
}

#[test]
fn list_map_inserts_and_replaces() {
    let mut map: ListMap<u32, i64> = ListMap::new();
    assert_eq!(map.len(), 0);
    assert!(!map.contains_key(&4));
    map.insert(4, -7);
    map.insert(9, 12);
    assert_eq!(map.len(), 2);
    assert_eq!(map.get(&4), Some(&-7));
    assert_eq!(map.get(&9), Some(&12));
    assert_eq!(map.get(&5), None);
    map.insert(4, 30);
    assert_eq!(map.len(), 2);
    assert_eq!(map.get(&4), Some(&30));
    assert_eq!(*map.entry_at(0), (4, 30));
    map.set_value_at(1, -1);
    assert_eq!(map.get(&9), Some(&-1));
}

#[test]
fn changes_convert_into_the_shared_kind() {
    let a: Change = AxisChange::Velocity(Direction::Down).into();
    assert_eq!(a, Change::Axis(AxisChange::Velocity(Direction::Down)));
    let b: Change = ButtonChange(true).into();
    assert_eq!(b, Change::Button(ButtonChange(true)));
}
