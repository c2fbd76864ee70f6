use crubwm::config::keybinds::{Keybind, Keybinds};
use crubwm::config::Repr;
use crubwm::numbers::parse_bool;
use crubwm::text::to_lowercase;
use crubwm::wm::actions::Direction;
use crubwm::wm::bar::SegmentPosition;

#[test]
fn test_bool_parsing() {
    assert_eq!(parse_bool(&to_lowercase("FALSE")).is_ok(), true);
    assert_eq!(parse_bool(&to_lowercase("TruE")).is_ok(), true);
}

#[test]
fn check_position_ordering() {
    assert!(
        SegmentPosition::Left < SegmentPosition::Middle
            && SegmentPosition::Middle < SegmentPosition::Right
    );
}

#[test]
fn isize_u64() {
    let num: u64 = isize::MAX as u64;
    let num = num | 1 << 63;
    assert!(num == u64::MAX)
}

#[test]
fn test_keybind_parsing() {
    let keys = Keybind::parse_keys("<Mod-CR>".to_string());

    assert_eq!(keys.is_ok(), true);

    println!("{:#?}", keys.unwrap())
}

#[test]
fn test_repr() {
    let keybinds = Keybinds::default();

    println!("{}", keybinds.repr().unwrap())
}

#[test]
fn direction_repr() {
    let dir = Direction::Next;
    let str = dir.repr();

    assert_eq!(str.unwrap(), "next".to_string());
}
